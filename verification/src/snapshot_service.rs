//! Serving snapshot manager requests: framing, dispatch against the lease manager, the replies,
//! and the identity rules for the two processes that take part.
//!
//! The broker reads and writes the pipe, opens processes and duplicates handles; what to answer,
//! and what to do next, is decided here.

use crate::platform;
use crate::platform::Platform;
use crate::snapshot_lease;
use crate::snapshot_lease::{LeaseError, SnapshotLeaseManager, VssError, VssProvider};
use crate::snapshot_manager;
use crate::snapshot_manager::codec;
use crate::snapshot_manager::{
    CreateSnapshotLeaseResult, DuplicateSnapshotHandle, SnapshotLeaseState, SnapshotLeaseStatus,
    SnapshotManagerErrorCode, SnapshotManagerRequest, SnapshotManagerResponse,
};
use crate::text;
use crate::text::{cat2, cat4, same, show_u64};
use vstd::prelude::*;

verus! {

/// Maximum accepted request payload, checked before the payload is read.
pub const MAX_REQUEST_BYTES: u32 = 64 * 1024;

// ---- accepting connections ----

/// How many milliseconds pass before the pipe is tried again.
pub const RETRY_MILLIS: u64 = 100;

/// How many seconds pass between two sweeps of the leases while nothing is asked for.
pub const SWEEP_INTERVAL_SECONDS: u64 = 30;

/// Who may connect to the pipe: every authenticated user, at whatever integrity; who it is, is looked
/// at afterwards.
pub const PIPE_SECURITY: &'static str = "D:(A;;GRGW;;;AU)S:(ML;;NW;;;LW)";

/// The flag of a pipe that is read and written.
pub const PIPE_ACCESS_DUPLEX: u32 = 3;

/// The flag of a pipe of which there must be no other instance.
pub const FILE_FLAG_FIRST_PIPE_INSTANCE: u32 = 0x0008_0000;

/// How many bytes each buffer of the pipe has.
pub const PIPE_BUFFER_BYTES: u32 = 8192;

/// The flags that an instance of the pipe is created with.
pub fn pipe_open_mode(first: bool) -> (res: u32)
    ensures
        res == if first {
            (PIPE_ACCESS_DUPLEX | FILE_FLAG_FIRST_PIPE_INSTANCE)
        } else {
            PIPE_ACCESS_DUPLEX
        },
{
    if first {
        PIPE_ACCESS_DUPLEX | FILE_FLAG_FIRST_PIPE_INSTANCE
    } else {
        PIPE_ACCESS_DUPLEX
    }
}

/// What the accept loop learned.
#[derive(Debug, Clone, Copy, PartialEq, Eq, Structural)]
pub enum AcceptEvent {
    /// A turn begins; the service may have been asked to stop.
    Turn {
        /// Whether it has been.
        stop: bool,
    },
    /// An instance of the pipe was created, or not.
    Created {
        /// Whether it was.
        ok: bool,
    },
    /// A client connected, or waiting for one failed.
    Connected {
        /// Whether one connected.
        ok: bool,
        /// Whether the service has been asked to stop meanwhile.
        stop: bool,
    },
}

/// What the accept loop does next.
#[derive(Debug, Clone, Copy, PartialEq, Eq, Structural)]
pub enum AcceptAction {
    /// End.
    End,
    /// Create an instance of the pipe, and be the first to do so or not.
    CreatePipe {
        /// Whether there must be no other instance.
        first: bool,
    },
    /// Wait [`RETRY_MILLIS`], and begin another turn.
    Retry,
    /// Wait for a client.
    WaitForClient,
    /// Close the instance, and begin another turn.
    DropInstance,
    /// Close the instance, and end.
    DropAndEnd,
    /// Serve the client on a thread of its own, and begin another turn.
    Serve,
}

/// Whether the next instance must be the first, and what is done, after an event.
pub open spec fn accepted(first: bool, event: AcceptEvent) -> (bool, AcceptAction) {
    match event {
        AcceptEvent::Turn { stop } => (
            first,
            if stop {
                AcceptAction::End
            } else {
                AcceptAction::CreatePipe { first }
            },
        ),
        AcceptEvent::Created { ok } => if ok {
            (false, AcceptAction::WaitForClient)
        } else {
            (first, AcceptAction::Retry)
        },
        AcceptEvent::Connected { ok, stop } => (
            first,
            if !ok {
                AcceptAction::DropInstance
            } else if stop {
                AcceptAction::DropAndEnd
            } else {
                AcceptAction::Serve
            },
        ),
    }
}

/// Whether the next instance must be the first, and what is done, after an event.
pub fn accept(first: bool, event: AcceptEvent) -> (res: (bool, AcceptAction))
    ensures
        res == accepted(first, event),
{
    match event {
        AcceptEvent::Turn { stop } => if stop {
            (first, AcceptAction::End)
        } else {
            (first, AcceptAction::CreatePipe { first })
        },
        AcceptEvent::Created { ok } => if ok {
            (false, AcceptAction::WaitForClient)
        } else {
            (first, AcceptAction::Retry)
        },
        AcceptEvent::Connected { ok, stop } => if !ok {
            (first, AcceptAction::DropInstance)
        } else if stop {
            (first, AcceptAction::DropAndEnd)
        } else {
            (first, AcceptAction::Serve)
        },
    }
}

/// Whether the next instance must be the first, after events.
pub open spec fn first_after(events: Seq<AcceptEvent>) -> bool
    decreases events.len(),
{
    if events.len() == 0 {
        true
    } else {
        accepted(first_after(events.drop_last()), events.last()).0
    }
}

/// The accept loop insists on being the first until an instance was created, and never after.
pub proof fn law_only_the_first_instance_is_first(events: Seq<AcceptEvent>)
    ensures
        first_after(events) == !events.contains(AcceptEvent::Created { ok: true }),
    decreases events.len(),
{
    let created = AcceptEvent::Created { ok: true };
    if events.len() > 0 {
        let before = events.drop_last();
        law_only_the_first_instance_is_first(before);
        if before.contains(created) {
            let k = choose|k: int| 0 <= k < before.len() && before[k] == created;
            assert(events[k] == created);
        }
        if events.last() == created {
            assert(events[events.len() - 1] == created);
        } else if events.contains(created) {
            let k = choose|k: int| 0 <= k < events.len() && events[k] == created;
            assert(before[k] == created);
        }
    }
}

/// Once a stop was asked for, no client is served: the turn ends, or the client that just connected
/// is dropped.
pub proof fn law_no_client_is_served_after_a_stop(first: bool, ok: bool)
    ensures
        accepted(first, AcceptEvent::Turn { stop: true }).1 == AcceptAction::End,
        accepted(first, AcceptEvent::Connected { ok, stop: true }).1 != AcceptAction::Serve,
{
}

/// The time in Unix milliseconds, by how much of it has passed since the epoch: at most `i64::MAX`,
/// and zero where the clock stands before the epoch.
pub fn unix_ms(since_epoch: Option<u128>) -> (res: i64)
    ensures
        res == match since_epoch {
            None => 0,
            Some(millis) => if millis > i64::MAX {
                i64::MAX as int
            } else {
                millis as int
            },
        },
{
    match since_epoch {
        None => 0,
        Some(millis) => if millis > i64::MAX as u128 {
            i64::MAX
        } else {
            millis as i64
        },
    }
}

// ---- framing ----

/// The length that the four bytes before a request declare, or why the request is refused.
pub fn request_length(prefix: [u8; 4]) -> (res: Result<u32, String>)
    ensures
        match res {
            Ok(length) => length == codec::le_value(prefix@) && length <= MAX_REQUEST_BYTES,
            Err(message) => {
                &&& codec::le_value(prefix@) > MAX_REQUEST_BYTES
                &&& message@ == "request length "@ + text::decimal(codec::le_value(prefix@))
                    + " exceeds maximum "@ + text::decimal(MAX_REQUEST_BYTES as nat)
            },
        },
{
    let length: u32 = codec::u32_from_le(prefix);
    if length > MAX_REQUEST_BYTES {
        return Err(
            cat4(
                "request length ",
                &show_u64(length as u64),
                " exceeds maximum ",
                &show_u64(MAX_REQUEST_BYTES as u64),
            ),
        );
    }
    Ok(length)
}

/// Why a read is refused that brought fewer bytes than were asked for.
pub fn short_read(got: u32, expected: usize) -> (res: Option<String>)
    ensures
        match res {
            None => got >= expected,
            Some(message) => got < expected && message@ == "short read: got "@ + text::decimal(
                got as nat,
            ) + ", expected "@ + text::decimal(expected as nat),
        },
{
    if (got as u64) < expected as u64 {
        Some(
            cat4(
                "short read: got ",
                &show_u64(got as u64),
                ", expected ",
                &show_u64(expected as u64),
            ),
        )
    } else {
        None
    }
}

/// The length that a frame declares for a payload: its own, at most `u32::MAX`.
pub open spec fn declared_length(payload: Seq<u8>) -> nat {
    if payload.len() > u32::MAX {
        u32::MAX as nat
    } else {
        payload.len()
    }
}

/// A payload behind its little-endian `u32` length.
pub open spec fn framed(payload: Seq<u8>) -> Seq<u8> {
    codec::le_bytes(declared_length(payload), 4) + payload
}

/// Frame a payload for the pipe.
pub fn frame_message(payload: &[u8]) -> (out: Vec<u8>)
    ensures
        out@ == framed(payload@),
{
    let length: u32 = if payload.len() as u64 > u32::MAX as u64 {
        u32::MAX
    } else {
        payload.len() as u32
    };
    let mut out: Vec<u8> = Vec::new();
    codec::write_u32_le(&mut out, length);
    codec::write_all(&mut out, payload);
    assert(out@ =~= framed(payload@));
    out
}

/// A reader of a framed payload learns its length from the first four bytes and finds the payload
/// behind them.
pub proof fn law_framed_payload_is_found(payload: Seq<u8>)
    requires
        payload.len() <= u32::MAX,
    ensures
        framed(payload).len() == 4 + payload.len(),
        codec::le_value(framed(payload).take(4)) == payload.len(),
        framed(payload).skip(4) == payload,
{
    codec::lemma_le_bytes_len(payload.len(), 4);
    codec::lemma_get_u32(payload.len() as u32, payload);
    assert(framed(payload).skip(4) =~= payload);
}

// ---- replies ----

/// The error code of a failed lease operation.
pub open spec fn error_code(err: LeaseError) -> SnapshotManagerErrorCode {
    match err {
        LeaseError::NotFound => SnapshotManagerErrorCode::LeaseNotFound,
        LeaseError::NotActive => SnapshotManagerErrorCode::LeaseNotActive,
        LeaseError::Vss(VssError::InvalidVolume(_)) =>
            SnapshotManagerErrorCode::VolumeValidationFailed,
        LeaseError::Vss(VssError::CreateFailed { .. }) =>
            SnapshotManagerErrorCode::SnapshotCreateFailed,
        LeaseError::Vss(VssError::DeleteFailed(_)) => SnapshotManagerErrorCode::InternalError,
    }
}

/// The `HRESULT` that a failed lease operation carries: that of a failed creation, if it had one.
pub open spec fn error_hresult(err: LeaseError) -> Option<i32> {
    match err {
        LeaseError::Vss(VssError::CreateFailed { hresult, message: _ }) => hresult,
        _ => None,
    }
}

/// The reply to a failed lease operation.
pub open spec fn error_reply(err: LeaseError) -> snapshot_manager::ResponseView {
    snapshot_manager::ResponseView::Error(error_code(err), error_hresult(err), err.text())
}

/// Map a lease error to the wire error response.
pub fn lease_error_response(err: &LeaseError) -> (res: SnapshotManagerResponse)
    ensures
        res@ == error_reply(*err),
{
    let code = match err {
        LeaseError::NotFound => SnapshotManagerErrorCode::LeaseNotFound,
        LeaseError::NotActive => SnapshotManagerErrorCode::LeaseNotActive,
        LeaseError::Vss(VssError::InvalidVolume(_)) =>
            SnapshotManagerErrorCode::VolumeValidationFailed,
        LeaseError::Vss(VssError::CreateFailed { .. }) =>
            SnapshotManagerErrorCode::SnapshotCreateFailed,
        LeaseError::Vss(VssError::DeleteFailed(_)) => SnapshotManagerErrorCode::InternalError,
    };
    let hresult: Option<i32> = match err {
        LeaseError::Vss(VssError::CreateFailed { hresult, message: _ }) => *hresult,
        _ => None,
    };
    SnapshotManagerResponse::Error { code, hresult, message: err.message() }
}

fn error_response(code: SnapshotManagerErrorCode, message: String) -> (res: SnapshotManagerResponse)
    ensures
        res@ == snapshot_manager::ResponseView::Error(code, None, message@),
{
    SnapshotManagerResponse::Error { code, hresult: None, message }
}

/// The reply to bytes that are not a request.
pub open spec fn malformed_reply(
    err: snapshot_manager::SnapshotProtocolError,
) -> snapshot_manager::ResponseView {
    snapshot_manager::ResponseView::Error(
        SnapshotManagerErrorCode::InternalError,
        None,
        "malformed request: "@ + err.text(),
    )
}

/// What to do about a request.
#[derive(Debug)]
pub enum Dispatch {
    /// Send this reply.
    Reply(SnapshotManagerResponse),
    /// Open the named process; if it is the snapshot reader, duplicate a read-only handle of the
    /// device into it; then reply.
    Duplicate {
        /// Device path of the leased snapshot.
        device_identity: String,
        /// Process that the handle goes to, once it has been verified.
        reader_process_id: u32,
    },
}

/// The status that a query reports, given the lease that was found.
pub open spec fn status_reply(
    lease_id: u64,
    found: Option<snapshot_lease::LeaseView>,
) -> snapshot_manager::ResponseView {
    snapshot_manager::ResponseView::Status(
        match found {
            None => snapshot_manager::messages::SnapshotLeaseStatusView {
                snapshot_lease_id: lease_id,
                state: SnapshotLeaseState::Unknown,
                snapshot_id: Seq::empty(),
                created_at_unix_ms: 0,
                expires_at_unix_ms: 0,
            },
            Some(lease) => snapshot_manager::messages::SnapshotLeaseStatusView {
                snapshot_lease_id: lease_id,
                state: lease.state.wire(),
                snapshot_id: lease.snapshot_id,
                created_at_unix_ms: lease.created_at_unix_ms,
                expires_at_unix_ms: lease.expires_at_unix_ms,
            },
        },
    )
}

/// What dispatching a request at `now` comes to, where `before` and `after` are what the manager
/// holds around it.  The backend decides whether a creation, or a release of an active lease,
/// succeeds: its answer stands in the last of its calls.
pub open spec fn dispatched(
    request: snapshot_manager::RequestView,
    now: i64,
    before: snapshot_lease::ManagerView,
    after: snapshot_lease::ManagerView,
    outcome: Dispatch,
) -> bool {
    let swept = snapshot_lease::swept_table(before.table, now);
    let due = snapshot_lease::due_snapshots(before.table.leases, now);
    match request {
        snapshot_manager::RequestView::Create(body) => {
            &&& after.history.len() > 0
            &&& snapshot_lease::asked_to_delete(before.history, after.history.drop_last(), due)
            &&& after.history.last() matches snapshot_lease::VssCall::Create(volume, root, answer)
            &&& volume == body.source_volume_identity
            &&& root == body.requested_root
            &&& outcome matches Dispatch::Reply(reply)
            &&& match answer {
                Ok(handle) => {
                    &&& after.table == snapshot_lease::with_created(
                        swept,
                        handle.snapshot_id@,
                        handle.device_identity@,
                        body.maximum_lifetime_secs,
                        now,
                    )
                    &&& reply@ == snapshot_manager::ResponseView::Created(
                        snapshot_manager::messages::CreateSnapshotLeaseResultView {
                            snapshot_lease_id: before.table.next_lease_id,
                            snapshot_id: handle.snapshot_id@,
                            snapshot_device_identity: handle.device_identity@,
                            snapshot_created_at_unix_ms: now,
                            expires_at_unix_ms: snapshot_lease::expiry(
                                body.maximum_lifetime_secs,
                                now,
                            ) as i64,
                        },
                    )
                },
                Err(err) => after.table == swept && reply@ == error_reply(LeaseError::Vss(err)),
            }
        },
        snapshot_manager::RequestView::Renew(body) => {
            &&& snapshot_lease::asked_to_delete(before.history, after.history, due)
            &&& after.table == snapshot_lease::renewed(
                swept,
                body.snapshot_lease_id,
                body.requested_expiry_unix_ms,
            )
            &&& outcome matches Dispatch::Reply(reply) && reply@
                == match snapshot_lease::renew_answer(
                swept,
                body.snapshot_lease_id,
                body.requested_expiry_unix_ms,
            ) {
                Ok(expires) => snapshot_manager::ResponseView::Renewed(expires),
                Err(err) => error_reply(err),
            }
        },
        snapshot_manager::RequestView::Release(lease_id) => {
            &&& outcome matches Dispatch::Reply(reply)
            &&& match snapshot_lease::lookup(before.table.leases, lease_id) {
                None => {
                    &&& after == before
                    &&& reply@ == error_reply(LeaseError::NotFound)
                },
                Some(lease) => if lease.state == snapshot_lease::RecordState::Active {
                    &&& after.history.len() > 0
                    &&& after.history.drop_last() == before.history
                    &&& after.history.last() matches snapshot_lease::VssCall::Delete(id, answer)
                    &&& id == lease.snapshot_id
                    &&& match answer {
                        Ok(_) => {
                            &&& after.table == snapshot_lease::with_released(before.table, lease_id)
                            &&& reply@ == snapshot_manager::ResponseView::Released
                        },
                        Err(err) => {
                            &&& after.table == before.table
                            &&& reply@ == error_reply(LeaseError::Vss(err))
                        },
                    }
                } else {
                    &&& after == before
                    &&& reply@ == snapshot_manager::ResponseView::Released
                },
            }
        },
        snapshot_manager::RequestView::Query(lease_id) => {
            &&& snapshot_lease::asked_to_delete(before.history, after.history, due)
            &&& after.table == swept
            &&& outcome matches Dispatch::Reply(reply) && reply@ == status_reply(
                lease_id,
                snapshot_lease::lookup(swept.leases, lease_id),
            )
        },
        snapshot_manager::RequestView::Duplicate(body) => {
            &&& snapshot_lease::asked_to_delete(before.history, after.history, due)
            &&& after.table == swept
            &&& match snapshot_lease::lookup(swept.leases, body.snapshot_lease_id) {
                Some(lease) => if lease.state == snapshot_lease::RecordState::Active {
                    outcome matches Dispatch::Duplicate { device_identity, reader_process_id }
                        && device_identity@ == lease.device_identity && reader_process_id
                        == body.approved_reader_process_id
                } else {
                    outcome matches Dispatch::Reply(reply) && reply@ == error_reply(
                        LeaseError::NotActive,
                    )
                },
                None => outcome matches Dispatch::Reply(reply) && reply@ == error_reply(
                    LeaseError::NotFound,
                ),
            }
        },
    }
}

/// Begin a handle duplication: it needs an active lease.  A lease that has ended is told from one
/// that was never known.
fn begin_duplicate<P: VssProvider>(
    request: &DuplicateSnapshotHandle,
    manager: &mut SnapshotLeaseManager<P>,
    now_unix_ms: i64,
) -> (outcome: Dispatch)
    requires
        old(manager).wf(),
    ensures
        final(manager).wf(),
        dispatched(
            snapshot_manager::RequestView::Duplicate(*request),
            now_unix_ms,
            old(manager).state(),
            final(manager).state(),
            outcome,
        ),
{
    match manager.device_identity_if_active(request.snapshot_lease_id, now_unix_ms) {
        Some(device_identity) => Dispatch::Duplicate {
            device_identity,
            reader_process_id: request.approved_reader_process_id,
        },
        None => {
            let err = match manager.table.status(request.snapshot_lease_id) {
                Some(_) => LeaseError::NotActive,
                None => LeaseError::NotFound,
            };
            Dispatch::Reply(lease_error_response(&err))
        },
    }
}

fn query_status<P: VssProvider>(
    lease_id: u64,
    manager: &mut SnapshotLeaseManager<P>,
    now_unix_ms: i64,
) -> (outcome: Dispatch)
    requires
        old(manager).wf(),
    ensures
        final(manager).wf(),
        dispatched(
            snapshot_manager::RequestView::Query(lease_id),
            now_unix_ms,
            old(manager).state(),
            final(manager).state(),
            outcome,
        ),
{
    let status = match manager.query_lease(lease_id, now_unix_ms) {
        None => {
            let status = SnapshotLeaseStatus {
                snapshot_lease_id: lease_id,
                state: SnapshotLeaseState::Unknown,
                snapshot_id: Vec::new(),
                created_at_unix_ms: 0,
                expires_at_unix_ms: 0,
            };
            assert(status.snapshot_id@ =~= Seq::empty());
            status
        },
        Some(found) => SnapshotLeaseStatus {
            snapshot_lease_id: lease_id,
            state: found.state,
            snapshot_id: found.snapshot_id,
            created_at_unix_ms: found.created_at_unix_ms,
            expires_at_unix_ms: found.expires_at_unix_ms,
        },
    };
    Dispatch::Reply(SnapshotManagerResponse::Status(status))
}

/// Dispatch one decoded request against `manager`.
pub fn dispatch_request<P: VssProvider>(
    request: &SnapshotManagerRequest,
    manager: &mut SnapshotLeaseManager<P>,
    now_unix_ms: i64,
) -> (outcome: Dispatch)
    requires
        old(manager).wf(),
    ensures
        final(manager).wf(),
        dispatched(
            request@,
            now_unix_ms,
            old(manager).state(),
            final(manager).state(),
            outcome,
        ),
{
    match request {
        SnapshotManagerRequest::Create(body) => match manager.create_lease(
            &body.source_volume_identity,
            &body.requested_root,
            body.maximum_lifetime_secs,
            now_unix_ms,
        ) {
            Ok(created) => Dispatch::Reply(
                SnapshotManagerResponse::Created(
                    CreateSnapshotLeaseResult {
                        snapshot_lease_id: created.lease_id,
                        snapshot_id: created.snapshot_id,
                        snapshot_device_identity: created.device_identity,
                        snapshot_created_at_unix_ms: created.created_at_unix_ms,
                        expires_at_unix_ms: created.expires_at_unix_ms,
                    },
                ),
            ),
            Err(err) => Dispatch::Reply(lease_error_response(&err)),
        },
        SnapshotManagerRequest::Duplicate(body) => begin_duplicate(body, manager, now_unix_ms),
        SnapshotManagerRequest::Renew(body) => match manager.renew_lease(
            body.snapshot_lease_id,
            body.requested_expiry_unix_ms,
            now_unix_ms,
        ) {
            Ok(new_expires_at_unix_ms) => Dispatch::Reply(
                SnapshotManagerResponse::Renewed { new_expires_at_unix_ms },
            ),
            Err(err) => Dispatch::Reply(lease_error_response(&err)),
        },
        SnapshotManagerRequest::Release(body) => match manager.release_lease(
            body.snapshot_lease_id,
        ) {
            Ok(()) => Dispatch::Reply(SnapshotManagerResponse::Released),
            Err(err) => Dispatch::Reply(lease_error_response(&err)),
        },
        SnapshotManagerRequest::Query(body) => query_status(
            body.snapshot_lease_id,
            manager,
            now_unix_ms,
        ),
    }
}

/// Decode one request payload and dispatch it.  Bytes that are not a request are answered with an
/// error and change nothing.
pub fn handle_request<P: VssProvider>(
    payload: &[u8],
    manager: &mut SnapshotLeaseManager<P>,
    now_unix_ms: i64,
) -> (outcome: Dispatch)
    requires
        old(manager).wf(),
    ensures
        final(manager).wf(),
        match snapshot_manager::decoded_request(payload@) {
            Ok(request) => dispatched(
                request,
                now_unix_ms,
                old(manager).state(),
                final(manager).state(),
                outcome,
            ),
            Err(err) => {
                &&& *final(manager) == *old(manager)
                &&& outcome matches Dispatch::Reply(reply) && reply@ == malformed_reply(err)
            },
        },
{
    match SnapshotManagerRequest::decode(payload) {
        Ok(request) => dispatch_request(&request, manager, now_unix_ms),
        Err(err) => Dispatch::Reply(
            error_response(
                SnapshotManagerErrorCode::InternalError,
                cat2("malformed request: ", &err.message()),
            ),
        ),
    }
}

// ---- handing a handle to the reader ----

/// What the broker found out about the process that a handle should go to.
#[derive(Debug)]
pub enum ReaderCheck {
    /// The process could not be opened.
    NotOpened,
    /// The process was opened.
    Opened {
        /// Path of its executable, if it could be read.
        image: Option<String>,
        /// Whether that file carries the product's signature.
        signed: bool,
    },
}

/// Whether the process is the snapshot reader.
pub open spec fn reader_accepted(check: ReaderCheck) -> bool {
    match check {
        ReaderCheck::NotOpened => false,
        ReaderCheck::Opened { image, signed } => match image {
            None => false,
            Some(path) => is_reader_name(platform::file_name(Platform::Windows, path@)) && signed,
        },
    }
}

/// The reply that refuses a reader, or `None` if the handle may be duplicated into it.
pub fn refuse_reader(check: &ReaderCheck) -> (res: Option<SnapshotManagerResponse>)
    ensures
        reader_accepted(*check) == res is None,
        res is Some ==> res->Some_0@ == snapshot_manager::ResponseView::Error(
            SnapshotManagerErrorCode::ReaderIdentityRejected,
            None,
            if *check is NotOpened {
                "could not open the approved reader process"@
            } else {
                "reader process failed identity verification"@
            },
        ),
{
    match check {
        ReaderCheck::NotOpened => Some(
            error_response(
                SnapshotManagerErrorCode::ReaderIdentityRejected,
                "could not open the approved reader process".to_owned(),
            ),
        ),
        ReaderCheck::Opened { image, signed } => {
            let accepted = match image {
                Some(path) => verify_reader_identity(Some(path.as_str()), *signed),
                None => verify_reader_identity(None, *signed),
            };
            if accepted {
                None
            } else {
                Some(
                    error_response(
                        SnapshotManagerErrorCode::ReaderIdentityRejected,
                        "reader process failed identity verification".to_owned(),
                    ),
                )
            }
        },
    }
}

/// The reply after the handle was duplicated, or could not be for the given reason.
pub fn duplicate_reply(outcome: Result<(), String>) -> (res: SnapshotManagerResponse)
    ensures
        res@ == match outcome {
            Ok(_) => snapshot_manager::ResponseView::Duplicated,
            Err(reason) => snapshot_manager::ResponseView::Error(
                SnapshotManagerErrorCode::InternalError,
                None,
                reason@,
            ),
        },
{
    match outcome {
        Ok(()) => SnapshotManagerResponse::Duplicated,
        Err(reason) => error_response(SnapshotManagerErrorCode::InternalError, reason),
    }
}

// ---- identity rules ----

/// The file names of the content coordinator.
pub open spec fn is_coordinator_name(name: Seq<char>) -> bool {
    name == "uffs-content"@ || name == "uffs-content.exe"@
}

/// The file names of the snapshot reader.
pub open spec fn is_reader_name(name: Seq<char>) -> bool {
    name == "uffs-content-reader"@ || name == "uffs-content-reader.exe"@
}

/// Whether the file name of an executable is that of the content coordinator, exactly: a match by
/// prefix would let the reader pass for the coordinator.
pub fn is_uffs_content_image(exe_path: &str) -> (res: bool)
    ensures
        res == is_coordinator_name(platform::file_name(Platform::Windows, exe_path@)),
{
    let name = platform::file_name_of(Platform::Windows, exe_path);
    same(&name, "uffs-content") || same(&name, "uffs-content.exe")
}

/// Whether the file name of an executable is that of the snapshot reader, exactly.
pub fn is_uffs_content_reader_image(exe_path: &str) -> (res: bool)
    ensures
        res == is_reader_name(platform::file_name(Platform::Windows, exe_path@)),
{
    let name = platform::file_name_of(Platform::Windows, exe_path);
    same(&name, "uffs-content-reader") || same(&name, "uffs-content-reader.exe")
}

/// Whether the process behind a connection is the content coordinator: its executable is known, has
/// the right name and is signed.
pub fn verify_coordinator_identity(exe_path: Option<&str>, signed: bool) -> (res: bool)
    ensures
        res == match exe_path {
            Some(path) => is_coordinator_name(platform::file_name(Platform::Windows, path@))
                && signed,
            None => false,
        },
{
    match exe_path {
        Some(path) => is_uffs_content_image(path) && signed,
        None => false,
    }
}

/// What the broker found out about the process behind a connection.
#[derive(Debug)]
pub enum ClientCheck {
    /// Its id could not be read.
    NoPid,
    /// It could not be opened.
    NotOpened,
    /// It was opened.
    Opened {
        /// Path of its executable, if it could be read.
        image: Option<String>,
        /// Whether that file carries the product's signature.
        signed: bool,
    },
}

/// Whether the process behind a connection is the content coordinator.
pub open spec fn client_accepted(check: ClientCheck) -> bool {
    match check {
        ClientCheck::Opened { image, signed } => match image {
            Some(path) => is_coordinator_name(platform::file_name(Platform::Windows, path@))
                && signed,
            None => false,
        },
        _ => false,
    }
}

/// Why a connection is refused, if it is: nobody but the content coordinator is served.
pub fn refuse_client(check: &ClientCheck) -> (res: Option<&'static str>)
    ensures
        client_accepted(*check) == res is None,
        res is Some ==> res->Some_0@ == match *check {
            ClientCheck::NoPid =>
                "snapshot pipe: could not determine client PID \u{2014} rejecting"@,
            ClientCheck::NotOpened =>
                "snapshot pipe: could not open client process \u{2014} rejecting"@,
            ClientCheck::Opened { .. } =>
                "snapshot pipe: rejected client \u{2014} not uffs-content"@,
        },
{
    match check {
        ClientCheck::NoPid => Some(
            "snapshot pipe: could not determine client PID \u{2014} rejecting",
        ),
        ClientCheck::NotOpened => Some(
            "snapshot pipe: could not open client process \u{2014} rejecting",
        ),
        ClientCheck::Opened { image, signed } => {
            let accepted = match image {
                Some(path) => verify_coordinator_identity(Some(path.as_str()), *signed),
                None => verify_coordinator_identity(None, *signed),
            };
            if accepted {
                None
            } else {
                Some("snapshot pipe: rejected client \u{2014} not uffs-content")
            }
        },
    }
}

/// Whether a process is the snapshot reader: its executable is known, has the right name and is
/// signed.
pub fn verify_reader_identity(exe_path: Option<&str>, signed: bool) -> (res: bool)
    ensures
        res == match exe_path {
            Some(path) => is_reader_name(platform::file_name(Platform::Windows, path@)) && signed,
            None => false,
        },
{
    match exe_path {
        Some(path) => is_uffs_content_reader_image(path) && signed,
        None => false,
    }
}

/// No executable passes for both the coordinator and the reader.
pub proof fn law_coordinator_and_reader_are_disjoint(name: Seq<char>)
    ensures
        !(is_coordinator_name(name) && is_reader_name(name)),
{
    reveal_strlit("uffs-content");
    reveal_strlit("uffs-content.exe");
    reveal_strlit("uffs-content-reader");
    reveal_strlit("uffs-content-reader.exe");
    assert("uffs-content"@.len() == 12 && "uffs-content.exe"@.len() == 16);
    assert("uffs-content-reader"@.len() == 19 && "uffs-content-reader.exe"@.len() == 23);
}

/// Each failure is answered with its own code; the result of the system goes with a failed creation
/// alone.
pub proof fn law_each_failure_has_its_code(err: &LeaseError, res: SnapshotManagerResponse)
    requires
        call_ensures(lease_error_response, (err,), res),
    ensures
        res matches SnapshotManagerResponse::Error { code, hresult, message } && message@
            == err.text() && match *err {
            LeaseError::NotFound => code == SnapshotManagerErrorCode::LeaseNotFound && hresult
                == None::<i32>,
            LeaseError::NotActive => code == SnapshotManagerErrorCode::LeaseNotActive && hresult
                == None::<i32>,
            LeaseError::Vss(VssError::InvalidVolume(_)) => code
                == SnapshotManagerErrorCode::VolumeValidationFailed && hresult == None::<i32>,
            LeaseError::Vss(VssError::CreateFailed { hresult: given, message: _ }) => code
                == SnapshotManagerErrorCode::SnapshotCreateFailed && hresult == given,
            LeaseError::Vss(VssError::DeleteFailed(_)) => code
                == SnapshotManagerErrorCode::InternalError && hresult == None::<i32>,
        },
{
    assert(res@ is Error);
}

/// A device is handed out exactly for a lease that is active and has not run out, and it is that of
/// the lease, for the process that was named.
pub proof fn law_a_device_needs_a_living_lease(
    body: DuplicateSnapshotHandle,
    now: i64,
    before: snapshot_lease::ManagerView,
    after: snapshot_lease::ManagerView,
    outcome: Dispatch,
    i: int,
)
    requires
        dispatched(
            snapshot_manager::RequestView::Duplicate(body),
            now,
            before,
            after,
            outcome,
        ),
        snapshot_lease::distinct(before.table.leases),
        0 <= i < before.table.leases.len(),
        before.table.leases[i].lease_id == body.snapshot_lease_id,
    ensures
        outcome is Duplicate <==> before.table.leases[i].state
            == snapshot_lease::RecordState::Active && now
            < before.table.leases[i].expires_at_unix_ms,
        outcome matches Dispatch::Duplicate { device_identity, reader_process_id }
            ==> device_identity@ == before.table.leases[i].device_identity && reader_process_id
            == body.approved_reader_process_id,
        outcome matches Dispatch::Reply(reply) ==> (reply matches SnapshotManagerResponse::Error {
            code,
            hresult,
            message,
        } && code == SnapshotManagerErrorCode::LeaseNotActive),
{
    snapshot_lease::lemma_lookup_at(before.table.leases, i);
    snapshot_lease::law_sweep_of_one_lease(before.table.leases, body.snapshot_lease_id, now);
    if let Dispatch::Reply(reply) = outcome {
        assert(reply@ is Error);
    }
}

/// A query is answered with what the table holds of the lease: one that was active and has run out is
/// expired, and of every other the state is told.
pub proof fn law_a_query_tells_of_its_lease(
    lease_id: u64,
    now: i64,
    before: snapshot_lease::ManagerView,
    after: snapshot_lease::ManagerView,
    outcome: Dispatch,
    i: int,
)
    requires
        dispatched(snapshot_manager::RequestView::Query(lease_id), now, before, after, outcome),
        snapshot_lease::distinct(before.table.leases),
        0 <= i < before.table.leases.len(),
        before.table.leases[i].lease_id == lease_id,
    ensures
        ({
            let lease = before.table.leases[i];
            &&& outcome matches Dispatch::Reply(SnapshotManagerResponse::Status(status))
            &&& status.snapshot_lease_id == lease_id
            &&& status.snapshot_id@ == lease.snapshot_id
            &&& status.created_at_unix_ms == lease.created_at_unix_ms
            &&& status.expires_at_unix_ms == lease.expires_at_unix_ms
            &&& status.state == SnapshotLeaseState::Active <==> lease.state
                == snapshot_lease::RecordState::Active && now < lease.expires_at_unix_ms
            &&& status.state == SnapshotLeaseState::Expired <==> lease.state
                == snapshot_lease::RecordState::Expired || (lease.state
                == snapshot_lease::RecordState::Active && now >= lease.expires_at_unix_ms)
            &&& status.state == SnapshotLeaseState::Released <==> lease.state
                == snapshot_lease::RecordState::Released
        }),
{
    snapshot_lease::lemma_lookup_at(before.table.leases, i);
    snapshot_lease::law_sweep_of_one_lease(before.table.leases, lease_id, now);
    if let Dispatch::Reply(reply) = outcome {
        assert(reply@ is Status);
        assert(reply is Status);
        assert(reply->Status_0@ == reply@->Status_0);
    }
}

/// A renewal is answered with the expiry that was asked for exactly where the lease is active and has
/// not run out.
pub proof fn law_a_renewal_needs_a_living_lease(
    body: snapshot_manager::RenewSnapshotLease,
    now: i64,
    before: snapshot_lease::ManagerView,
    after: snapshot_lease::ManagerView,
    outcome: Dispatch,
    i: int,
)
    requires
        dispatched(snapshot_manager::RequestView::Renew(body), now, before, after, outcome),
        snapshot_lease::distinct(before.table.leases),
        0 <= i < before.table.leases.len(),
        before.table.leases[i].lease_id == body.snapshot_lease_id,
    ensures
        ({
            let lease = before.table.leases[i];
            let lives = lease.state == snapshot_lease::RecordState::Active && now
                < lease.expires_at_unix_ms;
            &&& outcome matches Dispatch::Reply(reply)
            &&& lives ==> (reply matches SnapshotManagerResponse::Renewed {
                new_expires_at_unix_ms,
            } && new_expires_at_unix_ms == body.requested_expiry_unix_ms)
            &&& lives ==> after.table.leases[i].expires_at_unix_ms == body.requested_expiry_unix_ms
                && after.table.leases[i].state == snapshot_lease::RecordState::Active
            &&& !lives ==> (reply matches SnapshotManagerResponse::Error { code, hresult, message }
                && code == SnapshotManagerErrorCode::LeaseNotActive)
            &&& !lives ==> after.table.leases[i].expires_at_unix_ms == lease.expires_at_unix_ms
                && after.table.leases[i].state != snapshot_lease::RecordState::Active
        }),
{
    snapshot_lease::lemma_lookup_at(before.table.leases, i);
    snapshot_lease::law_sweep_of_one_lease(before.table.leases, body.snapshot_lease_id, now);
    snapshot_lease::law_what_a_sweep_does(before.table.leases, now, i);
    if let Dispatch::Reply(reply) = outcome {
        assert(reply@ is Renewed || reply@ is Error);
    }
}

/// A release asks for the deletion of the snapshot of an active lease, and of nothing else; it is
/// answered as done where that succeeded or where the lease had ended before.
pub proof fn law_what_a_release_asks_for(
    lease_id: u64,
    now: i64,
    before: snapshot_lease::ManagerView,
    after: snapshot_lease::ManagerView,
    outcome: Dispatch,
    i: int,
)
    requires
        dispatched(snapshot_manager::RequestView::Release(lease_id), now, before, after, outcome),
        snapshot_lease::distinct(before.table.leases),
        0 <= i < before.table.leases.len(),
        before.table.leases[i].lease_id == lease_id,
    ensures
        ({
            let lease = before.table.leases[i];
            let active = lease.state == snapshot_lease::RecordState::Active;
            &&& outcome is Reply
            &&& active ==> {
                &&& after.history.len() == before.history.len() + 1
                &&& after.history.last() matches snapshot_lease::VssCall::Delete(id, answer)
                &&& id == lease.snapshot_id
                &&& outcome->Reply_0 is Released <==> answer is Ok
                &&& after.table.leases[i].state == snapshot_lease::RecordState::Released
                    <==> answer is Ok
            }
            &&& !active ==> after == before && outcome->Reply_0 is Released
        }),
{
    snapshot_lease::lemma_lookup_at(before.table.leases, i);
    if let Dispatch::Reply(reply) = outcome {
        assert(reply@ is Released <==> reply is Released);
    }
}

/// A request for a lease that is not there is refused, and a query for one tells that it is unknown.
pub proof fn law_unknown_leases_are_answered(
    request: snapshot_manager::RequestView,
    now: i64,
    before: snapshot_lease::ManagerView,
    after: snapshot_lease::ManagerView,
    outcome: Dispatch,
    lease_id: u64,
)
    requires
        dispatched(request, now, before, after, outcome),
        forall|i: int|
            0 <= i < before.table.leases.len() ==> (#[trigger] before.table.leases[i]).lease_id
                != lease_id,
        match request {
            snapshot_manager::RequestView::Create(_) => false,
            snapshot_manager::RequestView::Duplicate(body) => body.snapshot_lease_id == lease_id,
            snapshot_manager::RequestView::Renew(body) => body.snapshot_lease_id == lease_id,
            snapshot_manager::RequestView::Release(id) => id == lease_id,
            snapshot_manager::RequestView::Query(id) => id == lease_id,
        },
    ensures
        outcome matches Dispatch::Reply(reply) && if request is Query {
            reply matches SnapshotManagerResponse::Status(status) && status.snapshot_lease_id
                == lease_id && status.state == SnapshotLeaseState::Unknown
                && status.snapshot_id@.len() == 0 && status.created_at_unix_ms == 0
                && status.expires_at_unix_ms == 0
        } else {
            reply matches SnapshotManagerResponse::Error { code, hresult, message } && code
                == SnapshotManagerErrorCode::LeaseNotFound
        },
{
    snapshot_lease::lemma_lookup(before.table.leases, lease_id);
    snapshot_lease::law_sweep_of_one_lease(before.table.leases, lease_id, now);
    if let Dispatch::Reply(reply) = outcome {
        assert(reply@ is Status || reply@ is Error);
        if request is Query {
            assert(reply->Status_0@ == reply@->Status_0);
        }
    }
}

/// A creation is asked of the backend with the volume and the root of the request; what it gives is
/// answered under the next number, from now until the lifetime is over, and its failure as such.
pub proof fn law_what_a_creation_answers(
    body: snapshot_manager::messages::CreateSnapshotLeaseView,
    now: i64,
    before: snapshot_lease::ManagerView,
    after: snapshot_lease::ManagerView,
    outcome: Dispatch,
)
    requires
        dispatched(snapshot_manager::RequestView::Create(body), now, before, after, outcome),
    ensures
        after.history.len() > 0,
        after.history.last() is Create,
        after.history.last()->Create_0 == body.source_volume_identity,
        after.history.last()->Create_1 == body.requested_root,
        outcome is Reply,
        after.history.last()->Create_2 matches Ok(handle) ==> {
            &&& outcome->Reply_0 matches SnapshotManagerResponse::Created(created)
            &&& created.snapshot_lease_id == before.table.next_lease_id
            &&& created.snapshot_id@ == handle.snapshot_id@
            &&& created.snapshot_device_identity@ == handle.device_identity@
            &&& created.snapshot_created_at_unix_ms == now
            &&& body.maximum_lifetime_secs <= 1_000_000_000_000 && 0 <= now <= 1_000_000_000_000_000
                ==> created.expires_at_unix_ms == now + 1000 * body.maximum_lifetime_secs
        },
        after.history.last()->Create_2 matches Err(err) ==> {
            &&& outcome->Reply_0 matches SnapshotManagerResponse::Error { code, hresult, message }
            &&& message@ == err.text()
            &&& after.table.next_lease_id == before.table.next_lease_id
        },
{
    if let Dispatch::Reply(reply) = outcome {
        assert(reply@ is Created || reply@ is Error);
        if reply@ is Created {
            assert(reply->Created_0@ == reply@->Created_0);
        }
    }
}

/// Who is served: a process that could be opened, whose image is known and is the wanted program, by
/// its file name alone, and is signed.
pub proof fn law_who_is_served(
    path: &str,
    signed: bool,
    coordinator: bool,
    reader: bool,
    image: Option<String>,
    client: Option<&'static str>,
    refused: Option<SnapshotManagerResponse>,
)
    requires
        call_ensures(verify_coordinator_identity, (Some(path), signed), coordinator),
        call_ensures(verify_reader_identity, (Some(path), signed), reader),
        image is Some ==> image->Some_0@ == path@,
        call_ensures(refuse_client, (&ClientCheck::Opened { image, signed },), client),
        call_ensures(refuse_reader, (&ReaderCheck::Opened { image, signed },), refused),
    ensures
        ({
            let name = platform::file_name(Platform::Windows, path@);
            &&& coordinator <==> signed && (name == "uffs-content"@ || name
                == "uffs-content.exe"@)
            &&& reader <==> signed && (name == "uffs-content-reader"@ || name
                == "uffs-content-reader.exe"@)
        }),
        client is None <==> image is Some && coordinator,
        refused is None <==> image is Some && reader,
        refused is Some ==> (refused->Some_0 matches SnapshotManagerResponse::Error {
            code,
            hresult,
            message,
        } && code == SnapshotManagerErrorCode::ReaderIdentityRejected),
{
    if let Some(reply) = refused {
        assert(reply@ is Error);
    }
}

/// The steps of taking clients: an instance is asked for at every turn but after a stop, the first of
/// them as the first; one that came to be is waited on, one that did not is tried again; and a client
/// is served unless the service stops.
pub proof fn law_the_steps_of_taking_clients(
    first: bool,
    stop: bool,
    ok: bool,
    turn: (bool, AcceptAction),
    created: (bool, AcceptAction),
    connected: (bool, AcceptAction),
)
    requires
        call_ensures(accept, (first, AcceptEvent::Turn { stop }), turn),
        call_ensures(accept, (first, AcceptEvent::Created { ok }), created),
        call_ensures(accept, (first, AcceptEvent::Connected { ok, stop }), connected),
    ensures
        stop ==> turn == (first, AcceptAction::End),
        !stop ==> turn == (first, AcceptAction::CreatePipe { first }),
        ok ==> created == (false, AcceptAction::WaitForClient),
        !ok ==> created == (first, AcceptAction::Retry),
        !ok ==> connected == (first, AcceptAction::DropInstance),
        ok && stop ==> connected == (first, AcceptAction::DropAndEnd),
        ok && !stop ==> connected == (first, AcceptAction::Serve),
{
}

/// A request is read up to its limit, and a message that fell short is told with both lengths; the
/// time is that of the clock, as far as it can be told.
pub proof fn law_what_is_read_of_a_client(
    prefix: [u8; 4],
    length: Result<u32, String>,
    got: u32,
    expected: usize,
    short: Option<String>,
    since: Option<u128>,
    time: i64,
    first: bool,
    mode: u32,
)
    requires
        call_ensures(request_length, (prefix,), length),
        call_ensures(short_read, (got, expected), short),
        call_ensures(unix_ms, (since,), time),
        call_ensures(pipe_open_mode, (first,), mode),
    ensures
        ({
            let declared = prefix@[0] + 256 * prefix@[1] + 65536 * prefix@[2] + 16777216
                * prefix@[3];
            &&& length is Ok <==> declared <= 65536
            &&& length matches Ok(found) ==> found == declared
        }),
        short is None <==> got >= expected,
        since is None ==> time == 0,
        since matches Some(millis) ==> (millis <= i64::MAX ==> time == millis) && (millis > i64::MAX
            ==> time == i64::MAX),
        first ==> mode == 0x0008_0003,
        !first ==> mode == 3,
{
    let bytes = prefix@;
    assert(bytes.len() == 4);
    reveal_with_fuel(codec::le_value, 5);
    assert(bytes.drop_first()[0] == bytes[1]);
    assert(bytes.drop_first().drop_first()[0] == bytes[2]);
    assert(bytes.drop_first().drop_first().drop_first()[0] == bytes[3]);
    assert((3u32 | 0x0008_0000u32) == 0x0008_0003u32) by (bit_vector);
}

/// A message goes behind its length, lowest byte first.
pub proof fn law_a_message_goes_behind_its_length(payload: &[u8], out: Vec<u8>)
    requires
        call_ensures(frame_message, (payload,), out),
        payload@.len() <= u32::MAX,
    ensures
        out@.len() == 4 + payload@.len(),
        out@.skip(4) == payload@,
        out@[0] == payload@.len() % 256,
        out@[0] + 256 * out@[1] + 65536 * out@[2] + 16777216 * out@[3] == payload@.len(),
{
    law_framed_payload_is_found(payload@);
    let bytes = out@.take(4);
    reveal_with_fuel(codec::le_value, 5);
    assert(bytes[0] == out@[0] && bytes[1] == out@[1] && bytes[2] == out@[2] && bytes[3]
        == out@[3]);
    assert(bytes.drop_first()[0] == bytes[1]);
    assert(bytes.drop_first().drop_first()[0] == bytes[2]);
    assert(bytes.drop_first().drop_first().drop_first()[0] == bytes[3]);
}

/// A handle that was duplicated is answered as such, and a failure with its reason.
pub proof fn law_what_a_duplication_answers(
    outcome: Result<(), String>,
    res: SnapshotManagerResponse,
)
    requires
        call_ensures(duplicate_reply, (outcome,), res),
    ensures
        outcome is Ok <==> res is Duplicated,
        outcome matches Err(reason) ==> (res matches SnapshotManagerResponse::Error {
            code,
            hresult,
            message,
        } && code == SnapshotManagerErrorCode::InternalError && hresult == None::<i32>
            && message@ == reason@),
{
    assert(res@ is Duplicated || res@ is Error);
}

} // verus!
