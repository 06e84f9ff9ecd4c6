//! Snapshot manager wire protocol: the broker's narrow snapshot-lifecycle API.
//!
//! The broker creates, leases, monitors and deletes volume snapshots for a coordinator, and
//! duplicates a read-only snapshot handle only into the snapshot reader process.  It is not a
//! general snapshot administration API: five operations, one of them a status query.

pub mod codec;
pub mod messages;

use codec::{write_all, write_i64_le, write_optional_i32, write_string_u16_prefixed, Reader};
use vstd::prelude::*;

pub use codec::SnapshotProtocolError;
pub use messages::{
    CreateSnapshotLease, CreateSnapshotLeaseResult, DuplicateSnapshotHandle, QuerySnapshotLease,
    ReleaseSnapshotLease, RenewSnapshotLease, SnapshotLeaseState, SnapshotLeaseStatus,
    SnapshotManagerErrorCode, VolumeIdentity, MAX_IDENTIFIER_BYTES, MAX_PATH_BYTES,
};

verus! {

/// Named-pipe path the snapshot manager listens on.
pub const SNAPSHOT_PIPE_NAME: &'static str = r"\\.\pipe\uffs-broker-snapshot";

/// Maximum byte length for a free-text diagnostic message.
pub const MAX_MESSAGE_BYTES: u16 = 4096;

// ---- requests ----

/// Tagged union of every snapshot manager request.
#[derive(Debug, Clone, PartialEq, Eq)]
pub enum SnapshotManagerRequest {
    /// See [`CreateSnapshotLease`].
    Create(CreateSnapshotLease),
    /// See [`DuplicateSnapshotHandle`].
    Duplicate(DuplicateSnapshotHandle),
    /// See [`RenewSnapshotLease`].
    Renew(RenewSnapshotLease),
    /// See [`ReleaseSnapshotLease`].
    Release(ReleaseSnapshotLease),
    /// See [`QuerySnapshotLease`].
    Query(QuerySnapshotLease),
}

/// The contents of a [`SnapshotManagerRequest`].
#[verifier::ext_equal]
pub enum RequestView {
    /// A create request.
    Create(messages::CreateSnapshotLeaseView),
    /// A duplicate request.
    Duplicate(DuplicateSnapshotHandle),
    /// A renew request.
    Renew(RenewSnapshotLease),
    /// A release request, by its lease.
    Release(u64),
    /// A query request, by its lease.
    Query(u64),
}

impl View for SnapshotManagerRequest {
    type V = RequestView;

    open spec fn view(&self) -> RequestView {
        match *self {
            SnapshotManagerRequest::Create(request) => RequestView::Create(request@),
            SnapshotManagerRequest::Duplicate(request) => RequestView::Duplicate(request),
            SnapshotManagerRequest::Renew(request) => RequestView::Renew(request),
            SnapshotManagerRequest::Release(request) => RequestView::Release(
                request.snapshot_lease_id,
            ),
            SnapshotManagerRequest::Query(request) => RequestView::Query(request.snapshot_lease_id),
        }
    }
}

/// Wire form of a request: its tag and then its body.
pub open spec fn request_bytes(request: RequestView) -> Seq<u8> {
    match request {
        RequestView::Create(body) => seq![0u8] + messages::create_bytes(body),
        RequestView::Duplicate(body) => seq![1u8] + messages::duplicate_bytes(body),
        RequestView::Renew(body) => seq![2u8] + messages::renew_bytes(body),
        RequestView::Release(lease) => seq![3u8] + codec::le_bytes(lease as nat, 8),
        RequestView::Query(lease) => seq![4u8] + codec::le_bytes(lease as nat, 8),
    }
}

/// What a decoder of a request finds at the front of `input`.
pub open spec fn get_request(input: Seq<u8>) -> codec::Parsed<RequestView> {
    match codec::get_le(input, 1) {
        Err(err) => Err(err),
        Ok((tag, body)) => if tag == 0 {
            match messages::get_create(body) {
                Ok((value, rest)) => Ok((RequestView::Create(value), rest)),
                Err(err) => Err(err),
            }
        } else if tag == 1 {
            match messages::get_duplicate(body) {
                Ok((value, rest)) => Ok((RequestView::Duplicate(value), rest)),
                Err(err) => Err(err),
            }
        } else if tag == 2 {
            match messages::get_renew(body) {
                Ok((value, rest)) => Ok((RequestView::Renew(value), rest)),
                Err(err) => Err(err),
            }
        } else if tag == 3 {
            match codec::get_le(body, 8) {
                Ok((lease, rest)) => Ok((RequestView::Release(lease as u64), rest)),
                Err(err) => Err(err),
            }
        } else if tag == 4 {
            match codec::get_le(body, 8) {
                Ok((lease, rest)) => Ok((RequestView::Query(lease as u64), rest)),
                Err(err) => Err(err),
            }
        } else {
            Err(
                SnapshotProtocolError::UnknownDiscriminant {
                    field: "request_tag",
                    value: tag as u64,
                },
            )
        },
    }
}

/// The request that some bytes decode to; bytes behind the request are ignored.
pub open spec fn decoded_request(input: Seq<u8>) -> Result<RequestView, SnapshotProtocolError> {
    match get_request(input) {
        Ok((request, _)) => Ok(request),
        Err(err) => Err(err),
    }
}

impl SnapshotManagerRequest {
    /// Encode this request.
    #[must_use]
    pub fn encode(&self) -> (out: Vec<u8>)
        ensures
            out@ == request_bytes(self@),
    {
        let mut out: Vec<u8> = Vec::new();
        match self {
            SnapshotManagerRequest::Create(request) => {
                out.push(0);
                write_all(&mut out, &request.encode());
            },
            SnapshotManagerRequest::Duplicate(request) => {
                out.push(1);
                write_all(&mut out, &request.encode());
            },
            SnapshotManagerRequest::Renew(request) => {
                out.push(2);
                write_all(&mut out, &request.encode());
            },
            SnapshotManagerRequest::Release(request) => {
                out.push(3);
                write_all(&mut out, &request.encode());
            },
            SnapshotManagerRequest::Query(request) => {
                out.push(4);
                write_all(&mut out, &request.encode());
            },
        }
        assert(out@ =~= request_bytes(self@));
        out
    }

    /// Decode a request from raw bytes.
    pub fn decode(bytes: &[u8]) -> (res: Result<Self, SnapshotProtocolError>)
        ensures
            match (decoded_request(bytes@), res) {
                (Ok(request), Ok(found)) => found@ == request,
                (Err(err), Err(found)) => found == err,
                _ => false,
            },
    {
        let mut reader = Reader::new(bytes);
        let tag: u8 = match reader.read_u8() {
            Ok(tag) => tag,
            Err(err) => {
                return Err(err);
            },
        };
        match tag {
            0 => match CreateSnapshotLease::decode(&mut reader) {
                Ok(request) => Ok(SnapshotManagerRequest::Create(request)),
                Err(err) => Err(err),
            },
            1 => match DuplicateSnapshotHandle::decode(&mut reader) {
                Ok(request) => Ok(SnapshotManagerRequest::Duplicate(request)),
                Err(err) => Err(err),
            },
            2 => match RenewSnapshotLease::decode(&mut reader) {
                Ok(request) => Ok(SnapshotManagerRequest::Renew(request)),
                Err(err) => Err(err),
            },
            3 => match ReleaseSnapshotLease::decode(&mut reader) {
                Ok(request) => Ok(SnapshotManagerRequest::Release(request)),
                Err(err) => Err(err),
            },
            4 => match QuerySnapshotLease::decode(&mut reader) {
                Ok(request) => Ok(SnapshotManagerRequest::Query(request)),
                Err(err) => Err(err),
            },
            other => Err(
                SnapshotProtocolError::UnknownDiscriminant {
                    field: "request_tag",
                    value: other as u64,
                },
            ),
        }
    }
}

/// Whether every field of a request is within the length that a decoder accepts.
pub open spec fn request_within_limits(request: RequestView) -> bool {
    match request {
        RequestView::Create(body) => {
            &&& body.authenticated_job_id.len() == 16
            &&& body.source_volume_identity.volume_guid.len() <= MAX_IDENTIFIER_BYTES
            &&& body.requested_root.len() <= MAX_PATH_BYTES
        },
        _ => true,
    }
}

/// Decoding the wire form of a request within its limits gives the request back, whatever bytes
/// follow it.
pub proof fn law_request_round_trip(request: RequestView, tail: Seq<u8>)
    requires
        request_within_limits(request),
    ensures
        decoded_request(request_bytes(request)) == Ok::<RequestView, SnapshotProtocolError>(
            request,
        ),
        get_request(request_bytes(request) + tail) == Ok::<
            (RequestView, Seq<u8>),
            SnapshotProtocolError,
        >((request, tail)),
{
    lemma_request_round_trip(request, tail);
    lemma_request_round_trip(request, Seq::empty());
    assert(request_bytes(request) + Seq::<u8>::empty() =~= request_bytes(request));
}

proof fn lemma_request_len(request: RequestView)
    requires
        request_within_limits(request),
    ensures
        request_bytes(request).len() <= u32::MAX,
{
    match request {
        RequestView::Create(body) => {
            let volume = body.source_volume_identity;
            codec::lemma_le_bytes_len(volume.volume_serial as nat, 8);
            codec::lemma_le_bytes_len((volume.volume_guid.len() as u32) as nat, 4);
            codec::lemma_le_bytes_len((body.requested_root.len() as u32) as nat, 4);
            codec::lemma_le_bytes_len(body.maximum_lifetime_secs as nat, 8);
            codec::lemma_le_bytes_len(body.policy_id as nat, 4);
        },
        RequestView::Duplicate(body) => {
            codec::lemma_le_bytes_len(body.snapshot_lease_id as nat, 8);
            codec::lemma_le_bytes_len(body.approved_reader_process_id as nat, 4);
        },
        RequestView::Renew(body) => {
            codec::lemma_le_bytes_len(body.snapshot_lease_id as nat, 8);
            codec::lemma_le_bytes_len((body.requested_expiry_unix_ms as u64) as nat, 8);
        },
        RequestView::Release(lease) => codec::lemma_le_bytes_len(lease as nat, 8),
        RequestView::Query(lease) => codec::lemma_le_bytes_len(lease as nat, 8),
    }
}

proof fn lemma_request_round_trip(request: RequestView, tail: Seq<u8>)
    requires
        request_within_limits(request),
    ensures
        get_request(request_bytes(request) + tail) == Ok::<
            (RequestView, Seq<u8>),
            SnapshotProtocolError,
        >((request, tail)),
{
    match request {
        RequestView::Create(body) => {
            let wire = messages::create_bytes(body);
            assert(request_bytes(request) + tail =~= seq![0u8] + (wire + tail));
            codec::lemma_get_byte(0, wire + tail);
            messages::lemma_create_round_trip(body, tail);
        },
        RequestView::Duplicate(body) => {
            let wire = messages::duplicate_bytes(body);
            assert(request_bytes(request) + tail =~= seq![1u8] + (wire + tail));
            codec::lemma_get_byte(1, wire + tail);
            messages::lemma_duplicate_round_trip(body, tail);
        },
        RequestView::Renew(body) => {
            let wire = messages::renew_bytes(body);
            assert(request_bytes(request) + tail =~= seq![2u8] + (wire + tail));
            codec::lemma_get_byte(2, wire + tail);
            messages::lemma_renew_round_trip(body, tail);
        },
        RequestView::Release(lease) => {
            let wire = codec::le_bytes(lease as nat, 8);
            assert(request_bytes(request) + tail =~= seq![3u8] + (wire + tail));
            codec::lemma_get_byte(3, wire + tail);
            codec::lemma_get_u64(lease, tail);
        },
        RequestView::Query(lease) => {
            let wire = codec::le_bytes(lease as nat, 8);
            assert(request_bytes(request) + tail =~= seq![4u8] + (wire + tail));
            codec::lemma_get_byte(4, wire + tail);
            codec::lemma_get_u64(lease, tail);
        },
    }
}

/// Every strict prefix of the wire form of a request within its limits is refused by a decoder,
/// as truncated: fewer bytes are left of it than the field being read needs, and as many as that
/// needs would be left if the rest of the wire form followed.
pub proof fn law_request_prefix_is_truncated(request: RequestView, len: nat)
    requires
        request_within_limits(request),
        len < request_bytes(request).len(),
    ensures
        decoded_request(request_bytes(request).take(len as int)) matches Err(err) && codec::falls_short(
            err,
            len,
            (request_bytes(request).len() - len) as nat,
        ),
{
    let input = request_bytes(request);
    let gone = (input.len() - len) as nat;
    lemma_request_len(request);
    lemma_request_round_trip(request, Seq::empty());
    assert(input + Seq::<u8>::empty() =~= input);
    codec::lemma_cut_le(input, 1, gone);
    if let Ok((_, body)) = codec::get_le(input, 1) {
        if gone <= body.len() {
            match request {
                RequestView::Create(_) => messages::lemma_cut_create(body, gone),
                RequestView::Duplicate(_) => messages::lemma_cut_duplicate(body, gone),
                RequestView::Renew(_) => messages::lemma_cut_renew(body, gone),
                _ => codec::lemma_cut_le(body, 8, gone),
            }
        }
    }
}

/// A create request whose requested root is over the limit is refused by a decoder, with the
/// declared length, however few bytes follow it.
pub proof fn law_oversized_root_is_refused(body: messages::CreateSnapshotLeaseView, tail: Seq<u8>)
    requires
        body.authenticated_job_id.len() == 16,
        body.source_volume_identity.volume_guid.len() <= MAX_IDENTIFIER_BYTES,
        MAX_PATH_BYTES < body.requested_root.len() <= u32::MAX,
    ensures
        decoded_request(request_bytes(RequestView::Create(body)) + tail) == Err::<
            RequestView,
            SnapshotProtocolError,
        >(
            SnapshotProtocolError::LengthOutOfBounds {
                field: "requested_root",
                declared: body.requested_root.len() as u64,
                max: MAX_PATH_BYTES as u64,
            },
        ),
{
    let volume = messages::volume_bytes(body.source_volume_identity);
    let root = codec::prefixed_bytes(body.requested_root);
    let behind = codec::le_bytes(body.maximum_lifetime_secs as nat, 8) + codec::le_bytes(
        body.policy_id as nat,
        4,
    ) + tail;
    let input = request_bytes(RequestView::Create(body)) + tail;
    let wire = body.authenticated_job_id + (volume + (root + behind));
    assert(input =~= seq![0u8] + wire);
    codec::lemma_get_byte(0, wire);
    assert(wire.take(16) =~= body.authenticated_job_id);
    assert(wire.skip(16) =~= volume + (root + behind));
    messages::lemma_volume_round_trip(body.source_volume_identity, root + behind);
    codec::lemma_get_prefixed_oversized(
        body.requested_root,
        "requested_root",
        MAX_PATH_BYTES,
        behind,
    );
}

// ---- responses ----

/// Tagged union of every snapshot manager response.
#[derive(Debug, Clone, PartialEq, Eq)]
pub enum SnapshotManagerResponse {
    /// Response to [`SnapshotManagerRequest::Create`].
    Created(CreateSnapshotLeaseResult),
    /// Response to [`SnapshotManagerRequest::Duplicate`]: the handle was duplicated out of band.
    Duplicated,
    /// Response to [`SnapshotManagerRequest::Renew`].
    Renewed {
        /// The lease's new expiry, Unix milliseconds.
        new_expires_at_unix_ms: i64,
    },
    /// Response to [`SnapshotManagerRequest::Release`].
    Released,
    /// Response to [`SnapshotManagerRequest::Query`].
    Status(SnapshotLeaseStatus),
    /// Any request failed.
    Error {
        /// Stable error code.
        code: SnapshotManagerErrorCode,
        /// The underlying `HRESULT`, when the failure came from a VSS call and one is available,
        /// so that callers can tell permanent VSS failures apart without matching on `message`.
        hresult: Option<i32>,
        /// Human-readable diagnostic message.
        message: String,
    },
}

/// The contents of a [`SnapshotManagerResponse`].
#[verifier::ext_equal]
pub enum ResponseView {
    /// A lease was created.
    Created(messages::CreateSnapshotLeaseResultView),
    /// A handle was duplicated.
    Duplicated,
    /// A lease was renewed, until this time.
    Renewed(i64),
    /// A lease was released.
    Released,
    /// The status of a lease.
    Status(messages::SnapshotLeaseStatusView),
    /// A request failed.
    Error(SnapshotManagerErrorCode, Option<i32>, Seq<char>),
}

impl View for SnapshotManagerResponse {
    type V = ResponseView;

    open spec fn view(&self) -> ResponseView {
        match *self {
            SnapshotManagerResponse::Created(result) => ResponseView::Created(result@),
            SnapshotManagerResponse::Duplicated => ResponseView::Duplicated,
            SnapshotManagerResponse::Renewed { new_expires_at_unix_ms } => ResponseView::Renewed(
                new_expires_at_unix_ms,
            ),
            SnapshotManagerResponse::Released => ResponseView::Released,
            SnapshotManagerResponse::Status(status) => ResponseView::Status(status@),
            SnapshotManagerResponse::Error { code, hresult, message } => ResponseView::Error(
                code,
                hresult,
                message@,
            ),
        }
    }
}

/// Wire form of a response: its tag and then its body.
pub open spec fn response_bytes(response: ResponseView) -> Seq<u8> {
    match response {
        ResponseView::Created(body) => seq![0u8] + messages::create_result_bytes(body),
        ResponseView::Duplicated => seq![1u8],
        ResponseView::Renewed(expires) => seq![2u8] + codec::le_bytes((expires as u64) as nat, 8),
        ResponseView::Released => seq![3u8],
        ResponseView::Status(body) => seq![4u8] + messages::status_bytes(body),
        ResponseView::Error(code, hresult, message) => seq![5u8] + error_bytes(
            code,
            hresult,
            message,
        ),
    }
}

/// Wire form of the body of an error response.
pub open spec fn error_bytes(
    code: SnapshotManagerErrorCode,
    hresult: Option<i32>,
    message: Seq<char>,
) -> Seq<u8> {
    seq![code.byte()] + codec::optional_i32_bytes(hresult) + codec::prefixed_string(message)
}

/// What a decoder of the body of an error response finds.
pub open spec fn get_error(input: Seq<u8>) -> codec::Parsed<ResponseView> {
    match codec::get_le(input, 1) {
        Err(err) => Err(err),
        Ok((byte, rest)) => match SnapshotManagerErrorCode::of_byte(byte as u8) {
            None => Err(
                SnapshotProtocolError::UnknownDiscriminant { field: "code", value: byte as u64 },
            ),
            Some(code) => match codec::get_optional_i32(rest) {
                Err(err) => Err(err),
                Ok((hresult, rest)) => match codec::get_string(
                    rest,
                    "message",
                    MAX_MESSAGE_BYTES as nat,
                ) {
                    Err(err) => Err(err),
                    Ok((message, rest)) => Ok((ResponseView::Error(code, hresult, message), rest)),
                },
            },
        },
    }
}

/// What a decoder of a response finds at the front of `input`.
pub open spec fn get_response(input: Seq<u8>) -> codec::Parsed<ResponseView> {
    match codec::get_le(input, 1) {
        Err(err) => Err(err),
        Ok((tag, body)) => if tag == 0 {
            match messages::get_create_result(body) {
                Ok((value, rest)) => Ok((ResponseView::Created(value), rest)),
                Err(err) => Err(err),
            }
        } else if tag == 1 {
            Ok((ResponseView::Duplicated, body))
        } else if tag == 2 {
            match codec::get_i64(body) {
                Ok((expires, rest)) => Ok((ResponseView::Renewed(expires), rest)),
                Err(err) => Err(err),
            }
        } else if tag == 3 {
            Ok((ResponseView::Released, body))
        } else if tag == 4 {
            match messages::get_status(body) {
                Ok((value, rest)) => Ok((ResponseView::Status(value), rest)),
                Err(err) => Err(err),
            }
        } else if tag == 5 {
            get_error(body)
        } else {
            Err(
                SnapshotProtocolError::UnknownDiscriminant {
                    field: "response_tag",
                    value: tag as u64,
                },
            )
        },
    }
}

/// The response that some bytes decode to; bytes behind the response are ignored.
pub open spec fn decoded_response(input: Seq<u8>) -> Result<ResponseView, SnapshotProtocolError> {
    match get_response(input) {
        Ok((response, _)) => Ok(response),
        Err(err) => Err(err),
    }
}

impl SnapshotManagerResponse {
    /// Encode this response.
    #[must_use]
    pub fn encode(&self) -> (out: Vec<u8>)
        ensures
            out@ == response_bytes(self@),
    {
        let mut out: Vec<u8> = Vec::new();
        match self {
            SnapshotManagerResponse::Created(result) => {
                out.push(0);
                write_all(&mut out, &result.encode());
            },
            SnapshotManagerResponse::Duplicated => {
                out.push(1);
            },
            SnapshotManagerResponse::Renewed { new_expires_at_unix_ms } => {
                out.push(2);
                write_i64_le(&mut out, *new_expires_at_unix_ms);
            },
            SnapshotManagerResponse::Released => {
                out.push(3);
            },
            SnapshotManagerResponse::Status(status) => {
                out.push(4);
                write_all(&mut out, &status.encode());
            },
            SnapshotManagerResponse::Error { code, hresult, message } => {
                out.push(5);
                out.push(code.encode());
                write_optional_i32(&mut out, *hresult);
                write_string_u16_prefixed(&mut out, message);
            },
        }
        assert(out@ =~= response_bytes(self@));
        out
    }

    fn decode_error(reader: &mut Reader<'_>) -> (res: Result<Self, SnapshotProtocolError>)
        requires
            old(reader).wf(),
        ensures
            final(reader).wf(),
            match (get_error(old(reader).rest()), res) {
                (Ok((value, rest)), Ok(found)) => found@ == value && final(reader).rest() == rest,
                (Err(err), Err(found)) => found == err,
                _ => false,
            },
    {
        let code_byte: u8 = match reader.read_u8() {
            Ok(byte) => byte,
            Err(err) => {
                return Err(err);
            },
        };
        let code = match SnapshotManagerErrorCode::decode(code_byte) {
            Ok(code) => code,
            Err(byte) => {
                return Err(
                    SnapshotProtocolError::UnknownDiscriminant {
                        field: "code",
                        value: byte as u64,
                    },
                );
            },
        };
        let hresult = match reader.read_optional_i32() {
            Ok(value) => value,
            Err(err) => {
                return Err(err);
            },
        };
        match reader.read_string_u16_prefixed("message", MAX_MESSAGE_BYTES) {
            Ok(message) => Ok(SnapshotManagerResponse::Error { code, hresult, message }),
            Err(err) => Err(err),
        }
    }

    /// Decode a response from raw bytes.
    pub fn decode(bytes: &[u8]) -> (res: Result<Self, SnapshotProtocolError>)
        ensures
            match (decoded_response(bytes@), res) {
                (Ok(response), Ok(found)) => found@ == response,
                (Err(err), Err(found)) => found == err,
                _ => false,
            },
    {
        let mut reader = Reader::new(bytes);
        let tag: u8 = match reader.read_u8() {
            Ok(tag) => tag,
            Err(err) => {
                return Err(err);
            },
        };
        match tag {
            0 => match CreateSnapshotLeaseResult::decode(&mut reader) {
                Ok(result) => Ok(SnapshotManagerResponse::Created(result)),
                Err(err) => Err(err),
            },
            1 => Ok(SnapshotManagerResponse::Duplicated),
            2 => match reader.read_i64_le() {
                Ok(new_expires_at_unix_ms) => Ok(
                    SnapshotManagerResponse::Renewed { new_expires_at_unix_ms },
                ),
                Err(err) => Err(err),
            },
            3 => Ok(SnapshotManagerResponse::Released),
            4 => match SnapshotLeaseStatus::decode(&mut reader) {
                Ok(status) => Ok(SnapshotManagerResponse::Status(status)),
                Err(err) => Err(err),
            },
            5 => Self::decode_error(&mut reader),
            other => Err(
                SnapshotProtocolError::UnknownDiscriminant {
                    field: "response_tag",
                    value: other as u64,
                },
            ),
        }
    }
}

/// Whether every field of a response is within the length that a decoder accepts.
pub open spec fn response_within_limits(response: ResponseView) -> bool {
    match response {
        ResponseView::Created(body) => {
            &&& body.snapshot_id.len() <= MAX_IDENTIFIER_BYTES
            &&& vstd::utf8::encode_utf8(body.snapshot_device_identity).len()
                <= messages::MAX_DEVICE_BYTES
        },
        ResponseView::Status(body) => body.snapshot_id.len() <= MAX_IDENTIFIER_BYTES,
        ResponseView::Error(_, _, message) => vstd::utf8::encode_utf8(message).len()
            <= MAX_MESSAGE_BYTES,
        _ => true,
    }
}

/// Decoding the wire form of a response within its limits gives the response back, whatever bytes
/// follow it.
pub proof fn law_response_round_trip(response: ResponseView, tail: Seq<u8>)
    requires
        response_within_limits(response),
    ensures
        decoded_response(response_bytes(response)) == Ok::<ResponseView, SnapshotProtocolError>(
            response,
        ),
        get_response(response_bytes(response) + tail) == Ok::<
            (ResponseView, Seq<u8>),
            SnapshotProtocolError,
        >((response, tail)),
{
    lemma_response_round_trip(response, tail);
    lemma_response_round_trip(response, Seq::empty());
    assert(response_bytes(response) + Seq::<u8>::empty() =~= response_bytes(response));
}

/// Every strict prefix of the wire form of a response within its limits is refused by a decoder,
/// as truncated: fewer bytes are left of it than the field being read needs, and as many as that
/// needs would be left if the rest of the wire form followed.
pub proof fn law_response_prefix_is_truncated(response: ResponseView, len: nat)
    requires
        response_within_limits(response),
        len < response_bytes(response).len(),
    ensures
        decoded_response(response_bytes(response).take(len as int)) matches Err(err) && codec::falls_short(
            err,
            len,
            (response_bytes(response).len() - len) as nat,
        ),
{
    let input = response_bytes(response);
    let gone = (input.len() - len) as nat;
    lemma_response_len(response);
    lemma_response_round_trip(response, Seq::empty());
    assert(input + Seq::<u8>::empty() =~= input);
    codec::lemma_cut_le(input, 1, gone);
    if let Ok((_, body)) = codec::get_le(input, 1) {
        if gone <= body.len() {
            match response {
                ResponseView::Created(_) => messages::lemma_cut_create_result(body, gone),
                ResponseView::Renewed(_) => codec::lemma_cut_i64(body, gone),
                ResponseView::Status(_) => messages::lemma_cut_status(body, gone),
                ResponseView::Error(_, _, _) => lemma_cut_error(body, gone),
                _ => {},
            }
        }
    }
}

proof fn lemma_response_len(response: ResponseView)
    requires
        response_within_limits(response),
    ensures
        response_bytes(response).len() <= u32::MAX,
{
    reveal(codec::prefixed_string);
    match response {
        ResponseView::Created(body) => {
            let device = vstd::utf8::encode_utf8(body.snapshot_device_identity);
            codec::lemma_le_bytes_len(body.snapshot_lease_id as nat, 8);
            codec::lemma_le_bytes_len((body.snapshot_id.len() as u32) as nat, 4);
            codec::lemma_le_bytes_len((device.len() as u16) as nat, 2);
            codec::lemma_le_bytes_len((body.snapshot_created_at_unix_ms as u64) as nat, 8);
            codec::lemma_le_bytes_len((body.expires_at_unix_ms as u64) as nat, 8);
        },
        ResponseView::Renewed(expires) => codec::lemma_le_bytes_len((expires as u64) as nat, 8),
        ResponseView::Status(body) => {
            codec::lemma_le_bytes_len(body.snapshot_lease_id as nat, 8);
            codec::lemma_le_bytes_len((body.snapshot_id.len() as u32) as nat, 4);
            codec::lemma_le_bytes_len((body.created_at_unix_ms as u64) as nat, 8);
            codec::lemma_le_bytes_len((body.expires_at_unix_ms as u64) as nat, 8);
        },
        ResponseView::Error(_, hresult, message) => {
            let text = vstd::utf8::encode_utf8(message);
            codec::lemma_le_bytes_len((text.len() as u16) as nat, 2);
            if let Some(number) = hresult {
                codec::lemma_le_bytes_len((number as u32) as nat, 4);
            }
        },
        _ => {},
    }
}

proof fn lemma_cut_error(input: Seq<u8>, gone: nat)
    requires
        gone <= input.len() <= u32::MAX,
    ensures
        codec::cut_short(input, get_error(input), get_error(codec::without_last(input, gone)), gone),
{
    reveal(codec::get_string);
    codec::lemma_cut_le(input, 1, gone);
    if let Ok((_, rest1)) = codec::get_le(input, 1) {
        if gone <= rest1.len() {
            codec::lemma_cut_optional_i32(rest1, gone);
            if let Ok((_, rest2)) = codec::get_optional_i32(rest1) {
                if gone <= rest2.len() {
                    codec::lemma_cut_string(rest2, "message", MAX_MESSAGE_BYTES as nat, gone);
                }
            }
        }
    }
}

proof fn lemma_error_round_trip(
    code: SnapshotManagerErrorCode,
    hresult: Option<i32>,
    message: Seq<char>,
    tail: Seq<u8>,
)
    requires
        vstd::utf8::encode_utf8(message).len() <= MAX_MESSAGE_BYTES,
    ensures
        get_error(error_bytes(code, hresult, message) + tail) == Ok::<(ResponseView, Seq<u8>), SnapshotProtocolError>(
            (ResponseView::Error(code, hresult, message), tail),
        ),
{
    let number = codec::optional_i32_bytes(hresult);
    let wire = codec::prefixed_string(message);
    assert(error_bytes(code, hresult, message) + tail =~= seq![code.byte()] + (number + (wire
        + tail)));
    codec::lemma_get_byte(code.byte(), number + (wire + tail));
    messages::law_error_code_byte_round_trip(code, 0);
    codec::lemma_get_optional_i32(hresult, wire + tail);
    codec::lemma_get_string(message, "message", MAX_MESSAGE_BYTES, tail);
}

proof fn lemma_response_round_trip(response: ResponseView, tail: Seq<u8>)
    requires
        response_within_limits(response),
    ensures
        get_response(response_bytes(response) + tail) == Ok::<
            (ResponseView, Seq<u8>),
            SnapshotProtocolError,
        >((response, tail)),
{
    match response {
        ResponseView::Created(body) => {
            let wire = messages::create_result_bytes(body);
            assert(response_bytes(response) + tail =~= seq![0u8] + (wire + tail));
            codec::lemma_get_byte(0, wire + tail);
            messages::lemma_create_result_round_trip(body, tail);
        },
        ResponseView::Duplicated => {
            codec::lemma_get_byte(1, tail);
        },
        ResponseView::Renewed(expires) => {
            let wire = codec::le_bytes((expires as u64) as nat, 8);
            assert(response_bytes(response) + tail =~= seq![2u8] + (wire + tail));
            codec::lemma_get_byte(2, wire + tail);
            codec::lemma_get_i64(expires, tail);
        },
        ResponseView::Released => {
            codec::lemma_get_byte(3, tail);
        },
        ResponseView::Status(body) => {
            let wire = messages::status_bytes(body);
            assert(response_bytes(response) + tail =~= seq![4u8] + (wire + tail));
            codec::lemma_get_byte(4, wire + tail);
            messages::lemma_status_round_trip(body, tail);
        },
        ResponseView::Error(code, hresult, message) => {
            let wire = error_bytes(code, hresult, message);
            assert(response_bytes(response) + tail =~= seq![5u8] + (wire + tail));
            codec::lemma_get_byte(5, wire + tail);
            lemma_error_round_trip(code, hresult, message, tail);
        },
    }
}

/// How each request is laid out: a byte that tells its kind, and its fields in order, each number
/// with its fixed width and each run of bytes behind its length.
pub proof fn law_the_layout_of_a_request(request: SnapshotManagerRequest, out: Vec<u8>)
    requires
        call_ensures(SnapshotManagerRequest::encode, (&request,), out),
    ensures
        match request {
            SnapshotManagerRequest::Create(body) => out@ == seq![0u8] + body.authenticated_job_id@
                + codec::le_bytes(body.source_volume_identity.volume_serial as nat, 8)
                + codec::le_bytes(
                (body.source_volume_identity.volume_guid@.len() as u32) as nat,
                4,
            ) + body.source_volume_identity.volume_guid@ + codec::le_bytes(
                (body.requested_root@.len() as u32) as nat,
                4,
            ) + body.requested_root@ + codec::le_bytes(body.maximum_lifetime_secs as nat, 8)
                + codec::le_bytes(body.policy_id as nat, 4),
            SnapshotManagerRequest::Duplicate(body) => out@ == seq![1u8] + codec::le_bytes(
                body.snapshot_lease_id as nat,
                8,
            ) + codec::le_bytes(body.approved_reader_process_id as nat, 4),
            SnapshotManagerRequest::Renew(body) => out@ == seq![2u8] + codec::le_bytes(
                body.snapshot_lease_id as nat,
                8,
            ) + codec::le_bytes((body.requested_expiry_unix_ms as u64) as nat, 8),
            SnapshotManagerRequest::Release(body) => out@ == seq![3u8] + codec::le_bytes(
                body.snapshot_lease_id as nat,
                8,
            ),
            SnapshotManagerRequest::Query(body) => out@ == seq![4u8] + codec::le_bytes(
                body.snapshot_lease_id as nat,
                8,
            ),
        },
{
    match request {
        SnapshotManagerRequest::Create(body) => {
            assert(out@ =~= seq![0u8] + body.authenticated_job_id@ + codec::le_bytes(
                body.source_volume_identity.volume_serial as nat,
                8,
            ) + codec::le_bytes((body.source_volume_identity.volume_guid@.len() as u32) as nat, 4)
                + body.source_volume_identity.volume_guid@ + codec::le_bytes(
                (body.requested_root@.len() as u32) as nat,
                4,
            ) + body.requested_root@ + codec::le_bytes(body.maximum_lifetime_secs as nat, 8)
                + codec::le_bytes(body.policy_id as nat, 4));
        },
        SnapshotManagerRequest::Duplicate(body) => {
            assert(out@ =~= seq![1u8] + codec::le_bytes(body.snapshot_lease_id as nat, 8)
                + codec::le_bytes(body.approved_reader_process_id as nat, 4));
        },
        SnapshotManagerRequest::Renew(body) => {
            assert(out@ =~= seq![2u8] + codec::le_bytes(body.snapshot_lease_id as nat, 8)
                + codec::le_bytes((body.requested_expiry_unix_ms as u64) as nat, 8));
        },
        _ => {},
    }
}

/// How each response is laid out: a byte that tells its kind, and its fields in order.
pub proof fn law_the_layout_of_a_response(response: SnapshotManagerResponse, out: Vec<u8>)
    requires
        call_ensures(SnapshotManagerResponse::encode, (&response,), out),
    ensures
        match response {
            SnapshotManagerResponse::Created(body) => {
                let device = vstd::utf8::encode_utf8(body.snapshot_device_identity@);
                out@ == seq![0u8] + codec::le_bytes(body.snapshot_lease_id as nat, 8)
                    + codec::le_bytes((body.snapshot_id@.len() as u32) as nat, 4)
                    + body.snapshot_id@ + codec::le_bytes((device.len() as u16) as nat, 2) + device
                    + codec::le_bytes((body.snapshot_created_at_unix_ms as u64) as nat, 8)
                    + codec::le_bytes((body.expires_at_unix_ms as u64) as nat, 8)
            },
            SnapshotManagerResponse::Duplicated => out@ == seq![1u8],
            SnapshotManagerResponse::Renewed { new_expires_at_unix_ms } => out@ == seq![2u8]
                + codec::le_bytes((new_expires_at_unix_ms as u64) as nat, 8),
            SnapshotManagerResponse::Released => out@ == seq![3u8],
            SnapshotManagerResponse::Status(body) => out@ == seq![4u8] + codec::le_bytes(
                body.snapshot_lease_id as nat,
                8,
            ) + seq![
                match body.state {
                    SnapshotLeaseState::Active => 0u8,
                    SnapshotLeaseState::Expired => 1,
                    SnapshotLeaseState::Released => 2,
                    SnapshotLeaseState::Unknown => 3,
                },
            ] + codec::le_bytes((body.snapshot_id@.len() as u32) as nat, 4) + body.snapshot_id@
                + codec::le_bytes((body.created_at_unix_ms as u64) as nat, 8) + codec::le_bytes(
                (body.expires_at_unix_ms as u64) as nat,
                8,
            ),
            SnapshotManagerResponse::Error { code, hresult, message } => {
                let told = vstd::utf8::encode_utf8(message@);
                out@ == seq![5u8, code.byte()] + (match hresult {
                    None => seq![0u8],
                    Some(value) => seq![1u8] + codec::le_bytes((value as u32) as nat, 4),
                }) + codec::le_bytes((told.len() as u16) as nat, 2) + told
            },
        },
{
    match response {
        SnapshotManagerResponse::Created(body) => {
            let device = vstd::utf8::encode_utf8(body.snapshot_device_identity@);
            reveal(codec::prefixed_string);
            assert(out@ =~= seq![0u8] + codec::le_bytes(body.snapshot_lease_id as nat, 8)
                + codec::le_bytes((body.snapshot_id@.len() as u32) as nat, 4) + body.snapshot_id@
                + codec::le_bytes((device.len() as u16) as nat, 2) + device + codec::le_bytes(
                (body.snapshot_created_at_unix_ms as u64) as nat,
                8,
            ) + codec::le_bytes((body.expires_at_unix_ms as u64) as nat, 8));
        },
        SnapshotManagerResponse::Status(body) => {
            assert(out@ =~= seq![4u8] + codec::le_bytes(body.snapshot_lease_id as nat, 8) + seq![
                body.state.byte(),
            ] + codec::le_bytes((body.snapshot_id@.len() as u32) as nat, 4) + body.snapshot_id@
                + codec::le_bytes((body.created_at_unix_ms as u64) as nat, 8) + codec::le_bytes(
                (body.expires_at_unix_ms as u64) as nat,
                8,
            ));
        },
        SnapshotManagerResponse::Error { code, hresult, message } => {
            let told = vstd::utf8::encode_utf8(message@);
            reveal(codec::prefixed_string);
            assert(out@ =~= seq![5u8, code.byte()] + codec::optional_i32_bytes(hresult)
                + codec::le_bytes((told.len() as u16) as nat, 2) + told);
        },
        _ => {},
    }
}

/// The first byte decides what a message is read as: the kinds are told apart by it, a byte of no
/// kind is refused with its value, and so is an empty message.
pub proof fn law_the_first_byte_decides(
    bytes: &[u8],
    request: Result<SnapshotManagerRequest, SnapshotProtocolError>,
    response: Result<SnapshotManagerResponse, SnapshotProtocolError>,
)
    requires
        call_ensures(SnapshotManagerRequest::decode, (bytes,), request),
        call_ensures(SnapshotManagerResponse::decode, (bytes,), response),
    ensures
        bytes@.len() == 0 ==> request is Err && response is Err && request->Err_0 == response->Err_0
            && request->Err_0 == (SnapshotProtocolError::Truncated { needed: 1, available: 0 }),
        bytes@.len() > 0 ==> {
            let tag = bytes@[0];
            &&& (request matches Ok(found) ==> match found {
                SnapshotManagerRequest::Create(_) => tag == 0,
                SnapshotManagerRequest::Duplicate(_) => tag == 1,
                SnapshotManagerRequest::Renew(_) => tag == 2,
                SnapshotManagerRequest::Release(_) => tag == 3,
                SnapshotManagerRequest::Query(_) => tag == 4,
            })
            &&& (response matches Ok(found) ==> match found {
                SnapshotManagerResponse::Created(_) => tag == 0,
                SnapshotManagerResponse::Duplicated => tag == 1,
                SnapshotManagerResponse::Renewed { .. } => tag == 2,
                SnapshotManagerResponse::Released => tag == 3,
                SnapshotManagerResponse::Status(_) => tag == 4,
                SnapshotManagerResponse::Error { .. } => tag == 5,
            })
            &&& tag == 1 || tag == 3 ==> response is Ok
            &&& tag > 4 ==> (request matches Err(
                SnapshotProtocolError::UnknownDiscriminant { field, value },
            ) && value == tag)
            &&& tag > 5 ==> (response matches Err(
                SnapshotProtocolError::UnknownDiscriminant { field, value },
            ) && value == tag)
        },
{
    if bytes@.len() > 0 {
        lemma_first_byte(bytes@);
        match get_response(bytes@) {
            Ok(_) => {},
            Err(_) => {},
        }
    }
}

proof fn lemma_first_byte(input: Seq<u8>)
    requires
        input.len() > 0,
    ensures
        codec::get_le(input, 1) == Ok::<(nat, Seq<u8>), SnapshotProtocolError>(
            (input[0] as nat, input.skip(1)),
        ),
{
    let first = input.take(1);
    assert(first.len() == 1 && first[0] == input[0]);
    assert(first.drop_first().len() == 0);
    reveal_with_fuel(codec::le_value, 2);
}

/// A new lease whose snapshot declares more than its limit is refused with what it declares and the
/// limit, whatever follows.
#[verifier::rlimit(50)]
pub proof fn law_oversized_snapshots_are_refused(
    body: messages::CreateSnapshotLeaseResultView,
    tail: Seq<u8>,
)
    requires
        1024 < body.snapshot_id.len() <= u32::MAX,
    ensures
        decoded_response(response_bytes(ResponseView::Created(body)) + tail) matches Err(
            SnapshotProtocolError::LengthOutOfBounds { field, declared, max },
        ) && declared == body.snapshot_id.len() && max == 1024,
{
    let behind = codec::prefixed_string(body.snapshot_device_identity) + codec::le_bytes(
        (body.snapshot_created_at_unix_ms as u64) as nat,
        8,
    ) + codec::le_bytes((body.expires_at_unix_ms as u64) as nat, 8) + tail;
    let rest = codec::prefixed_bytes(body.snapshot_id) + behind;
    let wire = codec::le_bytes(body.snapshot_lease_id as nat, 8) + rest;
    assert(response_bytes(ResponseView::Created(body)) + tail =~= seq![0u8] + wire);
    codec::lemma_get_byte(0, wire);
    codec::lemma_get_u64(body.snapshot_lease_id, rest);
    codec::lemma_get_prefixed_oversized(
        body.snapshot_id,
        "snapshot_id",
        MAX_IDENTIFIER_BYTES,
        behind,
    );
    assert(messages::get_create_result(wire) is Err);
}

/// The status of a lease whose snapshot declares more than its limit is refused with what it declares
/// and the limit, whatever follows.
#[verifier::rlimit(50)]
pub proof fn law_oversized_status_is_refused(
    status: messages::SnapshotLeaseStatusView,
    tail: Seq<u8>,
)
    requires
        1024 < status.snapshot_id.len() <= u32::MAX,
    ensures
        decoded_response(response_bytes(ResponseView::Status(status)) + tail) matches Err(
            SnapshotProtocolError::LengthOutOfBounds { field, declared, max },
        ) && declared == status.snapshot_id.len() && max == 1024,
{
    let behind = codec::le_bytes((status.created_at_unix_ms as u64) as nat, 8) + codec::le_bytes(
        (status.expires_at_unix_ms as u64) as nat,
        8,
    ) + tail;
    let rest = codec::prefixed_bytes(status.snapshot_id) + behind;
    let state = seq![status.state.byte()] + rest;
    let wire = codec::le_bytes(status.snapshot_lease_id as nat, 8) + state;
    assert(response_bytes(ResponseView::Status(status)) + tail =~= seq![4u8] + wire);
    codec::lemma_get_byte(4, wire);
    codec::lemma_get_u64(status.snapshot_lease_id, state);
    codec::lemma_get_byte(status.state.byte(), rest);
    messages::law_state_byte_round_trip(status.state, 0);
    codec::lemma_get_prefixed_oversized(
        status.snapshot_id,
        "snapshot_id",
        MAX_IDENTIFIER_BYTES,
        behind,
    );
    assert(messages::get_status(wire) is Err);
}

/// A failure whose message declares more than its limit is refused with what it declares and the
/// limit, whatever follows.
#[verifier::rlimit(50)]
pub proof fn law_oversized_messages_are_refused(
    code: SnapshotManagerErrorCode,
    hresult: Option<i32>,
    message: Seq<char>,
    tail: Seq<u8>,
)
    requires
        4096 < vstd::utf8::encode_utf8(message).len() <= u16::MAX,
    ensures
        decoded_response(
            response_bytes(ResponseView::Error(code, hresult, message)) + tail,
        ) matches Err(SnapshotProtocolError::LengthOutOfBounds { field, declared, max })
            && declared == vstd::utf8::encode_utf8(message).len() && max == 4096,
{
    let text = codec::prefixed_string(message) + tail;
    let result = codec::optional_i32_bytes(hresult) + text;
    let wire = seq![code.byte()] + result;
    assert(response_bytes(ResponseView::Error(code, hresult, message)) + tail =~= seq![5u8]
        + wire);
    codec::lemma_get_byte(5, wire);
    codec::lemma_get_byte(code.byte(), result);
    messages::law_error_code_byte_round_trip(code, 0);
    codec::lemma_get_optional_i32(hresult, text);
    codec::lemma_get_string_oversized(message, "message", MAX_MESSAGE_BYTES, tail);
    assert(get_error(wire) is Err);
}

/// A new lease whose device declares more than its limit is refused with what it declares and the
/// limit, whatever follows.
#[verifier::rlimit(50)]
pub proof fn law_oversized_devices_are_refused(
    body: messages::CreateSnapshotLeaseResultView,
    tail: Seq<u8>,
)
    requires
        body.snapshot_id.len() <= 1024,
        1024 < vstd::utf8::encode_utf8(body.snapshot_device_identity).len() <= u16::MAX,
    ensures
        decoded_response(response_bytes(ResponseView::Created(body)) + tail) matches Err(
            SnapshotProtocolError::LengthOutOfBounds { field, declared, max },
        ) && declared == vstd::utf8::encode_utf8(body.snapshot_device_identity).len() && max
            == 1024,
{
    let behind = codec::le_bytes((body.snapshot_created_at_unix_ms as u64) as nat, 8)
        + codec::le_bytes((body.expires_at_unix_ms as u64) as nat, 8) + tail;
    let text = codec::prefixed_string(body.snapshot_device_identity) + behind;
    let rest = codec::prefixed_bytes(body.snapshot_id) + text;
    let wire = codec::le_bytes(body.snapshot_lease_id as nat, 8) + rest;
    assert(response_bytes(ResponseView::Created(body)) + tail =~= seq![0u8] + wire);
    codec::lemma_get_byte(0, wire);
    codec::lemma_get_u64(body.snapshot_lease_id, rest);
    codec::lemma_get_prefixed(body.snapshot_id, "snapshot_id", MAX_IDENTIFIER_BYTES, text);
    codec::lemma_get_string_oversized(
        body.snapshot_device_identity,
        "snapshot_device_identity",
        messages::MAX_DEVICE_BYTES,
        behind,
    );
    assert(messages::get_create_result(wire) is Err);
}

/// A request whose volume declares more than its limit is refused with what it declares and the
/// limit, whatever follows; and the limit of a root is that of a path.
pub proof fn law_oversized_volumes_are_refused(
    body: messages::CreateSnapshotLeaseView,
    tail: Seq<u8>,
)
    requires
        body.authenticated_job_id.len() == 16,
        1024 < body.source_volume_identity.volume_guid.len() <= u32::MAX,
    ensures
        decoded_request(request_bytes(RequestView::Create(body)) + tail) matches Err(
            SnapshotProtocolError::LengthOutOfBounds { field, declared, max },
        ) && declared == body.source_volume_identity.volume_guid.len() && max == 1024,
        MAX_PATH_BYTES == 65534,
{
    let volume = body.source_volume_identity;
    let behind = codec::prefixed_bytes(body.requested_root) + codec::le_bytes(
        body.maximum_lifetime_secs as nat,
        8,
    ) + codec::le_bytes(body.policy_id as nat, 4) + tail;
    let guid = codec::prefixed_bytes(volume.volume_guid) + behind;
    let rest = codec::le_bytes(volume.volume_serial as nat, 8) + guid;
    let wire = body.authenticated_job_id + rest;
    assert(request_bytes(RequestView::Create(body)) + tail =~= seq![0u8] + wire);
    codec::lemma_get_byte(0, wire);
    assert(wire.take(16) =~= body.authenticated_job_id);
    assert(wire.skip(16) =~= rest);
    codec::lemma_get_u64(volume.volume_serial, guid);
    codec::lemma_get_prefixed_oversized(
        volume.volume_guid,
        "volume_guid",
        MAX_IDENTIFIER_BYTES,
        behind,
    );
}

} // verus!
