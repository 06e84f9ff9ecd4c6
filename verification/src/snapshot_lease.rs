//! Snapshot lease lifecycle: the broker's in-memory bookkeeping of snapshot leases, decoupled from
//! the calls that make and delete snapshots behind [`VssProvider`].
//!
//! Lease state lives in memory alone.  A freshly started manager holds no lease, so every snapshot
//! that the backend still finds at startup is an orphan of an earlier run and gets deleted.
//!
//! [`LeaseTable`] is the state machine: each of its operations is stated exactly, over the sequence
//! of leases in the order in which they were created.  [`SnapshotLeaseManager`] runs the same
//! operations against a provider.

use crate::snapshot_manager::messages::VolumeIdentityView;
use crate::snapshot_manager::{SnapshotLeaseState, VolumeIdentity};
use crate::text::cat2;
use vstd::prelude::*;

verus! {

/// The result of successfully creating a snapshot.
#[derive(Debug, Clone, PartialEq, Eq)]
pub struct SnapshotHandle {
    /// Opaque snapshot identifier.
    pub snapshot_id: Vec<u8>,
    /// Device path the snapshot is reachable at.
    pub device_identity: String,
}

/// Errors from the snapshot backend.
#[derive(Debug, Clone, PartialEq, Eq)]
#[non_exhaustive]
pub enum VssError {
    /// The requested volume could not be validated.
    InvalidVolume(String),
    /// Snapshot creation failed.
    CreateFailed {
        /// The underlying `HRESULT`, when the failure came from a real call and one is available.
        hresult: Option<i32>,
        /// Diagnostic message.
        message: String,
    },
    /// Snapshot deletion failed.
    DeleteFailed(String),
}

impl VssError {
    /// The diagnostic text of the error.
    pub open spec fn text(self) -> Seq<char> {
        match self {
            VssError::InvalidVolume(detail) => "volume validation failed: "@ + detail@,
            VssError::CreateFailed { hresult: _, message } => "snapshot creation failed: "@
                + message@,
            VssError::DeleteFailed(detail) => "snapshot deletion failed: "@ + detail@,
        }
    }

    /// The diagnostic text of the error.
    pub fn message(&self) -> (res: String)
        ensures
            res@ == self.text(),
    {
        match self {
            VssError::InvalidVolume(detail) => cat2("volume validation failed: ", detail),
            VssError::CreateFailed { hresult: _, message } => cat2(
                "snapshot creation failed: ",
                message,
            ),
            VssError::DeleteFailed(detail) => cat2("snapshot deletion failed: ", detail),
        }
    }
}

/// One call of a backend: what was handed to it, and what it answered.
pub enum VssCall {
    /// A snapshot of a volume was asked for.
    Create(VolumeIdentityView, Seq<u8>, Result<SnapshotHandle, VssError>),
    /// The deletion of a snapshot was asked for.
    Delete(Seq<u8>, Result<(), VssError>),
    /// The existing snapshots were asked for.
    List(Result<Vec<Vec<u8>>, VssError>),
}

/// A backend that creates, deletes and enumerates snapshots.
///
/// Each method adds one entry to the history of the backend.  Nothing is promised of what a backend
/// answers.
pub trait VssProvider {
    /// The calls of this backend so far, the earliest first.  A backend that is itself verified
    /// gives its own; nothing is known of the one given here.
    closed spec fn history(&self) -> Seq<VssCall> {
        arbitrary()
    }

    /// Create a new point-in-time snapshot of `volume`.
    fn create_snapshot(&mut self, volume: &VolumeIdentity, requested_root: &[u8]) -> (res: Result<
        SnapshotHandle,
        VssError,
    >)
        ensures
            final(self).history() == old(self).history().push(
                VssCall::Create(volume@, requested_root@, res),
            ),
    ;

    /// Delete a previously created snapshot.
    fn delete_snapshot(&mut self, snapshot_id: &[u8]) -> (res: Result<(), VssError>)
        ensures
            final(self).history() == old(self).history().push(VssCall::Delete(snapshot_id@, res)),
    ;

    /// List every snapshot of this product that the backend currently knows about, whether or not
    /// this process created it, and none of other software.
    fn list_existing_snapshots(&mut self) -> (res: Result<Vec<Vec<u8>>, VssError>)
        ensures
            final(self).history() == old(self).history().push(VssCall::List(res)),
    ;
}

/// Errors from a lease operation.
#[derive(Debug, Clone, PartialEq, Eq)]
pub enum LeaseError {
    /// The named lease is not known to the broker.
    NotFound,
    /// The named lease has already expired or been released.
    NotActive,
    /// The snapshot backend failed.
    Vss(VssError),
}

impl LeaseError {
    /// The diagnostic text of the error.
    pub open spec fn text(self) -> Seq<char> {
        match self {
            LeaseError::NotFound => "lease not found"@,
            LeaseError::NotActive => "lease is not active"@,
            LeaseError::Vss(err) => err.text(),
        }
    }

    /// The diagnostic text of the error.
    pub fn message(&self) -> (res: String)
        ensures
            res@ == self.text(),
    {
        match self {
            LeaseError::NotFound => "lease not found".to_owned(),
            LeaseError::NotActive => "lease is not active".to_owned(),
            LeaseError::Vss(err) => err.message(),
        }
    }
}

/// The result of successfully creating a lease.
#[derive(Debug, Clone, PartialEq, Eq)]
pub struct CreatedLease {
    /// Lease identifier the coordinator uses in all subsequent calls.
    pub lease_id: u64,
    /// Opaque snapshot identifier.
    pub snapshot_id: Vec<u8>,
    /// Device path the snapshot is reachable at.
    pub device_identity: String,
    /// Snapshot creation time, Unix milliseconds.
    pub created_at_unix_ms: i64,
    /// Initial lease expiry, Unix milliseconds.
    pub expires_at_unix_ms: i64,
}

/// The answer to a lease query.
#[derive(Debug, Clone, PartialEq, Eq)]
pub struct LeaseStatus {
    /// Current lease state.
    pub state: SnapshotLeaseState,
    /// Opaque snapshot identifier.
    pub snapshot_id: Vec<u8>,
    /// Creation time, Unix milliseconds.
    pub created_at_unix_ms: i64,
    /// Expiry time, Unix milliseconds.
    pub expires_at_unix_ms: i64,
}

/// The lifecycle state of a lease.  A timeout is not the same outcome as an explicit release, even
/// though the snapshot is gone after either.
#[derive(Debug, Clone, Copy, PartialEq, Eq, Structural)]
pub enum RecordState {
    /// Snapshot is retained; the lease has not reached its expiry.
    Active,
    /// The lease's expiry passed before it was renewed or released.
    Expired,
    /// The lease was released explicitly.
    Released,
}

impl RecordState {
    /// The state as the wire protocol reports it.
    pub open spec fn wire(self) -> SnapshotLeaseState {
        match self {
            RecordState::Active => SnapshotLeaseState::Active,
            RecordState::Expired => SnapshotLeaseState::Expired,
            RecordState::Released => SnapshotLeaseState::Released,
        }
    }

    /// Map to the wire state.  `Unknown` has no record, so it never comes out.
    pub fn to_wire(self) -> (res: SnapshotLeaseState)
        ensures
            res == self.wire(),
    {
        match self {
            RecordState::Active => SnapshotLeaseState::Active,
            RecordState::Expired => SnapshotLeaseState::Expired,
            RecordState::Released => SnapshotLeaseState::Released,
        }
    }
}

/// One tracked lease.
#[derive(Debug)]
struct LeaseRecord {
    /// Lease identifier.
    lease_id: u64,
    /// Opaque snapshot identifier.
    snapshot_id: Vec<u8>,
    /// Device path the snapshot is reachable at.
    device_identity: String,
    /// Snapshot creation time, Unix milliseconds.
    created_at_unix_ms: i64,
    /// Current expiry, Unix milliseconds.
    expires_at_unix_ms: i64,
    /// Current lifecycle state.
    state: RecordState,
}

/// The contents of one tracked lease.
#[verifier::ext_equal]
pub struct LeaseView {
    /// Lease identifier.
    pub lease_id: u64,
    /// Opaque snapshot identifier.
    pub snapshot_id: Seq<u8>,
    /// Device path the snapshot is reachable at.
    pub device_identity: Seq<char>,
    /// Snapshot creation time, Unix milliseconds.
    pub created_at_unix_ms: i64,
    /// Current expiry, Unix milliseconds.
    pub expires_at_unix_ms: i64,
    /// Current lifecycle state.
    pub state: RecordState,
}

impl View for LeaseRecord {
    type V = LeaseView;

    closed spec fn view(&self) -> LeaseView {
        LeaseView {
            lease_id: self.lease_id,
            snapshot_id: self.snapshot_id@,
            device_identity: self.device_identity@,
            created_at_unix_ms: self.created_at_unix_ms,
            expires_at_unix_ms: self.expires_at_unix_ms,
            state: self.state,
        }
    }
}

/// What a lease table holds: the identifier that the next lease gets, and the leases in the order
/// in which they were created.
#[verifier::ext_equal]
pub struct TableView {
    /// Identifier of the next lease.
    pub next_lease_id: u64,
    /// The leases.
    pub leases: Seq<LeaseView>,
}

// ---- the state machine ----

/// No two leases share an identifier.
pub open spec fn distinct(leases: Seq<LeaseView>) -> bool {
    forall|i: int, j: int|
        0 <= i < j < leases.len() ==> (#[trigger] leases[i]).lease_id != (
        #[trigger] leases[j]).lease_id
}

/// The lease with an identifier, if there is one.
pub open spec fn lookup(leases: Seq<LeaseView>, lease_id: u64) -> Option<LeaseView>
    decreases leases.len(),
{
    if leases.len() == 0 {
        None
    } else if leases.last().lease_id == lease_id {
        Some(leases.last())
    } else {
        lookup(leases.drop_last(), lease_id)
    }
}

/// Whether a lease is still active although its expiry has come.
pub open spec fn overdue(lease: LeaseView, now: i64) -> bool {
    lease.state == RecordState::Active && now >= lease.expires_at_unix_ms
}

/// The lease after a sweep at `now`.
pub open spec fn swept_lease(lease: LeaseView, now: i64) -> LeaseView {
    if overdue(lease, now) {
        LeaseView { state: RecordState::Expired, ..lease }
    } else {
        lease
    }
}

/// The leases after a sweep at `now`: every overdue one is expired, the others stay.
pub open spec fn swept(leases: Seq<LeaseView>, now: i64) -> Seq<LeaseView> {
    leases.map_values(|lease: LeaseView| swept_lease(lease, now))
}

/// The snapshots that a sweep at `now` deletes: those of the overdue leases, oldest lease first.
pub open spec fn due_snapshots(leases: Seq<LeaseView>, now: i64) -> Seq<Seq<u8>>
    decreases leases.len(),
{
    if leases.len() == 0 {
        Seq::empty()
    } else {
        let before = due_snapshots(leases.drop_last(), now);
        if overdue(leases.last(), now) {
            before.push(leases.last().snapshot_id)
        } else {
            before
        }
    }
}

/// The table after a sweep at `now`.
pub open spec fn swept_table(table: TableView, now: i64) -> TableView {
    TableView { leases: swept(table.leases, now), ..table }
}

/// A lifetime in milliseconds, at most `i64::MAX`.
pub open spec fn lifetime_ms(secs: u64) -> int {
    if secs * 1000 > i64::MAX {
        i64::MAX as int
    } else {
        secs * 1000
    }
}

/// When a lease of `secs` seconds that begins at `now` ends, at most `i64::MAX`.
pub open spec fn expiry(secs: u64, now: i64) -> int {
    if now + lifetime_ms(secs) > i64::MAX {
        i64::MAX as int
    } else {
        now + lifetime_ms(secs)
    }
}

/// The lease that `create` adds.
pub open spec fn fresh_lease(
    lease_id: u64,
    snapshot_id: Seq<u8>,
    device_identity: Seq<char>,
    secs: u64,
    now: i64,
) -> LeaseView {
    LeaseView {
        lease_id,
        snapshot_id,
        device_identity,
        created_at_unix_ms: now,
        expires_at_unix_ms: expiry(secs, now) as i64,
        state: RecordState::Active,
    }
}

/// The leases with `lease` in the place of the one that had its identifier, else behind them.
pub open spec fn put(leases: Seq<LeaseView>, lease: LeaseView) -> Seq<LeaseView> {
    if lookup(leases, lease.lease_id) is None {
        leases.push(lease)
    } else {
        leases.map_values(
            |other: LeaseView|
                if other.lease_id == lease.lease_id {
                    lease
                } else {
                    other
                },
        )
    }
}

/// The identifier behind `lease_id`; behind the largest one the count starts over, at 1.
pub open spec fn next_id(lease_id: u64) -> u64 {
    if lease_id == u64::MAX {
        1
    } else {
        (lease_id + 1) as u64
    }
}

/// The table after a lease on a snapshot was created at `now`; the sweep of `now` has been done.
pub open spec fn with_created(
    table: TableView,
    snapshot_id: Seq<u8>,
    device_identity: Seq<char>,
    secs: u64,
    now: i64,
) -> TableView {
    TableView {
        next_lease_id: next_id(table.next_lease_id),
        leases: put(
            table.leases,
            fresh_lease(table.next_lease_id, snapshot_id, device_identity, secs, now),
        ),
    }
}

/// The table with another expiry for one lease.
pub open spec fn with_expiry(table: TableView, lease_id: u64, expires: i64) -> TableView {
    TableView {
        leases: table.leases.map_values(
            |lease: LeaseView|
                if lease.lease_id == lease_id {
                    LeaseView { expires_at_unix_ms: expires, ..lease }
                } else {
                    lease
                },
        ),
        ..table
    }
}

/// The table with one lease released.
pub open spec fn with_released(table: TableView, lease_id: u64) -> TableView {
    TableView {
        leases: table.leases.map_values(
            |lease: LeaseView|
                if lease.lease_id == lease_id {
                    LeaseView { state: RecordState::Released, ..lease }
                } else {
                    lease
                },
        ),
        ..table
    }
}

/// What renewing a lease answers, on a table that has been swept.
pub open spec fn renew_answer(table: TableView, lease_id: u64, expires: i64) -> Result<
    i64,
    LeaseError,
> {
    match lookup(table.leases, lease_id) {
        None => Err(LeaseError::NotFound),
        Some(lease) => if lease.state == RecordState::Active {
            Ok(expires)
        } else {
            Err(LeaseError::NotActive)
        },
    }
}

/// The table after renewing a lease, on a table that has been swept.
pub open spec fn renewed(table: TableView, lease_id: u64, expires: i64) -> TableView {
    if renew_answer(table, lease_id, expires) is Ok {
        with_expiry(table, lease_id, expires)
    } else {
        table
    }
}

/// What releasing a lease has to do first.
#[derive(Debug)]
pub enum ReleaseStep {
    /// There is no such lease.
    NotFound,
    /// The lease has ended before: nothing is left to do.
    AlreadyEnded,
    /// The lease is active: its snapshot, given here, has to be deleted.
    Delete(Vec<u8>),
}

/// The snapshot whose deletion releasing a lease asks for: that of the lease, if it is active.
pub open spec fn release_asks(table: TableView, lease_id: u64) -> Option<Seq<u8>> {
    match lookup(table.leases, lease_id) {
        Some(lease) => if lease.state == RecordState::Active {
            Some(lease.snapshot_id)
        } else {
            None
        },
        None => None,
    }
}

/// The table after a lease was released, where the deletion of its snapshot, if one was asked for,
/// succeeded or not.
pub open spec fn released(table: TableView, lease_id: u64, deleted: bool) -> TableView {
    match lookup(table.leases, lease_id) {
        Some(lease) => if lease.state == RecordState::Active && deleted {
            with_released(table, lease_id)
        } else {
            table
        },
        None => table,
    }
}

pub proof fn lemma_lookup(leases: Seq<LeaseView>, lease_id: u64)
    ensures
        match lookup(leases, lease_id) {
            Some(lease) => exists|i: int|
                0 <= i < leases.len() && #[trigger] leases[i] == lease && lease.lease_id
                    == lease_id,
            None => forall|i: int|
                0 <= i < leases.len() ==> (#[trigger] leases[i]).lease_id != lease_id,
        },
    decreases leases.len(),
{
    if leases.len() > 0 && leases.last().lease_id != lease_id {
        lemma_lookup(leases.drop_last(), lease_id);
        if let Some(lease) = lookup(leases.drop_last(), lease_id) {
            let i = choose|i: int|
                0 <= i < leases.drop_last().len() && #[trigger] leases.drop_last()[i] == lease;
            assert(leases[i] == lease);
        } else {
            assert forall|i: int| 0 <= i < leases.len() implies (#[trigger] leases[i]).lease_id
                != lease_id by {
                if i < leases.len() - 1 {
                    assert(leases.drop_last()[i] == leases[i]);
                }
            }
        }
    } else if leases.len() > 0 {
        assert(leases[leases.len() - 1] == leases.last());
    }
}

pub proof fn lemma_lookup_at(leases: Seq<LeaseView>, i: int)
    requires
        distinct(leases),
        0 <= i < leases.len(),
    ensures
        lookup(leases, leases[i].lease_id) == Some(leases[i]),
{
    lemma_lookup(leases, leases[i].lease_id);
}

/// In-memory registry of snapshot leases.
#[derive(Debug)]
pub struct LeaseTable {
    next_lease_id: u64,
    leases: Vec<LeaseRecord>,
}

spec fn views(records: Seq<LeaseRecord>) -> Seq<LeaseView> {
    records.map_values(|record: LeaseRecord| record@)
}

impl View for LeaseTable {
    type V = TableView;

    closed spec fn view(&self) -> TableView {
        TableView { next_lease_id: self.next_lease_id, leases: views(self.leases@) }
    }
}

/// Converts seconds to milliseconds, saturating at the largest `i64`.
pub fn secs_to_ms_saturating(secs: u64) -> (res: i64)
    ensures
        res == lifetime_ms(secs),
{
    if secs > 9_223_372_036_854_775 {
        i64::MAX
    } else {
        (secs * 1000) as i64
    }
}

impl LeaseTable {
    /// The registry is well formed: no two leases share an identifier, and 0 is never handed out.
    pub open spec fn wf(&self) -> bool {
        distinct(self@.leases) && self@.next_lease_id != 0
    }

    /// An empty registry; the first lease gets identifier 1.
    pub fn new() -> (table: Self)
        ensures
            table.wf(),
            table@ == (TableView { next_lease_id: 1, leases: Seq::empty() }),
    {
        let table = LeaseTable { next_lease_id: 1, leases: Vec::new() };
        assert(table@.leases =~= Seq::empty());
        table
    }

    fn position(&self, lease_id: u64) -> (res: Option<usize>)
        requires
            self.wf(),
        ensures
            match res {
                Some(i) => {
                    &&& i < self.leases@.len()
                    &&& self.leases@[i as int].lease_id == lease_id
                    &&& lookup(self@.leases, lease_id) == Some(self.leases@[i as int]@)
                },
                None => {
                    &&& lookup(self@.leases, lease_id) is None
                    &&& forall|k: int|
                        0 <= k < self.leases@.len() ==> (#[trigger] self.leases@[k]).lease_id
                            != lease_id
                },
            },
    {
        let mut i: usize = 0;
        while i < self.leases.len()
            invariant
                i <= self.leases@.len(),
                self.wf(),
                forall|k: int|
                    0 <= k < i ==> (#[trigger] self.leases@[k]).lease_id != lease_id,
            decreases self.leases@.len() - i,
        {
            if self.leases[i].lease_id == lease_id {
                proof {
                    assert(self@.leases[i as int] == self.leases@[i as int]@);
                    lemma_lookup_at(self@.leases, i as int);
                }
                return Some(i);
            }
            i += 1;
        }
        proof {
            lemma_lookup(self@.leases, lease_id);
            assert forall|k: int| 0 <= k < self@.leases.len() implies (
            #[trigger] self@.leases[k]).lease_id != lease_id by {
                assert(self@.leases[k] == self.leases@[k]@);
            }
        }
        None
    }

    /// Expire every overdue lease, and give the snapshots that are to be deleted for it.
    pub fn sweep(&mut self, now_unix_ms: i64) -> (due: Vec<Vec<u8>>)
        requires
            old(self).wf(),
        ensures
            final(self).wf(),
            final(self)@ == swept_table(old(self)@, now_unix_ms),
            due@.map_values(|id: Vec<u8>| id@) == due_snapshots(old(self)@.leases, now_unix_ms),
    {
        let mut due: Vec<Vec<u8>> = Vec::new();
        let ghost before = self@.leases;
        let ghost records = self.leases@;
        let mut i: usize = 0;
        while i < self.leases.len()
            invariant
                i <= self.leases@.len(),
                self.leases@.len() == records.len(),
                before == views(records),
                self.next_lease_id == old(self).next_lease_id,
                forall|k: int|
                    0 <= k < i ==> (#[trigger] self.leases@[k])@ == swept_lease(
                        before[k],
                        now_unix_ms,
                    ),
                forall|k: int| i <= k < records.len() ==> #[trigger] self.leases@[k] == records[k],
                due@.map_values(|id: Vec<u8>| id@) == due_snapshots(
                    before.take(i as int),
                    now_unix_ms,
                ),
            decreases self.leases@.len() - i,
        {
            proof {
                assert(before.take(i + 1).drop_last() =~= before.take(i as int));
                assert(before.take(i + 1).last() == before[i as int]);
                assert(before[i as int] == self.leases@[i as int]@);
            }
            if self.leases[i].state == RecordState::Active && now_unix_ms
                >= self.leases[i].expires_at_unix_ms {
                let id = self.leases[i].snapshot_id.clone();
                let ghost listed = due@.map_values(|id: Vec<u8>| id@);
                assert(id@ =~= before[i as int].snapshot_id);
                due.push(id);
                self.leases[i].state = RecordState::Expired;
                assert(due@.map_values(|id: Vec<u8>| id@) =~= listed.push(
                    before[i as int].snapshot_id,
                ));
            }
            i += 1;
        }
        proof {
            assert(before.take(i as int) =~= before);
            assert(self@.leases =~= swept(before, now_unix_ms));
            lemma_swept_distinct(before, now_unix_ms);
        }
        due
    }

    /// Record a lease on a snapshot that has just been made.
    pub fn create(
        &mut self,
        snapshot_id: Vec<u8>,
        device_identity: String,
        maximum_lifetime_secs: u64,
        now_unix_ms: i64,
    ) -> (created: CreatedLease)
        requires
            old(self).wf(),
        ensures
            final(self).wf(),
            final(self)@ == with_created(
                old(self)@,
                snapshot_id@,
                device_identity@,
                maximum_lifetime_secs,
                now_unix_ms,
            ),
            created.lease_id == old(self)@.next_lease_id,
            created.lease_id != 0,
            created.snapshot_id@ == snapshot_id@,
            created.device_identity@ == device_identity@,
            created.created_at_unix_ms == now_unix_ms,
            created.expires_at_unix_ms == expiry(maximum_lifetime_secs, now_unix_ms),
    {
        let lease_id: u64 = self.next_lease_id;
        let ghost before = self@.leases;
        self.next_lease_id = if lease_id == u64::MAX {
            1
        } else {
            lease_id + 1
        };
        let lifetime: i64 = secs_to_ms_saturating(maximum_lifetime_secs);
        let expires_at_unix_ms: i64 = match now_unix_ms.checked_add(lifetime) {
            Some(sum) => sum,
            None => i64::MAX,
        };
        let kept_id = snapshot_id.clone();
        let kept_device = device_identity.clone();
        assert(kept_id@ =~= snapshot_id@);
        let record = LeaseRecord {
            lease_id,
            snapshot_id: kept_id,
            device_identity: kept_device,
            created_at_unix_ms: now_unix_ms,
            expires_at_unix_ms,
            state: RecordState::Active,
        };
        let ghost lease = record@;
        assert(views(self.leases@) == before);
        match self.position(lease_id) {
            Some(i) => {
                let ghost records = self.leases@;
                self.leases.set(i, record);
                proof {
                    assert forall|k: int| 0 <= k < before.len() && k != i implies (
                    #[trigger] before[k]).lease_id != lease_id by {
                        assert(before[i as int].lease_id == lease_id);
                    }
                    assert(self@.leases =~= put(before, lease));
                }
            },
            None => {
                self.leases.push(record);
                assert(self@.leases =~= before.push(lease));
            },
        }
        proof {
            lemma_put_distinct(before, lease);
        }
        CreatedLease {
            lease_id,
            snapshot_id,
            device_identity,
            created_at_unix_ms: now_unix_ms,
            expires_at_unix_ms,
        }
    }

    /// Give an active lease a new expiry, on a table that has been swept.
    pub fn renew(&mut self, lease_id: u64, requested_expiry_unix_ms: i64) -> (res: Result<
        i64,
        LeaseError,
    >)
        requires
            old(self).wf(),
        ensures
            final(self).wf(),
            res == renew_answer(old(self)@, lease_id, requested_expiry_unix_ms),
            final(self)@ == renewed(old(self)@, lease_id, requested_expiry_unix_ms),
    {
        let i: usize = match self.position(lease_id) {
            Some(i) => i,
            None => {
                return Err(LeaseError::NotFound);
            },
        };
        if self.leases[i].state != RecordState::Active {
            return Err(LeaseError::NotActive);
        }
        let ghost before = self@.leases;
        self.leases[i].expires_at_unix_ms = requested_expiry_unix_ms;
        proof {
            assert forall|k: int| 0 <= k < before.len() && k != i implies (
            #[trigger] before[k]).lease_id != lease_id by {
                assert(before[i as int].lease_id == lease_id);
            }
            assert(self@ =~= with_expiry(old(self)@, lease_id, requested_expiry_unix_ms));
        }
        Ok(requested_expiry_unix_ms)
    }

    /// What releasing a lease has to do first.
    pub fn release_step(&self, lease_id: u64) -> (step: ReleaseStep)
        requires
            self.wf(),
        ensures
            match release_asks(self@, lease_id) {
                Some(snapshot) => step matches ReleaseStep::Delete(id) && id@ == snapshot,
                None => if lookup(self@.leases, lease_id) is None {
                    step is NotFound
                } else {
                    step is AlreadyEnded
                },
            },
    {
        match self.position(lease_id) {
            None => ReleaseStep::NotFound,
            Some(i) => if self.leases[i].state != RecordState::Active {
                ReleaseStep::AlreadyEnded
            } else {
                let id = self.leases[i].snapshot_id.clone();
                assert(id@ =~= self.leases@[i as int].snapshot_id@);
                ReleaseStep::Delete(id)
            },
        }
    }

    /// Finish releasing a lease, given whether the deletion that [`Self::release_step`] asked for
    /// succeeded.
    pub fn release(&mut self, lease_id: u64, deleted: bool)
        requires
            old(self).wf(),
        ensures
            final(self).wf(),
            final(self)@ == released(old(self)@, lease_id, deleted),
    {
        match self.position(lease_id) {
            None => {},
            Some(i) => {
                if deleted && self.leases[i].state == RecordState::Active {
                    let ghost before = self@.leases;
                    self.leases[i].state = RecordState::Released;
                    proof {
                        assert forall|k: int| 0 <= k < before.len() && k != i implies (
                        #[trigger] before[k]).lease_id != lease_id by {
                            assert(before[i as int].lease_id == lease_id);
                        }
                        assert(self@ =~= with_released(old(self)@, lease_id));
                    }
                }
            },
        }
    }

    /// A lease's current state, or `None` if there is no record of it.
    pub fn status(&self, lease_id: u64) -> (res: Option<LeaseStatus>)
        requires
            self.wf(),
        ensures
            match lookup(self@.leases, lease_id) {
                None => res is None,
                Some(lease) => {
                    &&& res is Some
                    &&& res->Some_0.state == lease.state.wire()
                    &&& res->Some_0.snapshot_id@ == lease.snapshot_id
                    &&& res->Some_0.created_at_unix_ms == lease.created_at_unix_ms
                    &&& res->Some_0.expires_at_unix_ms == lease.expires_at_unix_ms
                },
            },
    {
        match self.position(lease_id) {
            None => None,
            Some(i) => {
                let record = &self.leases[i];
                let snapshot_id = record.snapshot_id.clone();
                assert(snapshot_id@ =~= record.snapshot_id@);
                Some(
                    LeaseStatus {
                        state: record.state.to_wire(),
                        snapshot_id,
                        created_at_unix_ms: record.created_at_unix_ms,
                        expires_at_unix_ms: record.expires_at_unix_ms,
                    },
                )
            },
        }
    }

    /// The device path of a lease's snapshot, if the lease is active.
    pub fn active_device(&self, lease_id: u64) -> (res: Option<String>)
        requires
            self.wf(),
        ensures
            match lookup(self@.leases, lease_id) {
                Some(lease) => if lease.state == RecordState::Active {
                    res is Some && res->Some_0@ == lease.device_identity
                } else {
                    res is None
                },
                None => res is None,
            },
    {
        match self.position(lease_id) {
            None => None,
            Some(i) => if self.leases[i].state == RecordState::Active {
                Some(self.leases[i].device_identity.clone())
            } else {
                None
            },
        }
    }
}

proof fn lemma_swept_distinct(leases: Seq<LeaseView>, now: i64)
    requires
        distinct(leases),
    ensures
        distinct(swept(leases, now)),
{
    assert forall|i: int, j: int| 0 <= i < j < leases.len() implies (#[trigger] swept(
        leases,
        now,
    )[i]).lease_id != (#[trigger] swept(leases, now)[j]).lease_id by {
        assert(leases[i].lease_id != leases[j].lease_id);
    }
}

proof fn lemma_put_distinct(leases: Seq<LeaseView>, lease: LeaseView)
    requires
        distinct(leases),
    ensures
        distinct(put(leases, lease)),
{
    lemma_lookup(leases, lease.lease_id);
    let after = put(leases, lease);
    assert forall|i: int, j: int| 0 <= i < j < after.len() implies (
    #[trigger] after[i]).lease_id != (#[trigger] after[j]).lease_id by {
        if j < leases.len() {
            assert(leases[i].lease_id != leases[j].lease_id);
        }
    }
}

// ---- the manager ----

/// Whether a backend that had been called as `before` says has since been asked to delete each of
/// the snapshots in turn, and nothing else.
pub open spec fn asked_to_delete(
    before: Seq<VssCall>,
    after: Seq<VssCall>,
    ids: Seq<Seq<u8>>,
) -> bool {
    &&& after.len() == before.len() + ids.len()
    &&& after.take(before.len() as int) == before
    &&& forall|k: int|
        before.len() <= k < after.len() ==> (#[trigger] after[k] matches VssCall::Delete(id, _)
            && id == ids[k - before.len()])
}

proof fn lemma_asked_once_more(
    before: Seq<VssCall>,
    after: Seq<VssCall>,
    ids: Seq<Seq<u8>>,
    id: Seq<u8>,
    answer: Result<(), VssError>,
)
    requires
        asked_to_delete(before, after, ids),
    ensures
        asked_to_delete(before, after.push(VssCall::Delete(id, answer)), ids.push(id)),
{
    let more = after.push(VssCall::Delete(id, answer));
    assert(more.take(before.len() as int) =~= after.take(before.len() as int));
}

/// What a backend answered to deletions.
pub open spec fn outcomes(calls: Seq<VssCall>) -> Seq<Result<(), VssError>> {
    calls.map_values(
        |call: VssCall|
            match call {
                VssCall::Delete(_, outcome) => outcome,
                _ => Ok(()),
            },
    )
}

/// The snapshots of a listing.
pub open spec fn listed_ids(listed: Seq<Vec<u8>>) -> Seq<Seq<u8>> {
    listed.map_values(|id: Vec<u8>| id@)
}

/// The snapshot leases of one backend.
///
/// Every operation takes the time instead of reading a clock, and begins by expiring what is
/// overdue at that time, except for a release.
pub struct SnapshotLeaseManager<P> {
    /// The backend this manager drives.
    pub provider: P,
    /// The leases.
    pub table: LeaseTable,
}

/// What a manager holds: its leases, and the calls of its backend so far.
pub struct ManagerView {
    /// The leases.
    pub table: TableView,
    /// The calls.
    pub history: Seq<VssCall>,
}

/// How many outcomes are successes.
pub open spec fn successes(outcomes: Seq<Result<(), VssError>>) -> nat
    decreases outcomes.len(),
{
    if outcomes.len() == 0 {
        0
    } else {
        successes(outcomes.drop_last()) + if outcomes.last() is Ok {
            1nat
        } else {
            0nat
        }
    }
}

/// How many deletions succeeded.
pub fn count_deleted(outcomes: &[Result<(), VssError>]) -> (count: usize)
    ensures
        count == successes(outcomes@),
        count <= outcomes@.len(),
{
    let mut count: usize = 0;
    let mut i: usize = 0;
    while i < outcomes.len()
        invariant
            i <= outcomes@.len(),
            count <= i,
            count == successes(outcomes@.take(i as int)),
        decreases outcomes@.len() - i,
    {
        proof {
            assert(outcomes@.take(i + 1).drop_last() =~= outcomes@.take(i as int));
        }
        if outcomes[i].is_ok() {
            count += 1;
        }
        i += 1;
    }
    assert(outcomes@.take(i as int) =~= outcomes@);
    count
}

impl<P: VssProvider> SnapshotLeaseManager<P> {
    /// The leases are well formed.
    pub open spec fn wf(&self) -> bool {
        self.table.wf()
    }

    /// What the manager holds.
    pub open spec fn state(&self) -> ManagerView {
        ManagerView { table: self.table@, history: self.provider.history() }
    }

    /// Create a new, empty lease manager over `provider`.
    pub fn new(provider: P) -> (manager: Self)
        ensures
            manager.wf(),
            manager.provider == provider,
            manager.table@ == (TableView { next_lease_id: 1, leases: Seq::empty() }),
    {
        SnapshotLeaseManager { provider, table: LeaseTable::new() }
    }

    /// Expire every overdue lease and delete its snapshot.  A deletion that fails does not keep
    /// the lease alive.
    pub fn sweep_expired(&mut self, now_unix_ms: i64)
        requires
            old(self).wf(),
        ensures
            final(self).wf(),
            final(self).table@ == swept_table(old(self).table@, now_unix_ms),
            asked_to_delete(
                old(self).provider.history(),
                final(self).provider.history(),
                due_snapshots(old(self).table@.leases, now_unix_ms),
            ),
    {
        let due = self.table.sweep(now_unix_ms);
        let ghost ids = due_snapshots(old(self).table@.leases, now_unix_ms);
        let ghost table = self.table;
        let ghost before = old(self).provider.history();
        let mut i: usize = 0;
        assert(before.take(before.len() as int) =~= before);
        while i < due.len()
            invariant
                i <= due@.len(),
                self.table == table,
                ids == due@.map_values(|id: Vec<u8>| id@),
                asked_to_delete(before, self.provider.history(), ids.take(i as int)),
            decreases due@.len() - i,
        {
            let ghost so_far = self.provider.history();
            let _ignored = self.provider.delete_snapshot(&due[i]);
            proof {
                assert(ids[i as int] == due@[i as int]@);
                lemma_asked_once_more(
                    before,
                    so_far,
                    ids.take(i as int),
                    ids[i as int],
                    _ignored,
                );
                assert(ids.take(i + 1) =~= ids.take(i as int).push(ids[i as int]));
            }
            i += 1;
        }
        assert(ids.take(i as int) =~= ids);
    }

    /// Create a new snapshot and lease it for up to `maximum_lifetime_secs`.
    ///
    /// The backend, asked for a snapshot of this volume and root, decides: the lease is on the
    /// snapshot that it made, and its error is handed on.
    pub fn create_lease(
        &mut self,
        volume: &VolumeIdentity,
        requested_root: &[u8],
        maximum_lifetime_secs: u64,
        now_unix_ms: i64,
    ) -> (res: Result<CreatedLease, LeaseError>)
        requires
            old(self).wf(),
        ensures
            final(self).wf(),
            final(self).provider.history().len() > 0,
            asked_to_delete(
                old(self).provider.history(),
                final(self).provider.history().drop_last(),
                due_snapshots(old(self).table@.leases, now_unix_ms),
            ),
            ({
                &&& final(self).provider.history().last() matches VssCall::Create(
                    asked_volume,
                    asked_root,
                    answer,
                )
                &&& asked_volume == volume@
                &&& asked_root == requested_root@
                &&& match answer {
                    Ok(handle) => {
                        &&& res matches Ok(created)
                        &&& created.lease_id == old(self).table@.next_lease_id
                        &&& created.snapshot_id@ == handle.snapshot_id@
                        &&& created.device_identity@ == handle.device_identity@
                        &&& created.created_at_unix_ms == now_unix_ms
                        &&& created.expires_at_unix_ms == expiry(maximum_lifetime_secs, now_unix_ms)
                        &&& final(self).table@ == with_created(
                            swept_table(old(self).table@, now_unix_ms),
                            handle.snapshot_id@,
                            handle.device_identity@,
                            maximum_lifetime_secs,
                            now_unix_ms,
                        )
                    },
                    Err(err) => {
                        &&& res == Err::<CreatedLease, LeaseError>(LeaseError::Vss(err))
                        &&& final(self).table@ == swept_table(old(self).table@, now_unix_ms)
                    },
                }
            }),
    {
        self.sweep_expired(now_unix_ms);
        let ghost so_far = self.provider.history();
        let answer = self.provider.create_snapshot(volume, requested_root);
        assert(self.provider.history().drop_last() =~= so_far);
        match answer {
            Ok(handle) => Ok(
                self.table.create(
                    handle.snapshot_id,
                    handle.device_identity,
                    maximum_lifetime_secs,
                    now_unix_ms,
                ),
            ),
            Err(err) => Err(LeaseError::Vss(err)),
        }
    }

    /// Renew an active lease to a new absolute expiry.
    pub fn renew_lease(
        &mut self,
        lease_id: u64,
        requested_expiry_unix_ms: i64,
        now_unix_ms: i64,
    ) -> (res: Result<i64, LeaseError>)
        requires
            old(self).wf(),
        ensures
            final(self).wf(),
            asked_to_delete(
                old(self).provider.history(),
                final(self).provider.history(),
                due_snapshots(old(self).table@.leases, now_unix_ms),
            ),
            res == renew_answer(
                swept_table(old(self).table@, now_unix_ms),
                lease_id,
                requested_expiry_unix_ms,
            ),
            final(self).table@ == renewed(
                swept_table(old(self).table@, now_unix_ms),
                lease_id,
                requested_expiry_unix_ms,
            ),
    {
        self.sweep_expired(now_unix_ms);
        self.table.renew(lease_id, requested_expiry_unix_ms)
    }

    /// Release a lease, deleting its snapshot if that has not been torn down before.  Releasing a
    /// lease that has ended is a success that changes nothing; only an unknown lease is an error.
    pub fn release_lease(&mut self, lease_id: u64) -> (res: Result<(), LeaseError>)
        requires
            old(self).wf(),
        ensures
            final(self).wf(),
            match lookup(old(self).table@.leases, lease_id) {
                None => {
                    &&& final(self).provider == old(self).provider
                    &&& res == Err::<(), LeaseError>(LeaseError::NotFound)
                },
                Some(lease) => if lease.state == RecordState::Active {
                    &&& final(self).provider.history().len() > 0
                    &&& final(self).provider.history().drop_last() == old(self).provider.history()
                    &&& final(self).provider.history().last() matches VssCall::Delete(id, outcome)
                    &&& id == lease.snapshot_id
                    &&& match outcome {
                        Ok(_) => res is Ok,
                        Err(err) => res == Err::<(), LeaseError>(LeaseError::Vss(err)),
                    }
                } else {
                    &&& final(self).provider == old(self).provider
                    &&& res is Ok
                },
            },
            final(self).table@ == released(old(self).table@, lease_id, res is Ok),
    {
        match self.table.release_step(lease_id) {
            ReleaseStep::NotFound => Err(LeaseError::NotFound),
            ReleaseStep::AlreadyEnded => Ok(()),
            ReleaseStep::Delete(snapshot_id) => {
                let outcome = self.provider.delete_snapshot(&snapshot_id);
                assert(self.provider.history().drop_last() =~= old(self).provider.history());
                match outcome {
                    Ok(()) => {
                        self.table.release(lease_id, true);
                        Ok(())
                    },
                    Err(err) => Err(LeaseError::Vss(err)),
                }
            },
        }
    }

    /// Report a lease's current state, or `None` if there is no record of it.
    pub fn query_lease(&mut self, lease_id: u64, now_unix_ms: i64) -> (res: Option<LeaseStatus>)
        requires
            old(self).wf(),
        ensures
            final(self).wf(),
            asked_to_delete(
                old(self).provider.history(),
                final(self).provider.history(),
                due_snapshots(old(self).table@.leases, now_unix_ms),
            ),
            final(self).table@ == swept_table(old(self).table@, now_unix_ms),
            match lookup(final(self).table@.leases, lease_id) {
                None => res is None,
                Some(lease) => {
                    &&& res is Some
                    &&& res->Some_0.state == lease.state.wire()
                    &&& res->Some_0.snapshot_id@ == lease.snapshot_id
                    &&& res->Some_0.created_at_unix_ms == lease.created_at_unix_ms
                    &&& res->Some_0.expires_at_unix_ms == lease.expires_at_unix_ms
                },
            },
    {
        self.sweep_expired(now_unix_ms);
        self.table.status(lease_id)
    }

    /// The device path a lease's snapshot is reachable at, if the lease is currently active.
    pub fn device_identity_if_active(&mut self, lease_id: u64, now_unix_ms: i64) -> (res: Option<
        String,
    >)
        requires
            old(self).wf(),
        ensures
            final(self).wf(),
            asked_to_delete(
                old(self).provider.history(),
                final(self).provider.history(),
                due_snapshots(old(self).table@.leases, now_unix_ms),
            ),
            final(self).table@ == swept_table(old(self).table@, now_unix_ms),
            match lookup(final(self).table@.leases, lease_id) {
                Some(lease) => if lease.state == RecordState::Active {
                    res is Some && res->Some_0@ == lease.device_identity
                } else {
                    res is None
                },
                None => res is None,
            },
    {
        self.sweep_expired(now_unix_ms);
        self.table.active_device(lease_id)
    }

    /// Delete every snapshot that the backend reports as existing, and say how many deletions
    /// succeeded.  Only a failure to list them is an error, and it is handed on.
    ///
    /// What there is to delete, and which deletions succeed, is up to the backend.
    pub fn reconcile_at_startup(&mut self) -> (res: Result<usize, VssError>)
        requires
            old(self).wf(),
        ensures
            final(self).wf(),
            final(self).table == old(self).table,
            ({
                let before = old(self).provider.history();
                let after = final(self).provider.history();
                &&& after.len() > before.len()
                &&& after[before.len() as int] matches VssCall::List(answer)
                &&& match answer {
                    Ok(listed) => {
                        &&& asked_to_delete(
                            before.push(VssCall::List(answer)),
                            after,
                            listed_ids(listed@),
                        )
                        &&& res matches Ok(count)
                        &&& count == successes(outcomes(after.skip(before.len() as int + 1)))
                    },
                    Err(err) => {
                        &&& after == before.push(VssCall::List(answer))
                        &&& res == Err::<usize, VssError>(err)
                    },
                }
            }),
    {
        let ghost before = self.provider.history();
        let answer = self.provider.list_existing_snapshots();
        let ghost begun = self.provider.history();
        let existing = match answer {
            Ok(existing) => existing,
            Err(err) => {
                return Err(err);
            },
        };
        let ghost ids = listed_ids(existing@);
        let mut results: Vec<Result<(), VssError>> = Vec::new();
        let mut i: usize = 0;
        proof {
            assert(begun.take(begun.len() as int) =~= begun);
            assert(ids.take(0) =~= Seq::empty());
            assert(results@ =~= outcomes(begun.skip(begun.len() as int)));
        }
        while i < existing.len()
            invariant
                i <= existing@.len(),
                self.table == old(self).table,
                ids == listed_ids(existing@),
                asked_to_delete(begun, self.provider.history(), ids.take(i as int)),
                results@ == outcomes(self.provider.history().skip(begun.len() as int)),
            decreases existing@.len() - i,
        {
            let ghost so_far = self.provider.history();
            let outcome = self.provider.delete_snapshot(&existing[i]);
            let ghost given = outcome;
            results.push(outcome);
            proof {
                assert(ids[i as int] == existing@[i as int]@);
                lemma_asked_once_more(begun, so_far, ids.take(i as int), ids[i as int], given);
                assert(ids.take(i + 1) =~= ids.take(i as int).push(ids[i as int]));
                assert(results@ =~= outcomes(self.provider.history().skip(begun.len() as int)));
            }
            i += 1;
        }
        proof {
            assert(ids.take(i as int) =~= ids);
            let after = self.provider.history();
            assert(after.take(begun.len() as int)[before.len() as int] == after[before.len() as int]);
        }
        Ok(count_deleted(&results))
    }
}

// ---- laws ----

proof fn lemma_lookup_map(
    leases: Seq<LeaseView>,
    f: spec_fn(LeaseView) -> LeaseView,
    lease_id: u64,
)
    requires
        forall|lease: LeaseView| (#[trigger] f(lease)).lease_id == lease.lease_id,
    ensures
        lookup(leases.map_values(f), lease_id) == match lookup(leases, lease_id) {
            Some(lease) => Some(f(lease)),
            None => None,
        },
    decreases leases.len(),
{
    if leases.len() > 0 {
        assert(leases.map_values(f).drop_last() =~= leases.drop_last().map_values(f));
        lemma_lookup_map(leases.drop_last(), f, lease_id);
    }
}

proof fn lemma_lookup_put(leases: Seq<LeaseView>, lease: LeaseView, other: u64)
    ensures
        lookup(put(leases, lease), lease.lease_id) == Some(lease),
        other != lease.lease_id ==> lookup(put(leases, lease), other) == lookup(leases, other),
{
    if lookup(leases, lease.lease_id) is None {
        assert(leases.push(lease).drop_last() =~= leases);
    } else {
        let f = |old_lease: LeaseView|
            if old_lease.lease_id == lease.lease_id {
                lease
            } else {
                old_lease
            };
        assert(put(leases, lease) =~= leases.map_values(f));
        lemma_lookup(leases, lease.lease_id);
        lemma_lookup_map(leases, f, lease.lease_id);
        lemma_lookup_map(leases, f, other);
        lemma_lookup(leases, other);
    }
}

/// What a sweep does to one lease: it is expired exactly when it was active and its time has come,
/// and it is otherwise left as it was.
pub proof fn law_sweep_of_one_lease(leases: Seq<LeaseView>, lease_id: u64, now: i64)
    ensures
        lookup(swept(leases, now), lease_id) == match lookup(leases, lease_id) {
            Some(lease) => Some(swept_lease(lease, now)),
            None => None,
        },
{
    lemma_lookup_map(leases, |lease: LeaseView| swept_lease(lease, now), lease_id);
}

/// An operation on a lease table.
pub enum LeaseOp {
    /// A sweep at a time.
    Sweep(i64),
    /// The creation of a lease, by its snapshot, its device, its lifetime and the time.
    Create(Seq<u8>, Seq<char>, u64, i64),
    /// The renewal of a lease until a time.
    Renew(u64, i64),
    /// The release of a lease, and whether its snapshot was deleted.
    Release(u64, bool),
}

/// The table after an operation.
pub open spec fn operated(table: TableView, op: LeaseOp) -> TableView {
    match op {
        LeaseOp::Sweep(now) => swept_table(table, now),
        LeaseOp::Create(snapshot_id, device_identity, secs, now) => with_created(
            table,
            snapshot_id,
            device_identity,
            secs,
            now,
        ),
        LeaseOp::Renew(lease_id, expires) => renewed(table, lease_id, expires),
        LeaseOp::Release(lease_id, deleted) => released(table, lease_id, deleted),
    }
}

/// The table after operations, one after the other.
pub open spec fn operated_all(table: TableView, ops: Seq<LeaseOp>) -> TableView
    decreases ops.len(),
{
    if ops.len() == 0 {
        table
    } else {
        operated(operated_all(table, ops.drop_last()), ops.last())
    }
}

/// The identifiers that operations hand out, in order.
pub open spec fn handed_out(table: TableView, ops: Seq<LeaseOp>) -> Seq<u64>
    decreases ops.len(),
{
    if ops.len() == 0 {
        Seq::empty()
    } else {
        let before = handed_out(table, ops.drop_last());
        if ops.last() is Create {
            before.push(operated_all(table, ops.drop_last()).next_lease_id)
        } else {
            before
        }
    }
}

/// A lease that has expired or been released stays as it is under every later operation, whatever
/// lease that operation names, unless the operation hands its identifier out again.
pub proof fn law_ended_lease_stays_ended(table: TableView, lease_id: u64, op: LeaseOp)
    requires
        lookup(table.leases, lease_id) is Some,
        lookup(table.leases, lease_id)->Some_0.state != RecordState::Active,
        op is Create ==> table.next_lease_id != lease_id,
    ensures
        lookup(operated(table, op).leases, lease_id) == lookup(table.leases, lease_id),
{
    lemma_lookup(table.leases, lease_id);
    match op {
        LeaseOp::Sweep(now) => law_sweep_of_one_lease(table.leases, lease_id, now),
        LeaseOp::Create(snapshot_id, device_identity, secs, now) => {
            law_created_lease_lives_until_its_expiry(
                table,
                snapshot_id,
                device_identity,
                secs,
                now,
                now,
                lease_id,
            );
        },
        LeaseOp::Renew(named, expires) => lemma_lookup_map(
            table.leases,
            |lease: LeaseView|
                if lease.lease_id == named {
                    LeaseView { expires_at_unix_ms: expires, ..lease }
                } else {
                    lease
                },
            lease_id,
        ),
        LeaseOp::Release(named, _) => lemma_lookup_map(
            table.leases,
            |lease: LeaseView|
                if lease.lease_id == named {
                    LeaseView { state: RecordState::Released, ..lease }
                } else {
                    lease
                },
            lease_id,
        ),
    }
}

/// A lease that has expired or been released stays as it is over a run of operations that the
/// counter outlasts.
pub proof fn law_ended_lease_stays_ended_over_a_run(
    table: TableView,
    lease_id: u64,
    ops: Seq<LeaseOp>,
)
    requires
        counting(table),
        table.next_lease_id + ops.len() < u64::MAX,
        lookup(table.leases, lease_id) is Some,
        lookup(table.leases, lease_id)->Some_0.state != RecordState::Active,
    ensures
        lookup(operated_all(table, ops).leases, lease_id) == lookup(table.leases, lease_id),
    decreases ops.len(),
{
    if ops.len() > 0 {
        let earlier = ops.drop_last();
        law_ended_lease_stays_ended_over_a_run(table, lease_id, earlier);
        law_lease_ids_are_fresh_over_a_run(table, earlier);
        lemma_lookup(table.leases, lease_id);
        law_ended_lease_stays_ended(operated_all(table, earlier), lease_id, ops.last());
    }
}

/// Operations on one lease leave every other lease as it was.
pub proof fn law_other_leases_are_untouched(
    table: TableView,
    named: u64,
    other: u64,
    expires: i64,
    deleted: bool,
)
    requires
        named != other,
    ensures
        lookup(renewed(table, named, expires).leases, other) == lookup(table.leases, other),
        lookup(released(table, named, deleted).leases, other) == lookup(table.leases, other),
{
    lemma_lookup(table.leases, other);
    lemma_lookup_map(
        table.leases,
        |lease: LeaseView|
            if lease.lease_id == named {
                LeaseView { expires_at_unix_ms: expires, ..lease }
            } else {
                lease
            },
        other,
    );
    lemma_lookup_map(
        table.leases,
        |lease: LeaseView|
            if lease.lease_id == named {
                LeaseView { state: RecordState::Released, ..lease }
            } else {
                lease
            },
        other,
    );
}

/// A lease that was just created is found under its identifier, active, with the expiry that its
/// lifetime gives; a query before that expiry reports it active, one from then on reports it
/// expired; and no other lease changes.
pub proof fn law_created_lease_lives_until_its_expiry(
    table: TableView,
    snapshot_id: Seq<u8>,
    device_identity: Seq<char>,
    secs: u64,
    now: i64,
    later: i64,
    other: u64,
)
    ensures
        ({
            let created = with_created(table, snapshot_id, device_identity, secs, now);
            let id = table.next_lease_id;
            let lease = fresh_lease(id, snapshot_id, device_identity, secs, now);
            &&& lookup(created.leases, id) == Some(lease)
            &&& lookup(swept(created.leases, later), id) == Some(
                if later >= expiry(secs, now) {
                    LeaseView { state: RecordState::Expired, ..lease }
                } else {
                    lease
                },
            )
            &&& other != id ==> lookup(created.leases, other) == lookup(table.leases, other)
        }),
{
    let lease = fresh_lease(table.next_lease_id, snapshot_id, device_identity, secs, now);
    lemma_lookup_put(table.leases, lease, other);
    law_sweep_of_one_lease(put(table.leases, lease), table.next_lease_id, later);
}

/// A renewal is accepted exactly for a lease that is active at that time, and the lease then lives
/// until the requested expiry.
pub proof fn law_renewed_lease_lives_until_its_new_expiry(
    table: TableView,
    lease_id: u64,
    expires: i64,
    later: i64,
)
    requires
        renew_answer(table, lease_id, expires) is Ok,
    ensures
        ({
            let lease = lookup(table.leases, lease_id)->Some_0;
            let after = lookup(swept(renewed(table, lease_id, expires).leases, later), lease_id);
            &&& after is Some
            &&& after->Some_0.expires_at_unix_ms == expires
            &&& after->Some_0.snapshot_id == lease.snapshot_id
            &&& after->Some_0.state == (if later >= expires {
                RecordState::Expired
            } else {
                RecordState::Active
            })
        }),
{
    lemma_lookup(table.leases, lease_id);
    lemma_lookup_map(
        table.leases,
        |lease: LeaseView|
            if lease.lease_id == lease_id {
                LeaseView { expires_at_unix_ms: expires, ..lease }
            } else {
                lease
            },
        lease_id,
    );
    law_sweep_of_one_lease(renewed(table, lease_id, expires).leases, lease_id, later);
}

/// Releasing an active lease whose snapshot could be deleted leaves it released, and releasing it
/// again changes nothing and asks for no deletion.
pub proof fn law_release_is_idempotent(table: TableView, lease_id: u64, deleted: bool)
    requires
        lookup(table.leases, lease_id) is Some,
        lookup(table.leases, lease_id)->Some_0.state == RecordState::Active,
    ensures
        ({
            let once = released(table, lease_id, true);
            &&& lookup(once.leases, lease_id) is Some
            &&& lookup(once.leases, lease_id)->Some_0.state == RecordState::Released
            &&& release_asks(once, lease_id) is None
            &&& released(once, lease_id, deleted) == once
        }),
{
    lemma_lookup(table.leases, lease_id);
    lemma_lookup_map(
        table.leases,
        |lease: LeaseView|
            if lease.lease_id == lease_id {
                LeaseView { state: RecordState::Released, ..lease }
            } else {
                lease
            },
        lease_id,
    );
}

/// A snapshot is deleted for expiry once: two sweeps together delete the snapshots that a single
/// sweep at the later of the two times deletes, each as often, and a sweep straight after another one at the same time
/// deletes none and changes nothing.
pub proof fn law_each_snapshot_is_due_once(leases: Seq<LeaseView>, first: i64, second: i64)
    ensures
        due_snapshots(leases, first).to_multiset().add(
            due_snapshots(swept(leases, first), second).to_multiset(),
        ) == due_snapshots(
            leases,
            if first >= second {
                first
            } else {
                second
            },
        ).to_multiset(),
        due_snapshots(swept(leases, first), first) == Seq::<Seq<u8>>::empty(),
        swept(swept(leases, first), first) == swept(leases, first),
    decreases leases.len(),
{
    broadcast use vstd::seq_lib::group_to_multiset_ensures;

    let later = if first >= second {
        first
    } else {
        second
    };
    if leases.len() > 0 {
        assert(swept(leases, first).drop_last() =~= swept(leases.drop_last(), first));
        law_each_snapshot_is_due_once(leases.drop_last(), first, second);
    }
    assert(due_snapshots(leases, first).to_multiset().add(
        due_snapshots(swept(leases, first), second).to_multiset(),
    ) =~= due_snapshots(leases, later).to_multiset());
    assert(swept(swept(leases, first), first) =~= swept(leases, first));
}

/// Whether every identifier of the table has been handed out by counting from 1, and the count can
/// go on.
pub open spec fn counting(table: TableView) -> bool {
    &&& 1 <= table.next_lease_id < u64::MAX
    &&& forall|i: int|
        0 <= i < table.leases.len() ==> 1 <= (#[trigger] table.leases[i]).lease_id
            < table.next_lease_id
}

/// As long as the counter has not run out, a new lease gets an identifier that no lease has had,
/// larger than every earlier one and never zero, and it is added behind them.
pub proof fn law_lease_ids_are_fresh(
    table: TableView,
    snapshot_id: Seq<u8>,
    device_identity: Seq<char>,
    secs: u64,
    now: i64,
)
    requires
        counting(table),
    ensures
        lookup(table.leases, table.next_lease_id) is None,
        table.next_lease_id != 0,
        with_created(table, snapshot_id, device_identity, secs, now).leases == table.leases.push(
            fresh_lease(table.next_lease_id, snapshot_id, device_identity, secs, now),
        ),
        table.next_lease_id + 1 < u64::MAX ==> counting(
            with_created(table, snapshot_id, device_identity, secs, now),
        ),
{
    lemma_lookup(table.leases, table.next_lease_id);
}

/// Over a run of operations that the counter outlasts, the identifiers that are handed out count on
/// from the first: so no two are the same, none is zero, and none is that of a lease that was there
/// before.
pub proof fn law_lease_ids_are_fresh_over_a_run(table: TableView, ops: Seq<LeaseOp>)
    requires
        counting(table),
        table.next_lease_id + ops.len() < u64::MAX,
    ensures
        counting(operated_all(table, ops)),
        operated_all(table, ops).next_lease_id == table.next_lease_id + handed_out(
            table,
            ops,
        ).len(),
        handed_out(table, ops).len() <= ops.len(),
        forall|k: int|
            0 <= k < handed_out(table, ops).len() ==> {
                &&& (#[trigger] handed_out(table, ops)[k]) == table.next_lease_id + k
                &&& handed_out(table, ops)[k] != 0
                &&& lookup(table.leases, handed_out(table, ops)[k]) is None
            },
        handed_out(table, ops).no_duplicates(),
    decreases ops.len(),
{
    if ops.len() > 0 {
        let earlier = ops.drop_last();
        let before = operated_all(table, earlier);
        law_lease_ids_are_fresh_over_a_run(table, earlier);
        lemma_lookup(table.leases, before.next_lease_id);
        match ops.last() {
            LeaseOp::Create(snapshot_id, device_identity, secs, now) => {
                law_lease_ids_are_fresh(before, snapshot_id, device_identity, secs, now);
            },
            _ => {
                let after = operated(before, ops.last());
                assert forall|i: int| 0 <= i < after.leases.len() implies 1 <= (
                #[trigger] after.leases[i]).lease_id < after.next_lease_id by {
                    assert(after.leases[i].lease_id == before.leases[i].lease_id);
                }
            },
        }
    }
}

/// A sweep keeps every lease in its place and with its contents; what was active and whose time has
/// come is expired, and every other state stays.  The snapshots that are deleted are those of the
/// leases that expire, in their order.
pub proof fn law_what_a_sweep_does(leases: Seq<LeaseView>, now: i64, i: int)
    ensures
        swept(leases, now).len() == leases.len(),
        0 <= i < leases.len() ==> {
            let before = leases[i];
            let after = swept(leases, now)[i];
            &&& after.lease_id == before.lease_id
            &&& after.snapshot_id == before.snapshot_id
            &&& after.device_identity == before.device_identity
            &&& after.created_at_unix_ms == before.created_at_unix_ms
            &&& after.expires_at_unix_ms == before.expires_at_unix_ms
            &&& before.state == RecordState::Active && before.expires_at_unix_ms <= now
                ==> after.state == RecordState::Expired
            &&& before.state != RecordState::Active || before.expires_at_unix_ms > now
                ==> after.state == before.state
        },
        due_snapshots(leases, now) == leases.filter(
            |lease: LeaseView|
                lease.state == RecordState::Active && lease.expires_at_unix_ms <= now,
        ).map_values(|lease: LeaseView| lease.snapshot_id),
    decreases leases.len(),
{
    reveal(Seq::filter);
    let ends = |lease: LeaseView|
        lease.state == RecordState::Active && lease.expires_at_unix_ms <= now;
    let name = |lease: LeaseView| lease.snapshot_id;
    if leases.len() > 0 {
        let rest = leases.drop_last();
        law_what_a_sweep_does(rest, now, 0);
        let before = rest.filter(ends);
        assert(before.push(leases.last()).map_values(name) =~= before.map_values(name).push(
            leases.last().snapshot_id,
        ));
    }
    assert(due_snapshots(leases, now) =~= leases.filter(ends).map_values(name));
}

/// A lease lives as many seconds as were asked for, counted from its creation, as far as the clock
/// can tell them; and the counter of leases goes on by one, past its largest number to one.
pub proof fn law_how_long_a_lease_lives(secs: u64, now: i64, res: i64, id: u64)
    requires
        call_ensures(secs_to_ms_saturating, (secs,), res),
    ensures
        secs <= 9_223_372_036_854_775 ==> res == 1000 * secs,
        secs > 9_223_372_036_854_775 ==> res == i64::MAX,
        now + res <= i64::MAX ==> expiry(secs, now) == now + res,
        now + res > i64::MAX ==> expiry(secs, now) == i64::MAX,
        id < u64::MAX ==> next_id(id) == id + 1,
        next_id(u64::MAX) == 1,
{
}

/// What is told of a lease is what the table holds of it, in the words of the protocol; a device is
/// handed out, and a deletion asked for, for an active lease alone.
pub proof fn law_what_the_table_tells_of_a_lease(
    table: &LeaseTable,
    lease_id: u64,
    status: Option<LeaseStatus>,
    device: Option<String>,
    step: ReleaseStep,
    i: int,
)
    requires
        table.wf(),
        call_ensures(LeaseTable::status, (table, lease_id), status),
        call_ensures(LeaseTable::active_device, (table, lease_id), device),
        call_ensures(LeaseTable::release_step, (table, lease_id), step),
        0 <= i < table@.leases.len(),
    ensures
        table@.leases[i].lease_id == lease_id ==> {
            let lease = table@.leases[i];
            &&& status is Some
            &&& status->Some_0.snapshot_id@ == lease.snapshot_id
            &&& status->Some_0.created_at_unix_ms == lease.created_at_unix_ms
            &&& status->Some_0.expires_at_unix_ms == lease.expires_at_unix_ms
            &&& status->Some_0.state == SnapshotLeaseState::Active <==> lease.state
                == RecordState::Active
            &&& status->Some_0.state == SnapshotLeaseState::Expired <==> lease.state
                == RecordState::Expired
            &&& status->Some_0.state == SnapshotLeaseState::Released <==> lease.state
                == RecordState::Released
            &&& device is Some <==> lease.state == RecordState::Active
            &&& device is Some ==> device->Some_0@ == lease.device_identity
            &&& step is Delete <==> lease.state == RecordState::Active
            &&& step is AlreadyEnded <==> lease.state != RecordState::Active
            &&& step is Delete ==> step->Delete_0@ == lease.snapshot_id
        },
{
    if table@.leases[i].lease_id == lease_id {
        lemma_lookup_at(table@.leases, i);
    }
}

/// Of a lease that is not there nothing is told, and there is nothing to release.
pub proof fn law_nothing_is_told_of_an_unknown_lease(
    table: &LeaseTable,
    lease_id: u64,
    status: Option<LeaseStatus>,
    device: Option<String>,
    step: ReleaseStep,
)
    requires
        table.wf(),
        call_ensures(LeaseTable::status, (table, lease_id), status),
        call_ensures(LeaseTable::active_device, (table, lease_id), device),
        call_ensures(LeaseTable::release_step, (table, lease_id), step),
        forall|i: int|
            0 <= i < table@.leases.len() ==> (#[trigger] table@.leases[i]).lease_id != lease_id,
    ensures
        status is None,
        device is None,
        step is NotFound,
{
    lemma_lookup(table@.leases, lease_id);
}

/// What creating, renewing and releasing do to each place of a table.
pub proof fn law_what_operations_do_to_a_place(
    table: TableView,
    snapshot_id: Seq<u8>,
    device_identity: Seq<char>,
    secs: u64,
    now: i64,
    lease_id: u64,
    expires: i64,
    deleted: bool,
    i: int,
)
    requires
        distinct(table.leases),
        0 <= i < table.leases.len(),
    ensures
        ({
            let created = with_created(table, snapshot_id, device_identity, secs, now);
            let before = table.leases[i];
            &&& before.lease_id != table.next_lease_id ==> created.leases[i] == before
            &&& before.lease_id == table.next_lease_id ==> {
                let after = created.leases[i];
                &&& after.lease_id == table.next_lease_id
                &&& after.snapshot_id == snapshot_id
                &&& after.device_identity == device_identity
                &&& after.created_at_unix_ms == now
                &&& after.expires_at_unix_ms == expiry(secs, now)
                &&& after.state == RecordState::Active
            }
        }),
        ({
            let before = table.leases[i];
            let after = renewed(table, lease_id, expires).leases[i];
            &&& before.lease_id == lease_id && before.state == RecordState::Active ==> after == (
            LeaseView { expires_at_unix_ms: expires, ..before })
            &&& before.lease_id != lease_id || before.state != RecordState::Active ==> after
                == before
            &&& before.lease_id == lease_id ==> (renew_answer(table, lease_id, expires) == if before.state
                == RecordState::Active {
                Ok::<i64, LeaseError>(expires)
            } else {
                Err::<i64, LeaseError>(LeaseError::NotActive)
            })
        }),
        ({
            let before = table.leases[i];
            let after = released(table, lease_id, deleted).leases[i];
            &&& before.lease_id == lease_id && before.state == RecordState::Active && deleted
                ==> after == (LeaseView { state: RecordState::Released, ..before })
            &&& before.lease_id != lease_id || before.state != RecordState::Active || !deleted
                ==> after == before
        }),
{
    lemma_lookup_at(table.leases, i);
    lemma_lookup(table.leases, lease_id);
    lemma_lookup(table.leases, table.next_lease_id);
}

/// Every success counts once, wherever it stands.
pub proof fn law_each_success_counts_once(
    outcomes: &[Result<(), VssError>],
    more: &[Result<(), VssError>],
    last: Result<(), VssError>,
    before: usize,
    after: usize,
)
    requires
        call_ensures(count_deleted, (outcomes,), before),
        call_ensures(count_deleted, (more,), after),
        more@ == outcomes@.push(last),
    ensures
        outcomes@.len() == 0 ==> before == 0,
        last is Ok ==> after == before + 1,
        last is Err ==> after == before,
{
    assert(more@.drop_last() =~= outcomes@);
}

/// What a failure tells: what was being done, and the reason.
pub proof fn law_what_a_failure_tells(err: LeaseError, res: String, vss: VssError, told: String)
    requires
        call_ensures(LeaseError::message, (&err,), res),
        call_ensures(VssError::message, (&vss,), told),
    ensures
        err is NotFound ==> res@ == "lease not found"@,
        err is NotActive ==> res@ == "lease is not active"@,
        err == LeaseError::Vss(vss) ==> res@ == told@,
        vss matches VssError::InvalidVolume(detail) ==> told@ == "volume validation failed: "@
            + detail@,
        vss matches VssError::CreateFailed { hresult, message } ==> told@
            == "snapshot creation failed: "@ + message@,
        vss matches VssError::DeleteFailed(detail) ==> told@ == "snapshot deletion failed: "@
            + detail@,
{
}

} // verus!
