//! The individual request and response messages of the snapshot manager.
//!
//! For each message, `*_bytes` is its wire form and `get_*` is what a decoder finds at the front
//! of some input.

use super::codec;
use super::codec::{
    write_all, write_bytes_u32_prefixed, write_i64_le, write_string_u16_prefixed, write_u32_le,
    write_u64_le, Reader, SnapshotProtocolError,
};
use vstd::prelude::*;

verus! {

/// Maximum byte length for opaque identifier fields (volume GUIDs, snapshot ids, device identity
/// strings).
pub const MAX_IDENTIFIER_BYTES: u32 = 1024;

/// Maximum byte length for a lossless UTF-16LE `requested_root` path.
pub const MAX_PATH_BYTES: u32 = 32_767 * 2;

/// [`MAX_IDENTIFIER_BYTES`] for a device identity string, whose length takes two bytes.
pub const MAX_DEVICE_BYTES: u16 = 1024;

// ---- volume identity ----

/// A source volume's identity.
#[derive(Debug, Clone, PartialEq, Eq)]
pub struct VolumeIdentity {
    /// NTFS volume serial number.
    pub volume_serial: u64,
    /// Opaque volume GUID bytes.
    pub volume_guid: Vec<u8>,
}

/// The contents of a [`VolumeIdentity`].
#[verifier::ext_equal]
pub struct VolumeIdentityView {
    /// NTFS volume serial number.
    pub volume_serial: u64,
    /// Opaque volume GUID bytes.
    pub volume_guid: Seq<u8>,
}

impl View for VolumeIdentity {
    type V = VolumeIdentityView;

    open spec fn view(&self) -> VolumeIdentityView {
        VolumeIdentityView { volume_serial: self.volume_serial, volume_guid: self.volume_guid@ }
    }
}

/// Wire form of a volume identity.
pub open spec fn volume_bytes(v: VolumeIdentityView) -> Seq<u8> {
    codec::le_bytes(v.volume_serial as nat, 8) + codec::prefixed_bytes(v.volume_guid)
}

/// What a decoder of a volume identity finds.
pub open spec fn get_volume(input: Seq<u8>) -> codec::Parsed<VolumeIdentityView> {
    match codec::get_le(input, 8) {
        Err(err) => Err(err),
        Ok((serial, rest)) => match codec::get_prefixed(
            rest,
            4,
            "volume_guid",
            MAX_IDENTIFIER_BYTES as nat,
        ) {
            Err(err) => Err(err),
            Ok((guid, rest)) => Ok(
                (VolumeIdentityView { volume_serial: serial as u64, volume_guid: guid }, rest),
            ),
        },
    }
}

impl VolumeIdentity {
    /// Append this identity's wire encoding to `out`.
    pub(crate) fn encode(&self, out: &mut Vec<u8>)
        ensures
            final(out)@ == old(out)@ + volume_bytes(self@),
    {
        write_u64_le(out, self.volume_serial);
        write_bytes_u32_prefixed(out, &self.volume_guid);
        assert(out@ =~= old(out)@ + volume_bytes(self@));
    }

    /// Decode an identity from `reader`.
    pub(crate) fn decode(reader: &mut Reader<'_>) -> (res: Result<Self, SnapshotProtocolError>)
        requires
            old(reader).wf(),
        ensures
            final(reader).wf(),
            match (get_volume(old(reader).rest()), res) {
                (Ok((value, rest)), Ok(found)) => found@ == value && final(reader).rest() == rest,
                (Err(err), Err(found)) => found == err,
                _ => false,
            },
    {
        let volume_serial: u64 = match reader.read_u64_le() {
            Ok(value) => value,
            Err(err) => {
                return Err(err);
            },
        };
        match reader.read_bytes_u32_prefixed("volume_guid", MAX_IDENTIFIER_BYTES) {
            Ok(volume_guid) => Ok(VolumeIdentity { volume_serial, volume_guid }),
            Err(err) => Err(err),
        }
    }
}

/// A volume identity within its limits is read back.
pub proof fn lemma_volume_round_trip(v: VolumeIdentityView, tail: Seq<u8>)
    requires
        v.volume_guid.len() <= MAX_IDENTIFIER_BYTES,
    ensures
        get_volume(volume_bytes(v) + tail) == Ok::<
            (VolumeIdentityView, Seq<u8>),
            SnapshotProtocolError,
        >((v, tail)),
{
    let guid = codec::prefixed_bytes(v.volume_guid);
    assert(volume_bytes(v) + tail =~= codec::le_bytes(v.volume_serial as nat, 8) + (guid + tail));
    codec::lemma_get_u64(v.volume_serial, guid + tail);
    codec::lemma_get_prefixed(v.volume_guid, "volume_guid", MAX_IDENTIFIER_BYTES, tail);
}

// ---- create ----

/// `CreateSnapshotLease` request.
#[derive(Debug, Clone, PartialEq, Eq)]
pub struct CreateSnapshotLease {
    /// Job this snapshot is being created for.
    pub authenticated_job_id: [u8; 16],
    /// Identity of the volume to snapshot.
    pub source_volume_identity: VolumeIdentity,
    /// Requested root, as lossless UTF-16LE code-unit bytes.
    pub requested_root: Vec<u8>,
    /// Maximum lease lifetime, in seconds.
    pub maximum_lifetime_secs: u64,
    /// Policy this job was authorized under.
    pub policy_id: u32,
}

/// The contents of a [`CreateSnapshotLease`].
#[verifier::ext_equal]
pub struct CreateSnapshotLeaseView {
    /// Job this snapshot is being created for, sixteen bytes.
    pub authenticated_job_id: Seq<u8>,
    /// Identity of the volume to snapshot.
    pub source_volume_identity: VolumeIdentityView,
    /// Requested root.
    pub requested_root: Seq<u8>,
    /// Maximum lease lifetime, in seconds.
    pub maximum_lifetime_secs: u64,
    /// Policy this job was authorized under.
    pub policy_id: u32,
}

impl View for CreateSnapshotLease {
    type V = CreateSnapshotLeaseView;

    open spec fn view(&self) -> CreateSnapshotLeaseView {
        CreateSnapshotLeaseView {
            authenticated_job_id: self.authenticated_job_id@,
            source_volume_identity: self.source_volume_identity@,
            requested_root: self.requested_root@,
            maximum_lifetime_secs: self.maximum_lifetime_secs,
            policy_id: self.policy_id,
        }
    }
}

/// Wire form of a create request.
pub open spec fn create_bytes(v: CreateSnapshotLeaseView) -> Seq<u8> {
    v.authenticated_job_id + volume_bytes(v.source_volume_identity) + codec::prefixed_bytes(
        v.requested_root,
    ) + codec::le_bytes(v.maximum_lifetime_secs as nat, 8) + codec::le_bytes(v.policy_id as nat, 4)
}

/// What a decoder of a create request finds.
pub open spec fn get_create(input: Seq<u8>) -> codec::Parsed<CreateSnapshotLeaseView> {
    match codec::get_raw(input, 16) {
        Err(err) => Err(err),
        Ok((job, rest)) => match get_volume(rest) {
            Err(err) => Err(err),
            Ok((volume, rest)) => match codec::get_prefixed(
                rest,
                4,
                "requested_root",
                MAX_PATH_BYTES as nat,
            ) {
                Err(err) => Err(err),
                Ok((root, rest)) => match codec::get_le(rest, 8) {
                    Err(err) => Err(err),
                    Ok((lifetime, rest)) => match codec::get_le(rest, 4) {
                        Err(err) => Err(err),
                        Ok((policy, rest)) => Ok(
                            (
                                CreateSnapshotLeaseView {
                                    authenticated_job_id: job,
                                    source_volume_identity: volume,
                                    requested_root: root,
                                    maximum_lifetime_secs: lifetime as u64,
                                    policy_id: policy as u32,
                                },
                                rest,
                            ),
                        ),
                    },
                },
            },
        },
    }
}

impl CreateSnapshotLease {
    /// Encode this request.
    #[must_use]
    pub fn encode(&self) -> (out: Vec<u8>)
        ensures
            out@ == create_bytes(self@),
    {
        let mut out: Vec<u8> = Vec::new();
        write_all(&mut out, &self.authenticated_job_id);
        self.source_volume_identity.encode(&mut out);
        write_bytes_u32_prefixed(&mut out, &self.requested_root);
        write_u64_le(&mut out, self.maximum_lifetime_secs);
        write_u32_le(&mut out, self.policy_id);
        assert(out@ =~= create_bytes(self@));
        out
    }

    /// Decode this request.
    pub(crate) fn decode(reader: &mut Reader<'_>) -> (res: Result<Self, SnapshotProtocolError>)
        requires
            old(reader).wf(),
        ensures
            final(reader).wf(),
            match (get_create(old(reader).rest()), res) {
                (Ok((value, rest)), Ok(found)) => found@ == value && final(reader).rest() == rest,
                (Err(err), Err(found)) => found == err,
                _ => false,
            },
    {
        let authenticated_job_id: [u8; 16] = match reader.take(16) {
            Ok(b) => [
                b[0], b[1], b[2], b[3], b[4], b[5], b[6], b[7],
                b[8], b[9], b[10], b[11], b[12], b[13], b[14], b[15],
            ],
            Err(err) => {
                return Err(err);
            },
        };
        assert(authenticated_job_id@ =~= old(reader).rest().take(16));
        let source_volume_identity = match VolumeIdentity::decode(reader) {
            Ok(value) => value,
            Err(err) => {
                return Err(err);
            },
        };
        let requested_root = match reader.read_bytes_u32_prefixed("requested_root", MAX_PATH_BYTES) {
            Ok(value) => value,
            Err(err) => {
                return Err(err);
            },
        };
        let maximum_lifetime_secs: u64 = match reader.read_u64_le() {
            Ok(value) => value,
            Err(err) => {
                return Err(err);
            },
        };
        match reader.read_u32_le() {
            Ok(policy_id) => Ok(
                CreateSnapshotLease {
                    authenticated_job_id,
                    source_volume_identity,
                    requested_root,
                    maximum_lifetime_secs,
                    policy_id,
                },
            ),
            Err(err) => Err(err),
        }
    }
}

/// A create request within its limits is read back.
pub proof fn lemma_create_round_trip(v: CreateSnapshotLeaseView, tail: Seq<u8>)
    requires
        v.authenticated_job_id.len() == 16,
        v.source_volume_identity.volume_guid.len() <= MAX_IDENTIFIER_BYTES,
        v.requested_root.len() <= MAX_PATH_BYTES,
    ensures
        get_create(create_bytes(v) + tail) == Ok::<
            (CreateSnapshotLeaseView, Seq<u8>),
            SnapshotProtocolError,
        >((v, tail)),
{
    let volume = volume_bytes(v.source_volume_identity);
    let root = codec::prefixed_bytes(v.requested_root);
    let lifetime = codec::le_bytes(v.maximum_lifetime_secs as nat, 8);
    let policy = codec::le_bytes(v.policy_id as nat, 4);
    let input = create_bytes(v) + tail;
    assert(input.take(16) =~= v.authenticated_job_id);
    assert(input.skip(16) =~= volume + (root + (lifetime + (policy + tail))));
    lemma_volume_round_trip(v.source_volume_identity, root + (lifetime + (policy + tail)));
    codec::lemma_get_prefixed(
        v.requested_root,
        "requested_root",
        MAX_PATH_BYTES,
        lifetime + (policy + tail),
    );
    codec::lemma_get_u64(v.maximum_lifetime_secs, policy + tail);
    codec::lemma_get_u32(v.policy_id, tail);
}

// ---- create result ----

/// `CreateSnapshotLeaseResult` response.
#[derive(Debug, Clone, PartialEq, Eq)]
pub struct CreateSnapshotLeaseResult {
    /// Lease identifier the coordinator uses in all subsequent calls.
    pub snapshot_lease_id: u64,
    /// Opaque VSS snapshot identifier.
    pub snapshot_id: Vec<u8>,
    /// Device path the snapshot is reachable at; it is not a handle, so it is safe to hand to the
    /// coordinator.
    pub snapshot_device_identity: String,
    /// Snapshot creation time, Unix milliseconds.
    pub snapshot_created_at_unix_ms: i64,
    /// Current lease expiry time, Unix milliseconds.
    pub expires_at_unix_ms: i64,
}

/// The contents of a [`CreateSnapshotLeaseResult`].
#[verifier::ext_equal]
pub struct CreateSnapshotLeaseResultView {
    /// Lease identifier.
    pub snapshot_lease_id: u64,
    /// Opaque VSS snapshot identifier.
    pub snapshot_id: Seq<u8>,
    /// Device path the snapshot is reachable at.
    pub snapshot_device_identity: Seq<char>,
    /// Snapshot creation time, Unix milliseconds.
    pub snapshot_created_at_unix_ms: i64,
    /// Current lease expiry time, Unix milliseconds.
    pub expires_at_unix_ms: i64,
}

impl View for CreateSnapshotLeaseResult {
    type V = CreateSnapshotLeaseResultView;

    open spec fn view(&self) -> CreateSnapshotLeaseResultView {
        CreateSnapshotLeaseResultView {
            snapshot_lease_id: self.snapshot_lease_id,
            snapshot_id: self.snapshot_id@,
            snapshot_device_identity: self.snapshot_device_identity@,
            snapshot_created_at_unix_ms: self.snapshot_created_at_unix_ms,
            expires_at_unix_ms: self.expires_at_unix_ms,
        }
    }
}

/// Wire form of a create result.
pub open spec fn create_result_bytes(v: CreateSnapshotLeaseResultView) -> Seq<u8> {
    codec::le_bytes(v.snapshot_lease_id as nat, 8) + codec::prefixed_bytes(v.snapshot_id)
        + codec::prefixed_string(v.snapshot_device_identity) + codec::le_bytes(
        (v.snapshot_created_at_unix_ms as u64) as nat,
        8,
    ) + codec::le_bytes((v.expires_at_unix_ms as u64) as nat, 8)
}

/// What a decoder of a create result finds.
pub open spec fn get_create_result(input: Seq<u8>) -> codec::Parsed<CreateSnapshotLeaseResultView> {
    match codec::get_le(input, 8) {
        Err(err) => Err(err),
        Ok((id, rest)) => match codec::get_prefixed(
            rest,
            4,
            "snapshot_id",
            MAX_IDENTIFIER_BYTES as nat,
        ) {
            Err(err) => Err(err),
            Ok((snapshot, rest)) => match codec::get_string(
                rest,
                "snapshot_device_identity",
                MAX_DEVICE_BYTES as nat,
            ) {
                Err(err) => Err(err),
                Ok((device, rest)) => match codec::get_i64(rest) {
                    Err(err) => Err(err),
                    Ok((created, rest)) => match codec::get_i64(rest) {
                        Err(err) => Err(err),
                        Ok((expires, rest)) => Ok(
                            (
                                CreateSnapshotLeaseResultView {
                                    snapshot_lease_id: id as u64,
                                    snapshot_id: snapshot,
                                    snapshot_device_identity: device,
                                    snapshot_created_at_unix_ms: created,
                                    expires_at_unix_ms: expires,
                                },
                                rest,
                            ),
                        ),
                    },
                },
            },
        },
    }
}

impl CreateSnapshotLeaseResult {
    /// Encode this result.
    #[must_use]
    pub fn encode(&self) -> (out: Vec<u8>)
        ensures
            out@ == create_result_bytes(self@),
    {
        let mut out: Vec<u8> = Vec::new();
        write_u64_le(&mut out, self.snapshot_lease_id);
        write_bytes_u32_prefixed(&mut out, &self.snapshot_id);
        write_string_u16_prefixed(&mut out, &self.snapshot_device_identity);
        write_i64_le(&mut out, self.snapshot_created_at_unix_ms);
        write_i64_le(&mut out, self.expires_at_unix_ms);
        assert(out@ =~= create_result_bytes(self@));
        out
    }

    /// Decode this result.
    pub(crate) fn decode(reader: &mut Reader<'_>) -> (res: Result<Self, SnapshotProtocolError>)
        requires
            old(reader).wf(),
        ensures
            final(reader).wf(),
            match (get_create_result(old(reader).rest()), res) {
                (Ok((value, rest)), Ok(found)) => found@ == value && final(reader).rest() == rest,
                (Err(err), Err(found)) => found == err,
                _ => false,
            },
    {
        let snapshot_lease_id: u64 = match reader.read_u64_le() {
            Ok(value) => value,
            Err(err) => {
                return Err(err);
            },
        };
        let snapshot_id = match reader.read_bytes_u32_prefixed("snapshot_id", MAX_IDENTIFIER_BYTES) {
            Ok(value) => value,
            Err(err) => {
                return Err(err);
            },
        };
        let snapshot_device_identity = match reader.read_string_u16_prefixed(
            "snapshot_device_identity",
            MAX_DEVICE_BYTES,
        ) {
            Ok(value) => value,
            Err(err) => {
                return Err(err);
            },
        };
        let snapshot_created_at_unix_ms: i64 = match reader.read_i64_le() {
            Ok(value) => value,
            Err(err) => {
                return Err(err);
            },
        };
        match reader.read_i64_le() {
            Ok(expires_at_unix_ms) => Ok(
                CreateSnapshotLeaseResult {
                    snapshot_lease_id,
                    snapshot_id,
                    snapshot_device_identity,
                    snapshot_created_at_unix_ms,
                    expires_at_unix_ms,
                },
            ),
            Err(err) => Err(err),
        }
    }
}

/// A create result within its limits is read back.
pub proof fn lemma_create_result_round_trip(v: CreateSnapshotLeaseResultView, tail: Seq<u8>)
    requires
        v.snapshot_id.len() <= MAX_IDENTIFIER_BYTES,
        vstd::utf8::encode_utf8(v.snapshot_device_identity).len() <= MAX_DEVICE_BYTES,
    ensures
        get_create_result(create_result_bytes(v) + tail) == Ok::<
            (CreateSnapshotLeaseResultView, Seq<u8>),
            SnapshotProtocolError,
        >((v, tail)),
{
    let id = codec::le_bytes(v.snapshot_lease_id as nat, 8);
    let snapshot = codec::prefixed_bytes(v.snapshot_id);
    let device = codec::prefixed_string(v.snapshot_device_identity);
    let created = codec::le_bytes((v.snapshot_created_at_unix_ms as u64) as nat, 8);
    let expires = codec::le_bytes((v.expires_at_unix_ms as u64) as nat, 8);
    assert(create_result_bytes(v) + tail =~= id + (snapshot + (device + (created + (expires
        + tail)))));
    codec::lemma_get_u64(v.snapshot_lease_id, snapshot + (device + (created + (expires + tail))));
    codec::lemma_get_prefixed(
        v.snapshot_id,
        "snapshot_id",
        MAX_IDENTIFIER_BYTES,
        device + (created + (expires + tail)),
    );
    codec::lemma_get_string(
        v.snapshot_device_identity,
        "snapshot_device_identity",
        MAX_DEVICE_BYTES,
        created + (expires + tail),
    );
    codec::lemma_get_i64(v.snapshot_created_at_unix_ms, expires + tail);
    codec::lemma_get_i64(v.expires_at_unix_ms, tail);
}

// ---- duplicate ----

/// `DuplicateSnapshotHandle` request.
///
/// It only names the process that the broker should duplicate the handle into; the broker verifies
/// that process itself and does not take this PID as proof of anything.
#[derive(Debug, Clone, Copy, PartialEq, Eq)]
pub struct DuplicateSnapshotHandle {
    /// Lease the handle should be scoped to.
    pub snapshot_lease_id: u64,
    /// PID of the snapshot reader process to duplicate the handle into.
    pub approved_reader_process_id: u32,
}

/// Wire form of a duplicate request.
pub open spec fn duplicate_bytes(v: DuplicateSnapshotHandle) -> Seq<u8> {
    codec::le_bytes(v.snapshot_lease_id as nat, 8) + codec::le_bytes(
        v.approved_reader_process_id as nat,
        4,
    )
}

/// What a decoder of a duplicate request finds.
pub open spec fn get_duplicate(input: Seq<u8>) -> codec::Parsed<DuplicateSnapshotHandle> {
    match codec::get_le(input, 8) {
        Err(err) => Err(err),
        Ok((id, rest)) => match codec::get_le(rest, 4) {
            Err(err) => Err(err),
            Ok((pid, rest)) => Ok(
                (
                    DuplicateSnapshotHandle {
                        snapshot_lease_id: id as u64,
                        approved_reader_process_id: pid as u32,
                    },
                    rest,
                ),
            ),
        },
    }
}

impl DuplicateSnapshotHandle {
    /// Encode this request.
    #[must_use]
    pub fn encode(&self) -> (out: Vec<u8>)
        ensures
            out@ == duplicate_bytes(*self),
    {
        let mut out: Vec<u8> = Vec::new();
        write_u64_le(&mut out, self.snapshot_lease_id);
        write_u32_le(&mut out, self.approved_reader_process_id);
        assert(out@ =~= duplicate_bytes(*self));
        out
    }

    /// Decode this request.
    pub(crate) fn decode(reader: &mut Reader<'_>) -> (res: Result<Self, SnapshotProtocolError>)
        requires
            old(reader).wf(),
        ensures
            final(reader).wf(),
            codec::read_as(get_duplicate(old(reader).rest()), res, final(reader).rest()),
    {
        let snapshot_lease_id: u64 = match reader.read_u64_le() {
            Ok(value) => value,
            Err(err) => {
                return Err(err);
            },
        };
        match reader.read_u32_le() {
            Ok(approved_reader_process_id) => Ok(
                DuplicateSnapshotHandle { snapshot_lease_id, approved_reader_process_id },
            ),
            Err(err) => Err(err),
        }
    }
}

/// A duplicate request is read back.
pub proof fn lemma_duplicate_round_trip(v: DuplicateSnapshotHandle, tail: Seq<u8>)
    ensures
        get_duplicate(duplicate_bytes(v) + tail) == Ok::<
            (DuplicateSnapshotHandle, Seq<u8>),
            SnapshotProtocolError,
        >((v, tail)),
{
    let pid = codec::le_bytes(v.approved_reader_process_id as nat, 4);
    assert(duplicate_bytes(v) + tail =~= codec::le_bytes(v.snapshot_lease_id as nat, 8) + (pid
        + tail));
    codec::lemma_get_u64(v.snapshot_lease_id, pid + tail);
    codec::lemma_get_u32(v.approved_reader_process_id, tail);
}

// ---- renew ----

/// `RenewSnapshotLease` request.
#[derive(Debug, Clone, Copy, PartialEq, Eq)]
pub struct RenewSnapshotLease {
    /// Lease to renew.
    pub snapshot_lease_id: u64,
    /// Requested new expiry, Unix milliseconds.
    pub requested_expiry_unix_ms: i64,
}

/// Wire form of a renew request.
pub open spec fn renew_bytes(v: RenewSnapshotLease) -> Seq<u8> {
    codec::le_bytes(v.snapshot_lease_id as nat, 8) + codec::le_bytes(
        (v.requested_expiry_unix_ms as u64) as nat,
        8,
    )
}

/// What a decoder of a renew request finds.
pub open spec fn get_renew(input: Seq<u8>) -> codec::Parsed<RenewSnapshotLease> {
    match codec::get_le(input, 8) {
        Err(err) => Err(err),
        Ok((id, rest)) => match codec::get_i64(rest) {
            Err(err) => Err(err),
            Ok((expiry, rest)) => Ok(
                (
                    RenewSnapshotLease {
                        snapshot_lease_id: id as u64,
                        requested_expiry_unix_ms: expiry,
                    },
                    rest,
                ),
            ),
        },
    }
}

impl RenewSnapshotLease {
    /// Encode this request.
    #[must_use]
    pub fn encode(&self) -> (out: Vec<u8>)
        ensures
            out@ == renew_bytes(*self),
    {
        let mut out: Vec<u8> = Vec::new();
        write_u64_le(&mut out, self.snapshot_lease_id);
        write_i64_le(&mut out, self.requested_expiry_unix_ms);
        assert(out@ =~= renew_bytes(*self));
        out
    }

    /// Decode this request.
    pub(crate) fn decode(reader: &mut Reader<'_>) -> (res: Result<Self, SnapshotProtocolError>)
        requires
            old(reader).wf(),
        ensures
            final(reader).wf(),
            codec::read_as(get_renew(old(reader).rest()), res, final(reader).rest()),
    {
        let snapshot_lease_id: u64 = match reader.read_u64_le() {
            Ok(value) => value,
            Err(err) => {
                return Err(err);
            },
        };
        match reader.read_i64_le() {
            Ok(requested_expiry_unix_ms) => Ok(
                RenewSnapshotLease { snapshot_lease_id, requested_expiry_unix_ms },
            ),
            Err(err) => Err(err),
        }
    }
}

/// A renew request is read back.
pub proof fn lemma_renew_round_trip(v: RenewSnapshotLease, tail: Seq<u8>)
    ensures
        get_renew(renew_bytes(v) + tail) == Ok::<
            (RenewSnapshotLease, Seq<u8>),
            SnapshotProtocolError,
        >((v, tail)),
{
    let expiry = codec::le_bytes((v.requested_expiry_unix_ms as u64) as nat, 8);
    assert(renew_bytes(v) + tail =~= codec::le_bytes(v.snapshot_lease_id as nat, 8) + (expiry
        + tail));
    codec::lemma_get_u64(v.snapshot_lease_id, expiry + tail);
    codec::lemma_get_i64(v.requested_expiry_unix_ms, tail);
}

// ---- release and query ----

/// `ReleaseSnapshotLease` request.
#[derive(Debug, Clone, Copy, PartialEq, Eq)]
pub struct ReleaseSnapshotLease {
    /// Lease to release.
    pub snapshot_lease_id: u64,
}

impl ReleaseSnapshotLease {
    /// Encode this request.
    #[must_use]
    pub fn encode(self) -> (out: Vec<u8>)
        ensures
            out@ == codec::le_bytes(self.snapshot_lease_id as nat, 8),
    {
        let mut out: Vec<u8> = Vec::new();
        write_u64_le(&mut out, self.snapshot_lease_id);
        assert(out@ =~= codec::le_bytes(self.snapshot_lease_id as nat, 8));
        out
    }

    /// Decode this request.
    pub(crate) fn decode(reader: &mut Reader<'_>) -> (res: Result<Self, SnapshotProtocolError>)
        requires
            old(reader).wf(),
        ensures
            final(reader).wf(),
            match (codec::get_le(old(reader).rest(), 8), res) {
                (Ok((id, rest)), Ok(found)) => found.snapshot_lease_id == id
                    && final(reader).rest() == rest,
                (Err(err), Err(found)) => found == err,
                _ => false,
            },
    {
        match reader.read_u64_le() {
            Ok(snapshot_lease_id) => Ok(ReleaseSnapshotLease { snapshot_lease_id }),
            Err(err) => Err(err),
        }
    }
}

/// `QuerySnapshotLease` request.
#[derive(Debug, Clone, Copy, PartialEq, Eq)]
pub struct QuerySnapshotLease {
    /// Lease to query.
    pub snapshot_lease_id: u64,
}

impl QuerySnapshotLease {
    /// Encode this request.
    #[must_use]
    pub fn encode(self) -> (out: Vec<u8>)
        ensures
            out@ == codec::le_bytes(self.snapshot_lease_id as nat, 8),
    {
        let mut out: Vec<u8> = Vec::new();
        write_u64_le(&mut out, self.snapshot_lease_id);
        assert(out@ =~= codec::le_bytes(self.snapshot_lease_id as nat, 8));
        out
    }

    /// Decode this request.
    pub(crate) fn decode(reader: &mut Reader<'_>) -> (res: Result<Self, SnapshotProtocolError>)
        requires
            old(reader).wf(),
        ensures
            final(reader).wf(),
            match (codec::get_le(old(reader).rest(), 8), res) {
                (Ok((id, rest)), Ok(found)) => found.snapshot_lease_id == id
                    && final(reader).rest() == rest,
                (Err(err), Err(found)) => found == err,
                _ => false,
            },
    {
        match reader.read_u64_le() {
            Ok(snapshot_lease_id) => Ok(QuerySnapshotLease { snapshot_lease_id }),
            Err(err) => Err(err),
        }
    }
}

// ---- state and status ----

/// Current state of a snapshot lease, reported by [`QuerySnapshotLease`].
#[derive(Debug, Clone, Copy, PartialEq, Eq, Hash, Structural)]
pub enum SnapshotLeaseState {
    /// Lease is active and the snapshot is retained.
    Active,
    /// Lease expired without renewal.
    Expired,
    /// Lease was explicitly released.
    Released,
    /// The broker has no record of this lease (unknown or already reaped).
    Unknown,
}

impl SnapshotLeaseState {
    /// The wire byte of a state.
    pub open spec fn byte(self) -> u8 {
        match self {
            SnapshotLeaseState::Active => 0,
            SnapshotLeaseState::Expired => 1,
            SnapshotLeaseState::Released => 2,
            SnapshotLeaseState::Unknown => 3,
        }
    }

    /// The state that a wire byte stands for.
    pub open spec fn of_byte(byte: u8) -> Option<SnapshotLeaseState> {
        if byte == 0 {
            Some(SnapshotLeaseState::Active)
        } else if byte == 1 {
            Some(SnapshotLeaseState::Expired)
        } else if byte == 2 {
            Some(SnapshotLeaseState::Released)
        } else if byte == 3 {
            Some(SnapshotLeaseState::Unknown)
        } else {
            None
        }
    }

    /// Serialize to the wire byte.
    #[must_use]
    pub fn encode(self) -> (res: u8)
        ensures
            res == self.byte(),
    {
        match self {
            SnapshotLeaseState::Active => 0,
            SnapshotLeaseState::Expired => 1,
            SnapshotLeaseState::Released => 2,
            SnapshotLeaseState::Unknown => 3,
        }
    }

    /// Parse the wire byte; an unrecognized byte is handed back.
    pub fn decode(byte: u8) -> (res: Result<Self, u8>)
        ensures
            match Self::of_byte(byte) {
                Some(state) => res == Ok::<Self, u8>(state),
                None => res == Err::<Self, u8>(byte),
            },
    {
        match byte {
            0 => Ok(SnapshotLeaseState::Active),
            1 => Ok(SnapshotLeaseState::Expired),
            2 => Ok(SnapshotLeaseState::Released),
            3 => Ok(SnapshotLeaseState::Unknown),
            other => Err(other),
        }
    }
}

/// The byte of a state stands for that state, and a byte that stands for a state is its byte.
pub proof fn law_state_byte_round_trip(state: SnapshotLeaseState, byte: u8)
    ensures
        SnapshotLeaseState::of_byte(state.byte()) == Some(state),
        SnapshotLeaseState::of_byte(byte) is Some ==> SnapshotLeaseState::of_byte(
            byte,
        )->Some_0.byte() == byte,
{
}

/// `QuerySnapshotLease` response.
#[derive(Debug, Clone, PartialEq, Eq)]
pub struct SnapshotLeaseStatus {
    /// Lease being reported on.
    pub snapshot_lease_id: u64,
    /// Current state.
    pub state: SnapshotLeaseState,
    /// Opaque VSS snapshot identifier (empty if [`SnapshotLeaseState::Unknown`]).
    pub snapshot_id: Vec<u8>,
    /// Creation time, Unix milliseconds.
    pub created_at_unix_ms: i64,
    /// Expiry time, Unix milliseconds.
    pub expires_at_unix_ms: i64,
}

/// The contents of a [`SnapshotLeaseStatus`].
#[verifier::ext_equal]
pub struct SnapshotLeaseStatusView {
    /// Lease being reported on.
    pub snapshot_lease_id: u64,
    /// Current state.
    pub state: SnapshotLeaseState,
    /// Opaque VSS snapshot identifier.
    pub snapshot_id: Seq<u8>,
    /// Creation time, Unix milliseconds.
    pub created_at_unix_ms: i64,
    /// Expiry time, Unix milliseconds.
    pub expires_at_unix_ms: i64,
}

impl View for SnapshotLeaseStatus {
    type V = SnapshotLeaseStatusView;

    open spec fn view(&self) -> SnapshotLeaseStatusView {
        SnapshotLeaseStatusView {
            snapshot_lease_id: self.snapshot_lease_id,
            state: self.state,
            snapshot_id: self.snapshot_id@,
            created_at_unix_ms: self.created_at_unix_ms,
            expires_at_unix_ms: self.expires_at_unix_ms,
        }
    }
}

/// Wire form of a status.
pub open spec fn status_bytes(v: SnapshotLeaseStatusView) -> Seq<u8> {
    codec::le_bytes(v.snapshot_lease_id as nat, 8) + seq![v.state.byte()] + codec::prefixed_bytes(
        v.snapshot_id,
    ) + codec::le_bytes((v.created_at_unix_ms as u64) as nat, 8) + codec::le_bytes(
        (v.expires_at_unix_ms as u64) as nat,
        8,
    )
}

/// What a decoder of a status finds.
pub open spec fn get_status(input: Seq<u8>) -> codec::Parsed<SnapshotLeaseStatusView> {
    match codec::get_le(input, 8) {
        Err(err) => Err(err),
        Ok((id, rest)) => match codec::get_le(rest, 1) {
            Err(err) => Err(err),
            Ok((byte, rest)) => match SnapshotLeaseState::of_byte(byte as u8) {
                None => Err(
                    SnapshotProtocolError::UnknownDiscriminant {
                        field: "state",
                        value: byte as u64,
                    },
                ),
                Some(state) => match codec::get_prefixed(
                    rest,
                    4,
                    "snapshot_id",
                    MAX_IDENTIFIER_BYTES as nat,
                ) {
                    Err(err) => Err(err),
                    Ok((snapshot, rest)) => match codec::get_i64(rest) {
                        Err(err) => Err(err),
                        Ok((created, rest)) => match codec::get_i64(rest) {
                            Err(err) => Err(err),
                            Ok((expires, rest)) => Ok(
                                (
                                    SnapshotLeaseStatusView {
                                        snapshot_lease_id: id as u64,
                                        state,
                                        snapshot_id: snapshot,
                                        created_at_unix_ms: created,
                                        expires_at_unix_ms: expires,
                                    },
                                    rest,
                                ),
                            ),
                        },
                    },
                },
            },
        },
    }
}

impl SnapshotLeaseStatus {
    /// Encode this status.
    #[must_use]
    pub fn encode(&self) -> (out: Vec<u8>)
        ensures
            out@ == status_bytes(self@),
    {
        let mut out: Vec<u8> = Vec::new();
        write_u64_le(&mut out, self.snapshot_lease_id);
        out.push(self.state.encode());
        write_bytes_u32_prefixed(&mut out, &self.snapshot_id);
        write_i64_le(&mut out, self.created_at_unix_ms);
        write_i64_le(&mut out, self.expires_at_unix_ms);
        assert(out@ =~= status_bytes(self@));
        out
    }

    /// Decode this status.
    pub(crate) fn decode(reader: &mut Reader<'_>) -> (res: Result<Self, SnapshotProtocolError>)
        requires
            old(reader).wf(),
        ensures
            final(reader).wf(),
            match (get_status(old(reader).rest()), res) {
                (Ok((value, rest)), Ok(found)) => found@ == value && final(reader).rest() == rest,
                (Err(err), Err(found)) => found == err,
                _ => false,
            },
    {
        let snapshot_lease_id: u64 = match reader.read_u64_le() {
            Ok(value) => value,
            Err(err) => {
                return Err(err);
            },
        };
        let state_byte: u8 = match reader.read_u8() {
            Ok(value) => value,
            Err(err) => {
                return Err(err);
            },
        };
        let state = match SnapshotLeaseState::decode(state_byte) {
            Ok(state) => state,
            Err(byte) => {
                return Err(
                    SnapshotProtocolError::UnknownDiscriminant {
                        field: "state",
                        value: byte as u64,
                    },
                );
            },
        };
        let snapshot_id = match reader.read_bytes_u32_prefixed("snapshot_id", MAX_IDENTIFIER_BYTES) {
            Ok(value) => value,
            Err(err) => {
                return Err(err);
            },
        };
        let created_at_unix_ms: i64 = match reader.read_i64_le() {
            Ok(value) => value,
            Err(err) => {
                return Err(err);
            },
        };
        match reader.read_i64_le() {
            Ok(expires_at_unix_ms) => Ok(
                SnapshotLeaseStatus {
                    snapshot_lease_id,
                    state,
                    snapshot_id,
                    created_at_unix_ms,
                    expires_at_unix_ms,
                },
            ),
            Err(err) => Err(err),
        }
    }
}

/// A status within its limits is read back.
#[verifier::rlimit(50)]
pub proof fn lemma_status_round_trip(v: SnapshotLeaseStatusView, tail: Seq<u8>)
    requires
        v.snapshot_id.len() <= MAX_IDENTIFIER_BYTES,
    ensures
        get_status(status_bytes(v) + tail) == Ok::<
            (SnapshotLeaseStatusView, Seq<u8>),
            SnapshotProtocolError,
        >((v, tail)),
{
    let id = codec::le_bytes(v.snapshot_lease_id as nat, 8);
    let state = seq![v.state.byte()];
    let snapshot = codec::prefixed_bytes(v.snapshot_id);
    let created = codec::le_bytes((v.created_at_unix_ms as u64) as nat, 8);
    let expires = codec::le_bytes((v.expires_at_unix_ms as u64) as nat, 8);
    assert(status_bytes(v) + tail =~= id + (state + (snapshot + (created + (expires + tail)))));
    codec::lemma_get_u64(v.snapshot_lease_id, state + (snapshot + (created + (expires + tail))));
    codec::lemma_get_byte(v.state.byte(), snapshot + (created + (expires + tail)));
    law_state_byte_round_trip(v.state, 0);
    codec::lemma_get_prefixed(
        v.snapshot_id,
        "snapshot_id",
        MAX_IDENTIFIER_BYTES,
        created + (expires + tail),
    );
    codec::lemma_get_i64(v.created_at_unix_ms, expires + tail);
    codec::lemma_get_i64(v.expires_at_unix_ms, tail);
}

// ---- error codes ----

/// Stable error codes of an error response.
#[derive(Debug, Clone, Copy, PartialEq, Eq, Hash, Structural)]
#[non_exhaustive]
pub enum SnapshotManagerErrorCode {
    /// VSS snapshot creation failed.
    SnapshotCreateFailed,
    /// The requested volume could not be validated.
    VolumeValidationFailed,
    /// The caller's identity or authorization failed validation.
    Unauthorized,
    /// The named lease is not known to the broker.
    LeaseNotFound,
    /// The named lease has already expired or been released.
    LeaseNotActive,
    /// The approved reader process failed identity verification.
    ReaderIdentityRejected,
    /// Copy-on-write storage pressure prevents further retention.
    SnapshotStorageExhausted,
    /// An internal broker error not covered by another code.
    InternalError,
}

impl SnapshotManagerErrorCode {
    /// The wire byte of a code.
    pub open spec fn byte(self) -> u8 {
        match self {
            SnapshotManagerErrorCode::SnapshotCreateFailed => 0,
            SnapshotManagerErrorCode::VolumeValidationFailed => 1,
            SnapshotManagerErrorCode::Unauthorized => 2,
            SnapshotManagerErrorCode::LeaseNotFound => 3,
            SnapshotManagerErrorCode::LeaseNotActive => 4,
            SnapshotManagerErrorCode::ReaderIdentityRejected => 5,
            SnapshotManagerErrorCode::SnapshotStorageExhausted => 6,
            SnapshotManagerErrorCode::InternalError => 7,
        }
    }

    /// The code that a wire byte stands for.
    pub open spec fn of_byte(byte: u8) -> Option<SnapshotManagerErrorCode> {
        if byte == 0 {
            Some(SnapshotManagerErrorCode::SnapshotCreateFailed)
        } else if byte == 1 {
            Some(SnapshotManagerErrorCode::VolumeValidationFailed)
        } else if byte == 2 {
            Some(SnapshotManagerErrorCode::Unauthorized)
        } else if byte == 3 {
            Some(SnapshotManagerErrorCode::LeaseNotFound)
        } else if byte == 4 {
            Some(SnapshotManagerErrorCode::LeaseNotActive)
        } else if byte == 5 {
            Some(SnapshotManagerErrorCode::ReaderIdentityRejected)
        } else if byte == 6 {
            Some(SnapshotManagerErrorCode::SnapshotStorageExhausted)
        } else if byte == 7 {
            Some(SnapshotManagerErrorCode::InternalError)
        } else {
            None
        }
    }

    /// Serialize to the wire byte.
    #[must_use]
    pub fn encode(self) -> (res: u8)
        ensures
            res == self.byte(),
    {
        match self {
            SnapshotManagerErrorCode::SnapshotCreateFailed => 0,
            SnapshotManagerErrorCode::VolumeValidationFailed => 1,
            SnapshotManagerErrorCode::Unauthorized => 2,
            SnapshotManagerErrorCode::LeaseNotFound => 3,
            SnapshotManagerErrorCode::LeaseNotActive => 4,
            SnapshotManagerErrorCode::ReaderIdentityRejected => 5,
            SnapshotManagerErrorCode::SnapshotStorageExhausted => 6,
            SnapshotManagerErrorCode::InternalError => 7,
        }
    }

    /// Parse the wire byte; an unrecognized byte is handed back.
    pub fn decode(byte: u8) -> (res: Result<Self, u8>)
        ensures
            match Self::of_byte(byte) {
                Some(code) => res == Ok::<Self, u8>(code),
                None => res == Err::<Self, u8>(byte),
            },
    {
        match byte {
            0 => Ok(SnapshotManagerErrorCode::SnapshotCreateFailed),
            1 => Ok(SnapshotManagerErrorCode::VolumeValidationFailed),
            2 => Ok(SnapshotManagerErrorCode::Unauthorized),
            3 => Ok(SnapshotManagerErrorCode::LeaseNotFound),
            4 => Ok(SnapshotManagerErrorCode::LeaseNotActive),
            5 => Ok(SnapshotManagerErrorCode::ReaderIdentityRejected),
            6 => Ok(SnapshotManagerErrorCode::SnapshotStorageExhausted),
            7 => Ok(SnapshotManagerErrorCode::InternalError),
            other => Err(other),
        }
    }
}

/// The byte of a code stands for that code, and a byte that stands for a code is its byte.
pub proof fn law_error_code_byte_round_trip(code: SnapshotManagerErrorCode, byte: u8)
    ensures
        SnapshotManagerErrorCode::of_byte(code.byte()) == Some(code),
        SnapshotManagerErrorCode::of_byte(byte) is Some ==> SnapshotManagerErrorCode::of_byte(
            byte,
        )->Some_0.byte() == byte,
{
}

// ---- messages whose end is missing ----

/// Without its last bytes, a volume identity is read as before or is truncated.
pub proof fn lemma_cut_volume(input: Seq<u8>, gone: nat)
    requires
        gone <= input.len() <= u32::MAX,
    ensures
        codec::cut_short(input, get_volume(input), get_volume(codec::without_last(input, gone)), gone),
{
    codec::lemma_cut_le(input, 8, gone);
    if let Ok((_, rest1)) = codec::get_le(input, 8) {
        if gone <= rest1.len() {
            codec::lemma_cut_prefixed(rest1, 4, "volume_guid", MAX_IDENTIFIER_BYTES as nat, gone);
        }
    }
}

/// Without its last bytes, a create request is read as before or is truncated.
pub proof fn lemma_cut_create(input: Seq<u8>, gone: nat)
    requires
        gone <= input.len() <= u32::MAX,
    ensures
        codec::cut_short(input, get_create(input), get_create(codec::without_last(input, gone)), gone),
{
    codec::lemma_cut_le(input, 16, gone);
    if let Ok((_, rest1)) = codec::get_raw(input, 16) {
        if gone <= rest1.len() {
            lemma_cut_volume(rest1, gone);
            if let Ok((_, rest2)) = get_volume(rest1) {
                if gone <= rest2.len() {
                    codec::lemma_cut_prefixed(rest2, 4, "requested_root", MAX_PATH_BYTES as nat, gone);
                    if let Ok((_, rest3)) = codec::get_prefixed(rest2, 4, "requested_root", MAX_PATH_BYTES as nat) {
                        if gone <= rest3.len() {
                            codec::lemma_cut_le(rest3, 8, gone);
                            if let Ok((_, rest4)) = codec::get_le(rest3, 8) {
                                if gone <= rest4.len() {
                                    codec::lemma_cut_le(rest4, 4, gone);
                                }
                            }
                        }
                    }
                }
            }
        }
    }
}

/// Without its last bytes, the result of a create request is read as before or is truncated.
pub proof fn lemma_cut_create_result(input: Seq<u8>, gone: nat)
    requires
        gone <= input.len() <= u32::MAX,
    ensures
        codec::cut_short(input, get_create_result(input), get_create_result(codec::without_last(input, gone)), gone),
{
    reveal(codec::get_string);
    codec::lemma_cut_le(input, 8, gone);
    if let Ok((_, rest1)) = codec::get_le(input, 8) {
        if gone <= rest1.len() {
            codec::lemma_cut_prefixed(rest1, 4, "snapshot_id", MAX_IDENTIFIER_BYTES as nat, gone);
            if let Ok((_, rest2)) = codec::get_prefixed(rest1, 4, "snapshot_id", MAX_IDENTIFIER_BYTES as nat) {
                if gone <= rest2.len() {
                    codec::lemma_cut_string(rest2, "snapshot_device_identity", MAX_DEVICE_BYTES as nat, gone);
                    if let Ok((_, rest3)) = codec::get_string(rest2, "snapshot_device_identity", MAX_DEVICE_BYTES as nat) {
                        if gone <= rest3.len() {
                            codec::lemma_cut_i64(rest3, gone);
                            if let Ok((_, rest4)) = codec::get_i64(rest3) {
                                if gone <= rest4.len() {
                                    codec::lemma_cut_i64(rest4, gone);
                                }
                            }
                        }
                    }
                }
            }
        }
    }
}

/// Without its last bytes, a duplicate request is read as before or is truncated.
pub proof fn lemma_cut_duplicate(input: Seq<u8>, gone: nat)
    requires
        gone <= input.len() <= u32::MAX,
    ensures
        codec::cut_short(input, get_duplicate(input), get_duplicate(codec::without_last(input, gone)), gone),
{
    codec::lemma_cut_le(input, 8, gone);
    if let Ok((_, rest1)) = codec::get_le(input, 8) {
        if gone <= rest1.len() {
            codec::lemma_cut_le(rest1, 4, gone);
        }
    }
}

/// Without its last bytes, a renew request is read as before or is truncated.
pub proof fn lemma_cut_renew(input: Seq<u8>, gone: nat)
    requires
        gone <= input.len() <= u32::MAX,
    ensures
        codec::cut_short(input, get_renew(input), get_renew(codec::without_last(input, gone)), gone),
{
    codec::lemma_cut_le(input, 8, gone);
    if let Ok((_, rest1)) = codec::get_le(input, 8) {
        if gone <= rest1.len() {
            codec::lemma_cut_i64(rest1, gone);
        }
    }
}

/// Without its last bytes, a status is read as before or is truncated.
pub proof fn lemma_cut_status(input: Seq<u8>, gone: nat)
    requires
        gone <= input.len() <= u32::MAX,
    ensures
        codec::cut_short(input, get_status(input), get_status(codec::without_last(input, gone)), gone),
{
    codec::lemma_cut_le(input, 8, gone);
    if let Ok((_, rest1)) = codec::get_le(input, 8) {
        if gone <= rest1.len() {
            codec::lemma_cut_le(rest1, 1, gone);
            if let Ok((_, rest2)) = codec::get_le(rest1, 1) {
                if gone <= rest2.len() {
                    codec::lemma_cut_prefixed(rest2, 4, "snapshot_id", MAX_IDENTIFIER_BYTES as nat, gone);
                    if let Ok((_, rest3)) = codec::get_prefixed(rest2, 4, "snapshot_id", MAX_IDENTIFIER_BYTES as nat) {
                        if gone <= rest3.len() {
                            codec::lemma_cut_i64(rest3, gone);
                            if let Ok((_, rest4)) = codec::get_i64(rest3) {
                                if gone <= rest4.len() {
                                    codec::lemma_cut_i64(rest4, gone);
                                }
                            }
                        }
                    }
                }
            }
        }
    }
}

/// Each state and each failure has its own byte, and every other byte is refused.
pub proof fn law_each_byte_means_one_thing(
    state: SnapshotLeaseState,
    of_state: u8,
    code: SnapshotManagerErrorCode,
    of_code: u8,
    byte: u8,
    read_state: Result<SnapshotLeaseState, u8>,
    read_code: Result<SnapshotManagerErrorCode, u8>,
)
    requires
        call_ensures(SnapshotLeaseState::encode, (state,), of_state),
        call_ensures(SnapshotManagerErrorCode::encode, (code,), of_code),
        call_ensures(SnapshotLeaseState::decode, (byte,), read_state),
        call_ensures(SnapshotManagerErrorCode::decode, (byte,), read_code),
    ensures
        of_state == 0 <==> state == SnapshotLeaseState::Active,
        of_state == 1 <==> state == SnapshotLeaseState::Expired,
        of_state == 2 <==> state == SnapshotLeaseState::Released,
        of_state == 3 <==> state == SnapshotLeaseState::Unknown,
        of_code == 0 <==> code == SnapshotManagerErrorCode::SnapshotCreateFailed,
        of_code == 1 <==> code == SnapshotManagerErrorCode::VolumeValidationFailed,
        of_code == 2 <==> code == SnapshotManagerErrorCode::Unauthorized,
        of_code == 3 <==> code == SnapshotManagerErrorCode::LeaseNotFound,
        of_code == 4 <==> code == SnapshotManagerErrorCode::LeaseNotActive,
        of_code == 5 <==> code == SnapshotManagerErrorCode::ReaderIdentityRejected,
        of_code == 6 <==> code == SnapshotManagerErrorCode::SnapshotStorageExhausted,
        of_code == 7 <==> code == SnapshotManagerErrorCode::InternalError,
        byte == of_state ==> read_state == Ok::<SnapshotLeaseState, u8>(state),
        byte == of_code ==> read_code == Ok::<SnapshotManagerErrorCode, u8>(code),
        byte > 3 ==> read_state == Err::<SnapshotLeaseState, u8>(byte),
        byte > 7 ==> read_code == Err::<SnapshotManagerErrorCode, u8>(byte),
{
}

} // verus!
