//! The wire format of the snapshot manager.

use uffs::snapshot_manager::messages::MAX_PATH_BYTES;
use uffs::snapshot_manager::{
    CreateSnapshotLease, CreateSnapshotLeaseResult, DuplicateSnapshotHandle, QuerySnapshotLease,
    ReleaseSnapshotLease, RenewSnapshotLease, SnapshotLeaseState, SnapshotLeaseStatus,
    SnapshotManagerErrorCode, SnapshotManagerRequest, SnapshotManagerResponse,
    SnapshotProtocolError, VolumeIdentity,
};

fn sample_create_request() -> CreateSnapshotLease {
    CreateSnapshotLease {
        authenticated_job_id: [1_u8; 16],
        source_volume_identity: VolumeIdentity {
            volume_serial: 0x0102_0304_0506_0708,
            volume_guid: b"{AAAAAAAA-BBBB-CCCC-DDDD-EEEEEEEEEEEE}".to_vec(),
        },
        requested_root: b"C\0:\0\\\0d\0a\0t\0a\0".to_vec(), // toy UTF-16LE-ish bytes
        maximum_lifetime_secs: 3600,
        policy_id: 1,
    }
}

fn sample_create_result() -> CreateSnapshotLeaseResult {
    CreateSnapshotLeaseResult {
        snapshot_lease_id: 42,
        snapshot_id: b"vss-snap-0001".to_vec(),
        snapshot_device_identity: r"\\?\GLOBALROOT\Device\HarddiskVolumeShadowCopy1".to_owned(),
        snapshot_created_at_unix_ms: 1_752_000_000_000,
        expires_at_unix_ms: 1_752_003_600_000,
    }
}

#[test]
fn create_snapshot_lease_round_trips() {
    let request = sample_create_request();
    let wrapped = SnapshotManagerRequest::Create(request.clone());
    let bytes = wrapped.encode();
    let decoded = SnapshotManagerRequest::decode(&bytes).unwrap();
    assert_eq!(decoded, SnapshotManagerRequest::Create(request));
}

#[test]
fn create_snapshot_lease_result_round_trips() {
    let result = sample_create_result();
    let wrapped = SnapshotManagerResponse::Created(result.clone());
    let bytes = wrapped.encode();
    let decoded = SnapshotManagerResponse::decode(&bytes).unwrap();
    assert_eq!(decoded, SnapshotManagerResponse::Created(result));
}

#[test]
fn duplicate_snapshot_handle_round_trips() {
    let request = DuplicateSnapshotHandle {
        snapshot_lease_id: 42,
        approved_reader_process_id: 4321,
    };
    let wrapped = SnapshotManagerRequest::Duplicate(request);
    let bytes = wrapped.encode();
    let decoded = SnapshotManagerRequest::decode(&bytes).unwrap();
    assert_eq!(decoded, SnapshotManagerRequest::Duplicate(request));
}

#[test]
fn duplicated_response_round_trips() {
    let wrapped = SnapshotManagerResponse::Duplicated;
    let bytes = wrapped.encode();
    let decoded = SnapshotManagerResponse::decode(&bytes).unwrap();
    assert_eq!(decoded, SnapshotManagerResponse::Duplicated);
}

#[test]
fn renew_snapshot_lease_round_trips() {
    let request = RenewSnapshotLease {
        snapshot_lease_id: 42,
        requested_expiry_unix_ms: 1_752_010_000_000,
    };
    let wrapped = SnapshotManagerRequest::Renew(request);
    let bytes = wrapped.encode();
    let decoded = SnapshotManagerRequest::decode(&bytes).unwrap();
    assert_eq!(decoded, SnapshotManagerRequest::Renew(request));
}

#[test]
fn renewed_response_round_trips() {
    let wrapped = SnapshotManagerResponse::Renewed {
        new_expires_at_unix_ms: 1_752_010_000_000,
    };
    let bytes = wrapped.encode();
    let decoded = SnapshotManagerResponse::decode(&bytes).unwrap();
    assert_eq!(decoded, wrapped);
}

#[test]
fn release_snapshot_lease_round_trips() {
    let request = ReleaseSnapshotLease {
        snapshot_lease_id: 42,
    };
    let wrapped = SnapshotManagerRequest::Release(request);
    let bytes = wrapped.encode();
    let decoded = SnapshotManagerRequest::decode(&bytes).unwrap();
    assert_eq!(decoded, SnapshotManagerRequest::Release(request));
}

#[test]
fn released_response_round_trips() {
    let wrapped = SnapshotManagerResponse::Released;
    let bytes = wrapped.encode();
    let decoded = SnapshotManagerResponse::decode(&bytes).unwrap();
    assert_eq!(decoded, SnapshotManagerResponse::Released);
}

#[test]
fn query_snapshot_lease_round_trips() {
    let request = QuerySnapshotLease {
        snapshot_lease_id: 42,
    };
    let wrapped = SnapshotManagerRequest::Query(request);
    let bytes = wrapped.encode();
    let decoded = SnapshotManagerRequest::decode(&bytes).unwrap();
    assert_eq!(decoded, SnapshotManagerRequest::Query(request));
}

#[test]
fn status_response_round_trips_for_every_state() {
    for state in [
        SnapshotLeaseState::Active,
        SnapshotLeaseState::Expired,
        SnapshotLeaseState::Released,
        SnapshotLeaseState::Unknown,
    ] {
        let status = SnapshotLeaseStatus {
            snapshot_lease_id: 42,
            state,
            snapshot_id: b"vss-snap-0001".to_vec(),
            created_at_unix_ms: 1_752_000_000_000,
            expires_at_unix_ms: 1_752_003_600_000,
        };
        let wrapped = SnapshotManagerResponse::Status(status.clone());
        let bytes = wrapped.encode();
        let decoded = SnapshotManagerResponse::decode(&bytes).unwrap();
        assert_eq!(
            decoded,
            SnapshotManagerResponse::Status(status),
            "failed for {state:?}"
        );
    }
}

#[test]
fn error_response_round_trips() {
    let wrapped = SnapshotManagerResponse::Error {
        code: SnapshotManagerErrorCode::LeaseNotFound,
        hresult: None,
        message: "no such lease".to_owned(),
    };
    let bytes = wrapped.encode();
    let decoded = SnapshotManagerResponse::decode(&bytes).unwrap();
    assert_eq!(decoded, wrapped);
}

#[test]
fn error_response_with_hresult_round_trips() {
    let wrapped = SnapshotManagerResponse::Error {
        code: SnapshotManagerErrorCode::SnapshotCreateFailed,
        hresult: Some(0x8004_230C_u32.cast_signed()),
        message: "stage=6 hresult=0x8004230c: AddToSnapshotSet failed".to_owned(),
    };
    let bytes = wrapped.encode();
    let decoded = SnapshotManagerResponse::decode(&bytes).unwrap();
    assert_eq!(decoded, wrapped);
}

#[test]
fn request_decode_rejects_unknown_tag() {
    let bytes = vec![0xFF];
    let err = SnapshotManagerRequest::decode(&bytes).unwrap_err();
    assert!(matches!(err, SnapshotProtocolError::UnknownDiscriminant {
        field: "request_tag",
        ..
    }));
}

#[test]
fn response_decode_rejects_unknown_tag() {
    let bytes = vec![0xFF];
    let err = SnapshotManagerResponse::decode(&bytes).unwrap_err();
    assert!(matches!(err, SnapshotProtocolError::UnknownDiscriminant {
        field: "response_tag",
        ..
    }));
}

#[test]
fn request_decode_rejects_truncated_input() {
    let bytes = vec![0_u8]; // CREATE tag, but no body
    let err = SnapshotManagerRequest::decode(&bytes).unwrap_err();
    assert!(matches!(err, SnapshotProtocolError::Truncated { .. }));
}

#[test]
fn snapshot_lease_state_round_trips_all_variants() {
    for value in 0_u8..=3 {
        let state = SnapshotLeaseState::decode(value).unwrap();
        assert_eq!(state.encode(), value);
    }
    assert_eq!(SnapshotLeaseState::decode(4), Err(4));
}

#[test]
fn snapshot_manager_error_code_round_trips_all_variants() {
    for value in 0_u8..=7 {
        let code = SnapshotManagerErrorCode::decode(value).unwrap();
        assert_eq!(code.encode(), value);
    }
    assert_eq!(SnapshotManagerErrorCode::decode(8), Err(8));
}

#[test]
fn create_snapshot_lease_rejects_oversized_requested_root() {
    let mut request = sample_create_request();
    request.requested_root = vec![0_u8; (MAX_PATH_BYTES + 2) as usize];
    let wrapped = SnapshotManagerRequest::Create(request);
    let bytes = wrapped.encode();
    let err = SnapshotManagerRequest::decode(&bytes).unwrap_err();
    assert!(matches!(
        err,
        SnapshotProtocolError::LengthOutOfBounds { .. }
    ));
}

/// A short text keeps its characters, whatever they are.
#[test]
fn error_messages_keep_every_character() {
    let wrapped = SnapshotManagerResponse::Error {
        code: SnapshotManagerErrorCode::InternalError,
        hresult: None,
        message: "Zugriff verweigert \u{2014} \u{1f512}".to_owned(),
    };
    assert_eq!(SnapshotManagerResponse::decode(&wrapped.encode()).unwrap(), wrapped);
}

/// The bytes of a message are fixed: a tag, then the fields in order, little-endian.
#[test]
fn renew_request_has_fixed_bytes() {
    let wrapped = SnapshotManagerRequest::Renew(RenewSnapshotLease {
        snapshot_lease_id: 0x0102,
        requested_expiry_unix_ms: -2,
    });
    let bytes = wrapped.encode();
    assert_eq!(&bytes[1..9], &[2, 1, 0, 0, 0, 0, 0, 0]);
    assert_eq!(&bytes[9..], &[0xfe, 0xff, 0xff, 0xff, 0xff, 0xff, 0xff, 0xff]);
}

/// A text that is not UTF-8 is refused.
#[test]
fn error_response_rejects_text_that_is_not_utf8() {
    let wrapped = SnapshotManagerResponse::Error {
        code: SnapshotManagerErrorCode::InternalError,
        hresult: None,
        message: "ab".to_owned(),
    };
    let mut bytes = wrapped.encode();
    let last = bytes.len() - 1;
    bytes[last] = 0xff;
    assert!(SnapshotManagerResponse::decode(&bytes).is_err());
}

/// What an error tells names the field.
#[test]
fn protocol_errors_name_the_field() {
    let err = SnapshotManagerRequest::decode(&[0xff]).unwrap_err();
    assert!(err.message().contains("request_tag"), "{}", err.message());
    let err = SnapshotManagerRequest::decode(&[]).unwrap_err();
    assert!(matches!(err, SnapshotProtocolError::Truncated { .. }));
}

/// The wire form of a created lease whose device identity has `length` bytes.
fn created_with_device_of(length: u16) -> Vec<u8> {
    let mut bytes = vec![0];
    bytes.extend_from_slice(&7_u64.to_le_bytes());
    bytes.extend_from_slice(&2_u32.to_le_bytes());
    bytes.extend_from_slice(b"id");
    bytes.extend_from_slice(&length.to_le_bytes());
    bytes.extend(vec![b'd'; usize::from(length)]);
    bytes.extend_from_slice(&1_i64.to_le_bytes());
    bytes.extend_from_slice(&2_i64.to_le_bytes());
    bytes
}

#[test]
fn a_device_identity_has_at_most_1024_bytes() {
    let longest = SnapshotManagerResponse::decode(&created_with_device_of(1024)).unwrap();
    let SnapshotManagerResponse::Created(created) = longest else {
        panic!("expected a created lease");
    };
    assert_eq!(created.snapshot_device_identity, "d".repeat(1024));
    assert_eq!(
        SnapshotManagerResponse::decode(&created_with_device_of(1025)),
        Err(SnapshotProtocolError::LengthOutOfBounds {
            field: "snapshot_device_identity",
            declared: 1025,
            max: 1024,
        })
    );
}

#[test]
fn every_strict_prefix_of_a_message_is_truncated() {
    let request = SnapshotManagerRequest::Create(sample_create_request()).encode();
    for end in 0..request.len() {
        let err = SnapshotManagerRequest::decode(&request[..end]).unwrap_err();
        assert!(matches!(
            err,
            SnapshotProtocolError::Truncated { needed, available }
                if available <= end && available < needed
        ));
    }
    let response = SnapshotManagerResponse::Created(sample_create_result()).encode();
    for end in 0..response.len() {
        let err = SnapshotManagerResponse::decode(&response[..end]).unwrap_err();
        assert!(matches!(
            err,
            SnapshotProtocolError::Truncated { needed, available }
                if available <= end && available < needed
        ));
    }
}

#[test]
fn a_truncated_request_tells_what_is_left_of_it() {
    let request = SnapshotManagerRequest::Release(ReleaseSnapshotLease { snapshot_lease_id: 7 });
    assert_eq!(
        SnapshotManagerRequest::decode(&request.encode()[..5]),
        Err(SnapshotProtocolError::Truncated {
            needed: 8,
            available: 4,
        })
    );
}
