//! The broker: its service, its requests and its helper.

use std::cell::RefCell;

use uffs::broker_service::{
    absent_service_signal, control_action, create_args, create_failure, delete_report,
    install_refusal, run_as_service, sc_output, service_report, start_report, step_done,
    step_line, uninstall_step, verdict, ControlAction, HandOver, ServicePhase, ServiceReport,
    UninstallStep, ACCEPTED_CONTROLS, ERROR_FAILED_SERVICE_CONTROLLER_CONNECT, NOTHING_TO_REMOVE,
    REGISTERING,
};
use uffs::snapshot_lease::{
    LeaseError, SnapshotHandle, SnapshotLeaseManager, VssError, VssProvider,
};
use uffs::snapshot_manager::{
    CreateSnapshotLease, DuplicateSnapshotHandle, QuerySnapshotLease, ReleaseSnapshotLease,
    RenewSnapshotLease, SnapshotLeaseState, SnapshotManagerErrorCode, SnapshotManagerRequest,
    SnapshotManagerResponse, VolumeIdentity,
};
use uffs::snapshot_service::{
    accept, duplicate_reply, frame_message, handle_request, is_uffs_content_image,
    is_uffs_content_reader_image, lease_error_response, pipe_open_mode, refuse_client,
    refuse_reader, request_length, short_read, unix_ms, verify_coordinator_identity,
    verify_reader_identity, AcceptAction, AcceptEvent, ClientCheck, Dispatch, ReaderCheck,
};
use uffs::vss_helper::{
    build_command_line, check_bogus_volume, check_device, check_marker, choose_helper_path,
    connect_failure, control_pipe_name, create_step_failed, created_snapshot, decode_utf16le, delete_step_failed,
    deleted_snapshot, encode_utf16, event_line, next_spawn_step, no_session, quote_windows_arg,
    requested_volume, self_test_result, spawn_failed, utf16le_bytes, CreateStep, DeleteStep,
    HelperEvent, SpawnHandle, SpawnStep, SELF_TEST_MARKER,
};

// ---- the service ----

#[test]
fn absent_when_sc_reports_1060_by_code_or_text() {
    // Exit code is the primary signal.
    assert!(absent_service_signal(Some(1060_i32), ""));
    // Text is the fallback when the code is not surfaced.
    assert!(absent_service_signal(
        None,
        "[SC] OpenService FAILED 1060:\n\nThe specified service does not exist"
    ));
}

#[test]
fn other_failures_are_not_treated_as_absent() {
    // Access denied (5) is a real failure, not "already gone".
    assert!(!absent_service_signal(
        Some(5_i32),
        "[SC] DeleteService FAILED 5:\n\nAccess is denied."
    ));
    assert!(!absent_service_signal(None, "some unrelated error"));
}

#[test]
fn service_tool_output_is_combined_and_trimmed() {
    assert_eq!(sc_output("  out \r\n", "\terr "), "out err");
    assert_eq!(sc_output("out\n", ""), "out");
    assert_eq!(sc_output("", " err"), "err");
    assert_eq!(sc_output("", ""), "");
}

#[test]
fn installing_passes_the_path_as_an_argument_of_its_own() {
    assert_eq!(install_refusal(true), None);
    assert!(install_refusal(false).unwrap().contains("uffs-broker --install"));
    assert_eq!(
        create_args(r"C:\Program Files\uffs\uffs-broker.exe"),
        vec![
            "create",
            "UffsAccessBroker",
            "binPath=",
            r"C:\Program Files\uffs\uffs-broker.exe",
            "start=",
            "auto",
            "DisplayName=",
            "UFFS Access Broker",
        ]
    );
    assert_eq!(
        create_failure("FAILED 1073:\n", ""),
        "Install failed (sc create): FAILED 1073:\n(If the service already exists, run `uffs-broker --uninstall` first.)"
    );
    assert!(start_report(Ok(())).contains("no more UAC prompts"));
    assert!(start_report(Err("timeout".to_owned())).contains("failed: timeout\nStart it manually"));
}

#[test]
fn an_absent_service_is_removed_already() {
    assert_eq!(uninstall_step(false, false), UninstallStep::NothingToRemove);
    assert_eq!(uninstall_step(true, false), UninstallStep::NeedsAdministrator);
    assert_eq!(uninstall_step(true, true), UninstallStep::StopAndDelete);
    assert_eq!(delete_report(true, Some(0), "", ""), Ok("Service uninstalled."));
    assert_eq!(delete_report(false, Some(1060), "", ""), Ok(NOTHING_TO_REMOVE));
    assert_eq!(
        delete_report(false, Some(5), "denied", ""),
        Err("Uninstall failed: denied".to_owned())
    );
}

#[test]
fn stop_and_shutdown_end_the_service() {
    assert_eq!(control_action(1), ControlAction::Stop);
    assert_eq!(control_action(5), ControlAction::Stop);
    assert_eq!(control_action(4), ControlAction::ReportRunning);
    assert_eq!(control_action(2), ControlAction::Ignore);
}

// ---- accepting connections ----

#[test]
fn the_first_instance_is_insisted_on_until_there_is_one() {
    let (first, action) = accept(true, AcceptEvent::Turn { stop: false });
    assert_eq!(action, AcceptAction::CreatePipe { first: true });
    let (first, action) = accept(first, AcceptEvent::Created { ok: false });
    assert_eq!(action, AcceptAction::Retry);
    assert!(first);
    let (first, action) = accept(first, AcceptEvent::Created { ok: true });
    assert_eq!(action, AcceptAction::WaitForClient);
    let (first, action) = accept(first, AcceptEvent::Connected { ok: true, stop: false });
    assert_eq!(action, AcceptAction::Serve);
    let (_, action) = accept(first, AcceptEvent::Turn { stop: false });
    assert_eq!(action, AcceptAction::CreatePipe { first: false });
}

#[test]
fn no_client_is_served_once_a_stop_was_asked_for() {
    assert_eq!(accept(false, AcceptEvent::Turn { stop: true }).1, AcceptAction::End);
    assert_eq!(
        accept(false, AcceptEvent::Connected { ok: true, stop: true }).1,
        AcceptAction::DropAndEnd
    );
    assert_eq!(
        accept(false, AcceptEvent::Connected { ok: false, stop: true }).1,
        AcceptAction::DropInstance
    );
}

#[test]
fn only_the_first_instance_carries_the_flag() {
    assert_eq!(pipe_open_mode(true), 0x0008_0003);
    assert_eq!(pipe_open_mode(false), 3);
}

#[test]
fn the_clock_saturates() {
    assert_eq!(unix_ms(None), 0);
    assert_eq!(unix_ms(Some(1_752_000_000_000)), 1_752_000_000_000);
    assert_eq!(unix_ms(Some(u128::MAX)), i64::MAX);
}

// ---- requests ----

#[test]
fn a_frame_is_a_length_and_the_payload() {
    assert_eq!(frame_message(b"abc"), vec![3, 0, 0, 0, b'a', b'b', b'c']);
    assert_eq!(request_length([3, 0, 0, 0]), Ok(3));
    assert_eq!(request_length([0, 0, 1, 0]), Ok(65_536));
    assert_eq!(
        request_length([1, 0, 1, 0]),
        Err("request length 65537 exceeds maximum 65536".to_owned())
    );
    assert_eq!(short_read(3, 4), Some("short read: got 3, expected 4".to_owned()));
    assert_eq!(short_read(4, 4), None);
}

#[derive(Default)]
struct Backend {
    deleted: RefCell<Vec<Vec<u8>>>,
    refuse: bool,
}

impl VssProvider for Backend {
    fn create_snapshot(
        &mut self,
        _volume: &VolumeIdentity,
        requested_root: &[u8],
    ) -> Result<SnapshotHandle, VssError> {
        if self.refuse {
            return Err(VssError::InvalidVolume("no such volume".to_owned()));
        }
        Ok(SnapshotHandle {
            snapshot_id: requested_root.to_vec(),
            device_identity: "device".to_owned(),
        })
    }

    fn delete_snapshot(&mut self, snapshot_id: &[u8]) -> Result<(), VssError> {
        self.deleted.borrow_mut().push(snapshot_id.to_vec());
        Ok(())
    }

    fn list_existing_snapshots(&mut self) -> Result<Vec<Vec<u8>>, VssError> {
        Ok(Vec::new())
    }
}

fn ask(
    manager: &mut SnapshotLeaseManager<Backend>,
    request: SnapshotManagerRequest,
    now: i64,
) -> Dispatch {
    handle_request(&request.encode(), manager, now)
}

fn reply(outcome: Dispatch) -> SnapshotManagerResponse {
    match outcome {
        Dispatch::Reply(response) => response,
        Dispatch::Duplicate { .. } => panic!("expected a reply"),
    }
}

fn create_request() -> SnapshotManagerRequest {
    SnapshotManagerRequest::Create(CreateSnapshotLease {
        authenticated_job_id: [7; 16],
        source_volume_identity: VolumeIdentity {
            volume_serial: 1,
            volume_guid: Vec::new(),
        },
        requested_root: vec![9, 9],
        maximum_lifetime_secs: 10,
        policy_id: 0,
    })
}

#[test]
fn requests_are_answered_from_the_leases() {
    let mut manager = SnapshotLeaseManager::new(Backend::default());
    let SnapshotManagerResponse::Created(created) = reply(ask(&mut manager, create_request(), 1000))
    else {
        panic!("expected a lease");
    };
    assert_eq!(created.snapshot_id, vec![9, 9]);
    assert_eq!(created.snapshot_device_identity, "device");
    assert_eq!(created.snapshot_created_at_unix_ms, 1000);
    assert_eq!(created.expires_at_unix_ms, 11_000);
    let lease = created.snapshot_lease_id;

    let renew = SnapshotManagerRequest::Renew(RenewSnapshotLease {
        snapshot_lease_id: lease,
        requested_expiry_unix_ms: 50_000,
    });
    assert_eq!(
        reply(ask(&mut manager, renew, 2000)),
        SnapshotManagerResponse::Renewed {
            new_expires_at_unix_ms: 50_000
        }
    );

    let duplicate = SnapshotManagerRequest::Duplicate(DuplicateSnapshotHandle {
        snapshot_lease_id: lease,
        approved_reader_process_id: 77,
    });
    match ask(&mut manager, duplicate, 3000) {
        Dispatch::Duplicate {
            device_identity,
            reader_process_id,
        } => {
            assert_eq!(device_identity, "device");
            assert_eq!(reader_process_id, 77);
        }
        Dispatch::Reply(response) => panic!("unexpected {response:?}"),
    }

    let release = SnapshotManagerRequest::Release(ReleaseSnapshotLease {
        snapshot_lease_id: lease,
    });
    assert_eq!(
        reply(ask(&mut manager, release, 4000)),
        SnapshotManagerResponse::Released
    );
    assert_eq!(*manager.provider.deleted.borrow(), vec![vec![9, 9]]);

    let query = SnapshotManagerRequest::Query(QuerySnapshotLease {
        snapshot_lease_id: lease,
    });
    let SnapshotManagerResponse::Status(status) = reply(ask(&mut manager, query, 5000)) else {
        panic!("expected a status");
    };
    assert_eq!(status.state, SnapshotLeaseState::Released);

    let duplicate = SnapshotManagerRequest::Duplicate(DuplicateSnapshotHandle {
        snapshot_lease_id: lease,
        approved_reader_process_id: 77,
    });
    assert_eq!(
        reply(ask(&mut manager, duplicate, 6000)),
        lease_error_response(&LeaseError::NotActive)
    );

    let unknown = SnapshotManagerRequest::Duplicate(DuplicateSnapshotHandle {
        snapshot_lease_id: lease + 1,
        approved_reader_process_id: 77,
    });
    assert_eq!(
        reply(ask(&mut manager, unknown, 6000)),
        lease_error_response(&LeaseError::NotFound)
    );
}

#[test]
fn an_expired_lease_is_not_active_for_a_handle() {
    let mut manager = SnapshotLeaseManager::new(Backend::default());
    let SnapshotManagerResponse::Created(created) = reply(ask(&mut manager, create_request(), 0))
    else {
        panic!("expected a lease");
    };
    let duplicate = SnapshotManagerRequest::Duplicate(DuplicateSnapshotHandle {
        snapshot_lease_id: created.snapshot_lease_id,
        approved_reader_process_id: 77,
    });
    assert_eq!(
        reply(ask(&mut manager, duplicate, 10_000)),
        SnapshotManagerResponse::Error {
            code: SnapshotManagerErrorCode::LeaseNotActive,
            hresult: None,
            message: "lease is not active".to_owned(),
        }
    );
    assert_eq!(*manager.provider.deleted.borrow(), vec![vec![9, 9]]);
}

#[test]
fn failures_are_answered_with_their_code() {
    let mut manager = SnapshotLeaseManager::new(Backend {
        refuse: true,
        ..Backend::default()
    });
    assert_eq!(
        reply(ask(&mut manager, create_request(), 0)),
        SnapshotManagerResponse::Error {
            code: SnapshotManagerErrorCode::VolumeValidationFailed,
            hresult: None,
            message: "volume validation failed: no such volume".to_owned(),
        }
    );
    let query = SnapshotManagerRequest::Query(QuerySnapshotLease {
        snapshot_lease_id: 5,
    });
    let SnapshotManagerResponse::Status(status) = reply(ask(&mut manager, query, 0)) else {
        panic!("expected a status");
    };
    assert_eq!(status.state, SnapshotLeaseState::Unknown);
    assert_eq!(status.snapshot_lease_id, 5);

    let SnapshotManagerResponse::Error { code, message, .. } =
        reply(handle_request(&[0xff], &mut manager, 0))
    else {
        panic!("expected an error");
    };
    assert_eq!(code, SnapshotManagerErrorCode::InternalError);
    assert!(message.starts_with("malformed request: "), "{message}");

    let create_failed = LeaseError::Vss(VssError::CreateFailed {
        hresult: Some(-5),
        message: "full".to_owned(),
    });
    assert_eq!(
        lease_error_response(&create_failed),
        SnapshotManagerResponse::Error {
            code: SnapshotManagerErrorCode::SnapshotCreateFailed,
            hresult: Some(-5),
            message: "snapshot creation failed: full".to_owned(),
        }
    );
}

// ---- identities ----

#[test]
fn recognizes_coordinator_image_names() {
    assert!(is_uffs_content_image(r"C:\uffs\uffs-content.exe"));
    assert!(is_uffs_content_image("/usr/local/bin/uffs-content"));
    assert!(!is_uffs_content_image(r"C:\uffs\uffs-content-reader.exe"));
}

#[test]
fn recognizes_reader_image_names() {
    assert!(is_uffs_content_reader_image(r"C:\uffs\uffs-content-reader.exe"));
    assert!(!is_uffs_content_reader_image(r"C:\uffs\uffs-content.exe"));
}

#[test]
fn identity_takes_the_name_and_the_signature() {
    assert!(verify_coordinator_identity(Some(r"C:\uffs-content.exe"), true));
    assert!(!verify_coordinator_identity(Some(r"C:\uffs-content.exe"), false));
    assert!(!verify_coordinator_identity(None, true));
    assert!(verify_reader_identity(Some(r"C:\uffs-content-reader.exe"), true));
    assert!(!verify_reader_identity(Some(r"C:\uffs-content.exe"), true));
}

#[test]
fn nobody_but_the_coordinator_is_served() {
    assert!(refuse_client(&ClientCheck::NoPid).unwrap().contains("client PID"));
    assert!(refuse_client(&ClientCheck::NotOpened).unwrap().contains("client process"));
    let check = |image: &str, signed: bool| ClientCheck::Opened {
        image: Some(image.to_owned()),
        signed,
    };
    assert_eq!(refuse_client(&check(r"C:\uffs-content.exe", true)), None);
    assert!(refuse_client(&check(r"C:\uffs-content.exe", false)).is_some());
    assert!(refuse_client(&check(r"C:\uffs-content-reader.exe", true)).is_some());
}

#[test]
fn a_reader_is_refused_with_a_reason() {
    let refused = |message: &str| {
        Some(SnapshotManagerResponse::Error {
            code: SnapshotManagerErrorCode::ReaderIdentityRejected,
            hresult: None,
            message: message.to_owned(),
        })
    };
    assert_eq!(
        refuse_reader(&ReaderCheck::NotOpened),
        refused("could not open the approved reader process")
    );
    let unsigned = ReaderCheck::Opened {
        image: Some(r"C:\uffs-content-reader.exe".to_owned()),
        signed: false,
    };
    assert_eq!(
        refuse_reader(&unsigned),
        refused("reader process failed identity verification")
    );
    let reader = ReaderCheck::Opened {
        image: Some(r"C:\uffs-content-reader.exe".to_owned()),
        signed: true,
    };
    assert_eq!(refuse_reader(&reader), None);
    assert_eq!(duplicate_reply(Ok(())), SnapshotManagerResponse::Duplicated);
    assert_eq!(
        duplicate_reply(Err("gone".to_owned())),
        SnapshotManagerResponse::Error {
            code: SnapshotManagerErrorCode::InternalError,
            hresult: None,
            message: "gone".to_owned(),
        }
    );
}

// ---- the helper ----

/// A drive root's trailing backslash must be doubled, not passed through as-is: a single backslash
/// right before the closing quote escapes the quote instead of ending the argument.
#[test]
fn quote_windows_arg_doubles_a_trailing_backslash() {
    assert_eq!(quote_windows_arg(r"C:\"), r#""C:\\""#);
}

#[test]
fn quote_windows_arg_passes_plain_text_through() {
    assert_eq!(quote_windows_arg("plain"), r#""plain""#);
}

#[test]
fn quote_windows_arg_escapes_embedded_quotes() {
    assert_eq!(quote_windows_arg(r#"a"b"#), r#""a\"b""#);
}

#[test]
fn quote_windows_arg_doubles_backslashes_before_an_embedded_quote() {
    assert_eq!(quote_windows_arg(r#"a\"b"#), r#""a\\\"b""#);
}

#[test]
fn quote_windows_arg_leaves_interior_backslashes_alone() {
    assert_eq!(
        quote_windows_arg(r"C:\Users\rnio\bin\uffs-vss-requestor.exe"),
        r#""C:\Users\rnio\bin\uffs-vss-requestor.exe""#
    );
}

#[test]
fn quote_windows_arg_handles_empty_string() {
    assert_eq!(quote_windows_arg(""), r#""""#);
}

#[test]
fn the_command_line_keeps_its_arguments_apart() {
    let line = build_command_line(r"C:\u s\h.exe", r"\\.\pipe\p", r"C:\", 42);
    let text = r#""C:\u s\h.exe" --pipe-name "\\.\pipe\p" --volume-path "C:\\" --parent-pid 42"#;
    let mut wanted: Vec<u16> = text.encode_utf16().collect();
    wanted.push(0);
    assert_eq!(line, wanted);
}

#[test]
fn utf16_is_that_of_the_standard_library() {
    let text = "C:\\d\u{e4}\u{2014}\u{1f512}";
    let units: Vec<u16> = text.encode_utf16().collect();
    assert_eq!(encode_utf16(text), units);
    let bytes: Vec<u8> = text.encode_utf16().flat_map(u16::to_le_bytes).collect();
    assert_eq!(utf16le_bytes(text), bytes);
    assert_eq!(decode_utf16le(&bytes), Some(text.to_owned()));
    // An odd length, and a lone surrogate.
    assert_eq!(decode_utf16le(&bytes[1..]), None);
    assert_eq!(decode_utf16le(&[0x00, 0xd8]), None);
    assert_eq!(decode_utf16le(&[0x00, 0xdc]), None);
    assert_eq!(requested_volume(&bytes), Ok(text.to_owned()));
    assert_eq!(
        requested_volume(&[1]),
        Err(VssError::InvalidVolume("requested_root is not valid UTF-16LE".to_owned()))
    );
}

#[test]
fn pipe_names_have_sixteen_digits() {
    assert_eq!(control_pipe_name(1), r"\\.\pipe\uffs-vss-requestor-0000000000000001");
    assert_eq!(
        control_pipe_name(u64::MAX),
        r"\\.\pipe\uffs-vss-requestor-ffffffffffffffff"
    );
}

#[test]
fn the_helper_beside_the_broker_is_preferred() {
    let choose = |beside: bool, above: bool| {
        choose_helper_path("a".to_owned(), beside, Some("b".to_owned()), above)
    };
    assert_eq!(choose(true, true), "a");
    assert_eq!(choose(false, true), "b");
    assert_eq!(choose(false, false), "a");
    assert_eq!(choose_helper_path("a".to_owned(), false, None, true), "a");
}

#[test]
fn a_failed_start_closes_what_is_open() {
    let mut steps = vec![SpawnStep::CreateProcess];
    while let Some(next) = next_spawn_step(steps[steps.len() - 1]) {
        steps.push(next);
    }
    assert_eq!(steps.len(), 5);
    assert_eq!(
        spawn_failed(SpawnStep::AssignJob, "denied"),
        (
            vec![SpawnHandle::Job, SpawnHandle::Process, SpawnHandle::Thread],
            "AssignProcessToJobObject failed: denied".to_owned()
        )
    );
    assert_eq!(
        spawn_failed(SpawnStep::ResumeThread, "x").0,
        vec![SpawnHandle::Job, SpawnHandle::Process]
    );
    assert!(spawn_failed(SpawnStep::CreateProcess, "x").0.is_empty());
    assert_eq!(connect_failure(None), None);
    assert_eq!(connect_failure(Some((535, "connected".to_owned()))), None);
    assert_eq!(
        connect_failure(Some((5, "denied".to_owned()))),
        Some("ConnectNamedPipe failed: denied".to_owned())
    );
}

#[test]
fn events_of_the_helper_are_understood() {
    let ready = HelperEvent::Ready {
        snapshot_id: "{id}".to_owned(),
        snapshot_device_object: Some("dev".to_owned()),
    };
    let handle = created_snapshot(Some(ready.clone())).unwrap();
    assert_eq!(handle.snapshot_id, b"{id}".to_vec());
    assert_eq!(handle.device_identity, "dev");
    let failed = HelperEvent::Failed {
        stage: 6,
        hresult: -2_147_212_532,
        message: "AddToSnapshotSet failed".to_owned(),
    };
    assert_eq!(
        created_snapshot(Some(failed.clone())),
        Err(VssError::CreateFailed {
            hresult: Some(-2_147_212_532),
            message: "stage=6 hresult=0x8004230c: AddToSnapshotSet failed".to_owned(),
        })
    );
    let unexpected = |message: &str| {
        Err(VssError::CreateFailed {
            hresult: None,
            message: message.to_owned(),
        })
    };
    assert_eq!(
        created_snapshot(Some(HelperEvent::Pong)),
        unexpected("unexpected event from helper before Ready")
    );
    assert_eq!(
        created_snapshot(None),
        unexpected("helper closed the control pipe before reporting readiness")
    );
    assert_eq!(
        Err(create_step_failed(CreateStep::Spawn, "no file")),
        unexpected("failed to spawn uffs-vss-requestor: no file")
            .map(|handle: SnapshotHandle| drop(handle))
    );
    assert_eq!(deleted_snapshot(Some(HelperEvent::Released)), Ok(()));
    assert_eq!(deleted_snapshot(None), Ok(()));
    assert_eq!(
        deleted_snapshot(Some(failed)),
        Err(VssError::DeleteFailed(
            "stage=6 hresult=0x8004230c: AddToSnapshotSet failed".to_owned()
        ))
    );
    assert_eq!(
        deleted_snapshot(Some(ready)),
        Err(VssError::DeleteFailed("unexpected event from helper after Release".to_owned()))
    );
    assert_eq!(
        delete_step_failed(DeleteStep::Send, "closed"),
        VssError::DeleteFailed("failed to send Release: closed".to_owned())
    );
    assert_eq!(
        no_session(),
        VssError::DeleteFailed("no live session for this snapshot".to_owned())
    );
    assert_eq!(event_line(""), None);
    assert_eq!(event_line("{}\r\n"), Some("{}".to_owned()));
}

#[test]
fn the_self_test_reads_its_marker_back() {
    assert_eq!(check_marker(SELF_TEST_MARKER.as_bytes()), Ok(()));
    assert_eq!(
        check_marker(b"other"),
        Err("content mismatch: snapshot read back 5 bytes, expected 34 bytes matching the marker"
            .to_owned())
    );
    assert!(check_device("").is_err());
    assert!(check_device("dev").is_ok());
    assert!(check_bogus_volume(true).is_err());
    assert!(check_bogus_volume(false).is_ok());
    let bad = || Err("bad".to_owned());
    assert_eq!(self_test_result(Ok(()), Ok(()), Ok(())), Ok(()));
    assert_eq!(self_test_result(bad(), Ok(()), Err("x".to_owned())), bad());
    assert_eq!(self_test_result(Ok(()), bad(), Err("x".to_owned())), bad());
    assert_eq!(
        self_test_result(Ok(()), Ok(()), bad()),
        Err("delete_snapshot failed: bad".to_owned())
    );
}

#[test]
fn a_service_takes_controls_only_while_it_runs() {
    assert_eq!(
        service_report(ServicePhase::Running),
        ServiceReport {
            state: 4,
            controls: ACCEPTED_CONTROLS
        }
    );
    for (phase, state) in [
        (ServicePhase::Stopped, 1),
        (ServicePhase::Starting, 2),
        (ServicePhase::Stopping, 3),
    ] {
        assert_eq!(service_report(phase), ServiceReport { state, controls: 0 });
    }
    assert!(matches!(run_as_service(None), HandOver::Served));
    let by_hand = Some((ERROR_FAILED_SERVICE_CONTROLLER_CONNECT, "by hand".to_owned()));
    assert!(matches!(run_as_service(by_hand), HandOver::ShowUsage));
    assert!(matches!(
        run_as_service(Some((5, "denied".to_owned()))),
        HandOver::Failed(told) if told == "StartServiceCtrlDispatcherW failed: denied"
    ));
    assert_eq!(
        step_line(REGISTERING, 2),
        format!("\r{REGISTERING}\u{2839} ")
    );
    assert_eq!(step_done(REGISTERING), format!("\r{REGISTERING}"));
    assert_eq!(verdict(true), "ok");
    assert_eq!(verdict(false), "failed");
}
