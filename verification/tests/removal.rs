//! Residency, removal and updates.

use uffs::drive::DriveLetter;
use uffs::elevation::{gate_answer, gate_start, ElevatablePlan, ElevationChoice, GateStep};
use uffs::model::{
    BinaryInfo, Channel, Component, DetectionReport, InstallRoot, RunningProcess, Scope,
};
use uffs::platform::{file_name_of, is_in, join_path, parent_of, same_path, Platform};
use uffs::resident::{
    daemon_argv, launch_agent_plist, marker_content, plist_path, resident_status,
    run_command_line, run_item, sources_refusal, stderr_log, systemd_unit, turn_off, turn_on_linux, turn_on_macos,
    turn_on_windows, unit_path, unsupported, xml_escape, ResidentStep,
};
use uffs::uninstall::coverage::{
    begin_reload, coverage_complete, daemon_version_mismatch, missing_drives, next_halt_step,
    reload_announcement, reload_narration, reload_reason, start_action, still_waits, HaltNext,
    HaltStep, Reload,
};
use uffs::uninstall::effects::{
    after_deletes, delete_result, delete_service_command, exe_file_name, exit_result,
    files_to_delete, is_self, keeps_waiting, next_stop_step, removal_result, remove_path_command, removed,
    self_delete_script, service_route, stop_command, uac_command, uac_result, winget_uninstall,
    DeleteNext, Ended, FailedDelete, ServiceRoute, StopNext, StopStep, UAC_NOT_GRANTED_EXIT,
};
use uffs::uninstall::flow::{
    binary_dir_bytes, broker_remains, confirm, consent_answer, execute_all, final_consent,
    gate_wording, gather_erase, gather_line, gather_mode, live_daemon, next_action,
    places_to_check, plan_dirs, report_lines, self_binaries, sweep_answer, sweep_decision,
    ConsentStep, FinalChoice, GateOutcome, GatherMode, GatherPhase, Progress, SweepDecision,
    SweepStep, UninstallAction,
};
use uffs::uninstall::inventory::{
    ArtifactDir, ArtifactKind, BrokerServiceState, Inventory, StrayHit, UninstallArgs,
    UninstallScope,
};
use uffs::uninstall::plan::{
    binaries_need_escalation, build_plan, build_stray_plan, path_hints, scope_admits, PlanItem,
    PlanTarget, RemovalPlan,
};
use uffs::uninstall::remove::{execute, EffectError, Effects, ElevationDeclined, ItemStatus};
use uffs::uninstall::render::{
    analysis_json, human_bytes, journal_warning, outcome_lines, plan_lines, run_header,
    self_delete_warning, skipped_lines, verification_lines, ALL_GONE,
};
use uffs::update::plan::{
    classify_root, prune_report, skipped_elevation_lines, winget_delegation_lines,
    write_probe_name, UpdateAction, UpdatePlan,
};
use uffs::update::winget::{
    broker_cycle, cycle_helper_refusal, deferred_restart_script, deferred_script, helper_script, look,
    orchestrate,
    release_file_name, root_is_current, upgrade_args, upgrade_report, upgrade_result,
    upgrade_steps, BrokerCycle, UpgradeStep, Wait, WingetStep, HELPER_NOT_LAUNCHED,
};
use uffs::update::winget_discover::{
    dir_has_uffs, discover, find_dir_with_uffs, is_uffs_package_folder, roots_under_packages_base,
    winget_packages_bases, PackageFolder, Programs, SubFolder,
};

fn args(list: &[&str]) -> Vec<String> {
    list.iter().map(|item| (*item).to_owned()).collect()
}

// ---- residency ----

/// The plist carries the label, the full argv in order, and the crash-only `KeepAlive` policy.
#[test]
fn plist_renders_label_argv_and_keepalive() {
    let rendered = launch_agent_plist(
        "/opt/uffs/uffsd",
        &vec![
            String::from("--no-retire"),
            String::from("--data-dir"),
            String::from("/Users/me/uffs data"),
        ],
        "/tmp/err.log",
    );
    assert!(rendered.contains("<string>com.skyllc.uffs.daemon</string>"));
    assert!(rendered.contains("<string>/opt/uffs/uffsd</string>"));
    assert!(rendered.contains("<string>--no-retire</string>"));
    assert!(rendered.contains("<string>/Users/me/uffs data</string>"));
    assert!(rendered.contains("<key>SuccessfulExit</key>\n        <false/>"));
    assert!(rendered.contains("<key>RunAtLoad</key>\n    <true/>"));
}

/// Paths with XML-special characters survive escaping.
#[test]
fn xml_special_characters_are_escaped() {
    assert_eq!(xml_escape("a&b<c>d"), "a&amp;b&lt;c&gt;d");
}

/// The exe is always quoted; args are quoted only when they contain whitespace.
#[test]
fn run_command_line_quotes_exe_and_spaced_args() {
    let line = run_command_line(
        r"C:\Program Files\UFFS\uffsd.exe",
        &vec![
            String::from("--no-retire"),
            String::from("--log-file"),
            String::from(r"C:\Users\Me\App Data\uffsd.log"),
        ],
    );
    assert_eq!(
        line,
        r#""C:\Program Files\UFFS\uffsd.exe" --no-retire --log-file "C:\Users\Me\App Data\uffsd.log""#
    );
}

/// The unit quotes every `ExecStart` token and carries the crash-only restart policy.
#[test]
fn unit_renders_execstart_and_restart_policy() {
    let unit = systemd_unit(
        "/opt/uffs/uffsd",
        &vec![
            String::from("--no-retire"),
            String::from("--data-dir"),
            String::from("/data dir"),
        ],
    );
    assert!(unit
        .contains("ExecStart=\"/opt/uffs/uffsd\" \"--no-retire\" \"--data-dir\" \"/data dir\""));
    assert!(unit.contains("Restart=on-failure"));
    assert!(unit.contains("WantedBy=default.target"));
}

/// The resident argv always leads with `--no-retire`, forwards the data sources, and ends with an
/// absolute `--log-file`.
#[test]
fn argv_carries_no_retire_sources_and_log_file() {
    let argv = daemon_argv(
        Platform::Unix,
        &args(&["/mft/c.bin"]),
        &Some("/data".to_owned()),
        &[],
        "/var/log/uffs",
    );
    assert_eq!(argv.first().map(String::as_str), Some("--no-retire"));
    let joined = argv.join(" ");
    assert!(joined.contains("--data-dir /data"));
    assert!(joined.contains("--mft-file /mft/c.bin"));
    let log_flag = argv
        .iter()
        .position(|arg| arg == "--log-file")
        .expect("--log-file present");
    let log_path = argv.get(log_flag + 1).expect("log path follows flag");
    assert!(
        std::path::Path::new(log_path).is_absolute(),
        "log path must be absolute for a login-started process: {log_path}"
    );
    assert!(log_path.ends_with("uffsd.log"));
}

#[test]
fn turning_residency_on_writes_runs_and_starts() {
    let argv = args(&["--no-retire"]);
    let steps = turn_on_linux("/opt/uffsd", &argv, "/u/uffs-daemon.service", false);
    assert!(steps
        .iter()
        .any(|step| matches!(step, ResidentStep::WriteFile { path, .. } if path == "/u/uffs-daemon.service")));
    let steps = turn_on_windows(r"C:\uffsd.exe", &argv, false);
    assert!(steps
        .iter()
        .any(|step| matches!(step, ResidentStep::StartDaemon)));
    assert!(matches!(
        steps.last(),
        Some(ResidentStep::Tell(told)) if told == "Resident daemon started and ready."
    ));
    assert_eq!(
        run_item(),
        r"HKCU\Software\Microsoft\Windows\CurrentVersion\Run\UFFSDaemon"
    );
    assert_eq!(stderr_log("/logs"), "/logs/uffsd.launchd.err.log");
    let steps = turn_on_macos("/opt/uffsd", &argv, "/p.plist", "/e.log", "gui/501", true);
    assert!(steps
        .iter()
        .any(|step| matches!(step, ResidentStep::WriteFile { path, .. } if path == "/p.plist")));
    assert!(!turn_off(Platform::Unix, "/u/uffs-daemon.service", true, &None).is_empty());
    assert!(unsupported(Platform::Other).is_some());
    assert!(unsupported(Platform::Unix).is_none());
    assert_eq!(marker_content(&args(&["a", "b"])), "a\nb\n");
    assert_eq!(
        plist_path(&Some("/Users/me".to_owned())).unwrap(),
        "/Users/me/Library/LaunchAgents/com.skyllc.uffs.daemon.plist"
    );
    assert!(plist_path(&None).is_err());
    assert_eq!(
        unit_path(&Some("/cfg".to_owned()), &None).unwrap(),
        "/cfg/systemd/user/uffs-daemon.service"
    );
    assert_eq!(
        unit_path(&None, &Some("/home/me".to_owned())).unwrap(),
        "/home/me/.config/systemd/user/uffs-daemon.service"
    );
    assert!(unit_path(&None, &None).is_err());
    assert!(!resident_status(&None, false, false).is_empty());
    assert!(sources_refusal(Platform::Unix, &Vec::new(), &None).is_some());
    assert!(sources_refusal(Platform::Windows, &Vec::new(), &None).is_none());
}

// ---- the plan of a removal ----

fn root(channel: Channel, scope: Scope, dir: &str) -> InstallRoot {
    InstallRoot {
        dir: dir.to_owned(),
        channel,
        scope,
        anchored_by: Vec::new(),
        binaries: vec![BinaryInfo {
            name: "uffs".to_owned(),
            version: Some("0.6.16".to_owned()),
        }],
        user_writable: true,
    }
}

fn named(names: &[&str]) -> Vec<BinaryInfo> {
    names
        .iter()
        .map(|name| BinaryInfo {
            name: (*name).to_owned(),
            version: None,
        })
        .collect()
}

fn running(component: Component, pid: u32) -> RunningProcess {
    RunningProcess {
        component,
        pid,
        image_path: None,
        command_line: None,
        version: None,
    }
}

fn inventory(broker: BrokerServiceState, config_size: u64) -> Inventory {
    Inventory {
        dirs: vec![
            ArtifactDir {
                kind: ArtifactKind::Cache,
                path: "/x/cache".to_owned(),
                exists: true,
                size_bytes: 2048,
            },
            ArtifactDir {
                kind: ArtifactKind::Config,
                path: "/x/config".to_owned(),
                exists: true,
                size_bytes: config_size,
            },
        ],
        broker_service: broker,
    }
}

fn has_target(plan: &RemovalPlan, predicate: impl Fn(&PlanTarget) -> bool) -> bool {
    plan.items().iter().any(|item| predicate(&item.target))
}

/// Build a plan with no PATH entries (PATH has its own dedicated test).
fn built(report: &DetectionReport, inventory: &Inventory, args: &UninstallArgs) -> RemovalPlan {
    build_plan(Platform::Windows, report, inventory, args, &[])
}

#[test]
fn winget_delegation_runs_after_the_shutdown_group() {
    // The daemon runs from the package, and WinGet cannot delete what runs: the delegation must
    // come after the shutdown, never before.
    let report = DetectionReport {
        roots: vec![root(Channel::WinGet, Scope::User, r"C:\winget\uffs")],
        running: vec![running(Component::Daemon, 4242)],
    };
    let plan = built(
        &report,
        &inventory(BrokerServiceState::Absent, 1024),
        &UninstallArgs::default(),
    );
    let order: Vec<&'static str> = plan
        .items()
        .iter()
        .map(|item| item.target.action_label())
        .collect();
    let stop = order
        .iter()
        .position(|label| *label == "stop-process")
        .expect("daemon stop present");
    let winget = order
        .iter()
        .position(|label| *label == "delegate-winget")
        .expect("winget delegation present");
    assert!(
        stop < winget,
        "shutdown must precede the winget delegation: {order:?}"
    );
}

#[test]
fn winget_root_is_delegated_not_deleted() {
    let report = DetectionReport {
        roots: vec![root(Channel::WinGet, Scope::User, r"C:\winget\uffs")],
        running: Vec::new(),
    };
    let plan = built(
        &report,
        &inventory(BrokerServiceState::Absent, 1024),
        &UninstallArgs::default(),
    );
    assert!(has_target(&plan, |target| matches!(
        target,
        PlanTarget::DelegateWinget { .. }
    )));
    assert!(!has_target(&plan, |target| matches!(
        target,
        PlanTarget::DeleteBinaries { .. }
    )));
}

#[test]
fn machine_root_needs_elevation() {
    let report = DetectionReport {
        roots: vec![root(
            Channel::Unmanaged,
            Scope::Machine,
            r"C:\Program Files\uffs",
        )],
        running: Vec::new(),
    };
    let plan = built(
        &report,
        &inventory(BrokerServiceState::Absent, 1024),
        &UninstallArgs::default(),
    );
    assert!(plan.requires_elevation());
}

#[test]
fn service_present_requires_elevation_and_shuts_down_before_data() {
    let report = DetectionReport {
        roots: Vec::new(),
        running: Vec::new(),
    };
    let plan = built(
        &report,
        &inventory(BrokerServiceState::Installed, 1024),
        &UninstallArgs::default(),
    );
    assert!(plan.requires_elevation());
    assert!(has_target(&plan, |target| matches!(
        target,
        PlanTarget::RemoveService { .. }
    )));
    // The shutdown comes late, but before the data: a running daemon holds open handles in it.
    let titles: Vec<&str> = plan.groups.iter().map(|group| group.title).collect();
    let shutdown = titles
        .iter()
        .position(|title| *title == "Shutdown (stopped last)")
        .expect("a shutdown group");
    let data = titles
        .iter()
        .position(|title| *title == "Data / cache / config")
        .expect("a data group");
    assert!(shutdown < data, "shutdown must precede data: {titles:?}");
}

#[test]
fn runtime_binaries_split_into_the_post_shutdown_group() {
    let mut mixed = root(Channel::Unmanaged, Scope::User, "/opt/uffs");
    mixed.binaries = named(&["uffs", "uffs-analyze-diff", "uffsd", "uffs-broker"]);
    let report = DetectionReport {
        roots: vec![mixed],
        running: Vec::new(),
    };
    let plan = built(
        &report,
        &inventory(BrokerServiceState::Absent, 1024),
        &UninstallArgs::default(),
    );

    let stems_of = |title: &str| -> Vec<String> {
        plan.groups
            .iter()
            .find(|group| group.title == title)
            .into_iter()
            .flat_map(|group| &group.items)
            .filter_map(|item| {
                if let PlanTarget::DeleteBinaries { stems, .. } = &item.target {
                    Some(stems.clone())
                } else {
                    None
                }
            })
            .flatten()
            .collect()
    };
    assert_eq!(stems_of("Binaries"), vec!["uffs", "uffs-analyze-diff"]);
    assert_eq!(
        stems_of("Runtime binaries (after shutdown)"),
        vec!["uffsd", "uffs-broker"]
    );
    let titles: Vec<&str> = plan.groups.iter().map(|group| group.title).collect();
    let tools = titles
        .iter()
        .position(|title| *title == "Binaries")
        .expect("tools");
    let runtime = titles
        .iter()
        .position(|title| *title == "Runtime binaries (after shutdown)")
        .expect("runtime");
    assert!(tools < runtime, "runtime group must be last: {titles:?}");
}

#[test]
fn keep_config_drops_the_config_dir() {
    let report = DetectionReport {
        roots: Vec::new(),
        running: Vec::new(),
    };
    let inv = inventory(BrokerServiceState::Absent, 4096);
    let with_config = built(&report, &inv, &UninstallArgs::default());
    let keep = UninstallArgs {
        keep_config: true,
        ..UninstallArgs::default()
    };
    let without_config = built(&report, &inv, &keep);
    assert!(with_config.total_bytes() > without_config.total_bytes());
}

#[test]
fn scope_user_excludes_the_machine_service() {
    let report = DetectionReport {
        roots: Vec::new(),
        running: Vec::new(),
    };
    let user_only = UninstallArgs {
        scope: UninstallScope::User,
        ..UninstallArgs::default()
    };
    let plan = built(
        &report,
        &inventory(BrokerServiceState::Installed, 1024),
        &user_only,
    );
    assert!(!has_target(&plan, |target| matches!(
        target,
        PlanTarget::RemoveService { .. }
    )));
    assert!(!plan.requires_elevation());
}

#[test]
fn running_process_becomes_a_stop_item() {
    let report = DetectionReport {
        roots: Vec::new(),
        running: vec![running(Component::Daemon, 4242)],
    };
    let plan = built(
        &report,
        &inventory(BrokerServiceState::Absent, 1024),
        &UninstallArgs::default(),
    );
    assert!(has_target(&plan, |target| matches!(
        target,
        PlanTarget::StopProcess { .. }
    )));
}

fn bytes_of(plan: &RemovalPlan, wanted: impl Fn(&PlanItem) -> bool) -> u64 {
    let mut sum = 0;
    for item in plan.items() {
        if wanted(item) {
            sum += item.bytes;
        }
    }
    sum
}

#[test]
fn size_binaries_fills_only_binary_delete_items_from_the_sizer() {
    let report = DetectionReport {
        roots: vec![root(Channel::Unmanaged, Scope::User, r"C:\Users\me\bin")],
        running: Vec::new(),
    };
    let mut plan = built(
        &report,
        &inventory(BrokerServiceState::Absent, 1024),
        &UninstallArgs::default(),
    );
    let is_dir = |item: &PlanItem| matches!(item.target, PlanTarget::DeleteDir { .. });
    let dirs_before = bytes_of(&plan, is_dir);

    // Sizer reports 4096 bytes for any binary target.
    plan.size_binaries(|_dir, stems| 4096 * stems.len() as u64);

    let binary_bytes = bytes_of(&plan, |item| {
        matches!(item.target, PlanTarget::DeleteBinaries { .. })
    });
    assert_eq!(binary_bytes, 4096, "the single `uffs` stem was sized");
    assert_eq!(
        bytes_of(&plan, is_dir),
        dirs_before,
        "dir sizes are left as the inventory set them"
    );
}

#[test]
fn ensure_daemon_shutdown_injects_a_stop_before_the_runtime_binaries() {
    // No daemon was running when the plan was built, so it has no daemon stop, but it does have
    // runtime binaries whose image a daemon that is started later would lock.
    let mut bin = root(Channel::Unmanaged, Scope::User, r"C:\Users\me\bin");
    bin.binaries = named(&["uffs", "uffsd"]);
    let report = DetectionReport {
        roots: vec![bin],
        running: Vec::new(),
    };
    let mut plan = built(
        &report,
        &inventory(BrokerServiceState::Absent, 1024),
        &UninstallArgs::default(),
    );
    assert!(
        !has_target(&plan, |target| matches!(
            target,
            PlanTarget::StopProcess { .. }
        )),
        "no daemon stop before the injection"
    );

    plan.ensure_daemon_shutdown(9191);

    let stop_group = plan
        .groups
        .iter()
        .position(|group| {
            group.items.iter().any(|item| {
                matches!(&item.target, PlanTarget::StopProcess { component, pid }
                    if component == "daemon" && *pid == 9191)
            })
        })
        .expect("the daemon stop was injected");
    let runtime_group = plan
        .groups
        .iter()
        .position(|group| group.title == "Runtime binaries (after shutdown)")
        .expect("runtime-binaries group present");
    assert!(
        stop_group < runtime_group,
        "the daemon stop must run before the runtime binaries are deleted"
    );
}

#[test]
fn ensure_daemon_shutdown_is_a_noop_when_a_stop_already_exists() {
    let report = DetectionReport {
        roots: Vec::new(),
        running: vec![running(Component::Daemon, 4242)],
    };
    let mut plan = built(
        &report,
        &inventory(BrokerServiceState::Absent, 1024),
        &UninstallArgs::default(),
    );
    let before = plan.item_count();
    plan.ensure_daemon_shutdown(9191);
    assert_eq!(
        plan.item_count(),
        before,
        "an existing daemon stop is not duplicated"
    );
    assert!(
        has_target(&plan, |target| matches!(target,
            PlanTarget::StopProcess { pid, .. } if *pid == 4242)),
        "the analyzed daemon stop is kept (not replaced)"
    );
}

#[test]
fn drop_elevation_required_removes_broker_keeps_the_rest() {
    let report = DetectionReport {
        roots: Vec::new(),
        running: vec![running(Component::Broker, 11), running(Component::Daemon, 22)],
    };
    // The broker service takes Administrator rights; its process is no item of its own.  The stop of
    // the daemon takes none.
    let mut plan = built(
        &report,
        &inventory(BrokerServiceState::Installed, 1024),
        &UninstallArgs::default(),
    );
    assert!(
        plan.requires_elevation(),
        "broker service + process need admin"
    );

    let dropped = plan.drop_elevation_required();
    assert!(!plan.requires_elevation(), "admin-only items were dropped");
    assert!(
        !dropped.is_empty() && dropped.iter().all(|desc| !desc.is_empty()),
        "the dropped items are returned as human descriptions for the summary"
    );
    assert!(
        !has_target(&plan, |target| matches!(
            target,
            PlanTarget::RemoveService { .. }
        )),
        "the broker service item is gone"
    );
    let stop_pids: Vec<u32> = plan
        .items()
        .iter()
        .filter_map(|item| {
            if let PlanTarget::StopProcess { pid, .. } = &item.target {
                Some(*pid)
            } else {
                None
            }
        })
        .collect();
    assert_eq!(stop_pids, vec![22], "only the daemon stop survives");
}

fn stray(path: &str, version: Option<&str>) -> StrayHit {
    StrayHit {
        path: path.to_owned(),
        version: version.map(str::to_owned),
    }
}

#[test]
fn stray_plan_is_one_group_of_unprivileged_delete_file_items() {
    assert!(build_stray_plan(&[]).is_empty(), "no strays -> empty plan");
    let strays = vec![
        stray("/home/me/Downloads/uffs", Some("0.5.0")),
        stray("/tmp/x_compact.uffs", None),
    ];
    let plan = build_stray_plan(&strays);
    assert_eq!(plan.item_count(), 2);
    assert!(
        plan.items()
            .iter()
            .all(|item| matches!(item.target, PlanTarget::DeleteFile { .. })),
        "every stray item is a DeleteFile"
    );
    assert!(
        !plan.requires_elevation(),
        "strays never require up-front elevation (best-effort on failure)"
    );
}

#[test]
fn path_entry_matching_a_removed_root_is_offered_and_respects_no_path() {
    let report = DetectionReport {
        roots: vec![root(Channel::Unmanaged, Scope::User, r"C:\Users\me\bin")],
        running: Vec::new(),
    };
    let inv = inventory(BrokerServiceState::Absent, 1024);
    let plan_for = |args: &UninstallArgs, dirs: &[String]| {
        build_plan(Platform::Windows, &report, &inv, args, dirs)
    };
    // A match but for the case is offered.
    let on_path = [r"c:\users\me\bin".to_owned()];
    let offered = plan_for(&UninstallArgs::default(), &on_path);
    assert!(has_target(&offered, |target| matches!(
        target,
        PlanTarget::RemovePathEntry { .. }
    )));
    // --no-path suppresses the PATH group entirely.
    let no_path = UninstallArgs {
        no_path: true,
        ..UninstallArgs::default()
    };
    let suppressed = plan_for(&no_path, &on_path);
    assert!(!has_target(&suppressed, |target| matches!(
        target,
        PlanTarget::RemovePathEntry { .. }
    )));
    // A PATH entry that does not match any root is never touched.
    let unrelated = [r"C:\unrelated".to_owned()];
    let untouched = plan_for(&UninstallArgs::default(), &unrelated);
    assert!(!has_target(&untouched, |target| matches!(
        target,
        PlanTarget::RemovePathEntry { .. }
    )));
}

#[test]
fn unix_user_writable_root_skips_escalation_root_owned_flags_it() {
    assert!(!binaries_need_escalation(Platform::Unix, Scope::Unknown, true));
    assert!(binaries_need_escalation(Platform::Unix, Scope::Unknown, false));
}

#[test]
fn windows_escalation_follows_machine_scope() {
    assert!(binaries_need_escalation(Platform::Windows, Scope::Machine, false));
    assert!(!binaries_need_escalation(Platform::Windows, Scope::User, false));
}

#[test]
fn a_full_plan_is_in_order() {
    let mut mixed = root(Channel::Unmanaged, Scope::User, r"C:\uffs");
    mixed.binaries = named(&["uffs", "UFFSD"]);
    let report = DetectionReport {
        roots: vec![mixed],
        running: vec![running(Component::Mcp, 5)],
    };
    let plan = build_plan(
        Platform::Windows,
        &report,
        &inventory(BrokerServiceState::Installed, 1),
        &UninstallArgs::default(),
        &[r"C:\uffs".to_owned()],
    );
    let titles: Vec<&str> = plan.groups.iter().map(|group| group.title).collect();
    assert_eq!(
        titles,
        vec![
            "Binaries",
            "PATH",
            "Shutdown (stopped last)",
            "Data / cache / config",
            "Runtime binaries (after shutdown)",
        ]
    );
    assert_eq!(plan.total_bytes(), 2049);
    let lines = plan_lines(Platform::Windows, &plan, &build_stray_plan(&[]));
    assert!(lines.iter().any(|line| line.contains(r"C:\uffs")), "{lines:?}");
}

#[test]
fn a_hint_takes_the_place_of_a_path_edit() {
    let report = DetectionReport {
        roots: vec![root(Channel::Unmanaged, Scope::User, "/home/me/uffs")],
        running: Vec::new(),
    };
    let removable = ["/home/me/uffs".to_owned()];
    let mut args = UninstallArgs::default();
    assert!(path_hints(&report, &args, &removable).is_empty());
    args.no_path = true;
    assert_eq!(
        path_hints(&report, &args, &removable),
        vec![
            "  note: /home/me/uffs was a UFFS-only directory; if you added it to your shell PATH (~/.profile or ~/.zshrc), you can remove that line now"
        ]
    );
    assert!(path_hints(&report, &args, &[]).is_empty());
}

#[test]
fn a_narrower_scope_only_filters_the_plan() {
    let mut user = root(Channel::Unmanaged, Scope::User, r"C:\Users\me\bin");
    user.binaries = named(&["uffs", "uffsd"]);
    let mut machine = root(Channel::Unmanaged, Scope::Machine, r"C:\uffs");
    machine.binaries = named(&["uffs"]);
    let report = DetectionReport {
        roots: vec![user, machine],
        running: vec![running(Component::Mcp, 5)],
    };
    let inv = inventory(BrokerServiceState::Installed, 1);
    let described = |scope| {
        let args = UninstallArgs { scope, ..UninstallArgs::default() };
        let plan = build_plan(Platform::Windows, &report, &inv, &args, &[]);
        let items = plan.items();
        items.iter().map(|item| (item.scope, item.target.describe())).collect::<Vec<_>>()
    };
    let all = described(UninstallScope::All);
    for scope in [UninstallScope::User, UninstallScope::Machine] {
        let wanted: Vec<_> =
            all.iter().filter(|(item, _)| scope_admits(scope, *item)).cloned().collect();
        assert_eq!(described(scope), wanted);
        assert!(wanted.len() < all.len());
    }
}

// ---- carrying a removal out ----

/// Records the calls; never touches anything.  `fail_marker` makes the removal of that directory
/// fail.
#[derive(Default)]
struct RecordingEffects {
    calls: Vec<String>,
    fail_marker: Option<String>,
    /// When set, the removal of the service is declined, as at a declined prompt.
    decline_service: bool,
}

impl Effects for RecordingEffects {
    fn stop_process(&mut self, component: &str, pid: u32) -> Result<(), EffectError> {
        self.calls.push(format!("stop_process:{component}:{pid}"));
        Ok(())
    }
    fn remove_service(&mut self, service: &str) -> Result<(), EffectError> {
        self.calls.push(format!("remove_service:{service}"));
        if self.decline_service {
            return Err(EffectError::Declined(ElevationDeclined));
        }
        Ok(())
    }
    fn delete_binaries(&mut self, dir: &str, stems: &[String]) -> Result<(), EffectError> {
        self.calls
            .push(format!("delete_binaries:{dir}:{}", stems.len()));
        Ok(())
    }
    fn delete_file(&mut self, path: &str) -> Result<(), EffectError> {
        self.calls.push(format!("delete_file:{path}"));
        Ok(())
    }
    fn delegate_winget(&mut self, package_id: &str, _scope: Scope) -> Result<(), EffectError> {
        self.calls.push(format!("delegate_winget:{package_id}"));
        Ok(())
    }
    fn remove_dir(&mut self, path: &str) -> Result<(), EffectError> {
        self.calls.push(format!("remove_dir:{path}"));
        if self.fail_marker.as_deref() == Some(path) {
            return Err(EffectError::Failed("simulated permission denied".to_owned()));
        }
        Ok(())
    }
    fn remove_path_entry(&mut self, dir: &str) -> Result<(), EffectError> {
        self.calls.push(format!("remove_path_entry:{dir}"));
        Ok(())
    }
}

fn full_plan() -> RemovalPlan {
    let mut opt = root(Channel::Unmanaged, Scope::User, "/opt/uffs");
    opt.binaries = named(&["uffs"]);
    let report = DetectionReport {
        roots: vec![opt],
        running: vec![running(Component::Daemon, 7)],
    };
    let inventory = Inventory {
        dirs: vec![ArtifactDir {
            kind: ArtifactKind::Cache,
            path: "/x/cache".to_owned(),
            exists: true,
            size_bytes: 1,
        }],
        broker_service: BrokerServiceState::Absent,
    };
    build_plan(Platform::Windows, &report, &inventory, &UninstallArgs::default(), &[])
}

#[test]
fn executes_every_item_in_group_order() {
    let plan = full_plan();
    let mut effects = RecordingEffects::default();
    let outcome = execute(Platform::Windows, &plan, &mut effects, false);
    assert_eq!(
        effects.calls,
        vec![
            "delete_binaries:/opt/uffs:1".to_owned(),
            "stop_process:daemon:7".to_owned(),
            "remove_dir:/x/cache".to_owned(),
        ]
    );
    assert!(outcome.is_clean());
    assert_eq!(outcome.done_count(), 3);
}

/// A plan with a root that holds the broker beside another runtime binary.
fn broker_plan(service: BrokerServiceState) -> RemovalPlan {
    let mut opt = root(Channel::Unmanaged, Scope::User, "/opt/uffs");
    opt.binaries = named(&["uffsd", "uffs-broker"]);
    let report = DetectionReport {
        roots: vec![opt],
        running: Vec::new(),
    };
    let inventory = Inventory {
        dirs: Vec::new(),
        broker_service: service,
    };
    build_plan(Platform::Windows, &report, &inventory, &UninstallArgs::default(), &[])
}

#[test]
fn declined_elevation_leaves_the_broker_service_and_binary_not_fails_them() {
    let plan = broker_plan(BrokerServiceState::Installed);
    let mut effects = RecordingEffects {
        decline_service: true,
        ..RecordingEffects::default()
    };
    let outcome = execute(Platform::Windows, &plan, &mut effects, false);

    // The broker binary is never attempted: its service still runs.
    assert!(
        !effects
            .calls
            .iter()
            .any(|call| call.contains("uffs-broker")),
        "the broker binary delete must not be attempted: {:?}",
        effects.calls
    );
    assert_eq!(outcome.skipped_count(), 2, "service + broker binary left");
    assert_eq!(outcome.failed_count(), 0, "nothing is a hard failure");
    assert!(!outcome.is_clean(), "leftovers mean the run is not clean");
    assert!(
        effects
            .calls
            .iter()
            .any(|call| call == "delete_binaries:/opt/uffs:1"),
        "the non-broker runtime binary is still removed: {:?}",
        effects.calls
    );
}

#[test]
fn broker_remains_leaves_the_broker_binary_up_front() {
    let plan = broker_plan(BrokerServiceState::Absent);
    let mut effects = RecordingEffects::default();
    let outcome = execute(Platform::Windows, &plan, &mut effects, true);

    assert!(
        !effects
            .calls
            .iter()
            .any(|call| call.contains("remove_service")),
        "no service removal is attempted: {:?}",
        effects.calls
    );
    assert!(
        !effects
            .calls
            .iter()
            .any(|call| call.contains("uffs-broker")),
        "the locked broker binary is not attempted: {:?}",
        effects.calls
    );
    assert_eq!(outcome.skipped_count(), 1, "just the broker binary is left");
    assert_eq!(outcome.failed_count(), 0, "no Access-denied failure");
    assert!(
        effects
            .calls
            .iter()
            .any(|call| call == "delete_binaries:/opt/uffs:1"),
        "the non-broker runtime binary is still removed: {:?}",
        effects.calls
    );
}

#[test]
fn a_failing_item_is_recorded_and_the_rest_continue() {
    let plan = full_plan();
    let mut effects = RecordingEffects {
        fail_marker: Some("/x/cache".to_owned()),
        ..RecordingEffects::default()
    };
    let outcome = execute(Platform::Windows, &plan, &mut effects, false);
    // All three were attempted; the cache dir failed, the other two done.
    assert_eq!(effects.calls.len(), 3);
    assert_eq!(outcome.failed_count(), 1);
    assert_eq!(outcome.done_count(), 2);
    assert!(!outcome.is_clean());
    let failed = outcome
        .results
        .iter()
        .find(|(_, status)| matches!(status, ItemStatus::Failed(_)))
        .expect("a failed item");
    assert!(failed.0.contains("cache"));
    let lines = outcome_lines(&outcome);
    assert!(
        lines.iter().any(|line| line.contains("simulated permission denied")),
        "{lines:?}"
    );
}

#[test]
fn strays_are_removed_only_when_chosen() {
    let core = full_plan();
    let strays = build_stray_plan(&[stray("/tmp/x.uffs", None)]);
    let mut effects = RecordingEffects::default();
    let outcome = execute_all(Platform::Windows, &core, &strays, false, false, &mut effects);
    assert_eq!(outcome.done_count(), 3);
    assert!(!report_lines(&outcome, &strays, false).is_empty());
    let mut effects = RecordingEffects::default();
    let outcome = execute_all(Platform::Windows, &core, &strays, true, false, &mut effects);
    assert_eq!(outcome.done_count(), 4);
    assert_eq!(effects.calls.last().map(String::as_str), Some("delete_file:/tmp/x.uffs"));
}

#[test]
fn human_bytes_picks_units() {
    assert_eq!(human_bytes(0), "0 B");
    assert_eq!(human_bytes(512), "512 B");
    assert_eq!(human_bytes(1024), "1.0 KB");
    assert_eq!(human_bytes(1536), "1.5 KB");
    assert_eq!(human_bytes(1024 * 1024), "1.0 MB");
    assert_eq!(
        human_bytes(1024 * 1024 * 1024 + 512 * 1024 * 1024),
        "1.5 GB"
    );
}

#[test]
fn json_has_top_level_sections() {
    let inventory = Inventory {
        dirs: vec![ArtifactDir {
            kind: ArtifactKind::Cache,
            path: "/x/cache".to_owned(),
            exists: true,
            size_bytes: 10,
        }],
        broker_service: BrokerServiceState::Absent,
    };
    let value = analysis_json(&Vec::new(), &inventory, &RemovalPlan::default());
    assert!(value.get("binaries").is_some());
    assert!(value.get("artifacts").is_some());
    assert!(value.get("plan").is_some());
    assert_eq!(
        value.get("broker_service").and_then(|state| state.as_str()),
        Some("absent")
    );
}

/// The second name is that of the running executable: it is skipped, and left for later.
#[test]
fn delete_binaries_and_dir_remove_real_files_idempotently() {
    let stems = args(&["uffs", "uffsd"]);
    let base = r"C:\Temp\u112";
    let self_path = join_path(Platform::Windows, base, &exe_file_name(Platform::Windows, "uffsd"));
    let self_paths = vec![self_path.clone()];
    assert_eq!(
        files_to_delete(Platform::Windows, &self_paths, base, &stems),
        vec![r"C:\Temp\u112\uffs.exe".to_owned()]
    );
    assert!(is_self(&self_paths, &self_path), "running self-binary skipped (deferred)");
    // An absent file is no failure, nor is an absent directory.
    assert_eq!(removal_result(None, true), None);
    assert_eq!(removal_result(Some("not found".to_owned()), true), None);
    assert_eq!(
        removal_result(Some("denied".to_owned()), false),
        Some("denied".to_owned())
    );
    assert!(delete_result(&Vec::new(), 2).is_ok());
    let failures = vec![FailedDelete {
        path: r"C:\Temp\u112\uffs.exe".to_owned(),
        error: "denied".to_owned(),
    }];
    assert!(matches!(
        delete_result(&failures, 2),
        Err(EffectError::Failed(told)) if told.contains("uffs.exe") && told.contains("denied")
    ));
    // What failed is tried once more, and only once.
    assert!(matches!(
        after_deletes(false, &failures, 2),
        DeleteNext::Retry(paths) if paths == vec![r"C:\Temp\u112\uffs.exe".to_owned()]
    ));
    assert!(matches!(
        after_deletes(true, &failures, 2),
        DeleteNext::End(Err(EffectError::Failed(told)))
            if told == r"could not remove 1 of 2 file(s): C:\Temp\u112\uffs.exe: denied"
    ));
    assert!(matches!(after_deletes(false, &Vec::new(), 2), DeleteNext::End(Ok(()))));
    let script = self_delete_script(&self_paths).expect("something is left");
    assert!(script.contains(&self_path), "{script}");
    assert_eq!(self_delete_script(&Vec::new()), None);
}

#[test]
fn commands_are_those_of_the_platform() {
    assert_eq!(exe_file_name(Platform::Unix, "uffs"), "uffs");
    assert_eq!(exe_file_name(Platform::Windows, "uffs"), "uffs.exe");
    assert_eq!(stop_command(Platform::Windows, 7).program, "taskkill");
    assert!(stop_command(Platform::Unix, 7).args.iter().any(|arg| arg == "7"));
    let command = winget_uninstall("SkyLLC.UFFS", Scope::User);
    assert_eq!(command.program, "winget");
    assert!(command.args.iter().any(|arg| arg == "SkyLLC.UFFS"));
    let script = remove_path_command("C:\\it's").args.join(" ");
    assert!(script.contains("it''s"), "{script}");
    let script = uac_command("C:\\o'uffs.exe", "UffsAccessBroker").args.join(" ");
    assert!(script.contains("o''uffs.exe"), "{script}");
    assert!(matches!(
        uac_result(Some(UAC_NOT_GRANTED_EXIT), true, "s"),
        Err(EffectError::Declined(_))
    ));
    assert!(uac_result(Some(0), false, "s").is_ok());
    assert!(matches!(
        uac_result(Some(0), true, "s"),
        Err(EffectError::Failed(_))
    ));
}

#[test]
fn a_daemon_is_asked_before_it_is_ended() {
    let steps = |component: &str, outcomes: &[bool]| {
        let mut last = None;
        let mut taken = Vec::new();
        for outcome in outcomes {
            let StopNext::Do(step) = next_stop_step(component, last) else {
                break;
            };
            taken.push(step);
            last = Some((step, *outcome));
        }
        assert_eq!(next_stop_step(component, last), StopNext::End);
        taken
    };
    assert_eq!(
        steps("daemon", &[true, true]),
        vec![StopStep::Ask, StopStep::Wait]
    );
    assert_eq!(
        steps("daemon", &[false, true, true]),
        vec![StopStep::Ask, StopStep::Handler, StopStep::Wait]
    );
    assert_eq!(
        steps("daemon", &[false, false, true, true]),
        vec![StopStep::Ask, StopStep::Handler, StopStep::Terminate, StopStep::Wait]
    );
    assert_eq!(
        steps("daemon", &[false, false, false]),
        vec![StopStep::Ask, StopStep::Handler, StopStep::Terminate]
    );
    assert_eq!(steps("mcp", &[true]), vec![StopStep::Terminate]);
    assert!(keeps_waiting(0, true));
    assert!(!keeps_waiting(0, false));
    assert!(!keeps_waiting(10_000, true));
}

#[test]
fn what_failed_is_told_by_its_name() {
    let told = |result: Result<(), EffectError>| match result {
        Err(EffectError::Failed(told)) => told,
        _ => panic!("expected a failure"),
    };
    let stop = stop_command(Platform::Unix, 7);
    assert!(exit_result(&stop.what, Ended::Well).is_ok());
    assert_eq!(
        told(exit_result(&stop.what, Ended::Badly("exit status: 1".to_owned()))),
        "stop of pid 7 exited with exit status: 1"
    );
    let delete = delete_service_command("UffsAccessBroker");
    assert_eq!(
        told(exit_result(&delete.what, Ended::NotStarted("no such file".to_owned()))),
        "spawning sc delete UffsAccessBroker: no such file"
    );
    assert_eq!(
        winget_uninstall("SkyLLC.UFFS", Scope::Unknown).what,
        "winget uninstall SkyLLC.UFFS"
    );
    assert_eq!(
        remove_path_command(r"C:\uffs").what,
        r"removing C:\uffs from PATH"
    );
    assert!(removed("/x", None, false).is_ok());
    assert!(removed("/x", Some("gone".to_owned()), true).is_ok());
    assert_eq!(
        told(removed("/x", Some("denied".to_owned()), false)),
        "removing /x: denied"
    );
}

#[test]
fn a_daemon_is_killed_only_where_asking_did_not_end_it() {
    let halt = |outcomes: &[bool]| {
        let mut last = None;
        let mut taken = Vec::new();
        for outcome in outcomes {
            let HaltNext::Do(step) = next_halt_step(last) else {
                break;
            };
            taken.push(step);
            last = Some((step, *outcome));
        }
        let HaltNext::End(down) = next_halt_step(last) else {
            panic!("expected the end");
        };
        (taken, down)
    };
    assert_eq!(
        halt(&[true, true, true]),
        (
            vec![HaltStep::Ask, HaltStep::WaitForAsk, HaltStep::LookAfterAsk],
            true
        )
    );
    assert_eq!(
        halt(&[false, true]),
        (vec![HaltStep::Ask, HaltStep::LookAfterAsk], true)
    );
    assert_eq!(
        halt(&[false, false, true, true, false]),
        (
            vec![
                HaltStep::Ask,
                HaltStep::LookAfterAsk,
                HaltStep::Kill,
                HaltStep::WaitForKill,
                HaltStep::LookAfterKill,
            ],
            false
        )
    );
    assert!(still_waits(14_999, false));
    assert!(!still_waits(15_000, false));
    assert!(!still_waits(0, true));
}

#[test]
fn a_reload_begins_only_where_it_is_needed() {
    let c = DriveLetter::C;
    let d = DriveLetter::D;
    assert!(begin_reload(false, &[c], &[c, d], &None, "1.0").is_none());
    assert!(begin_reload(false, &[], &[], &Some("0.9".to_owned()), "1.0").is_none());
    let start = begin_reload(false, &[c, d], &[c], &None, "1.0").expect("D is missing");
    assert_eq!(start.reason, "it was missing D");
    assert_eq!(start.announcement, Some(reload_announcement("it was missing D")));
    let start = begin_reload(true, &[c], &[c], &Some("0.9".to_owned()), "1.0").expect("stale");
    assert_eq!(start.reason, "it was running v0.9, not this CLI's v1.0");
    assert_eq!(start.announcement, None);
}

#[test]
fn a_helper_is_started_only_for_want_of_rights() {
    assert_eq!(
        service_route(Platform::Windows, true, false),
        ServiceRoute::Helper
    );
    assert_eq!(
        service_route(Platform::Windows, true, true),
        ServiceRoute::Here
    );
    assert_eq!(
        service_route(Platform::Windows, false, false),
        ServiceRoute::Here
    );
    assert_eq!(
        service_route(Platform::Unix, true, false),
        ServiceRoute::Nowhere
    );
}

#[test]
fn the_search_runs_beside_the_question() {
    let sweep = SweepDecision::Proceed {
        elevate_daemon: true,
    };
    assert_eq!(
        gather_mode(false, sweep),
        GatherMode::Background {
            elevate_daemon: true
        }
    );
    assert_eq!(
        gather_mode(true, sweep),
        GatherMode::Foreground {
            elevate_daemon: true
        }
    );
    assert_eq!(gather_mode(false, SweepDecision::Skip), GatherMode::Skipped);
    let line = gather_line(GatherPhase::Indexing, 1);
    assert_eq!(
        line,
        "\r\u{2819} Gathering artifacts (indexing the drives for the deep sweep)...      "
    );
    assert!(line.chars().count() <= gather_erase().chars().count());
    assert_eq!(gather_erase(), format!("\r{:74}\r", ""));
    assert_eq!(live_daemon(Some(0)), None);
    assert_eq!(live_daemon(Some(9)), Some(9));
    assert_eq!(live_daemon(None), None);
    assert_eq!(
        run_header("0.5.0", "abc1234"),
        "uffs 0.5.0 (abc1234) \u{2014} uninstall\n"
    );
}

#[test]
fn the_flow_asks_before_it_removes() {
    let scripted = UninstallArgs {
        assume_yes: true,
        ..UninstallArgs::default()
    };
    let plain = UninstallArgs::default();
    assert_eq!(
        next_action(Platform::Windows, &plain, &Progress::start(false)),
        UninstallAction::Analyze
    );
    assert_eq!(
        next_action(Platform::Windows, &plain, &Progress::start(true)),
        UninstallAction::NoteInterrupted
    );
    let analyzed = Progress {
        analyzed: true,
        ..Progress::start(false)
    };
    assert_eq!(
        next_action(Platform::Windows, &plain, &analyzed),
        UninstallAction::ShowHeader
    );
    let ready = Progress {
        interrupted: false,
        noted: false,
        headed: true,
        analyzed: true,
        sweep: Some(SweepDecision::Skip),
        gate: Some(GateOutcome::NotNeeded),
        gathered: true,
        presented: true,
        core_empty: false,
        strays_empty: true,
        consent: None,
        executed: false,
    };
    assert_eq!(
        next_action(Platform::Windows, &plain, &ready),
        UninstallAction::AskConsent
    );
    let aborted = Progress {
        consent: Some(FinalChoice::Abort),
        ..ready
    };
    assert_eq!(
        next_action(Platform::Windows, &plain, &aborted),
        UninstallAction::EndAborted
    );
    let core = full_plan();
    let none = build_stray_plan(&[]);
    assert!(matches!(
        final_consent(&scripted, &core, &none),
        ConsentStep::Given(FinalChoice::All)
    ));
    let step = final_consent(&plain, &core, &none);
    assert!(matches!(step, ConsentStep::Confirm(_)));
    assert_eq!(consent_answer(&step, "n"), FinalChoice::Abort);
    assert!(confirm("y"));
    assert!(confirm(" YES \n"));
    assert!(!confirm(""));
    assert_eq!(
        sweep_decision(&scripted, true, false, false).1,
        SweepStep::Decided(SweepDecision::Proceed {
            elevate_daemon: false
        })
    );
    assert!(sweep_answer("n").1 == SweepDecision::Skip);
}

#[test]
fn rights_are_asked_for_once() {
    let wording = gate_wording();
    let mut plan = broker_plan(BrokerServiceState::Installed);
    let (_, step) = gate_start(&mut plan, false, false, false, Platform::Windows, true, &wording);
    let GateStep::Ask { can_elevate, .. } = step else {
        panic!("expected a question");
    };
    let choice = gate_answer(&mut plan, can_elevate, "c", &wording).unwrap();
    let ElevationChoice::ContinueWithout(dropped) = choice else {
        panic!("expected to go on without");
    };
    assert_eq!(dropped.len(), 1);
    assert!(!plan.requires_elevation());
    assert!(skipped_lines(&dropped).iter().any(|line| line.contains(&dropped[0])));
    let mut plan = broker_plan(BrokerServiceState::Installed);
    assert!(gate_answer(&mut plan, true, "q", &wording).is_err());
    let mut plan = full_plan();
    let (told, step) = gate_start(&mut plan, false, false, false, Platform::Windows, true, &wording);
    assert!(told.is_empty());
    assert!(matches!(step, GateStep::Decided(ElevationChoice::NotNeeded)));
}

#[test]
fn sizes_are_added_without_wrapping() {
    assert_eq!(binary_dir_bytes(&vec![Some(3), None, Some(4)]), 7);
    assert_eq!(binary_dir_bytes(&vec![Some(u64::MAX), Some(1)]), u64::MAX);
    assert_eq!(binary_dir_bytes(&Vec::new()), 0);
}

#[test]
fn what_remains_is_looked_for() {
    let core = broker_plan(BrokerServiceState::Absent);
    let with_service = inventory(BrokerServiceState::Installed, 1);
    assert!(broker_remains(&with_service, &core));
    assert!(!broker_remains(
        &with_service,
        &broker_plan(BrokerServiceState::Installed)
    ));
    assert!(plan_dirs(&full_plan()).iter().any(|dir| dir == "/opt/uffs"));
    let own = self_binaries(Platform::Windows, &Some(r"C:\bin\uffs.exe".to_owned()));
    assert!(own.iter().any(|path| path == r"C:\bin\uffs.exe"), "{own:?}");
    assert!(!places_to_check(Platform::Windows, &full_plan(), &own).is_empty());
    assert_eq!(verification_lines(&Vec::new(), true), args(&[ALL_GONE]));
    assert!(verification_lines(&Vec::new(), false).is_empty());
    assert_eq!(verification_lines(&args(&["/x"]), true).len(), 2);
    assert_eq!(
        journal_warning("denied"),
        "note: uninstall progress marker could not be updated (denied)."
    );
    assert!(self_delete_warning("denied").contains("uffs binary (denied)."));
}

#[test]
fn the_daemon_is_reloaded_for_uncovered_drives() {
    let all = [DriveLetter::C, DriveLetter::D];
    assert_eq!(missing_drives(&all, &[DriveLetter::C]), vec![DriveLetter::D]);
    assert!(coverage_complete(&all, &all, &None));
    assert!(!coverage_complete(&all, &[DriveLetter::C], &None));
    assert!(coverage_complete(&[], &[], &Some("1".to_owned())));
    assert_eq!(daemon_version_mismatch(Some("1.0".to_owned()), "1.0"), None);
    assert_eq!(
        daemon_version_mismatch(Some("0.9".to_owned()), "1.0"),
        Some("0.9".to_owned())
    );
    let reason = reload_reason(&[DriveLetter::D], &Some("0.9".to_owned()), "1.0");
    assert!(reason.starts_with("it was running v0.9, not this CLI's v1.0, and was missing D"));
    assert_eq!(
        reload_announcement("stale"),
        "\nThe daemon needs a reload before the deep sweep (stale).\nReloading it (stop + start):"
    );
    assert_eq!(
        reload_narration(false, false, &reason, &all, &Reload::Started(vec![DriveLetter::C])),
        args(&["  daemon covers 1 of 2 drive(s); the deep sweep will scan those."])
    );
    assert!(reload_narration(true, false, &reason, &all, &Reload::NotStopped).len() == 1);
    assert!(matches!(
        start_action(true),
        uffs::args::DaemonAction::Start { elevate: true, .. }
    ));
}

// ---- paths ----

#[test]
fn a_file_name_is_a_normal_last_component() {
    for path in ["/a/b", "/a", "/", "a", "", "a/", "/a//b/", "./a", "a/b/.", ".", "..", "/a/.."] {
        let wanted = std::path::Path::new(path)
            .file_name()
            .and_then(|name| name.to_str())
            .unwrap_or("");
        assert_eq!(file_name_of(Platform::Unix, path), wanted, "{path}");
    }
    assert_eq!(file_name_of(Platform::Windows, r"C:\a\b.exe"), "b.exe");
    assert_eq!(file_name_of(Platform::Windows, "C:b.exe"), "b.exe");
    assert_eq!(file_name_of(Platform::Windows, r"C:\a\.."), "");
    assert_eq!(file_name_of(Platform::Windows, r"C:\"), "");
    assert_eq!(file_name_of(Platform::Windows, r"\\server\share"), "");
    assert_eq!(file_name_of(Platform::Windows, r"\\?\UNC\server\share"), "");
    assert_eq!(file_name_of(Platform::Windows, r"\\.\COM1"), "");
    assert_eq!(file_name_of(Platform::Windows, "1:b.exe"), "1:b.exe");
    assert_eq!(file_name_of(Platform::Windows, r"\\server\share\b.exe"), "b.exe");
}

#[test]
fn roots_are_compared_as_the_platform_does() {
    assert!(same_path(Platform::Windows, r"c:\a", "C:/a"));
    assert!(!same_path(Platform::Windows, "C:a", r"C:\a"));
    assert!(same_path(Platform::Windows, r"\\server\share", r"\\server\share\"));
    assert!(same_path(Platform::Windows, "//server/share/a", r"\\server\share\a"));
    assert!(!same_path(Platform::Windows, r"\\Server\share\a", r"\\server\share\a"));
    assert!(is_in(Platform::Windows, r"\\server\share\a", r"\\server\share"));
    assert!(!is_in(Platform::Windows, r"\\server\shared\a", r"\\server\share"));
    assert!(same_path(Platform::Windows, r"\\?\c:\a", r"\\?\C:\a"));
    assert!(!same_path(Platform::Windows, r"\\?\C:\a", r"C:\a"));
    assert!(!same_path(Platform::Windows, r"\\?\C:\a/b", r"\\?\C:\a\b"));
    assert!(is_in(Platform::Windows, r"C:\x", "C:"));
    assert!(is_in(Platform::Windows, "C:x", "C:"));
    assert!(!is_in(Platform::Windows, "C:x", r"C:\"));
    assert!(!same_path(Platform::Windows, "1:a", "1:A"));
    assert!(!is_in(Platform::Windows, "1:a", "1:"));
}

#[test]
fn paths_are_taken_apart_as_the_platform_does() {
    assert!(is_in(Platform::Windows, r"C:\a\b\c.exe", r"C:\a\b"));
    assert!(is_in(Platform::Windows, r"C:\a\b\c.exe", r"C:\a\b\"));
    assert!(!is_in(Platform::Windows, r"C:\a\bc\d.exe", r"C:\a\b"));
    assert!(is_in(Platform::Unix, "/a/b", "/a"));
    assert!(!is_in(Platform::Unix, "/ab", "/a"));
    assert!(same_path(Platform::Unix, "/a//b/", "/a/./b"));
    assert_eq!(
        std::path::Path::new("/a//b/") == std::path::Path::new("/a/./b"),
        same_path(Platform::Unix, "/a//b/", "/a/./b")
    );
    for path in ["/a/b", "/a", "/", "a", "", "a/", "/a//b/", "./a", "a/b/."] {
        let wanted = std::path::Path::new(path)
            .parent()
            .and_then(std::path::Path::to_str)
            .map(str::to_owned);
        assert_eq!(parent_of(Platform::Unix, path), wanted, "{path}");
    }
    for (path, wanted) in [
        (r"C:\a\b.exe", Some(r"C:\a")),
        (r"C:\a\", Some(r"C:\")),
        (r"C:\", None),
        ("C:a", Some("C:")),
        ("C:", None),
        (r"\\server\share\a", Some(r"\\server\share\")),
        (r"\\server\share", None),
        (r"\\?\C:\a\b", Some(r"\\?\C:\a")),
    ] {
        assert_eq!(parent_of(Platform::Windows, path).as_deref(), wanted, "{path}");
    }
    for (dir, name) in [("/a", "b"), ("/a/", "b"), ("", "b"), ("/", "b"), ("a", ""), ("/a", "/b")] {
        let wanted = std::path::Path::new(dir).join(name);
        assert_eq!(join_path(Platform::Unix, dir, name), wanted.to_str().unwrap(), "{dir} {name}");
    }
    for (dir, name, wanted) in [
        (r"C:\a", "b", r"C:\a\b"),
        ("C:", "b", "C:b"),
        (r"C:\a", r"D:\b", r"D:\b"),
        (r"C:\a", r"\b", r"C:\b"),
        (r"\\server\share\a", r"\b", r"\\server\share\b"),
        (r"\\server\share", "b", r"\\server\share\b"),
        (r"C:\d", "1:a", r"C:\d\1:a"),
        (r"\\?\C:\a\", r"..\b", r"\\?\C:\b"),
        (r"\\?\C:\a", "./b/c", r"\\?\C:\a\b\c"),
        (r"\\?\C:\a", r"\b", r"\\?\C:\b"),
    ] {
        assert_eq!(join_path(Platform::Windows, dir, name), wanted, "{dir} {name}");
    }
}

// ---- updates ----

fn update_root(dir: &str, channel: Channel, scope: Scope) -> InstallRoot {
    InstallRoot {
        dir: dir.to_owned(),
        channel,
        scope,
        anchored_by: Vec::new(),
        binaries: Vec::new(),
        user_writable: true,
    }
}

#[test]
fn dev_build_and_unknown_are_skipped() {
    let dev = classify_root(&update_root("/x", Channel::DevBuild, Scope::Unknown));
    assert_eq!(dev.action, UpdateAction::SkipDevBuild);
    assert!(!dev.needs_elevation);
    assert!(!dev.needs_non_elevated);

    let unknown = classify_root(&update_root("/x", Channel::Unknown, Scope::Unknown));
    assert_eq!(unknown.action, UpdateAction::SkipUnknown);
}

#[test]
fn winget_user_needs_non_elevated_never_elevation() {
    let item = classify_root(&update_root("/x", Channel::WinGet, Scope::User));
    assert_eq!(item.action, UpdateAction::WingetUpgrade);
    assert!(item.needs_non_elevated, "user scope must run non-elevated");
    assert!(
        !item.needs_elevation,
        "winget refuses a user package elevated"
    );
}

#[test]
fn winget_machine_needs_elevation() {
    let item = classify_root(&update_root("/x", Channel::WinGet, Scope::Machine));
    assert!(item.needs_elevation);
    assert!(!item.needs_non_elevated);
}

#[test]
fn unmanaged_writable_dir_needs_no_elevation() {
    let item = classify_root(&update_root("/tmp", Channel::Unmanaged, Scope::Unknown));
    assert_eq!(item.action, UpdateAction::ReplaceBinaries);
    assert!(!item.needs_elevation);
    let mut locked = update_root("/usr/bin", Channel::Unmanaged, Scope::Unknown);
    locked.user_writable = false;
    assert!(classify_root(&locked).needs_elevation);
}

#[test]
fn split_off_non_elevated_only_when_elevated() {
    let build = || UpdatePlan {
        items: vec![
            classify_root(&update_root("/a", Channel::WinGet, Scope::User)),
            classify_root(&update_root("/tmp", Channel::Unmanaged, Scope::Unknown)),
        ],
    };

    // Non-elevated: nothing is split off — winget upgrades fine here.
    let mut plan_non_elevated = build();
    assert!(plan_non_elevated
        .split_off_non_elevated_when_elevated(false)
        .is_empty());
    assert_eq!(plan_non_elevated.items.len(), 2);

    // Elevated: the winget-user item moves to the delegation list.
    let mut plan_elevated = build();
    let split = plan_elevated.split_off_non_elevated_when_elevated(true);
    assert_eq!(split.len(), 1);
    assert_eq!(plan_elevated.items.len(), 1);
    assert!(winget_delegation_lines(&split)
        .iter()
        .any(|line| line == "  - /a (winget/user) \u{2014} winget upgrade"));
    assert!(winget_delegation_lines(&Vec::new()).is_empty());
}

#[test]
fn drop_elevation_required_prunes_but_keeps_doable_work() {
    let mut plan = UpdatePlan {
        items: vec![
            classify_root(&update_root("/m", Channel::WinGet, Scope::Machine)),
            classify_root(&update_root("/tmp", Channel::Unmanaged, Scope::Unknown)),
        ],
    };
    assert!(plan.requires_elevation());
    let needed = plan.elevation_needed_lines();
    assert!(needed.iter().any(|line| line == "  - /m (winget/machine) \u{2014} winget upgrade"));
    let dropped = plan.drop_elevation_required();
    assert_eq!(dropped.len(), 1);
    assert!(!plan.requires_elevation());
    assert!(
        plan.has_work(),
        "the writable unmanaged root is still doable"
    );
    assert_eq!(skipped_elevation_lines(&dropped).len(), 2);
    assert!(skipped_elevation_lines(&Vec::new()).is_empty());
}

#[test]
fn a_report_is_cut_down_to_what_is_changed() {
    let roots = || {
        vec![
            update_root("/dev", Channel::DevBuild, Scope::Unknown),
            update_root("/bin", Channel::Unmanaged, Scope::Unknown),
        ]
    };
    let process = |image: Option<&str>| RunningProcess {
        component: Component::Daemon,
        pid: 1,
        image_path: image.map(str::to_owned),
        command_line: None,
        version: None,
    };
    let report = DetectionReport {
        roots: roots(),
        running: vec![process(Some("/dev/uffsd")), process(Some("/bin/uffsd")), process(None)],
    };
    let plan = UpdatePlan::build(&report);
    assert_eq!(plan.items[0].describe(), "/dev (dev-build) \u{2014} skip (dev-build)");
    let pruned = prune_report(Platform::Unix, report, &plan);
    assert_eq!(pruned.roots.len(), 1);
    assert_eq!(pruned.roots[0].dir, "/bin");
    assert_eq!(pruned.running.len(), 1);
    assert_eq!(pruned.running[0].image_path.as_deref(), Some("/bin/uffsd"));
    assert_eq!(write_probe_name(12), ".uffs-write-probe-12");
}

fn package(scope: Scope, version: &str) -> DetectionReport {
    let mut managed = update_root(r"C:\pkg", Channel::WinGet, scope);
    managed.binaries = vec![BinaryInfo {
        name: "uffs".to_owned(),
        version: Some(version.to_owned()),
    }];
    DetectionReport {
        roots: vec![managed],
        running: vec![RunningProcess {
            component: Component::Broker,
            pid: 3,
            image_path: Some(r"C:\pkg\uffs-broker.exe".to_owned()),
            command_line: None,
            version: None,
        }],
    }
}

#[test]
fn a_package_is_upgraded_where_it_can_be() {
    let report = package(Scope::User, "0.6.19");
    let own = Some(r"C:\bin\uffs.exe".to_owned());
    assert!(root_is_current(&report.roots[0], "v0.6.19"));
    assert!(!root_is_current(&report.roots[0], "v0.6.20"));
    let windows = Platform::Windows;
    assert!(matches!(
        orchestrate(windows, &report, "v0.6.19", false, &own, true),
        WingetStep::Nothing
    ));
    assert!(matches!(
        orchestrate(Platform::Unix, &report, "v0.6.20", false, &own, true),
        WingetStep::Nothing
    ));
    assert!(matches!(
        orchestrate(windows, &report, "v0.6.20", true, &own, true),
        WingetStep::Tell(_)
    ));
    let WingetStep::Upgrade(plan) = orchestrate(windows, &report, "v0.6.20", false, &own, true)
    else {
        panic!("expected an upgrade");
    };
    assert_eq!(plan.dir, r"C:\pkg");
    assert!(plan.cycle_broker);
    assert!(!plan.stop_daemon);
    assert!(!plan.deferred);
    assert!(plan.announcement.contains("v0.6.20 (via winget)"));
    let inside = Some(r"C:\pkg\uffs.exe".to_owned());
    let WingetStep::Upgrade(plan) = orchestrate(windows, &report, "v0.6.20", false, &inside, false)
    else {
        panic!("expected an upgrade");
    };
    assert!(plan.deferred);
    assert!(!plan.cycle_broker);
}

#[test]
fn what_was_stopped_is_started_again() {
    assert_eq!(broker_cycle(true, false), BrokerCycle::Helper);
    assert_eq!(broker_cycle(true, true), BrokerCycle::Direct);
    assert_eq!(broker_cycle(false, true), BrokerCycle::NotInvolved);
    assert_eq!(
        upgrade_steps(true, BrokerCycle::Direct, false),
        vec![
            UpgradeStep::StopDaemon,
            UpgradeStep::StopBroker,
            UpgradeStep::Upgrade,
            UpgradeStep::StartBroker,
            UpgradeStep::Report,
            UpgradeStep::StartDaemon,
        ]
    );
    assert_eq!(
        upgrade_steps(true, BrokerCycle::Helper, true),
        vec![UpgradeStep::StopDaemon, UpgradeStep::SpawnHelper, UpgradeStep::DeferAndRelease]
    );
    assert_eq!(
        upgrade_steps(false, BrokerCycle::Direct, true),
        vec![UpgradeStep::StopBroker, UpgradeStep::DeferAndStart]
    );
    assert_eq!(
        upgrade_steps(false, BrokerCycle::NotInvolved, true),
        vec![UpgradeStep::Defer]
    );
    assert_eq!(look(true, 100_000, 60), Wait::Come);
    assert_eq!(look(false, 60_000, 60), Wait::Up);
    assert_eq!(look(false, 59_999, 60), Wait::Again);
}

#[test]
fn upgrade_texts_are_exact() {
    assert_eq!(
        upgrade_args(Scope::Machine).join(" "),
        "upgrade --id SkyLLC.UFFS --silent --accept-source-agreements --scope machine"
    );
    assert_eq!(
        deferred_script(Scope::User, &Some(r"C:\t\r.release".to_owned())),
        "ping 127.0.0.1 -n 3 >nul & winget upgrade --id SkyLLC.UFFS --silent --accept-source-agreements --scope user & echo done > \"C:\\t\\r.release\" & rem deferred winget upgrade"
    );
    assert_eq!(
        deferred_script(Scope::Unknown, &None),
        "ping 127.0.0.1 -n 3 >nul & winget upgrade --id SkyLLC.UFFS --silent --accept-source-agreements & rem deferred winget upgrade"
    );
    assert_eq!(
        deferred_restart_script(Scope::Machine, r"C:\t\r.release"),
        "ping 127.0.0.1 -n 3 >nul & winget upgrade --id SkyLLC.UFFS --silent --accept-source-agreements --scope machine & echo done > \"C:\\t\\r.release\" & sc start UffsAccessBroker & rem deferred winget upgrade"
    );
    assert_eq!(
        helper_script("C:\\it's.exe", "r"),
        "Start-Process -FilePath 'C:\\it''s.exe' -ArgumentList '--update','broker-cycle-helper','r' -Verb RunAs -WindowStyle Hidden"
    );
    assert_eq!(release_file_name(9), "uffs-broker-cycle-9.release");
    assert_eq!(upgrade_report("v1", &None), "\u{2713} winget package updated to v1.");
    assert!(upgrade_report("v1", &Some("x".to_owned())).contains("did not complete (x)"));
    assert!(upgrade_result(true, "0").is_ok());
    assert_eq!(
        upgrade_result(false, "exit code: 5").unwrap_err().message,
        "winget upgrade exited with exit code: 5"
    );
    assert!(cycle_helper_refusal(Platform::Unix, true).is_some());
    assert!(cycle_helper_refusal(Platform::Windows, false).is_some());
    assert!(cycle_helper_refusal(Platform::Windows, true).is_none());
    assert!(HELPER_NOT_LAUNCHED.contains("UAC declined?"));
}

#[test]
fn recognizes_the_uffs_package_folder() {
    assert!(is_uffs_package_folder(
        "SkyLLC.UFFS_Microsoft.Winget.Source_8wekyb3d8bbwe"
    ));
    assert!(
        is_uffs_package_folder("skyllc.uffs_abc"),
        "case-insensitive"
    );
    // No trailing underscore → a different package with a shared prefix.
    assert!(!is_uffs_package_folder("SkyLLC.UFFSomething"));
    assert!(!is_uffs_package_folder("Other.Package_hash"));
    assert!(!is_uffs_package_folder("SkyLLC.UFFS"));
}

fn folder(name: &str, entries: Vec<SubFolder>) -> PackageFolder {
    PackageFolder {
        name: Some(name.to_owned()),
        path: format!("/packages/{name}"),
        is_dir: true,
        programs: Programs {
            uffs_exe: false,
            uffs: false,
        },
        entries,
    }
}

#[test]
fn finds_the_root_holding_uffs_one_level_down() {
    // …\Packages\SkyLLC.UFFS_hash\uffs-windows-x64\uffs(.exe).
    let inner_programs = Programs {
        uffs_exe: false,
        uffs: true,
    };
    let inner = "/packages/SkyLLC.UFFS_hash/uffs-windows-x64";
    let pkg = || {
        folder(
            "SkyLLC.UFFS_hash",
            vec![SubFolder {
                path: inner.to_owned(),
                is_dir: true,
                programs: inner_programs,
            }],
        )
    };
    assert!(dir_has_uffs(inner_programs));
    assert_eq!(find_dir_with_uffs(&pkg()).as_deref(), Some(inner));

    // A sibling package of another name is ignored.
    let other = || folder("Other.Pkg_x", Vec::new());
    let roots = roots_under_packages_base(&Some(vec![pkg(), other()]));
    assert_eq!(roots, vec![inner], "only the UFFS package's inner root");
    assert_eq!(discover(&vec![None, Some(vec![other(), pkg()])]), vec![inner]);
}

#[test]
fn missing_base_yields_nothing() {
    let roots = roots_under_packages_base(&None);
    assert!(roots.is_empty());
}

#[test]
fn packages_lie_in_two_places() {
    let local = Some(r"C:\Users\me\AppData\Local".to_owned());
    let files = Some(r"C:\Program Files".to_owned());
    assert_eq!(
        winget_packages_bases(Platform::Windows, &local, &files),
        vec![
            r"C:\Users\me\AppData\Local\Microsoft\WinGet\Packages",
            r"C:\Program Files\WinGet\Packages",
        ]
    );
    assert!(winget_packages_bases(Platform::Unix, &local, &files).is_empty());
}

#[test]
fn the_order_of_calls_does_not_hang_on_failures() {
    let plan = full_plan();
    let mut good = RecordingEffects::default();
    execute(Platform::Windows, &plan, &mut good, false);
    let mut bad = RecordingEffects {
        fail_marker: Some("/x/cache".to_owned()),
        ..RecordingEffects::default()
    };
    execute(Platform::Windows, &plan, &mut bad, false);
    assert_eq!(good.calls, bad.calls);
}
