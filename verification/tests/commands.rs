//! The commands: their arguments, what they decide and what they tell.

use std::collections::HashMap;

use uffs::args::{parse_daemon_action, split_csv, DaemonAction};
use uffs::cli::{failure_lines, find_needs_elevation, format_elevation_help, run, Cause, Run};
use uffs::daemon_mgmt::{
    daemon_owner_needs_elevation, daemon_start, daemon_stop, effective_log_file,
    effective_log_level, kill_announcement, kill_pid, kill_report, kill_target,
    launch_state_says_non_elevated, management_refusal, mutating_management_needs_elevation,
    next_restart_step, non_empty_env, restart_announcement, restart_failure, restart_report,
    restart_spawn_args, wants_diagnostics, windows_management_needs_elevation, DaemonStatus,
    LogEnvironment, Protection, RestartNext, RestartStep, StartStep, KILLED,
};
use uffs::deleted::{
    keep_deleted, listing_json, listing_lines, parse_deleted_args, record_count, resolve_path,
    run_deleted, tombstones, DeletedAction, DeletedEntry, ScannedRecord, ROOT_FRS,
};
use uffs::diff::{
    diff_lines, parse_diff_args, run_diff, DiffAction, DiffEntry, DiffResult,
};
use uffs::drive::{
    extend_drives_from_csv, extend_drives_from_letters, parse_drive_letter, DriveLetter,
    ParseDriveLetterError,
};
use uffs::help;
use uffs::json::Json;
use uffs::platform::Platform;
use uffs::search::{
    has_out, output_after, run_search, typo_hint, wants_help, PayloadWrite, SearchOutput,
    SearchPayload, SearchStep,
};
use uffs::snapshot::{
    capture_refusal, captured_lines, compresses, open_failure, parse_snapshot_args, run_snapshot,
    write_failure, SnapshotAction,
};
use uffs::spinner::{erase_line, frame_line, glyph};
use uffs::stats::{parse_stats_args, run_stats, StatsAction};
use uffs::text;

fn args(list: &[&str]) -> Vec<String> {
    list.iter().map(|item| (*item).to_owned()).collect()
}

// ---- drive letters ----

/// The text of a malformed drive letter is fixed, and nothing lies behind it.
#[test]
fn bad_shape_preserves_legacy_display_format() {
    let err = parse_drive_letter("CD").expect_err("multi-char input must error");
    assert!(
        matches!(&err, ParseDriveLetterError::BadShape { input } if input == "CD"),
        "expected BadShape('CD'), got {err:?}",
    );
    assert_eq!(
        err.message(),
        "Invalid drive letter 'CD': expected single letter like 'C' or 'C:'",
    );
    assert!(err.source().is_none(), "BadShape has no underlying source");
}

/// What lies behind a character that is no drive is kept.
#[test]
fn inner_preserves_source_chain() {
    let err = parse_drive_letter("1:").expect_err("non-letter input must error");
    let ParseDriveLetterError::Inner { input, source } = &err else {
        panic!("expected Inner variant, got {err:?}");
    };
    assert_eq!(input, "1:");
    assert_eq!(source.raw, '1');
    assert_eq!(
        err.message(),
        "Invalid drive letter '1:': drive letter must be ASCII A..=Z (case insensitive); got '1'",
    );
    let chained = err.source().expect("Inner exposes its source");
    assert_eq!(
        chained.message(),
        "drive letter must be ASCII A..=Z (case insensitive); got '1'",
    );
}

/// An empty input is malformed.
#[test]
fn bad_shape_handles_empty_input() {
    let err = parse_drive_letter("").expect_err("empty input must error");
    assert!(
        matches!(&err, ParseDriveLetterError::BadShape { input } if input.is_empty()),
        "expected BadShape(''), got {err:?}",
    );
}

#[test]
fn drive_letters_take_a_colon_and_either_case() {
    for input in ["C", "c", "C:", "c:", " c: "] {
        assert_eq!(parse_drive_letter(input), Ok(DriveLetter::C), "{input}");
    }
    for c in 'A'..='Z' {
        let drive = DriveLetter::parse(c).unwrap();
        assert_eq!(drive.as_char(), c);
        assert_eq!(DriveLetter::parse(c.to_ascii_lowercase()), Ok(drive));
    }
    let mut drives = Vec::new();
    extend_drives_from_csv(&mut drives, "c, D:,xx,E");
    assert_eq!(drives, vec![DriveLetter::C, DriveLetter::D, DriveLetter::E]);
    let mut drives = Vec::new();
    extend_drives_from_letters(&mut drives, "c1d");
    assert_eq!(drives, vec![DriveLetter::C, DriveLetter::D]);
}

// ---- the daemon's arguments ----

#[test]
fn daemon_actions_are_parsed() {
    let parsed = parse_daemon_action(&args(&["status", "-v", "--json"])).unwrap();
    assert!(matches!(
        parsed,
        DaemonAction::Status {
            verbose: true,
            json: true
        }
    ));
    let parsed = parse_daemon_action(&args(&[
        "start",
        "--mft-file",
        "a.bin,b.bin",
        "--no-cache",
        "--elevate",
    ]))
    .unwrap();
    let DaemonAction::Start {
        mft_file,
        no_cache,
        elevate,
        log_level,
        ..
    } = parsed
    else {
        panic!("expected a start");
    };
    assert_eq!(mft_file, args(&["a.bin", "b.bin"]));
    assert!(no_cache);
    assert!(elevate);
    assert_eq!(log_level, "info");
    assert!(matches!(parse_daemon_action(&args(&["stop"])), Ok(DaemonAction::Stop)));
    assert!(matches!(parse_daemon_action(&args(&["kill"])), Ok(DaemonAction::Kill)));
    let parsed = parse_daemon_action(&args(&["preload", "C", "--pin-minutes", "5"])).unwrap();
    let DaemonAction::Preload {
        drives,
        pin_minutes,
    } = parsed
    else {
        panic!("expected a preload");
    };
    assert_eq!(drives, vec![DriveLetter::C]);
    assert_eq!(pin_minutes, Some(5));
    assert!(parse_daemon_action(&args(&["bogus"])).is_err());
    assert_eq!(split_csv("a,b"), args(&["a", "b"]));
}

// ---- the daemon's log ----

/// A variable that is not set is not set.
#[test]
fn non_empty_env_passes_none_through() {
    assert_eq!(non_empty_env(None), None);
}

/// A variable that is set to nothing counts as not set.
#[test]
fn non_empty_env_collapses_empty_string_to_none() {
    assert_eq!(non_empty_env(Some(String::new())), None);
}

/// A value is kept as it is.
#[test]
fn non_empty_env_preserves_real_values() {
    assert_eq!(
        non_empty_env(Some("debug".to_owned())),
        Some("debug".to_owned())
    );
    assert_eq!(
        non_empty_env(Some(r"C:\Users\rnio\bin".to_owned())),
        Some(r"C:\Users\rnio\bin".to_owned())
    );
}

/// A value of white space is a value.
#[test]
fn non_empty_env_keeps_whitespace_only_values() {
    assert_eq!(non_empty_env(Some(" ".to_owned())), Some(" ".to_owned()));
}

/// A daemon of one's own is one's own to stop; one of root is not.
#[test]
fn own_daemon_pid_file_needs_no_elevation() {
    let our_uid = 501;
    assert!(
        !daemon_owner_needs_elevation(Some(our_uid), our_uid),
        "a daemon owned by the caller must be manageable without sudo"
    );
    assert!(
        daemon_owner_needs_elevation(Some(our_uid), 0),
        "a daemon of another user must require elevation"
    );
}

/// Where there is no daemon there is nothing to protect.
#[test]
fn absent_pid_file_needs_no_elevation() {
    assert!(!daemon_owner_needs_elevation(None, 4242));
}

fn environment(rust_log: &str, uffs_log: &str, dir: &str) -> LogEnvironment {
    LogEnvironment {
        rust_log: Some(rust_log.to_owned()),
        uffs_log: Some(uffs_log.to_owned()),
        uffs_log_dir: Some(dir.to_owned()),
    }
}

#[test]
fn empty_variables_leave_the_log_alone() {
    let none = LogEnvironment {
        rust_log: None,
        uffs_log: None,
        uffs_log_dir: None,
    };
    let empty = environment("", "", "");
    assert_eq!(
        effective_log_level("info", &empty),
        effective_log_level("info", &none)
    );
    assert_eq!(
        effective_log_file(Platform::Unix, &None, &empty),
        effective_log_file(Platform::Unix, &None, &none)
    );
    let set = environment("warn", "debug", "/logs");
    assert_eq!(
        effective_log_file(Platform::Unix, &None, &set),
        Some("/logs/uffsd.log".to_owned())
    );
}

#[test]
fn what_a_process_was_started_with_is_read_from_its_state() {
    let state = |text: &str| Some(text.to_owned());
    assert!(launch_state_says_non_elevated(&state("{\"elevated\": false}")));
    assert!(!launch_state_says_non_elevated(&state("{\"elevated\": true}")));
    assert!(!launch_state_says_non_elevated(&state("{\"elevated\": 0}")));
    assert!(!launch_state_says_non_elevated(&state("{}")));
    assert!(!launch_state_says_non_elevated(&state("not json")));
    assert!(!launch_state_says_non_elevated(&None));
    assert!(windows_management_needs_elevation(true, false, false));
    assert!(!windows_management_needs_elevation(false, false, false));
    assert!(!windows_management_needs_elevation(true, true, false));
}

#[test]
fn managing_another_ones_daemon_is_refused() {
    let stop = DaemonAction::Stop;
    assert!(management_refusal(Platform::Unix, &stop, false, true).is_some());
    assert!(management_refusal(Platform::Unix, &stop, true, true).is_none());
    assert!(management_refusal(Platform::Unix, &stop, false, false).is_none());
    let status = DaemonAction::Status {
        verbose: false,
        json: false,
    };
    assert!(management_refusal(Platform::Windows, &status, false, true).is_none());
}

#[test]
fn starting_passes_the_sources_on() {
    let env = environment("", "", "");
    let (told, step) = daemon_start(
        Platform::Unix,
        false,
        true,
        &args(&["a.bin"]),
        &None,
        &[],
        true,
        "info",
        &None,
        &env,
    );
    assert_eq!(told, None);
    let StartStep::Spawn(list) = step else {
        panic!("expected a start");
    };
    assert!(list.iter().any(|arg| arg == "a.bin"), "{list:?}");
    assert!(list.iter().any(|arg| arg == "--no-cache"), "{list:?}");
    let (_, step) = daemon_start(
        Platform::Unix,
        true,
        true,
        &Vec::new(),
        &None,
        &[],
        false,
        "info",
        &None,
        &env,
    );
    assert!(matches!(step, StartStep::AlreadyRunning));
    let (_, step) = daemon_start(
        Platform::Unix,
        false,
        false,
        &Vec::new(),
        &None,
        &[],
        false,
        "info",
        &None,
        &env,
    );
    assert!(matches!(step, StartStep::Refuse(_)));
    assert!(wants_diagnostics("debug", false) != wants_diagnostics("info", false));
}

#[test]
fn stopping_and_killing_tell_what_they_do() {
    assert_ne!(daemon_stop(true), daemon_stop(false));
    assert_eq!(kill_target(Some(1), Some(2)), Some(1));
    assert_eq!(kill_target(None, Some(2)), Some(2));
    assert_eq!(kill_target(None, None), None);
    assert_eq!(
        kill_announcement(Some(7), false).as_deref(),
        Some("Killing daemon (PID 7)...")
    );
    assert_eq!(kill_announcement(Some(7), true), None);
    assert!(kill_announcement(None, false).is_some());
    assert_eq!(kill_report(Some(7), false), Some(KILLED));
    assert_eq!(kill_report(Some(7), true), None);
    assert_eq!(kill_report(None, false), None);
    assert!(kill_pid(Platform::Windows, 42).iter().any(|arg| arg == "42"));
    assert!(kill_pid(Platform::Unix, 42).iter().any(|arg| arg == "42"));
}

#[test]
fn a_restart_loads_the_same_files() {
    let list = restart_spawn_args(&args(&["file:/mft/c.bin", "live", "file:/mft/d.iocp"]));
    assert_eq!(list, args(&["--mft-file", "/mft/c.bin", "--mft-file", "/mft/d.iocp"]));
    assert_eq!(
        restart_announcement(&list),
        "Restarting daemon with 2 data source(s)..."
    );
    assert_eq!(
        restart_report(&Some((9, DaemonStatus::Ready))),
        "Daemon restarted (PID 9), status: Ready"
    );
    let loading = DaemonStatus::Loading {
        drives_loaded: 1,
        drives_total: 3,
    };
    assert_eq!(
        restart_report(&Some((9, loading))),
        "Daemon restarted (PID 9), status: Loading (1/3 drives)"
    );
    assert_ne!(restart_report(&None), restart_report(&Some((9, DaemonStatus::Ready))));
}

// ---- --deleted ----

#[test]
fn parses_required_mft_file_and_options() {
    let parsed = parse_deleted_args(&args(&[
        "--mft-file",
        "C.bin",
        "-d",
        "C",
        "--limit",
        "5",
        "--json",
    ]))
    .expect("parse");
    assert_eq!(parsed.mft_file.as_deref(), Some("C.bin"));
    assert_eq!(parsed.drive, Some(DriveLetter::C));
    assert_eq!(parsed.limit, 5);
    assert!(parsed.json);
}

#[test]
fn a_bare_drive_is_a_valid_live_source() {
    // `-d C` with no --mft-file is a live scan (Windows); parsing accepts it.
    let parsed = parse_deleted_args(&args(&["-d", "C"])).expect("live drive parses");
    assert!(parsed.mft_file.is_none());
    assert_eq!(parsed.drive, Some(DriveLetter::C));
}

#[test]
fn no_source_is_an_error() {
    let err = parse_deleted_args(&args(&["--limit", "5"])).expect_err("must require a source");
    assert!(err.message.contains("source"), "{}", err.message);
}

/// A `by_frs` map → the `lookup` closure `resolve_path` expects.
fn lookup_from(map: &HashMap<u64, (String, u64)>) -> impl Fn(u64) -> Option<(String, u64)> + '_ {
    move |frs| map.get(&frs).cloned()
}

#[test]
fn resolves_through_a_live_parent_to_the_root() {
    // Root(5) → docs(100). A deleted a.txt(parent 100) resolves fully.
    let mut map = HashMap::new();
    map.insert(100_u64, ("docs".to_owned(), ROOT_FRS));
    let (path, complete) = resolve_path("a.txt", 100, DriveLetter::C, lookup_from(&map));
    assert_eq!(path, r"C:\docs\a.txt");
    assert!(complete);
}

#[test]
fn resolves_through_a_deleted_parent_still_in_the_mft() {
    // The parent dir `gone`(100) is itself deleted but its record survives, so lookup still returns
    // it and the path reconstructs completely.
    let mut map = HashMap::new();
    map.insert(100_u64, ("gone".to_owned(), ROOT_FRS));
    let (path, complete) = resolve_path("file.txt", 100, DriveLetter::C, lookup_from(&map));
    assert_eq!(path, r"C:\gone\file.txt");
    assert!(complete);
}

#[test]
fn a_missing_parent_marks_the_path_incomplete() {
    // Parent 999 is not in the capture (slot reused / evicted).
    let map: HashMap<u64, (String, u64)> = HashMap::new();
    let (path, complete) = resolve_path("orphan.log", 999, DriveLetter::C, lookup_from(&map));
    assert!(!complete, "missing parent → incomplete");
    assert!(path.contains('…'), "incomplete path is flagged: {path}");
    assert!(path.ends_with("orphan.log"));
}

#[test]
fn a_file_directly_under_root_needs_no_lookup() {
    assert_eq!(ROOT_FRS, 5);
    let map: HashMap<u64, (String, u64)> = HashMap::new();
    let (path, complete) = resolve_path("boot.ini", ROOT_FRS, DriveLetter::C, lookup_from(&map));
    assert_eq!(path, r"C:\boot.ini");
    assert!(complete);
}

#[test]
fn parents_that_go_round_are_given_up() {
    let mut map = HashMap::new();
    map.insert(10_u64, ("a".to_owned(), 11));
    map.insert(11_u64, ("b".to_owned(), 10));
    let (path, complete) = resolve_path("x", 10, DriveLetter::D, lookup_from(&map));
    assert!(!complete);
    assert!(path.ends_with("x"), "{path}");
}

fn entry(name: &str, parent: u64) -> DeletedEntry {
    DeletedEntry {
        parent,
        name: name.to_owned(),
        size: 1536,
        modified: 7,
        is_dir: false,
    }
}

#[test]
fn deleted_files_are_listed_up_to_the_limit() {
    let map: HashMap<u64, (String, u64)> = HashMap::new();
    let entries = vec![entry("a", ROOT_FRS), entry("b", 99)];
    let (all, cut) = tombstones(&entries, DriveLetter::C, 0, &lookup_from(&map));
    assert_eq!(all.len(), 2);
    assert!(!cut);
    assert!(all[0].path_complete);
    assert!(!all[1].path_complete);
    let (some, cut) = tombstones(&entries, DriveLetter::C, 1, &lookup_from(&map));
    assert_eq!(some.len(), 1);
    assert!(cut);
    let lines = listing_lines(&some, &args(&["2026-01-01"]), 2, cut, DriveLetter::C);
    assert!(lines.iter().any(|line| line.contains(r"C:\a")), "{lines:?}");
    let document = listing_json(&some, 2, cut);
    assert!(matches!(document, Json::Object(_)));
    assert!(keep_deleted(ScannedRecord {
        is_deleted: true,
        entry: entry("a", 5)
    })
    .is_some());
    assert!(keep_deleted(ScannedRecord {
        is_deleted: false,
        entry: entry("a", 5)
    })
    .is_none());
    assert_eq!(record_count(4096, 1024), 4);
    assert_eq!(record_count(4096, 0), 0);
}

// ---- --diff ----

#[test]
fn parses_baseline_drive_and_limit() {
    let parsed =
        parse_diff_args(&args(&["C_old.bin", "--drive", "C", "--limit", "50"])).expect("parse");
    assert_eq!(parsed.baseline, "C_old.bin");
    assert_eq!(parsed.drive, DriveLetter::C);
    assert_eq!(parsed.limit, 50);
    assert!(!parsed.json);
}

#[test]
fn drive_may_precede_the_positional_baseline() {
    let parsed = parse_diff_args(&args(&["-d", "D", "snap.bin", "--json"])).expect("parse");
    assert_eq!(parsed.baseline, "snap.bin");
    assert_eq!(parsed.drive, DriveLetter::D);
    assert_eq!(parsed.limit, 0, "no --limit → unlimited");
    assert!(parsed.json);
}

#[test]
fn diff_missing_drive_is_an_error() {
    let err = parse_diff_args(&args(&["snap.bin"])).expect_err("must require --drive");
    assert!(err.message.contains("--drive"), "{}", err.message);
}

#[test]
fn missing_baseline_is_an_error() {
    let err = parse_diff_args(&args(&["--drive", "C"])).expect_err("must require baseline");
    assert!(err.message.contains("baseline"), "{}", err.message);
}

#[test]
fn a_second_baseline_is_rejected() {
    let err = parse_diff_args(&args(&["a.bin", "b.bin", "-d", "C"]))
        .expect_err("two baselines must error");
    assert!(err.message.contains("second"), "{}", err.message);
}

#[test]
fn unknown_flag_is_rejected() {
    let err = parse_diff_args(&args(&["snap.bin", "-d", "C", "--bogus"]))
        .expect_err("unknown flag must error");
    assert!(err.message.contains("unknown flag"), "{}", err.message);
}

#[test]
fn differences_are_listed() {
    let one = |path: &str| {
        vec![DiffEntry {
            path: path.to_owned(),
            size: 10,
        }]
    };
    let result = DiffResult {
        deleted: one("gone.txt"),
        added: one("new.txt"),
        modified: one("changed.txt"),
        truncated: true,
    };
    let lines = diff_lines(DriveLetter::C, "base.bin", &result);
    for name in ["gone.txt", "base.bin"] {
        assert!(lines.iter().any(|line| line.contains(name)), "{name}: {lines:?}");
    }
}

// ---- --snapshot ----

#[test]
fn parses_drive_out_and_options() {
    let parsed = parse_snapshot_args(&args(&[
        "--drive",
        "C",
        "--out",
        "C_base.bin",
        "--no-compress",
    ]))
    .expect("parse");
    assert_eq!(parsed.drive, DriveLetter::C);
    assert_eq!(parsed.out, "C_base.bin");
    assert!(parsed.no_compress);
    assert!(!parsed.raw);
    assert_eq!(parsed.compression_level, 3_i32);
}

#[test]
fn snapshot_missing_drive_is_an_error() {
    let err = parse_snapshot_args(&args(&["--out", "x.bin"])).expect_err("needs --drive");
    assert!(err.message.contains("--drive"), "{}", err.message);
}

#[test]
fn missing_out_is_an_error() {
    let err = parse_snapshot_args(&args(&["--drive", "C"])).expect_err("needs --out");
    assert!(err.message.contains("--out"), "{}", err.message);
}

#[test]
fn a_raw_capture_is_not_compressed() {
    let parsed =
        parse_snapshot_args(&args(&["-d", "C", "-o", "x.bin", "--raw"])).expect("parse");
    assert!(parsed.raw);
    assert!(!compresses(&parsed));
    let parsed = parse_snapshot_args(&args(&["-d", "C", "-o", "x.bin"])).expect("parse");
    assert!(compresses(&parsed));
    assert!(capture_refusal(Platform::Unix, &parsed).is_some());
    assert!(capture_refusal(Platform::Windows, &parsed).is_none());
    let lines = captured_lines(&parsed, 12);
    assert!(lines.iter().any(|line| line.contains("12")), "{lines:?}");
}

// ---- --stats ----

#[test]
fn statistics_are_an_overview_search() {
    let parsed = parse_stats_args(&args(&["--top", "3", "--mft-file", "a.bin"])).unwrap();
    assert_eq!(parsed.top, 3);
    assert_eq!(parsed.mft_file, args(&["a.bin"]));
    assert!(matches!(run_stats(&args(&["--help"])), Ok(StatsAction::ShowHelp)));
    let Ok(StatsAction::Search(search)) = run_stats(&[]) else {
        panic!("expected a search");
    };
    assert!(search.iter().any(|arg| arg.contains("overview")), "{search:?}");
}

// ---- searching ----

#[test]
fn a_search_tells_help_typos_and_where_output_goes() {
    assert!(wants_help(&args(&["--help", "x"])));
    assert!(wants_help(&[]));
    assert!(!wants_help(&args(&["x", "--help"])));
    assert!(has_out(&args(&["x", "--out", "f"])));
    assert!(!has_out(&args(&["x"])));
    assert!(typo_hint(&args(&["x"]), false, &None, &None).is_none());
    let flag = Some("--daemn".to_owned());
    let command = Some("--daemon".to_owned());
    assert_eq!(
        typo_hint(&args(&["--daemn"]), false, &flag, &command).unwrap().message,
        "`--daemn` is not a known search flag.\nDid you mean the command `uffs --daemon`?  (run `uffs --daemon --help`)"
    );
    assert!(typo_hint(&args(&["--daemn"]), true, &flag, &command).is_none());
    assert!(typo_hint(&args(&["daemn"]), false, &flag, &command).is_none());
    assert!(matches!(
        run_search(&args(&["--help"]), false, &None, &None),
        SearchStep::ShowHelp
    ));
    assert!(matches!(
        run_search(&args(&["*.txt"]), false, &None, &None),
        SearchStep::Send
    ));
    let written = SearchOutput {
        profile: false,
        payload: true,
        aggregations: true,
    };
    assert_eq!(
        output_after(&args(&["x"]), &args(&["x"]), false, false),
        written
    );
    let silent = output_after(&args(&["x"]), &args(&["x", "--no-output"]), false, false);
    assert!(!silent.payload && !silent.aggregations);
    let profiled = output_after(&args(&["x", "--benchmark"]), &args(&["x"]), false, true);
    assert!(profiled.profile && profiled.payload && !profiled.aggregations);
    let out = args(&["x", "--out=f.csv"]);
    assert!(!output_after(&out, &out, true, true).payload);
    assert!(output_after(&out, &out, false, true).payload);
    assert!(SearchPayload::Empty.is_empty());
    assert!(!SearchPayload::InlineBlob("a".to_owned()).is_empty());
    assert!(matches!(SearchPayload::Empty.write(), PayloadWrite::Nothing));
    assert!(matches!(
        SearchPayload::InlineRows(args(&["r"])).write(),
        PayloadWrite::Rows(rows) if rows == args(&["r"])
    ));
}

// ---- the spinner ----

#[test]
fn the_spinner_goes_round() {
    assert_eq!(glyph(0), glyph(10));
    assert_ne!(glyph(0), glyph(1));
    assert!(frame_line("waiting", 0).contains("waiting"));
    assert!(erase_line("waiting").len() >= "waiting".len());
}

// ---- the program ----

/// The help must name every way out, so that a refusal reads like advice.
#[test]
fn elevation_help_lists_all_recovery_paths() {
    let help = format_elevation_help(r"C:\Program Files\uffs\uffsd.exe");
    assert!(help.contains("admin"), "help must mention admin: {help}");
    assert!(
        help.contains("--elevate"),
        "help must document --elevate: {help}"
    );
    assert!(
        help.contains("UFFS_ELEVATE"),
        "help must document the env var: {help}"
    );
    assert!(
        help.contains("uffs-broker --install"),
        "help must document the broker install path: {help}"
    );
    assert!(
        help.contains(r"C:\Program Files\uffs\uffsd.exe"),
        "help must quote the daemon path: {help}"
    );
}

fn cause(message: &str, daemon_path: Option<&str>) -> Cause {
    Cause {
        message: message.to_owned(),
        daemon_path: daemon_path.map(str::to_owned),
    }
}

/// A want of rights is found behind whatever was put before it.
#[test]
fn find_needs_elevation_walks_anyhow_context() {
    let base = anyhow::Error::msg("the daemon needs elevation: uffsd-test");
    let wrapped = base.context("while connecting");
    let mut chain: Vec<Cause> = Vec::new();
    for item in wrapped.chain() {
        let told = item.to_string();
        let path = told
            .strip_prefix("the daemon needs elevation: ")
            .map(str::to_owned);
        chain.push(Cause {
            message: told,
            daemon_path: path,
        });
    }
    assert_eq!(chain.len(), 2);
    assert_eq!(find_needs_elevation(&chain), Some("uffsd-test"));
    assert_eq!(failure_lines(&chain), vec![format_elevation_help("uffsd-test")]);
}

/// Any other failure is told as it is.
#[test]
fn find_needs_elevation_returns_none_for_other_errors() {
    let chain = vec![cause("nope", None)];
    assert!(find_needs_elevation(&chain).is_none());
    let chain = vec![cause("while connecting", None), cause("nope", None)];
    assert_eq!(
        failure_lines(&chain),
        args(&["Error: while connecting", "  Caused by: nope"])
    );
}

#[test]
fn the_first_token_decides() {
    let commands = args(&["--daemon", "--status"]);
    let asked = |list: &[&str]| run(&args(list), &commands);
    assert!(matches!(asked(&["uffs"]), Run::Help));
    assert!(matches!(asked(&["uffs", "-h"]), Run::Help));
    assert!(matches!(asked(&["uffs", "--version"]), Run::Version(false)));
    assert!(matches!(asked(&["uffs", "-V", "x", "-v"]), Run::Version(true)));
    assert!(matches!(asked(&["uffs", "--", "--daemon"]), Run::Search(rest) if rest == args(&["--daemon"])));
    assert!(matches!(asked(&["uffs", "--"]), Run::Search(rest) if rest.is_empty()));
    assert!(matches!(asked(&["uffs", "help"]), Run::Search(rest) if rest == args(&["help"])));
    assert!(matches!(
        asked(&["uffs", "--daemon", "stop"]),
        Run::Command(token, rest) if token == "--daemon" && rest == args(&["stop"])
    ));
    assert!(matches!(
        asked(&["uffs", "--ext", "rs"]),
        Run::Search(rest) if rest == args(&["--ext", "rs"])
    ));
}

#[test]
fn each_help_names_its_command() {
    assert!(help::HELP.starts_with("uffs - Ultra Fast File Search\n"));
    assert!(help::HELP.ends_with("Print version\n"));
    assert!(help::DAEMON_HELP.contains("uffs --daemon <ACTION>"));
    assert!(help::STATS_HELP.contains("uffs --stats [PATH]"));
    assert!(help::SNAPSHOT_HELP.contains("--compression-level <N>"));
    assert!(help::DELETED_HELP.contains("uffs --deleted (--mft-file <PATH>"));
    assert!(help::AGGREGATE_HELP.contains("terms:extension,top=2000"));
    assert!(help::STATUS_HELP.contains("uffs --status [OPTIONS]"));
}

// ---- text ----

#[test]
fn white_space_is_that_of_the_standard_library() {
    for code in 0..=0x10_ffff_u32 {
        if let Some(c) = char::from_u32(code) {
            assert_eq!(text::is_whitespace(c), c.is_whitespace(), "{code:x}");
        }
    }
}

#[test]
fn numbers_and_letters_are_written_as_usual() {
    for n in [0, 9, 10, 12_345, u64::MAX] {
        assert_eq!(text::show_u64(n), n.to_string());
        assert_eq!(text::show_hex(n), format!("{n:x}"));
    }
    for n in [0, -1, i64::MIN, i64::MAX] {
        assert_eq!(text::show_i64(n), n.to_string());
    }
    for value in ["0", "42", "+7", "-1", "", "4294967295", "4294967296", "x1", "-"] {
        assert_eq!(text::parse_u32(value).ok(), value.parse::<u32>().ok(), "{value}");
        assert_eq!(text::parse_i32(value).ok(), value.parse::<i32>().ok(), "{value}");
        if let (Err(ours), Err(theirs)) = (text::parse_u32(value), value.parse::<u32>()) {
            assert_eq!(ours.message(), theirs.to_string(), "{value}");
        }
    }
    assert_eq!(text::to_ascii_lowercase("AbC\u{c4}"), "AbC\u{c4}".to_ascii_lowercase());
    assert_eq!(text::trim(" \u{a0}x y\n"), " \u{a0}x y\n".trim());
    assert_eq!(text::replace("a'b''", '\'', "''"), "a'b''".replace('\'', "''"));
    assert_eq!(text::join(&args(&["a", "b", "c"]), ", "), "a, b, c");
    assert_eq!(text::split("a,,b", ','), args(&["a", "", "b"]));
}

#[test]
fn help_is_shown_wherever_it_is_asked_for() {
    let list = |items: &[&str]| -> Vec<String> {
        items.iter().map(|item| (*item).to_owned()).collect()
    };
    assert!(matches!(
        run_deleted(&list(&["--limit", "x", "-h"])),
        Ok(DeletedAction::ShowHelp)
    ));
    assert!(matches!(
        run_diff(&list(&["a", "b", "--help"])),
        Ok(DiffAction::ShowHelp)
    ));
    assert!(matches!(
        run_snapshot(Platform::Unix, &list(&["--raw", "--help"])),
        Ok(SnapshotAction::ShowHelp)
    ));
    let Ok(DeletedAction::List(parsed)) = run_deleted(&list(&["--mft-file", "c.bin"])) else {
        panic!("expected a listing");
    };
    assert_eq!(parsed.mft_file.as_deref(), Some("c.bin"));
    let err = run_deleted(&[]).expect_err("no source");
    assert!(err.message.contains("missing a source"));
    let Ok(DiffAction::Compare(parsed)) = run_diff(&list(&["base.bin", "-d", "C"])) else {
        panic!("expected a comparison");
    };
    assert_eq!(parsed.baseline, "base.bin");
    assert!(run_diff(&[]).is_err());
    let capture = list(&["-d", "C", "-o", "c.bin"]);
    let Ok(SnapshotAction::Capture(parsed)) = run_snapshot(Platform::Windows, &capture) else {
        panic!("expected a capture");
    };
    assert_eq!(parsed.out, "c.bin");
    let err = run_snapshot(Platform::Unix, &capture).expect_err("Windows only");
    assert!(err.message.starts_with("uffs --snapshot (C -> c.bin, no_compress=false"));
    assert_eq!(
        open_failure(DriveLetter::C),
        "failed to open drive C: (needs Administrator)"
    );
    assert_eq!(
        write_failure("c.bin"),
        "failed to write snapshot to c.bin"
    );
}

#[test]
fn a_restart_stops_before_it_starts() {
    let restart = |outcomes: &[bool]| {
        let mut last = None;
        let mut taken = Vec::new();
        for outcome in outcomes {
            let RestartNext::Do(step) = next_restart_step(last) else {
                break;
            };
            taken.push(step);
            last = Some((step, *outcome));
        }
        (taken, next_restart_step(last))
    };
    assert_eq!(
        restart(&[true; 7]),
        (
            vec![
                RestartStep::Reach,
                RestartStep::AskDrives,
                RestartStep::Stop,
                RestartStep::Clear,
                RestartStep::Start,
                RestartStep::Await,
                RestartStep::Report,
            ],
            RestartNext::Done
        )
    );
    assert_eq!(
        restart(&[false]),
        (vec![RestartStep::Reach], RestartNext::NothingToRestart)
    );
    assert_eq!(
        restart(&[true, true, false]).1,
        RestartNext::Fail(RestartStep::Stop)
    );
    assert_eq!(
        restart_failure(RestartStep::Stop, 7),
        "Graceful shutdown of PID 7 failed.\nRun `uffs --daemon kill` first, then retry."
    );
    assert_eq!(
        restart_failure(RestartStep::Await, 7),
        "Restarted daemon did not become ready in time"
    );
}

#[test]
fn an_unknown_daemon_is_protected() {
    assert!(mutating_management_needs_elevation(Protection::Unknown));
    assert!(!mutating_management_needs_elevation(Protection::Owned {
        pid_file_owner: Some(501),
        caller_euid: 501,
    }));
    assert!(mutating_management_needs_elevation(Protection::Launched {
        pid_file_exists: true,
        started_without_rights: false,
        broker_serving: false,
    }));
}
