//! The views of the daemon and of the whole system.

use uffs::daemon_mgmt::DaemonStatus;
use uffs::drive::DriveLetter;
use uffs::json::Json;
use uffs::platform::Platform;
use uffs::status::{
    daemon_lines, drive_status_line, health, memory_lines, not_running_lines, performance_lines,
    tier_glyph, DaemonPaths, DriveInfo, DriveMemoryInfo, Glyph, PidFileState, Piece, ShardTier,
    StatsResponse, StatusLine, StatusResponse,
};
use uffs::system_status::{
    broker_json, broker_section_lines, daemon_json, endpoint, http_body, http_request,
    mcp_http_json, mcp_section_lines, read_probe, started_before_binary, system_lines, uptime,
    BrokerInfo, BrokerProcess, DaemonSnapshot, McpGateway, Probe, RawDaemon,
};

/// A line as plain text, with numbers and times as they are.
fn shown(line: &StatusLine) -> String {
    let pieces = |value: &Vec<Piece>| -> String {
        value
            .iter()
            .map(|piece| match piece {
                Piece::Text(text) | Piece::Version(text) => text.clone(),
                Piece::Count(n) | Piece::CountRight(n) => format!("#{n}"),
                Piece::Seconds(n) => format!("{n}s"),
                Piece::Millis(n) => format!("{n}ms"),
                Piece::Micros(n) => format!("{n}us"),
                Piece::Nanos(n) => format!("{n}ns"),
            })
            .collect()
    };
    match line {
        StatusLine::Header(text) => format!("== {text}"),
        StatusLine::Section(text) => format!("-- {text}"),
        StatusLine::Blank => String::new(),
        StatusLine::Row {
            glyph,
            state,
            detail,
            stale,
        } => format!("{glyph:?} {state} {detail} {stale}"),
        StatusLine::Field { label, value, .. } => format!("{label}: {}", pieces(value)),
        StatusLine::Remark(text) => format!("({text})"),
        StatusLine::Warning(text) => format!("! {text}"),
        StatusLine::Failure { label, value, .. } => format!("x {label}: {value}"),
        StatusLine::Drive {
            glyph,
            letter,
            detail,
            ..
        } => format!("{glyph:?} {} {}", letter.show(), pieces(detail)),
    }
}

fn all(lines: &[StatusLine]) -> Vec<String> {
    lines.iter().map(shown).collect()
}

fn drive(letter: DriveLetter, tier: Option<ShardTier>) -> DriveInfo {
    DriveInfo {
        letter,
        records: 10,
        tier,
        source: "live".to_owned(),
    }
}

fn memory(drive: DriveLetter) -> DriveMemoryInfo {
    DriveMemoryInfo {
        drive,
        heap_bytes: 7 << 20,
        records_bytes: 1 << 20,
        names_bytes: 2 << 20,
        trigram_bytes: 3 << 20,
        children_bytes: 4 << 20,
        ext_index_bytes: (6 << 20) - 1,
    }
}

fn response() -> StatusResponse {
    StatusResponse {
        status: DaemonStatus::Ready,
        pid: 42,
        uptime_secs: 60,
        version: "1.2.3".to_owned(),
        git_sha: String::new(),
        elevated: false,
        reading_via_broker: true,
        live_update: Some(2),
        index_heap_bytes: Some(3 << 20),
        mimalloc_committed_bytes: None,
        rss_bytes: Some(5 << 20),
        paths: Some(DaemonPaths {
            data_dir: "/data".to_owned(),
            socket: String::new(),
            log_dir: "/logs".to_owned(),
        }),
        drive_memory: vec![memory(DriveLetter::C)],
    }
}

fn counters(total_queries: u64) -> StatsResponse {
    StatsResponse {
        startup_duration_ms: 1500,
        total_records: 20,
        total_queries,
        avg_query_time_us: 250,
        total_query_time_us: 1000,
        queries_per_second_short: "0.1".to_owned(),
        queries_per_second: "0.07".to_owned(),
        agg_cache_hits: 3,
        agg_cache_misses: 1,
        agg_cache_entries: 9,
        hit_rate: "75.0".to_owned(),
    }
}

#[test]
fn the_short_view_has_the_core() {
    let drives = vec![
        drive(DriveLetter::C, Some(ShardTier::Hot)),
        drive(DriveLetter::D, Some(ShardTier::Cold)),
    ];
    let lines = daemon_lines(false, &response(), &drives, &Some(counters(4)), true);
    assert_eq!(
        all(&lines),
        vec![
            "== UFFS Daemon",
            "Up running PID 42 true",
            "Version: 1.2.3",
            "Uptime: 60s",
            "Drives: 2 loaded \u{b7} #20 records",
            "Queries: 4 (avg 250us, 0.1/s)",
        ]
    );
}

#[test]
fn the_long_view_has_everything() {
    let drives = vec![drive(DriveLetter::C, None), drive(DriveLetter::E, Some(ShardTier::Parked))];
    let lines = daemon_lines(true, &response(), &drives, &Some(counters(0)), false);
    assert_eq!(
        all(&lines)[5..],
        [
            "Queries: 0",
            "-- Build",
            "Commit: unknown",
            "Elevated: no (reading via Access Broker, zero-UAC)",
            "-- Live update",
            "Journal: 2 journal loop(s) running",
            "-- Memory",
            "Index heap: 3 MB",
            "RSS: 5 MB",
            "-- Paths",
            "Data: /data",
            "Logs: /logs",
            "-- Performance",
            "Startup duration: 1500ms",
            "Total records: #20",
            "Queries served: 0",
            "Queries/second: 0.07",
            "Agg cache: 3 hits / 1 misses (75.0% hit-rate, 9 entries)",
            "-- Drives",
            "Up C #10 records (live) \u{b7} 7 MB  [rec=1 names=2 tri=3 ch=4 ext=5]",
            "Warn E bloom + trie resident; body released",
        ]
    );
    assert_eq!(performance_lines(&counters(1)).len(), 8);
    let mut bare = response();
    bare.index_heap_bytes = None;
    bare.rss_bytes = None;
    assert!(memory_lines(&bare).is_empty());
}

#[test]
fn drives_and_phases_have_their_glyphs() {
    assert_eq!(tier_glyph(None), Glyph::Up);
    assert_eq!(tier_glyph(Some(ShardTier::Warm)), Glyph::Up);
    assert_eq!(tier_glyph(Some(ShardTier::Parked)), Glyph::Warn);
    assert_eq!(tier_glyph(Some(ShardTier::Evicting)), Glyph::Down);
    assert_eq!(tier_glyph(Some(ShardTier::Unknown)), Glyph::Off);
    let loading = DaemonStatus::Loading {
        drives_loaded: 1,
        drives_total: 3,
    };
    assert_eq!(health(&loading), (Glyph::Warn, "loading (1/3 drives)".to_owned()));
    let refreshing = DaemonStatus::Refreshing {
        drives: vec![DriveLetter::C, DriveLetter::D],
    };
    assert_eq!(health(&refreshing), (Glyph::Warn, "refreshing (C:, D:)".to_owned()));
    let cold = drive_status_line(&drive(DriveLetter::D, Some(ShardTier::Cold)), &Vec::new());
    assert_eq!(shown(&cold), "Down D encrypted cache only; nothing in RAM");
    let plain = drive_status_line(&drive(DriveLetter::D, None), &Vec::new());
    assert_eq!(shown(&plain), "Up D #10 records (live)");
}

#[test]
fn a_daemon_that_does_not_answer_is_told() {
    assert_eq!(
        all(&not_running_lines(&PidFileState::Absent)),
        vec!["Down Daemon not running false"]
    );
    assert_eq!(
        all(&not_running_lines(&PidFileState::Stale("/run/p".to_owned())))[1],
        "((stale PID file at /run/p))"
    );
    let alive = all(&not_running_lines(&PidFileState::Alive(7)));
    assert!(alive[1].contains("alive at PID 7"), "{alive:?}");
}

fn broker() -> BrokerInfo {
    BrokerInfo {
        installed: true,
        running: true,
        state: "running".to_owned(),
        pid: Some(5),
        pipe_answers: false,
        process: Some(BrokerProcess {
            path: r"C:\uffs-broker.exe".to_owned(),
            uptime_nanos: Some(9_000_000_001),
            stale: true,
        }),
    }
}

#[test]
fn the_system_view_has_every_section() {
    let snap = DaemonSnapshot {
        status: response(),
        drives: vec![
            drive(DriveLetter::C, None),
            drive(DriveLetter::D, Some(ShardTier::Parked)),
            drive(DriveLetter::E, Some(ShardTier::Cold)),
        ],
        perf: None,
        stale: false,
    };
    let lines = system_lines(
        Platform::Unix,
        true,
        &Some(snap),
        &None,
        &broker(),
        &McpGateway::NotRunning,
        vec![StatusLine::Section("MCP stdio")],
    );
    assert_eq!(
        all(&lines),
        vec![
            "== UFFS System Status",
            "",
            "-- Daemon",
            "Up running PID 42 false",
            "Version: 1.2.3",
            "Uptime: 60s",
            "Drives: 3 loaded \u{b7} #30 records (1 active / 1 parked / 1 cold)",
            "Elevated: no (via Access Broker, zero-UAC)",
            "Live upd: 2 journal loop(s) running",
            "Memory: 5 MB RSS (index 3 MB)",
            "Data dir: /data",
            "",
            "-- Access Broker",
            "Off not applicable Windows-only component false",
            "",
            "-- MCP HTTP Gateway",
            "Down not running  false",
            "",
            "-- MCP stdio",
        ]
    );
    let told = all(&broker_section_lines(Platform::Windows, true, &broker()));
    assert!(told.iter().any(|line| line == "Pipe: not serving"), "{told:?}");
    assert!(told.iter().any(|line| line == r"Binary: C:\uffs-broker.exe"), "{told:?}");
    assert!(
        told.iter()
            .any(|line| line == "! \u{26a0} broker binary is newer than the running process"),
        "{told:?}"
    );
}

#[test]
fn a_gateway_is_probed() {
    let body = "{\"mcp_stats\":{\"active_sessions\":1,\"total_sessions\":4,\"tool_calls\":9}}";
    let probe = read_probe("/status", body);
    let Probe::Answered(Some(stats)) = &probe else {
        panic!("expected counters: {probe:?}");
    };
    assert_eq!(stats.active_sessions, 1);
    assert_eq!(stats.total_sessions, 4);
    assert_eq!(stats.tool_calls, 9);
    assert_eq!(stats.tool_errors, 0);
    assert!(matches!(read_probe("/status", "{}"), Probe::Answered(None)));
    assert!(matches!(
        read_probe("/status", "<html>"),
        Probe::Failed(err) if err == "bad JSON from /status: <html>"
    ));
    let running = |probe: Probe| McpGateway::Running {
        pid: 8,
        uptime_secs: 3,
        stale: true,
        bind: "127.0.0.1".to_owned(),
        port: 8080,
        probe,
    };
    assert_eq!(
        all(&mcp_section_lines(&running(probe))),
        vec![
            "-- MCP HTTP Gateway",
            "Up running PID 8 true",
            "Uptime: 3s",
            "Endpoint: http://127.0.0.1:8080/mcp",
            "Health: \u{2713} ok",
            "Sessions: 1 active / 4 total",
            "Tool calls: 9 (0 errors)",
            "(Run `uffs --mcp reload` to restart with the current binary.)",
        ]
    );
    let failed = all(&mcp_section_lines(&running(Probe::Failed("refused".to_owned()))));
    assert!(failed.iter().any(|line| line == "x Health: unreachable (refused)"));
    assert!(matches!(mcp_http_json(&McpGateway::NotRunning), Json::Object(_)));
}

#[test]
fn the_gateway_speaks_http() {
    assert_eq!(endpoint("::1", 1), "http://::1:1/mcp");
    let request = http_request("127.0.0.1", 80, "/status");
    assert!(request.starts_with("GET /status HTTP/1.1\r\n"), "{request}");
    assert!(request.ends_with("\r\n\r\n"), "{request}");
    assert_eq!(http_body("HTTP/1.1 200 OK\r\nA: b\r\n\r\n{} \r\n"), "{}");
    assert_eq!(http_body("no body"), "");
    assert_eq!(uptime(10, 4), 6);
    assert_eq!(uptime(4, 10), 0);
    assert!(started_before_binary(1, Some(2)));
    assert!(!started_before_binary(2, Some(2)));
    assert!(!started_before_binary(1, None));
}

#[test]
fn documents_say_whether_something_runs() {
    let none = daemon_json(&None);
    assert!(matches!(none.get("running"), Some(Json::Bool(false))));
    let raw = RawDaemon {
        status: "{}".to_owned(),
        drives: "[]".to_owned(),
        stats: "null".to_owned(),
    };
    let some = daemon_json(&Some(raw));
    assert!(matches!(some.get("running"), Some(Json::Bool(true))));
    assert!(matches!(some.get("drives"), Some(Json::Raw(text)) if text == "[]"));
    let document = broker_json(Platform::Windows, &broker());
    assert!(matches!(document.get("pipe_serving"), Some(Json::Bool(false))));
    assert!(matches!(document.get("pid"), Some(Json::Number(5))));
    assert!(matches!(
        broker_json(Platform::Unix, &broker()).get("applicable"),
        Some(Json::Bool(false))
    ));
}
