//! The view of everything at once: the daemon, the broker and the MCP gateway.

use crate::error;
use crate::json;
use crate::json::Json;
use crate::platform::Platform;
use crate::status;
use crate::status::{
    health, is_blank, no_lines, push, push_all, push_piece, push_piece_to, push_pieces,
    push_query_headline, push_text, show_pid, total_records, DriveInfo, Glyph, Piece, ShardTier,
    StatsResponse, StatusLine, StatusResponse,
};
use crate::text;
use crate::text::{cat2, cat3, cat4, cat5, show_u64};
use vstd::prelude::*;

verus! {

// ---- the daemon ----

/// How many drives are kept in a place.
pub open spec fn tier_count(drives: Seq<DriveInfo>, tier: ShardTier) -> nat
    decreases drives.len(),
{
    if drives.len() == 0 {
        0
    } else {
        tier_count(drives.drop_last(), tier) + if drives.last().tier == Some(tier) {
            1nat
        } else {
            0
        }
    }
}

fn count_tier(drives: &Vec<DriveInfo>, tier: ShardTier) -> (res: usize)
    ensures
        res == tier_count(drives@, tier),
        res <= drives@.len(),
{
    let mut count: usize = 0;
    let mut i: usize = 0;
    while i < drives.len()
        invariant
            i <= drives@.len(),
            count == tier_count(drives@.take(i as int), tier),
            count <= i,
        decreases drives@.len() - i,
    {
        assert(drives@.take(i + 1).drop_last() =~= drives@.take(i as int));
        if drives[i].tier == Some(tier) {
            count += 1;
        }
        i += 1;
    }
    assert(drives@.take(i as int) =~= drives@);
    count
}

proof fn lemma_tier_counts(drives: Seq<DriveInfo>)
    ensures
        tier_count(drives, ShardTier::Parked) + tier_count(drives, ShardTier::Cold)
            <= drives.len(),
    decreases drives.len(),
{
    if drives.len() > 0 {
        lemma_tier_counts(drives.drop_last());
    }
}

/// The line of the drives.
pub open spec fn drives_line(drives: Seq<DriveInfo>) -> status::LineView {
    let parked = tier_count(drives, ShardTier::Parked);
    let cold = tier_count(drives, ShardTier::Cold);
    if drives.len() == 0 {
        status::text_line("Drives"@, "(none loaded)"@, 11)
    } else {
        status::LineView::Field(
            "Drives"@,
            seq![
                status::PieceView::Text(text::decimal(drives.len()) + " loaded \u{b7} "@),
                status::PieceView::Count(status::record_total(drives) as u64),
                status::PieceView::Text(
                    " records ("@ + text::decimal((drives.len() - parked - cold) as nat)
                        + " active / "@ + text::decimal(parked) + " parked / "@ + (text::decimal(
                        cold,
                    ) + " cold)"@),
                ),
            ],
            11,
        )
    }
}

fn push_drives(out: &mut Vec<StatusLine>, drives: &Vec<DriveInfo>)
    requires
        status::record_total(drives@) <= u64::MAX,
    ensures
        status::line_views(final(out)@) == status::line_views(old(out)@).push(
            drives_line(drives@),
        ),
{
    if drives.len() == 0 {
        push_text(out, "Drives", "(none loaded)".to_owned(), 11);
        return;
    }
    let parked: usize = count_tier(drives, ShardTier::Parked);
    let cold: usize = count_tier(drives, ShardTier::Cold);
    proof {
        lemma_tier_counts(drives@);
    }
    let active: usize = drives.len() - parked - cold;
    let mut value: Vec<Piece> = Vec::new();
    assert(status::piece_views(value@) =~= Seq::empty());
    push_piece_to(
        &mut value,
        Piece::Text(cat2(&show_u64(drives.len() as u64), " loaded \u{b7} ")),
    );
    push_piece_to(&mut value, Piece::Count(total_records(drives)));
    let end = cat2(&show_u64(cold as u64), " cold)");
    push_piece_to(
        &mut value,
        Piece::Text(
            text::cat6(
                " records (",
                &show_u64(active as u64),
                " active / ",
                &show_u64(parked as u64),
                " parked / ",
                &end,
            ),
        ),
    );
    assert(status::piece_views(value@) =~= drives_line(drives@)->Field_1);
    push_pieces(out, "Drives", value, 11);
}

/// What is known of the daemon.
#[derive(Debug)]
pub struct DaemonSnapshot {
    /// What it says of itself.
    pub status: StatusResponse,
    /// Its drives.
    pub drives: Vec<DriveInfo>,
    /// What it has counted.
    pub perf: Option<StatsResponse>,
    /// Whether its executable has been replaced since it was started.
    pub stale: bool,
}

/// The long part of the section of the daemon.
pub open spec fn daemon_detail(status: StatusResponse) -> Seq<status::LineView> {
    (if status.git_sha@.len() == 0 {
        Seq::empty()
    } else {
        seq![status::text_line("Commit"@, status.git_sha@, 11)]
    }) + seq![
        status::text_line(
            "Elevated"@,
            if status.elevated {
                "yes (direct elevated reads)"@
            } else if status.reading_via_broker {
                "no (via Access Broker, zero-UAC)"@
            } else {
                "no"@
            },
            11,
        ),
    ] + (match status.live_update {
        Some(loops) => seq![
            status::text_line(
                "Live upd"@,
                if loops > 0 {
                    text::decimal(loops as nat) + " journal loop(s) running"@
                } else {
                    "inactive"@
                },
                11,
            ),
        ],
        None => Seq::empty(),
    }) + (match status.rss_bytes {
        Some(rss) => seq![
            status::text_line(
                "Memory"@,
                status::mb(rss) + " MB RSS"@ + match status.index_heap_bytes {
                    Some(heap) => " (index "@ + status::mb(heap) + " MB)"@,
                    None => ""@,
                },
                11,
            ),
        ],
        None => Seq::empty(),
    }) + (match status.paths {
        Some(paths) => if paths.data_dir@.len() == 0 {
            Seq::empty()
        } else {
            seq![status::text_line("Data dir"@, paths.data_dir@, 11)]
        },
        None => Seq::empty(),
    })
}

fn daemon_detail_lines(status: &StatusResponse) -> (res: Vec<StatusLine>)
    ensures
        status::line_views(res@) == daemon_detail(*status),
{
    let mut res = no_lines();
    if !is_blank(&status.git_sha) {
        push_text(&mut res, "Commit", status.git_sha.clone(), 11);
    }
    let mode = if status.elevated {
        "yes (direct elevated reads)"
    } else if status.reading_via_broker {
        "no (via Access Broker, zero-UAC)"
    } else {
        "no"
    };
    push_text(&mut res, "Elevated", mode.to_owned(), 11);
    if let Some(loops) = status.live_update {
        let value = if loops > 0 {
            cat2(&show_u64(loops), " journal loop(s) running")
        } else {
            "inactive".to_owned()
        };
        push_text(&mut res, "Live upd", value, 11);
    }
    if let Some(rss) = status.rss_bytes {
        let heap = match status.index_heap_bytes {
            Some(heap) => cat3(" (index ", &show_u64(heap / status::MIB), " MB)"),
            None => "".to_owned(),
        };
        push_text(
            &mut res,
            "Memory",
            cat3(&show_u64(rss / status::MIB), " MB RSS", &heap),
            11,
        );
    }
    if let Some(paths) = &status.paths {
        if !is_blank(&paths.data_dir) {
            push_text(&mut res, "Data dir", paths.data_dir.clone(), 11);
        }
    }
    assert(status::line_views(res@) =~= daemon_detail(*status));
    res
}

/// The section of the daemon; `pid_file` is the path of a PID file that is left.
pub open spec fn daemon_section(
    verbose: bool,
    daemon: Option<DaemonSnapshot>,
    pid_file: Option<Seq<char>>,
) -> Seq<status::LineView> {
    seq![status::LineView::Section("Daemon"@)] + match daemon {
        None => seq![status::LineView::Row(Glyph::Down, "not running"@, ""@, false)] + (
        match pid_file {
            Some(path) => seq![
                status::LineView::Remark("(stale PID file at "@ + path + ")"@),
            ],
            None => Seq::empty(),
        }),
        Some(snap) => {
            let (glyph, state) = status::health_text(snap.status.status);
            seq![
                status::LineView::Row(glyph, state, status::pid_text(snap.status.pid), snap.stale),
                status::LineView::Field(
                    "Version"@,
                    seq![status::PieceView::Version(snap.status.version@)],
                    11,
                ),
                status::LineView::Field(
                    "Uptime"@,
                    seq![status::PieceView::Seconds(snap.status.uptime_secs)],
                    11,
                ),
                drives_line(snap.drives@),
            ] + (match snap.perf {
                Some(perf) => seq![status::query_headline(perf, 11)],
                None => Seq::empty(),
            }) + (if verbose {
                daemon_detail(snap.status)
            } else {
                Seq::empty()
            })
        },
    }
}

/// The section of the daemon.
pub fn daemon_section_lines(
    verbose: bool,
    daemon: &Option<DaemonSnapshot>,
    pid_file: &Option<String>,
) -> (res: Vec<StatusLine>)
    requires
        daemon matches Some(snap) ==> status::record_total(snap.drives@) <= u64::MAX,
    ensures
        status::line_views(res@) == daemon_section(verbose, *daemon, error::shown(*pid_file)),
{
    let mut res = no_lines();
    push(&mut res, StatusLine::Section("Daemon"));
    match daemon {
        None => {
            push(
                &mut res,
                StatusLine::Row {
                    glyph: Glyph::Down,
                    state: "not running".to_owned(),
                    detail: "".to_owned(),
                    stale: false,
                },
            );
            if let Some(path) = pid_file {
                push(&mut res, StatusLine::Remark(cat3("(stale PID file at ", path, ")")));
            }
        },
        Some(snap) => {
            let (glyph, state) = health(&snap.status.status);
            push(
                &mut res,
                StatusLine::Row {
                    glyph,
                    state,
                    detail: show_pid(snap.status.pid),
                    stale: snap.stale,
                },
            );
            push_piece(&mut res, "Version", Piece::Version(snap.status.version.clone()), 11);
            push_piece(&mut res, "Uptime", Piece::Seconds(snap.status.uptime_secs), 11);
            push_drives(&mut res, &snap.drives);
            if let Some(perf) = &snap.perf {
                push_query_headline(&mut res, perf, 11);
            }
            if verbose {
                push_all(&mut res, daemon_detail_lines(&snap.status));
            }
        },
    }
    assert(status::line_views(res@) =~= daemon_section(verbose, *daemon, error::shown(*pid_file)));
    res
}

// ---- the broker ----

/// What is known of the process of the broker.
#[derive(Debug)]
pub struct BrokerProcess {
    /// Its executable.
    pub path: String,
    /// For how long it has run, in nanoseconds.
    pub uptime_nanos: Option<u128>,
    /// Whether its executable has been replaced since it was started.
    pub stale: bool,
}

/// What is known of the broker service.
#[derive(Debug)]
pub struct BrokerInfo {
    /// Whether it is registered.
    pub installed: bool,
    /// Whether it runs.
    pub running: bool,
    /// Its state.
    pub state: String,
    /// Its process id.
    pub pid: Option<u32>,
    /// Whether its pipe answers.
    pub pipe_answers: bool,
    /// Its process.
    pub process: Option<BrokerProcess>,
}

/// Whether the broker serves: it runs and its pipe answers.
pub open spec fn serves(info: BrokerInfo) -> bool {
    info.running && info.pipe_answers
}

/// The long part of the section of the broker.
pub open spec fn broker_detail(info: BrokerInfo) -> Seq<status::LineView> {
    match (info.pid, info.process) {
        (Some(_), Some(process)) => seq![status::text_line("Binary"@, process.path@, 9)] + (
        match process.uptime_nanos {
            Some(uptime) => seq![
                status::LineView::Field("Uptime"@, seq![status::PieceView::Nanos(uptime)], 9),
            ],
            None => Seq::empty(),
        }) + (if process.stale {
            seq![
                status::LineView::Warning(
                    "\u{26a0} broker binary is newer than the running process"@,
                ),
            ]
        } else {
            Seq::empty()
        }),
        _ => Seq::empty(),
    }
}

/// The section of the broker.
pub open spec fn broker_section(platform: Platform, verbose: bool, info: BrokerInfo) -> Seq<
    status::LineView,
> {
    seq![status::LineView::Section("Access Broker"@)] + if platform != Platform::Windows {
        seq![
            status::LineView::Row(
                Glyph::Off,
                "not applicable"@,
                "Windows-only component"@,
                false,
            ),
        ]
    } else if !info.installed {
        seq![
            status::LineView::Row(Glyph::Off, "not installed"@, ""@, false),
            status::LineView::Remark(
                "Install: uffs-broker --install  (one-time; removes UAC prompts)"@,
            ),
        ]
    } else {
        seq![
            status::LineView::Row(
                if info.running {
                    Glyph::Up
                } else {
                    Glyph::Down
                },
                info.state@,
                match info.pid {
                    Some(pid) => status::pid_text(pid),
                    None => ""@,
                },
                false,
            ),
            status::text_line(
                "Pipe"@,
                if serves(info) {
                    "serving"@
                } else {
                    "not serving"@
                },
                9,
            ),
        ] + (if verbose {
            broker_detail(info)
        } else {
            Seq::empty()
        })
    }
}

fn plain_row(out: &mut Vec<StatusLine>, glyph: Glyph, state: &str, detail: &str)
    ensures
        status::line_views(final(out)@) == status::line_views(old(out)@).push(
            status::LineView::Row(glyph, state@, detail@, false),
        ),
{
    push(
        out,
        StatusLine::Row {
            glyph,
            state: state.to_owned(),
            detail: detail.to_owned(),
            stale: false,
        },
    );
}

/// The section of the broker, which there is on Windows only.
pub fn broker_section_lines(platform: Platform, verbose: bool, info: &BrokerInfo) -> (res: Vec<
    StatusLine,
>)
    ensures
        status::line_views(res@) == broker_section(platform, verbose, *info),
{
    let mut res = no_lines();
    push(&mut res, StatusLine::Section("Access Broker"));
    if platform != Platform::Windows {
        plain_row(&mut res, Glyph::Off, "not applicable", "Windows-only component");
        assert(status::line_views(res@) =~= broker_section(platform, verbose, *info));
        return res;
    }
    if !info.installed {
        plain_row(&mut res, Glyph::Off, "not installed", "");
        push(
            &mut res,
            StatusLine::Remark(
                "Install: uffs-broker --install  (one-time; removes UAC prompts)".to_owned(),
            ),
        );
        assert(status::line_views(res@) =~= broker_section(platform, verbose, *info));
        return res;
    }
    let glyph = if info.running {
        Glyph::Up
    } else {
        Glyph::Down
    };
    let detail = match info.pid {
        Some(pid) => show_pid(pid),
        None => "".to_owned(),
    };
    plain_row(&mut res, glyph, &info.state, &detail);
    let pipe = if info.running && info.pipe_answers {
        "serving"
    } else {
        "not serving"
    };
    push_text(&mut res, "Pipe", pipe.to_owned(), 9);
    if verbose && info.pid.is_some() {
        if let Some(process) = &info.process {
            push_text(&mut res, "Binary", process.path.clone(), 9);
            if let Some(uptime) = process.uptime_nanos {
                push_piece(&mut res, "Uptime", Piece::Nanos(uptime), 9);
            }
            if process.stale {
                push(
                    &mut res,
                    StatusLine::Warning(
                        "\u{26a0} broker binary is newer than the running process",
                    ),
                );
            }
        }
    }
    assert(status::line_views(res@) =~= broker_section(platform, verbose, *info));
    res
}

// ---- the gateway ----

/// What the gateway has counted.
#[derive(Debug, Clone, Copy, PartialEq, Eq, Structural)]
pub struct McpStats {
    /// Sessions that are open.
    pub active_sessions: u64,
    /// Sessions in all.
    pub total_sessions: u64,
    /// Calls of tools.
    pub tool_calls: u64,
    /// Calls that failed.
    pub tool_errors: u64,
}

/// What came of asking the gateway.
#[derive(Debug)]
pub enum Probe {
    /// It was not asked.
    Disabled,
    /// It answered, perhaps with what it has counted.
    Answered(Option<McpStats>),
    /// It did not answer, or not well.
    Failed(String),
}

/// What is known of the gateway.
#[derive(Debug)]
pub enum McpGateway {
    /// There is none.
    NotRunning,
    /// There was one.
    Stale {
        /// Its process id.
        pid: u32,
        /// Its address.
        bind: String,
        /// Its port.
        port: u16,
    },
    /// There is one.
    Running {
        /// Its process id.
        pid: u32,
        /// For how long it has run, in seconds.
        uptime_secs: u64,
        /// Whether its executable has been replaced since it was started.
        stale: bool,
        /// Its address.
        bind: String,
        /// Its port.
        port: u16,
        /// What came of asking it.
        probe: Probe,
    },
}

/// For how long something has run, in seconds, by when it was started.
pub fn uptime(now: u64, start_ts: u64) -> (res: u64)
    ensures
        res == if now >= start_ts {
            now - start_ts
        } else {
            0
        },
{
    now.saturating_sub(start_ts)
}

/// The address of the gateway.
pub open spec fn endpoint_text(bind: Seq<char>, port: u16) -> Seq<char> {
    "http://"@ + bind + ":"@ + text::decimal(port as nat) + "/mcp"@
}

/// The address of the gateway.
pub fn endpoint(bind: &str, port: u16) -> (res: String)
    ensures
        res@ == endpoint_text(bind@, port),
{
    cat5("http://", bind, ":", &show_u64(port as u64), "/mcp")
}

/// The lines of what the gateway has counted.
pub open spec fn mcp_stats_text(stats: McpStats) -> Seq<status::LineView> {
    seq![
        status::text_line(
            "Sessions"@,
            text::decimal(stats.active_sessions as nat) + " active / "@ + text::decimal(
                stats.total_sessions as nat,
            ) + " total"@,
            11,
        ),
        status::text_line(
            "Tool calls"@,
            text::decimal(stats.tool_calls as nat) + " ("@ + text::decimal(
                stats.tool_errors as nat,
            ) + " errors)"@,
            11,
        ),
    ]
}

/// The lines of what came of asking the gateway.
pub open spec fn probe_text(probe: Probe) -> Seq<status::LineView> {
    match probe {
        Probe::Disabled => seq![
            status::LineView::Remark(
                "(health probe disabled \u{2014} rebuild with `--features mcp-http-probe`)"@,
            ),
        ],
        Probe::Answered(stats) => seq![status::text_line("Health"@, "\u{2713} ok"@, 11)] + (
        match stats {
            Some(stats) => mcp_stats_text(stats),
            None => Seq::empty(),
        }),
        Probe::Failed(err) => seq![
            status::LineView::Failure("Health"@, "unreachable ("@ + err@ + ")"@, 11),
        ],
    }
}

/// The section of the gateway.
pub open spec fn mcp_section(gateway: McpGateway) -> Seq<status::LineView> {
    seq![status::LineView::Section("MCP HTTP Gateway"@)] + match gateway {
        McpGateway::NotRunning => seq![
            status::LineView::Row(Glyph::Down, "not running"@, ""@, false),
        ],
        McpGateway::Stale { pid, .. } => seq![
            status::LineView::Row(
                Glyph::Down,
                "not running"@,
                "stale PID "@ + text::decimal(pid as nat),
                false,
            ),
        ],
        McpGateway::Running { pid, uptime_secs, stale, bind, port, probe } => seq![
            status::LineView::Row(Glyph::Up, "running"@, status::pid_text(pid), stale),
            status::LineView::Field(
                "Uptime"@,
                seq![status::PieceView::Seconds(uptime_secs)],
                11,
            ),
            status::text_line("Endpoint"@, endpoint_text(bind@, port), 11),
        ] + probe_text(probe) + (if stale {
            seq![
                status::LineView::Remark(
                    "Run `uffs --mcp reload` to restart with the current binary."@,
                ),
            ]
        } else {
            Seq::empty()
        }),
    }
}

fn push_probe(out: &mut Vec<StatusLine>, probe: &Probe)
    ensures
        status::line_views(final(out)@) == status::line_views(old(out)@) + probe_text(*probe),
{
    let ghost before = status::line_views(out@);
    match probe {
        Probe::Disabled => push(
            out,
            StatusLine::Remark(
                "(health probe disabled \u{2014} rebuild with `--features mcp-http-probe`)".to_owned(),
            ),
        ),
        Probe::Answered(stats) => {
            push_text(out, "Health", "\u{2713} ok".to_owned(), 11);
            if let Some(stats) = stats {
                push_text(
                    out,
                    "Sessions",
                    cat4(
                        &show_u64(stats.active_sessions),
                        " active / ",
                        &show_u64(stats.total_sessions),
                        " total",
                    ),
                    11,
                );
                push_text(
                    out,
                    "Tool calls",
                    cat4(
                        &show_u64(stats.tool_calls),
                        " (",
                        &show_u64(stats.tool_errors),
                        " errors)",
                    ),
                    11,
                );
            }
        },
        Probe::Failed(err) => push(
            out,
            StatusLine::Failure {
                label: "Health",
                value: cat3("unreachable (", err, ")"),
                width: 11,
            },
        ),
    }
    assert(status::line_views(out@) =~= before + probe_text(*probe));
}

/// The section of the gateway.
pub fn mcp_section_lines(gateway: &McpGateway) -> (res: Vec<StatusLine>)
    ensures
        status::line_views(res@) == mcp_section(*gateway),
{
    let mut res = no_lines();
    push(&mut res, StatusLine::Section("MCP HTTP Gateway"));
    match gateway {
        McpGateway::NotRunning => plain_row(&mut res, Glyph::Down, "not running", ""),
        McpGateway::Stale { pid, .. } => plain_row(
            &mut res,
            Glyph::Down,
            "not running",
            &cat2("stale PID ", &show_u64(*pid as u64)),
        ),
        McpGateway::Running { pid, uptime_secs, stale, bind, port, probe } => {
            push(
                &mut res,
                StatusLine::Row {
                    glyph: Glyph::Up,
                    state: "running".to_owned(),
                    detail: show_pid(*pid),
                    stale: *stale,
                },
            );
            push_piece(&mut res, "Uptime", Piece::Seconds(*uptime_secs), 11);
            push_text(&mut res, "Endpoint", endpoint(bind, *port), 11);
            push_probe(&mut res, probe);
            if *stale {
                push(
                    &mut res,
                    StatusLine::Remark(
                        "Run `uffs --mcp reload` to restart with the current binary.".to_owned(),
                    ),
                );
            }
        },
    }
    assert(status::line_views(res@) =~= mcp_section(*gateway));
    res
}

// ---- the whole view ----

/// The view of everything; `stdio` are the lines of the MCP sessions.
pub open spec fn system_view(
    platform: Platform,
    verbose: bool,
    daemon: Option<DaemonSnapshot>,
    pid_file: Option<Seq<char>>,
    broker: BrokerInfo,
    gateway: McpGateway,
    stdio: Seq<status::LineView>,
) -> Seq<status::LineView> {
    seq![status::LineView::Header("UFFS System Status"@), status::LineView::Blank] + daemon_section(
        verbose,
        daemon,
        pid_file,
    ) + seq![status::LineView::Blank] + broker_section(platform, verbose, broker) + seq![
        status::LineView::Blank,
    ] + mcp_section(gateway) + seq![status::LineView::Blank] + stdio
}

/// The view of everything.
pub fn system_lines(
    platform: Platform,
    verbose: bool,
    daemon: &Option<DaemonSnapshot>,
    pid_file: &Option<String>,
    broker: &BrokerInfo,
    gateway: &McpGateway,
    stdio: Vec<StatusLine>,
) -> (res: Vec<StatusLine>)
    requires
        daemon matches Some(snap) ==> status::record_total(snap.drives@) <= u64::MAX,
    ensures
        status::line_views(res@) == system_view(
            platform,
            verbose,
            *daemon,
            error::shown(*pid_file),
            *broker,
            *gateway,
            status::line_views(stdio@),
        ),
{
    let ghost last = status::line_views(stdio@);
    let mut res = no_lines();
    push(&mut res, StatusLine::Header("UFFS System Status"));
    push(&mut res, StatusLine::Blank);
    push_all(&mut res, daemon_section_lines(verbose, daemon, pid_file));
    push(&mut res, StatusLine::Blank);
    push_all(&mut res, broker_section_lines(platform, verbose, broker));
    push(&mut res, StatusLine::Blank);
    push_all(&mut res, mcp_section_lines(gateway));
    push(&mut res, StatusLine::Blank);
    push_all(&mut res, stdio);
    assert(status::line_views(res@) =~= system_view(
        platform,
        verbose,
        *daemon,
        error::shown(*pid_file),
        *broker,
        *gateway,
        last,
    ));
    res
}

// ---- JSON ----

/// What the daemon said, in JSON form.
#[derive(Debug)]
pub struct RawDaemon {
    /// What it says of itself.
    pub status: String,
    /// Its drives.
    pub drives: String,
    /// What it has counted; null where it does not say.
    pub stats: String,
}

/// The JSON form of the daemon.
pub open spec fn daemon_document(daemon: Option<RawDaemon>) -> json::JsonView {
    match daemon {
        None => json::JsonView::Object(seq![("running"@, json::JsonView::Bool(false))]),
        Some(raw) => json::JsonView::Object(
            seq![
                ("running"@, json::JsonView::Bool(true)),
                ("status"@, json::JsonView::Raw(raw.status@)),
                ("drives"@, json::JsonView::Raw(raw.drives@)),
                ("stats"@, json::JsonView::Raw(raw.stats@)),
            ],
        ),
    }
}

/// The JSON form of the daemon.
pub fn daemon_json(daemon: &Option<RawDaemon>) -> (res: Json)
    ensures
        res@ == daemon_document(*daemon),
{
    let mut fields = json::no_fields();
    match daemon {
        None => json::push_field(&mut fields, "running", Json::Bool(false)),
        Some(raw) => {
            json::push_field(&mut fields, "running", Json::Bool(true));
            json::push_field(&mut fields, "status", Json::Raw(raw.status.clone()));
            json::push_field(&mut fields, "drives", Json::Raw(raw.drives.clone()));
            json::push_field(&mut fields, "stats", Json::Raw(raw.stats.clone()));
        },
    }
    let res = json::object(fields);
    assert(res@->Object_0 =~= daemon_document(*daemon)->Object_0);
    res
}

/// A process id, or nothing.
pub open spec fn optional_pid(pid: Option<u32>) -> json::JsonView {
    match pid {
        Some(pid) => json::JsonView::Number(pid as u64),
        None => json::JsonView::Null,
    }
}

/// The JSON form of the broker.
pub open spec fn broker_document(platform: Platform, info: BrokerInfo) -> json::JsonView {
    if platform != Platform::Windows {
        json::JsonView::Object(seq![("applicable"@, json::JsonView::Bool(false))])
    } else if !info.installed {
        json::JsonView::Object(
            seq![
                ("applicable"@, json::JsonView::Bool(true)),
                ("installed"@, json::JsonView::Bool(false)),
            ],
        )
    } else {
        json::JsonView::Object(
            seq![
                ("applicable"@, json::JsonView::Bool(true)),
                ("installed"@, json::JsonView::Bool(true)),
                ("state"@, json::JsonView::Text(info.state@)),
                ("running"@, json::JsonView::Bool(info.running)),
                ("pid"@, optional_pid(info.pid)),
                ("pipe_serving"@, json::JsonView::Bool(serves(info))),
                (
                    "binary"@,
                    match (info.pid, info.process) {
                        (Some(_), Some(process)) => json::JsonView::Text(process.path@),
                        _ => json::JsonView::Null,
                    },
                ),
            ],
        )
    }
}

/// The JSON form of the broker.
pub fn broker_json(platform: Platform, info: &BrokerInfo) -> (res: Json)
    ensures
        res@ == broker_document(platform, *info),
{
    let mut fields = json::no_fields();
    json::push_field(&mut fields, "applicable", Json::Bool(platform == Platform::Windows));
    if platform == Platform::Windows {
        json::push_field(&mut fields, "installed", Json::Bool(info.installed));
        if info.installed {
            json::push_field(&mut fields, "state", json::string(&info.state));
            json::push_field(&mut fields, "running", Json::Bool(info.running));
            let pid = match info.pid {
                Some(pid) => Json::Number(pid as u64),
                None => Json::Null,
            };
            json::push_field(&mut fields, "pid", pid);
            json::push_field(
                &mut fields,
                "pipe_serving",
                Json::Bool(info.running && info.pipe_answers),
            );
            let binary = match info.pid {
                Some(_) => match &info.process {
                    Some(process) => json::string(&process.path),
                    None => Json::Null,
                },
                None => Json::Null,
            };
            json::push_field(&mut fields, "binary", binary);
        }
    }
    let res = json::object(fields);
    assert(res@->Object_0 =~= broker_document(platform, *info)->Object_0);
    res
}

/// The JSON form of a gateway with an address.
pub open spec fn gateway_document(running: bool, pid: u32, bind: Seq<char>, port: u16) -> json::JsonView {
    json::JsonView::Object(
        seq![
            ("running"@, json::JsonView::Bool(running)),
            ("pid"@, json::JsonView::Number(pid as u64)),
            ("endpoint"@, json::JsonView::Text(endpoint_text(bind, port))),
        ],
    )
}

/// The JSON form of the gateway.
pub open spec fn mcp_document(gateway: McpGateway) -> json::JsonView {
    match gateway {
        McpGateway::NotRunning => json::JsonView::Object(
            seq![("running"@, json::JsonView::Bool(false))],
        ),
        McpGateway::Stale { pid, bind, port } => gateway_document(false, pid, bind@, port),
        McpGateway::Running { pid, bind, port, .. } => gateway_document(true, pid, bind@, port),
    }
}

fn json_of_gateway(running: bool, pid: u32, bind: &str, port: u16) -> (res: Json)
    ensures
        res@ == gateway_document(running, pid, bind@, port),
{
    let mut fields = json::no_fields();
    json::push_field(&mut fields, "running", Json::Bool(running));
    json::push_field(&mut fields, "pid", Json::Number(pid as u64));
    json::push_field(&mut fields, "endpoint", json::string(&endpoint(bind, port)));
    let res = json::object(fields);
    assert(res@->Object_0 =~= gateway_document(running, pid, bind@, port)->Object_0);
    res
}

/// The JSON form of the gateway.
pub fn mcp_http_json(gateway: &McpGateway) -> (res: Json)
    ensures
        res@ == mcp_document(*gateway),
{
    match gateway {
        McpGateway::NotRunning => {
            let mut fields = json::no_fields();
            json::push_field(&mut fields, "running", Json::Bool(false));
            let res = json::object(fields);
            assert(res@->Object_0 =~= mcp_document(*gateway)->Object_0);
            res
        },
        McpGateway::Stale { pid, bind, port } => json_of_gateway(false, *pid, bind, *port),
        McpGateway::Running { pid, bind, port, .. } => json_of_gateway(true, *pid, bind, *port),
    }
}

/// The JSON form of everything.
pub open spec fn system_document(
    platform: Platform,
    daemon: Option<RawDaemon>,
    broker: BrokerInfo,
    gateway: McpGateway,
    stdio: json::JsonView,
) -> json::JsonView {
    json::JsonView::Object(
        seq![
            ("daemon"@, daemon_document(daemon)),
            ("broker"@, broker_document(platform, broker)),
            ("mcp_http"@, mcp_document(gateway)),
            ("mcp_stdio"@, stdio),
        ],
    )
}

/// The JSON form of everything; `stdio` is that of the MCP sessions.
pub fn system_json(
    platform: Platform,
    daemon: &Option<RawDaemon>,
    broker: &BrokerInfo,
    gateway: &McpGateway,
    stdio: Json,
) -> (res: Json)
    ensures
        res@ == system_document(platform, *daemon, *broker, *gateway, stdio@),
{
    let ghost sessions = stdio@;
    let mut fields = json::no_fields();
    json::push_field(&mut fields, "daemon", daemon_json(daemon));
    json::push_field(&mut fields, "broker", broker_json(platform, broker));
    json::push_field(&mut fields, "mcp_http", mcp_http_json(gateway));
    json::push_field(&mut fields, "mcp_stdio", stdio);
    let res = json::object(fields);
    assert(res@->Object_0 =~= system_document(
        platform,
        *daemon,
        *broker,
        *gateway,
        sessions,
    )->Object_0);
    res
}

// ---- asking the gateway ----

/// The request that asks the gateway for a path.
pub fn http_request(bind: &str, port: u16, path: &str) -> (res: String)
    ensures
        res@ == "GET "@ + path@ + " HTTP/1.1\r\nHost: "@ + (bind@ + ":"@ + text::decimal(
            port as nat,
        )) + "\r\nConnection: close\r\n\r\n"@,
{
    let address = cat3(bind, ":", &show_u64(port as u64));
    cat5("GET ", path, " HTTP/1.1\r\nHost: ", &address, "\r\nConnection: close\r\n\r\n")
}

/// What stands behind the first empty line of a response, without the white space around it; nothing
/// where there is no empty line.
pub open spec fn body_from(response: Seq<char>, at: int) -> Seq<char>
    decreases response.len() - at,
{
    if at < 0 || at + 4 > response.len() {
        Seq::empty()
    } else if text::stands_at(response, "\r\n\r\n"@, at) {
        text::trimmed(response.skip(at + 4))
    } else {
        body_from(response, at + 1)
    }
}

/// The body of a response.
pub fn http_body(response: &str) -> (res: String)
    ensures
        res@ == body_from(response@, 0),
{
    let chars = text::chars_of(response);
    let len: usize = chars.len();
    let mut at: usize = 0;
    proof {
        reveal_strlit("\r\n\r\n");
    }
    while len - at >= 4
        invariant
            at <= len == chars@.len(),
            chars@ == response@,
            "\r\n\r\n"@ == seq!['\r', '\n', '\r', '\n'],
            body_from(response@, at as int) == body_from(response@, 0),
        decreases len - at,
    {
        let blank = chars[at] == '\r' && chars[at + 1] == '\n' && chars[at + 2] == '\r'
            && chars[at + 3] == '\n';
        proof {
            let part = response@.subrange(at as int, at + 4);
            if blank {
                assert(part =~= "\r\n\r\n"@);
            } else if part == "\r\n\r\n"@ {
                assert(part[0] == '\r' && part[1] == '\n' && part[2] == '\r' && part[3] == '\n');
            }
        }
        if blank {
            let rest = text::from_chars(&chars, at + 4, len);
            assert(rest@ =~= response@.skip(at + 4));
            return text::trim(&rest);
        }
        at += 1;
    }
    String::new()
}

/// A number, or zero where there is none.
pub open spec fn or_zero(value: Option<u64>) -> u64 {
    match value {
        Some(value) => value,
        None => 0,
    }
}

/// A number, or zero where there is none.
pub fn number_or_zero(value: Option<u64>) -> (res: u64)
    ensures
        res == or_zero(value),
{
    match value {
        Some(value) => value,
        None => 0,
    }
}

/// What a body of the gateway tells, by whether it is JSON and what it has counted.
pub fn probe_result(path: &str, body: &str, readable: bool, stats: Option<McpStats>) -> (res: Probe)
    ensures
        match res {
            Probe::Answered(told) => readable && told == stats,
            Probe::Failed(err) => !readable && err@ == "bad JSON from "@ + path@ + ": "@ + body@,
            Probe::Disabled => false,
        },
{
    if readable {
        Probe::Answered(stats)
    } else {
        Probe::Failed(cat4("bad JSON from ", path, ": ", body))
    }
}

/// What the body of a response of the gateway tells.
pub fn read_probe(path: &str, body: &str) -> (res: Probe)
    ensures
        match res {
            Probe::Answered(told) => json::is_json(body@) && told == if json::json_has_field(
                body@,
                "mcp_stats"@,
            ) {
                Some(
                    McpStats {
                        active_sessions: or_zero(
                            json::json_number(body@, "mcp_stats"@, "active_sessions"@),
                        ),
                        total_sessions: or_zero(
                            json::json_number(body@, "mcp_stats"@, "total_sessions"@),
                        ),
                        tool_calls: or_zero(json::json_number(body@, "mcp_stats"@, "tool_calls"@)),
                        tool_errors: or_zero(json::json_number(body@, "mcp_stats"@, "tool_errors"@)),
                    },
                )
            } else {
                None
            },
            Probe::Failed(err) => !json::is_json(body@) && err@ == "bad JSON from "@ + path@ + ": "@
                + body@,
            Probe::Disabled => false,
        },
{
    let stats = if json::has_field(body, "mcp_stats") {
        Some(
            McpStats {
                active_sessions: number_or_zero(
                    json::number_field(body, "mcp_stats", "active_sessions"),
                ),
                total_sessions: number_or_zero(json::number_field(body, "mcp_stats", "total_sessions")),
                tool_calls: number_or_zero(json::number_field(body, "mcp_stats", "tool_calls")),
                tool_errors: number_or_zero(json::number_field(body, "mcp_stats", "tool_errors")),
            },
        )
    } else {
        None
    };
    probe_result(path, body, json::reads_as_json(body), stats)
}

// ---- laws ----

/// How many drives are kept elsewhere than parked or cold.
pub open spec fn active_count(drives: Seq<DriveInfo>) -> nat
    decreases drives.len(),
{
    if drives.len() == 0 {
        0
    } else {
        active_count(drives.drop_last()) + if drives.last().tier == Some(ShardTier::Parked)
            || drives.last().tier == Some(ShardTier::Cold) {
            0nat
        } else {
            1
        }
    }
}

/// The three counts of drives that are told are those of the drives that are active, parked and
/// cold, and every drive is in one of them.
pub proof fn law_every_drive_is_counted(drives: Seq<DriveInfo>)
    ensures
        drives.len() - tier_count(drives, ShardTier::Parked) - tier_count(drives, ShardTier::Cold)
            == active_count(drives),
    decreases drives.len(),
{
    if drives.len() > 0 {
        law_every_drive_is_counted(drives.drop_last());
    }
}

/// Whether a process was started before its executable was last written, both in nanoseconds since
/// the epoch; not where the latter is not known.
pub fn started_before_binary(started: u128, written: Option<u128>) -> (res: bool)
    ensures
        res == match written {
            Some(written) => started < written,
            None => false,
        },
{
    match written {
        Some(written) => started < written,
        None => false,
    }
}

proof fn lemma_told(res: Seq<StatusLine>)
    ensures
        status::line_views(res).len() == res.len(),
        forall|i: int| 0 <= i < res.len() ==> #[trigger] status::line_views(res)[i] == res[i]@,
{
}

/// A drive counts for its own tier, and for no other.
pub proof fn law_a_drive_counts_for_its_tier(
    drives: Seq<DriveInfo>,
    last: DriveInfo,
    tier: ShardTier,
)
    ensures
        tier_count(Seq::<DriveInfo>::empty(), tier) == 0,
        last.tier == Some(tier) ==> tier_count(drives.push(last), tier) == tier_count(drives, tier)
            + 1,
        last.tier != Some(tier) ==> tier_count(drives.push(last), tier) == tier_count(drives, tier),
{
    assert(drives.push(last).drop_last() =~= drives);
}

/// What is told first of the daemon: that it does not run, with what is left of it; or its state, its
/// process, its version, its time and its drives, each tier with its count.
pub proof fn law_what_is_told_first_of_the_daemon(
    verbose: bool,
    daemon: &Option<DaemonSnapshot>,
    pid_file: &Option<String>,
    res: Vec<StatusLine>,
)
    requires
        daemon matches Some(snap) ==> status::record_total(snap.drives@) <= u64::MAX,
        call_ensures(daemon_section_lines, (verbose, daemon, pid_file), res),
    ensures
        res@.len() >= 2,
        res@[0]@ == status::LineView::Section("Daemon"@),
        *daemon is None ==> {
            &&& res@.len() == if *pid_file is Some {
                3nat
            } else {
                2
            }
            &&& res@[1]@ == status::LineView::Row(Glyph::Down, "not running"@, ""@, false)
            &&& *pid_file is Some ==> res@[2]@ == status::LineView::Remark(
                "(stale PID file at "@ + pid_file->Some_0@ + ")"@,
            )
        },
        daemon matches Some(snap) ==> {
            let parked = tier_count(snap.drives@, ShardTier::Parked);
            let cold = tier_count(snap.drives@, ShardTier::Cold);
            &&& res@.len() >= if snap.perf is Some {
                6nat
            } else {
                5
            }
            &&& !verbose ==> res@.len() == if snap.perf is Some {
                6nat
            } else {
                5
            }
            &&& res@[1]@ == status::LineView::Row(
                status::health_text(snap.status.status).0,
                status::health_text(snap.status.status).1,
                "PID "@ + text::decimal(snap.status.pid as nat),
                snap.stale,
            )
            &&& res@[2]@ == status::LineView::Field(
                "Version"@,
                seq![status::PieceView::Version(snap.status.version@)],
                11,
            )
            &&& res@[3]@ == status::LineView::Field(
                "Uptime"@,
                seq![status::PieceView::Seconds(snap.status.uptime_secs)],
                11,
            )
            &&& snap.drives@.len() == 0 ==> res@[4]@ == status::text_line(
                "Drives"@,
                "(none loaded)"@,
                11,
            )
            &&& snap.drives@.len() > 0 ==> res@[4]@ == status::LineView::Field(
                "Drives"@,
                seq![
                    status::PieceView::Text(
                        text::decimal(snap.drives@.len()) + " loaded \u{b7} "@,
                    ),
                    status::PieceView::Count(status::record_total(snap.drives@) as u64),
                    status::PieceView::Text(
                        " records ("@ + text::decimal(
                            (snap.drives@.len() - parked - cold) as nat,
                        ) + " active / "@ + text::decimal(parked) + " parked / "@ + (text::decimal(
                            cold,
                        ) + " cold)"@),
                    ),
                ],
                11,
            )
        },
{
    lemma_told(res@);
    let told = status::line_views(res@);
    assert(told[0] == res@[0]@ && told[1] == res@[1]@);
    if *daemon is Some {
        assert(told[2] == res@[2]@ && told[3] == res@[3]@ && told[4] == res@[4]@);
    } else if *pid_file is Some {
        assert(told[2] == res@[2]@);
    }
}

/// What more is told of the daemon, each under its own label and only where it is known.
pub proof fn law_what_more_is_told_of_the_daemon(
    daemon: &Option<DaemonSnapshot>,
    pid_file: &Option<String>,
    res: Vec<StatusLine>,
    more: Vec<StatusLine>,
)
    requires
        *daemon is Some,
        status::record_total(daemon->Some_0.drives@) <= u64::MAX,
        call_ensures(daemon_section_lines, (false, daemon, pid_file), res),
        call_ensures(daemon_section_lines, (true, daemon, pid_file), more),
    ensures
        ({
            let from = daemon->Some_0.status;
            let commit = if from.git_sha@.len() > 0 {
                1int
            } else {
                0
            };
            let live = if from.live_update is Some {
                1int
            } else {
                0
            };
            let memory = if from.rss_bytes is Some {
                1int
            } else {
                0
            };
            let data = if from.paths is Some && from.paths->Some_0.data_dir@.len() > 0 {
                1int
            } else {
                0
            };
            let n = res@.len() as int;
            &&& more@.len() == n + commit + 1 + live + memory + data
            &&& status::line_views(more@).take(n) == status::line_views(res@)
            &&& commit == 1 ==> more@[n]@ == status::text_line("Commit"@, from.git_sha@, 11)
            &&& more@[n + commit]@ == status::text_line(
                "Elevated"@,
                if from.elevated {
                    "yes (direct elevated reads)"@
                } else if from.reading_via_broker {
                    "no (via Access Broker, zero-UAC)"@
                } else {
                    "no"@
                },
                11,
            )
            &&& live == 1 ==> more@[n + commit + 1]@ == status::text_line(
                "Live upd"@,
                if from.live_update->Some_0 > 0 {
                    text::decimal(from.live_update->Some_0 as nat) + " journal loop(s) running"@
                } else {
                    "inactive"@
                },
                11,
            )
            &&& memory == 1 && from.index_heap_bytes is Some ==> more@[n + commit + 1 + live]@
                == status::text_line(
                "Memory"@,
                text::decimal((from.rss_bytes->Some_0 / 1048576) as nat) + " MB RSS"@ + (
                " (index "@ + text::decimal((from.index_heap_bytes->Some_0 / 1048576) as nat)
                    + " MB)"@),
                11,
            )
            &&& memory == 1 && from.index_heap_bytes is None ==> more@[n + commit + 1 + live]@
                == status::text_line(
                "Memory"@,
                text::decimal((from.rss_bytes->Some_0 / 1048576) as nat) + " MB RSS"@,
                11,
            )
            &&& data == 1 ==> more@[n + commit + 1 + live + memory]@ == status::text_line(
                "Data dir"@,
                from.paths->Some_0.data_dir@,
                11,
            )
        }),
{
    lemma_told(res@);
    lemma_told(more@);
    reveal_strlit("");
    let told = status::line_views(more@);
    let from = daemon->Some_0.status;
    let commit = if from.git_sha@.len() > 0 {
        1int
    } else {
        0
    };
    let live = if from.live_update is Some {
        1int
    } else {
        0
    };
    let memory = if from.rss_bytes is Some {
        1int
    } else {
        0
    };
    let n = res@.len() as int;
    assert(told =~= status::line_views(res@) + daemon_detail(from));
    assert(told.take(n) =~= status::line_views(res@));
    if commit == 1 {
        assert(told[n] == more@[n]@);
    }
    assert(told[n + commit] == more@[n + commit]@);
    if live == 1 {
        assert(told[n + commit + 1] == more@[n + commit + 1]@);
    }
    if memory == 1 {
        let rss = text::decimal((from.rss_bytes->Some_0 / 1048576) as nat) + " MB RSS"@;
        assert(rss + ""@ =~= rss);
        assert(told[n + commit + 1 + live] == more@[n + commit + 1 + live]@);
    }
    if from.paths is Some && from.paths->Some_0.data_dir@.len() > 0 {
        assert(told[n + commit + 1 + live + memory] == more@[n + commit + 1 + live + memory]@);
    }
}

/// What is told of the broker: that there is none to speak of, that it is not installed, or its state
/// and whether it serves, which takes a running service and a pipe that answers.
pub proof fn law_what_is_told_of_the_broker(
    platform: Platform,
    verbose: bool,
    info: &BrokerInfo,
    res: Vec<StatusLine>,
)
    requires
        call_ensures(broker_section_lines, (platform, verbose, info), res),
    ensures
        res@.len() >= 2,
        res@[0]@ == status::LineView::Section("Access Broker"@),
        platform != Platform::Windows ==> res@.len() == 2 && res@[1]@ == status::LineView::Row(
            Glyph::Off,
            "not applicable"@,
            "Windows-only component"@,
            false,
        ),
        platform == Platform::Windows && !info.installed ==> res@.len() == 3 && res@[1]@
            == status::LineView::Row(Glyph::Off, "not installed"@, ""@, false),
        platform == Platform::Windows && info.installed ==> {
            &&& res@.len() >= 3
            &&& !verbose ==> res@.len() == 3
            &&& res@[1]@ is Row
            &&& res@[1]@->Row_0 == (if info.running {
                Glyph::Up
            } else {
                Glyph::Down
            })
            &&& res@[1]@->Row_1 == info.state@
            &&& info.pid matches Some(pid) ==> res@[1]@->Row_2 == "PID "@ + text::decimal(pid as nat)
            &&& info.pid is None ==> res@[1]@->Row_2 == ""@
            &&& info.running && info.pipe_answers ==> res@[2]@ == status::text_line(
                "Pipe"@,
                "serving"@,
                9,
            )
            &&& !info.running || !info.pipe_answers ==> res@[2]@ == status::text_line(
                "Pipe"@,
                "not serving"@,
                9,
            )
        },
{
    lemma_told(res@);
    let told = status::line_views(res@);
    assert(told[0] == res@[0]@ && told[1] == res@[1]@);
    if platform == Platform::Windows {
        assert(told[2] == res@[2]@);
    }
}

/// What more is told of the broker's process, where it is known: its executable, its time and whether
/// a newer one lies there.
pub proof fn law_what_more_is_told_of_the_broker(info: &BrokerInfo, res: Vec<StatusLine>)
    requires
        call_ensures(broker_section_lines, (Platform::Windows, true, info), res),
        info.installed,
    ensures
        info.pid is None || info.process is None ==> res@.len() == 3,
        info.pid is Some && info.process is Some ==> {
            let process = info.process->Some_0;
            let time = if process.uptime_nanos is Some {
                1int
            } else {
                0
            };
            &&& res@.len() == 4 + time + (if process.stale {
                1int
            } else {
                0
            })
            &&& res@[3]@ == status::text_line("Binary"@, process.path@, 9)
            &&& time == 1 ==> res@[4]@ == status::LineView::Field(
                "Uptime"@,
                seq![status::PieceView::Nanos(process.uptime_nanos->Some_0)],
                9,
            )
            &&& process.stale ==> res@[4 + time]@ is Warning
        },
{
    lemma_told(res@);
    let told = status::line_views(res@);
    if info.pid is Some && info.process is Some {
        let process = info.process->Some_0;
        let time = if process.uptime_nanos is Some {
            1int
        } else {
            0
        };
        assert(told[3] == res@[3]@);
        if time == 1 {
            assert(told[4] == res@[4]@);
        }
        if process.stale {
            assert(told[4 + time] == res@[4 + time]@);
        }
    }
}

/// What is told of the service for other programs: whether it runs, its process, its time, its place,
/// its health, and that it is to be started anew where a newer executable lies there.
pub proof fn law_what_is_told_of_the_gateway(
    gateway: &McpGateway,
    res: Vec<StatusLine>,
    bind: &str,
    port: u16,
    place: String,
)
    requires
        call_ensures(mcp_section_lines, (gateway,), res),
        call_ensures(endpoint, (bind, port), place),
    ensures
        place@ == "http://"@ + bind@ + ":"@ + text::decimal(port as nat) + "/mcp"@,
        res@.len() >= 2,
        res@[0]@ == status::LineView::Section("MCP HTTP Gateway"@),
        *gateway is NotRunning ==> res@.len() == 2 && res@[1]@ == status::LineView::Row(
            Glyph::Down,
            "not running"@,
            ""@,
            false,
        ),
        gateway matches McpGateway::Stale { pid, bind: _, port: _ } ==> res@.len() == 2
            && res@[1]@ == status::LineView::Row(
            Glyph::Down,
            "not running"@,
            "stale PID "@ + text::decimal(*pid as nat),
            false,
        ),
        gateway matches McpGateway::Running { pid, uptime_secs, stale, bind: at, port: number, probe }
            ==> {
            let health = match *probe {
                Probe::Answered(Some(_)) => 3int,
                _ => 1,
            };
            &&& res@.len() == 4 + health + (if *stale {
                1int
            } else {
                0
            })
            &&& res@[1]@ == status::LineView::Row(
                Glyph::Up,
                "running"@,
                "PID "@ + text::decimal(*pid as nat),
                *stale,
            )
            &&& res@[2]@ == status::LineView::Field(
                "Uptime"@,
                seq![status::PieceView::Seconds(*uptime_secs)],
                11,
            )
            &&& at@ == bind@ && *number == port ==> res@[3]@ == status::text_line(
                "Endpoint"@,
                place@,
                11,
            )
            &&& probe matches Probe::Failed(err) ==> res@[4]@ == status::LineView::Failure(
                "Health"@,
                "unreachable ("@ + err@ + ")"@,
                11,
            )
            &&& probe matches Probe::Answered(stats) ==> res@[4]@ == status::text_line(
                "Health"@,
                "\u{2713} ok"@,
                11,
            )
            &&& probe matches Probe::Answered(Some(stats)) ==> res@[5]@ == status::text_line(
                "Sessions"@,
                text::decimal(stats.active_sessions as nat) + " active / "@ + text::decimal(
                    stats.total_sessions as nat,
                ) + " total"@,
                11,
            ) && res@[6]@ == status::text_line(
                "Tool calls"@,
                text::decimal(stats.tool_calls as nat) + " ("@ + text::decimal(
                    stats.tool_errors as nat,
                ) + " errors)"@,
                11,
            )
            &&& *probe is Disabled ==> res@[4]@ is Remark
            &&& *stale ==> res@[4 + health]@ is Remark
        },
{
    lemma_told(res@);
    let told = status::line_views(res@);
    assert(told[0] == res@[0]@ && told[1] == res@[1]@);
    if let McpGateway::Running { pid, uptime_secs, stale, bind: at, port: number, probe } = *gateway {
        let health = match probe {
            Probe::Answered(Some(_)) => 3int,
            _ => 1,
        };
        assert(told[2] == res@[2]@ && told[3] == res@[3]@ && told[4] == res@[4]@);
        if health == 3 {
            assert(told[5] == res@[5]@ && told[6] == res@[6]@);
        }
        if stale {
            assert(told[4 + health] == res@[4 + health]@);
        }
    }
}

/// The parts of the whole stand in their order, a blank line before each.
pub proof fn law_the_parts_of_the_whole(
    platform: Platform,
    verbose: bool,
    daemon: &Option<DaemonSnapshot>,
    pid_file: &Option<String>,
    broker: &BrokerInfo,
    gateway: &McpGateway,
    stdio: Vec<StatusLine>,
    res: Vec<StatusLine>,
    of_daemon: Vec<StatusLine>,
    of_broker: Vec<StatusLine>,
    of_gateway: Vec<StatusLine>,
)
    requires
        daemon matches Some(snap) ==> status::record_total(snap.drives@) <= u64::MAX,
        call_ensures(
            system_lines,
            (platform, verbose, daemon, pid_file, broker, gateway, stdio),
            res,
        ),
        call_ensures(daemon_section_lines, (verbose, daemon, pid_file), of_daemon),
        call_ensures(broker_section_lines, (platform, verbose, broker), of_broker),
        call_ensures(mcp_section_lines, (gateway,), of_gateway),
    ensures
        ({
            let blank = seq![status::LineView::Blank];
            status::line_views(res@) == seq![status::LineView::Header("UFFS System Status"@)]
                + blank + status::line_views(of_daemon@) + blank + status::line_views(of_broker@)
                + blank + status::line_views(of_gateway@) + blank + status::line_views(stdio@)
        }),
{
    let blank = seq![status::LineView::Blank];
    assert(seq![status::LineView::Header("UFFS System Status"@), status::LineView::Blank] =~= seq![
        status::LineView::Header("UFFS System Status"@),
    ] + blank);
}

/// The document tells the same under the same names: whether the daemon runs, and each of its answers
/// as it came.
pub proof fn law_the_document_of_the_daemon(daemon: &Option<RawDaemon>, res: Json)
    requires
        call_ensures(daemon_json, (daemon,), res),
    ensures
        res@ is Object,
        res@->Object_0[0] == ("running"@, json::JsonView::Bool(*daemon is Some)),
        *daemon is None ==> res@->Object_0.len() == 1,
        daemon matches Some(raw) ==> {
            &&& res@->Object_0.len() == 4
            &&& res@->Object_0[1] == ("status"@, json::JsonView::Raw(raw.status@))
            &&& res@->Object_0[2] == ("drives"@, json::JsonView::Raw(raw.drives@))
            &&& res@->Object_0[3] == ("stats"@, json::JsonView::Raw(raw.stats@))
        },
{
}

/// The document of the broker.
pub proof fn law_the_document_of_the_broker(platform: Platform, info: &BrokerInfo, res: Json)
    requires
        call_ensures(broker_json, (platform, info), res),
    ensures
        res@ is Object,
        res@->Object_0[0] == ("applicable"@, json::JsonView::Bool(platform == Platform::Windows)),
        platform != Platform::Windows ==> res@->Object_0.len() == 1,
        platform == Platform::Windows ==> res@->Object_0[1] == (
            "installed"@,
            json::JsonView::Bool(info.installed),
        ),
        platform == Platform::Windows && !info.installed ==> res@->Object_0.len() == 2,
        platform == Platform::Windows && info.installed ==> {
            let fields = res@->Object_0;
            &&& fields.len() == 7
            &&& fields[2] == ("state"@, json::JsonView::Text(info.state@))
            &&& fields[3] == ("running"@, json::JsonView::Bool(info.running))
            &&& info.pid matches Some(pid) ==> fields[4] == (
                "pid"@,
                json::JsonView::Number(pid as u64),
            )
            &&& info.pid is None ==> fields[4] == ("pid"@, json::JsonView::Null)
            &&& fields[5] == (
                "pipe_serving"@,
                json::JsonView::Bool(info.running && info.pipe_answers),
            )
            &&& info.pid is Some && info.process is Some ==> fields[6] == (
                "binary"@,
                json::JsonView::Text(info.process->Some_0.path@),
            )
            &&& info.pid is None || info.process is None ==> fields[6] == (
                "binary"@,
                json::JsonView::Null,
            )
        },
{
}

/// The document of the service for other programs, and the document of the whole.
pub proof fn law_the_document_of_the_whole(
    platform: Platform,
    daemon: &Option<RawDaemon>,
    broker: &BrokerInfo,
    gateway: &McpGateway,
    stdio: Json,
    res: Json,
    of_daemon: Json,
    of_broker: Json,
    of_gateway: Json,
)
    requires
        call_ensures(system_json, (platform, daemon, broker, gateway, stdio), res),
        call_ensures(daemon_json, (daemon,), of_daemon),
        call_ensures(broker_json, (platform, broker), of_broker),
        call_ensures(mcp_http_json, (gateway,), of_gateway),
    ensures
        res@ == json::JsonView::Object(
            seq![
                ("daemon"@, of_daemon@),
                ("broker"@, of_broker@),
                ("mcp_http"@, of_gateway@),
                ("mcp_stdio"@, stdio@),
            ],
        ),
        of_gateway@ is Object,
        of_gateway@->Object_0[0] == ("running"@, json::JsonView::Bool(*gateway is Running)),
        *gateway is NotRunning ==> of_gateway@->Object_0.len() == 1,
        gateway matches McpGateway::Stale { pid, bind, port } ==> of_gateway@->Object_0.len() == 3
            && of_gateway@->Object_0[1] == ("pid"@, json::JsonView::Number(*pid as u64))
            && of_gateway@->Object_0[2] == (
            "endpoint"@,
            json::JsonView::Text(
                "http://"@ + bind@ + ":"@ + text::decimal(*port as nat) + "/mcp"@,
            ),
        ),
        gateway matches McpGateway::Running { pid, uptime_secs, stale, bind, port, probe }
            ==> of_gateway@->Object_0.len() == 3 && of_gateway@->Object_0[1] == (
            "pid"@,
            json::JsonView::Number(*pid as u64),
        ) && of_gateway@->Object_0[2] == (
            "endpoint"@,
            json::JsonView::Text(
                "http://"@ + bind@ + ":"@ + text::decimal(*port as nat) + "/mcp"@,
            ),
        ),
{
}

/// The body of an answer is what follows its first empty line, trimmed, and nothing where it has none.
pub proof fn law_the_body_follows_the_empty_line(response: &str, res: String, at: int)
    requires
        call_ensures(http_body, (response,), res),
        0 <= at,
        forall|i: int| 0 <= i < at ==> !#[trigger] text::stands_at(response@, "\r\n\r\n"@, i),
    ensures
        text::stands_at(response@, "\r\n\r\n"@, at) && at + 4 <= response@.len() ==> res@
            == text::trimmed(response@.skip(at + 4)),
        at + 4 > response@.len() ==> res@.len() == 0,
{
    lemma_body(response@, 0, at);
}

proof fn lemma_body(response: Seq<char>, from: int, at: int)
    requires
        0 <= from <= at,
        forall|i: int| from <= i < at ==> !#[trigger] text::stands_at(response, "\r\n\r\n"@, i),
    ensures
        text::stands_at(response, "\r\n\r\n"@, at) && at + 4 <= response.len() ==> body_from(
            response,
            from,
        ) == text::trimmed(response.skip(at + 4)),
        at + 4 > response.len() ==> body_from(response, from).len() == 0,
    decreases at - from,
{
    if from < at {
        assert(!text::stands_at(response, "\r\n\r\n"@, from));
        lemma_body(response, from + 1, at);
    }
}

/// What is asked of the service, what is made of its answer, and how times are told.
pub proof fn law_what_a_probe_comes_to(
    bind: &str,
    port: u16,
    path: &str,
    asked: String,
    body: &str,
    readable: bool,
    stats: Option<McpStats>,
    probe: Probe,
    value: Option<u64>,
    number: u64,
    now: u64,
    start: u64,
    since: u64,
    started: u128,
    written: Option<u128>,
    older: bool,
)
    requires
        call_ensures(http_request, (bind, port, path), asked),
        call_ensures(probe_result, (path, body, readable, stats), probe),
        call_ensures(number_or_zero, (value,), number),
        call_ensures(uptime, (now, start), since),
        call_ensures(started_before_binary, (started, written), older),
    ensures
        asked@ == "GET "@ + path@ + " HTTP/1.1\r\nHost: "@ + (bind@ + ":"@ + text::decimal(
            port as nat,
        )) + "\r\nConnection: close\r\n\r\n"@,
        readable <==> probe is Answered,
        !readable <==> probe is Failed,
        readable ==> probe->Answered_0 == stats,
        !readable ==> probe->Failed_0@ == "bad JSON from "@ + path@ + ": "@ + body@,
        value is Some ==> number == value->Some_0,
        value is None ==> number == 0,
        start + since == now || (now < start && since == 0),
        older <==> written is Some && started < written->Some_0,
{
}

} // verus!
