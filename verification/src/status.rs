//! The views of the state of the daemon, the broker and the MCP gateway.
//!
//! A view is a list of lines that say what is shown, not in which colours.  A value is a list of
//! pieces, where numbers and durations stand as such.

use crate::daemon_mgmt::DaemonStatus;
use crate::drive;
use crate::drive::DriveLetter;
use crate::text;
use crate::text::{cat2, cat3, cat4, cat5, join, push_line, same, show_u64};
use vstd::prelude::*;

verus! {

// ---- lines ----

/// How well a component is.
#[derive(Debug, Clone, Copy, PartialEq, Eq, Structural)]
pub enum Glyph {
    /// It works.
    Up,
    /// It is on its way.
    Warn,
    /// It does not work.
    Down,
    /// There is none.
    Off,
}

/// A piece of a value.
#[derive(Debug)]
pub enum Piece {
    /// A text.
    Text(String),
    /// A number, with its thousands set apart.
    Count(u64),
    /// A number with its thousands set apart, in twelve columns, to the right.
    CountRight(u64),
    /// A duration in seconds.
    Seconds(u64),
    /// A duration in milliseconds.
    Millis(u64),
    /// A duration in microseconds.
    Micros(u64),
    /// A duration in nanoseconds.
    Nanos(u128),
    /// A version, next to that of this program.
    Version(String),
}

/// The contents of a [`Piece`].
#[verifier::ext_equal]
pub enum PieceView {
    /// A text.
    Text(Seq<char>),
    /// A number.
    Count(u64),
    /// A number to the right.
    CountRight(u64),
    /// A duration in seconds.
    Seconds(u64),
    /// A duration in milliseconds.
    Millis(u64),
    /// A duration in microseconds.
    Micros(u64),
    /// A duration in nanoseconds.
    Nanos(u128),
    /// A version.
    Version(Seq<char>),
}

impl View for Piece {
    type V = PieceView;

    open spec fn view(&self) -> PieceView {
        match *self {
            Piece::Text(value) => PieceView::Text(value@),
            Piece::Count(value) => PieceView::Count(value),
            Piece::CountRight(value) => PieceView::CountRight(value),
            Piece::Seconds(value) => PieceView::Seconds(value),
            Piece::Millis(value) => PieceView::Millis(value),
            Piece::Micros(value) => PieceView::Micros(value),
            Piece::Nanos(value) => PieceView::Nanos(value),
            Piece::Version(value) => PieceView::Version(value@),
        }
    }
}

/// The contents of pieces.
pub open spec fn piece_views(pieces: Seq<Piece>) -> Seq<PieceView> {
    pieces.map_values(|piece: Piece| piece@)
}

/// A line of a view.
#[derive(Debug)]
pub enum StatusLine {
    /// The heading of a view.
    Header(&'static str),
    /// The heading of a section.
    Section(&'static str),
    /// An empty line.
    Blank,
    /// The state of a component.
    Row {
        /// How well it is.
        glyph: Glyph,
        /// Its state.
        state: String,
        /// What is known besides.
        detail: String,
        /// Whether it runs an executable that has been replaced since.
        stale: bool,
    },
    /// A value with its name.
    Field {
        /// Its name.
        label: &'static str,
        /// The value.
        value: Vec<Piece>,
        /// How many columns the name takes.
        width: usize,
    },
    /// A remark that does not stand out.
    Remark(String),
    /// A remark that stands out.
    Warning(&'static str),
    /// A failure in place of a value.
    Failure {
        /// The name of the value.
        label: &'static str,
        /// The failure.
        value: String,
        /// How many columns the name takes.
        width: usize,
    },
    /// A drive.
    Drive {
        /// How well it is.
        glyph: Glyph,
        /// The drive.
        letter: DriveLetter,
        /// What is known of it.
        detail: Vec<Piece>,
        /// Whether that does not stand out.
        dim: bool,
    },
}

/// The contents of a [`StatusLine`].
#[verifier::ext_equal]
pub enum LineView {
    /// The heading of a view.
    Header(Seq<char>),
    /// The heading of a section.
    Section(Seq<char>),
    /// An empty line.
    Blank,
    /// The state of a component: glyph, state, detail, stale.
    Row(Glyph, Seq<char>, Seq<char>, bool),
    /// A value with its name: name, value, columns.
    Field(Seq<char>, Seq<PieceView>, usize),
    /// A remark that does not stand out.
    Remark(Seq<char>),
    /// A remark that stands out.
    Warning(Seq<char>),
    /// A failure in place of a value: name, failure, columns.
    Failure(Seq<char>, Seq<char>, usize),
    /// A drive: glyph, letter, detail, dim.
    Drive(Glyph, DriveLetter, Seq<PieceView>, bool),
}

impl View for StatusLine {
    type V = LineView;

    open spec fn view(&self) -> LineView {
        match *self {
            StatusLine::Header(title) => LineView::Header(title@),
            StatusLine::Section(title) => LineView::Section(title@),
            StatusLine::Blank => LineView::Blank,
            StatusLine::Row { glyph, state, detail, stale } => LineView::Row(
                glyph,
                state@,
                detail@,
                stale,
            ),
            StatusLine::Field { label, value, width } => LineView::Field(
                label@,
                piece_views(value@),
                width,
            ),
            StatusLine::Remark(value) => LineView::Remark(value@),
            StatusLine::Warning(value) => LineView::Warning(value@),
            StatusLine::Failure { label, value, width } => LineView::Failure(
                label@,
                value@,
                width,
            ),
            StatusLine::Drive { glyph, letter, detail, dim } => LineView::Drive(
                glyph,
                letter,
                piece_views(detail@),
                dim,
            ),
        }
    }
}

/// The contents of lines.
pub open spec fn line_views(lines: Seq<StatusLine>) -> Seq<LineView> {
    lines.map_values(|line: StatusLine| line@)
}

pub(crate) fn push(out: &mut Vec<StatusLine>, line: StatusLine)
    ensures
        line_views(final(out)@) == line_views(old(out)@).push(line@),
{
    let ghost before = line_views(out@);
    out.push(line);
    assert(line_views(out@) =~= before.push(line@));
}

pub(crate) fn push_all(out: &mut Vec<StatusLine>, lines: Vec<StatusLine>)
    ensures
        line_views(final(out)@) == line_views(old(out)@) + line_views(lines@),
{
    let mut lines = lines;
    let ghost before = line_views(out@);
    let ghost more = line_views(lines@);
    out.append(&mut lines);
    assert(line_views(out@) =~= before + more);
}

pub(crate) fn no_lines() -> (res: Vec<StatusLine>)
    ensures
        line_views(res@) == Seq::<LineView>::empty(),
{
    let res: Vec<StatusLine> = Vec::new();
    assert(line_views(res@) =~= Seq::empty());
    res
}

/// The line of a text with its name.
pub open spec fn text_line(label: Seq<char>, value: Seq<char>, width: usize) -> LineView {
    LineView::Field(label, seq![PieceView::Text(value)], width)
}

pub(crate) fn push_text(out: &mut Vec<StatusLine>, label: &'static str, value: String, width: usize)
    ensures
        line_views(final(out)@) == line_views(old(out)@).push(text_line(label@, value@, width)),
{
    push_piece(out, label, Piece::Text(value), width);
}

pub(crate) fn push_piece(out: &mut Vec<StatusLine>, label: &'static str, piece: Piece, width: usize)
    ensures
        line_views(final(out)@) == line_views(old(out)@).push(
            LineView::Field(label@, seq![piece@], width),
        ),
{
    let mut value: Vec<Piece> = Vec::new();
    value.push(piece);
    assert(piece_views(value@) =~= seq![piece@]);
    push(out, StatusLine::Field { label, value, width });
}

pub(crate) fn push_pieces(out: &mut Vec<StatusLine>, label: &'static str, value: Vec<Piece>, width: usize)
    ensures
        line_views(final(out)@) == line_views(old(out)@).push(
            LineView::Field(label@, piece_views(value@), width),
        ),
{
    push(out, StatusLine::Field { label, value, width });
}

pub(crate) fn push_piece_to(value: &mut Vec<Piece>, piece: Piece)
    ensures
        piece_views(final(value)@) == piece_views(old(value)@).push(piece@),
{
    let ghost before = piece_views(value@);
    value.push(piece);
    assert(piece_views(value@) =~= before.push(piece@));
}

// ---- what the daemon says ----

/// Where a drive is kept.
#[derive(Debug, Clone, Copy, PartialEq, Eq, Structural)]
pub enum ShardTier {
    /// In memory and pinned.
    Hot,
    /// In memory.
    Warm,
    /// In part in memory.
    Parked,
    /// On disk only.
    Cold,
    /// On its way out.
    Evicting,
    /// Not known.
    Unknown,
}

/// A drive that is loaded.
#[derive(Debug)]
pub struct DriveInfo {
    /// The drive.
    pub letter: DriveLetter,
    /// How many records it has.
    pub records: u64,
    /// Where it is kept, if the daemon says so.
    pub tier: Option<ShardTier>,
    /// Where its records came from.
    pub source: String,
}

/// How much memory a drive takes, in bytes.
#[derive(Debug, Clone, Copy)]
pub struct DriveMemoryInfo {
    /// The drive.
    pub drive: DriveLetter,
    /// Everything.
    pub heap_bytes: u64,
    /// Its records.
    pub records_bytes: u64,
    /// Its names.
    pub names_bytes: u64,
    /// Its trigrams.
    pub trigram_bytes: u64,
    /// Its directories.
    pub children_bytes: u64,
    /// Its suffixes.
    pub ext_index_bytes: u64,
}

/// Where the daemon keeps what.
#[derive(Debug)]
pub struct DaemonPaths {
    /// Data.
    pub data_dir: String,
    /// The socket.
    pub socket: String,
    /// Logs.
    pub log_dir: String,
}

/// What the daemon says of itself.
#[derive(Debug)]
pub struct StatusResponse {
    /// What it is doing.
    pub status: DaemonStatus,
    /// Its process id.
    pub pid: u32,
    /// For how long it has run, in seconds.
    pub uptime_secs: u64,
    /// Its version.
    pub version: String,
    /// The commit it was built from; empty where that is not known.
    pub git_sha: String,
    /// Whether it has Administrator rights.
    pub elevated: bool,
    /// Whether it reads through the broker.
    pub reading_via_broker: bool,
    /// How many journals it follows, if it can.
    pub live_update: Option<u64>,
    /// The memory of the index, in bytes.
    pub index_heap_bytes: Option<u64>,
    /// The memory that the allocator holds, in bytes.
    pub mimalloc_committed_bytes: Option<u64>,
    /// The resident memory, in bytes.
    pub rss_bytes: Option<u64>,
    /// Where it keeps what.
    pub paths: Option<DaemonPaths>,
    /// How much memory each drive takes.
    pub drive_memory: Vec<DriveMemoryInfo>,
}

/// What the daemon has counted.  Fractions stand as they are shown.
#[derive(Debug)]
pub struct StatsResponse {
    /// How long it took to start, in milliseconds.
    pub startup_duration_ms: u64,
    /// How many records there are.
    pub total_records: u64,
    /// How many searches it has answered.
    pub total_queries: u64,
    /// How long they took on average, in microseconds.
    pub avg_query_time_us: u64,
    /// How long they took in all, in microseconds.
    pub total_query_time_us: u64,
    /// Searches in a second, with one decimal place.
    pub queries_per_second_short: String,
    /// Searches in a second, with two decimal places.
    pub queries_per_second: String,
    /// How often an aggregate was at hand.
    pub agg_cache_hits: u64,
    /// How often it was not.
    pub agg_cache_misses: u64,
    /// How many aggregates are at hand.
    pub agg_cache_entries: u64,
    /// How often it was, in percent, with one decimal place.
    pub hit_rate: String,
}

/// How many bytes a mebibyte has.
pub const MIB: u64 = 1048576;

/// Drives, each with a colon.
pub open spec fn colon_texts(drives: Seq<DriveLetter>) -> Seq<Seq<char>> {
    drives.map_values(|drive: DriveLetter| seq![drive.letter()] + ":"@)
}

/// How well a daemon is, and what it is doing.
pub open spec fn health_text(status: DaemonStatus) -> (Glyph, Seq<char>) {
    match status {
        DaemonStatus::Ready => (Glyph::Up, "running"@),
        DaemonStatus::Loading { drives_loaded, drives_total } => (
            Glyph::Warn,
            "loading ("@ + text::decimal(drives_loaded as nat) + "/"@ + text::decimal(
                drives_total as nat,
            ) + " drives)"@,
        ),
        DaemonStatus::Refreshing { drives } => (
            Glyph::Warn,
            "refreshing ("@ + text::joined(colon_texts(drives@), ", "@) + ")"@,
        ),
    }
}

/// How well a daemon is, and what it is doing.
pub fn health(status: &DaemonStatus) -> (res: (Glyph, String))
    ensures
        (res.0, res.1@) == health_text(*status),
{
    match status {
        DaemonStatus::Ready => (Glyph::Up, "running".to_owned()),
        DaemonStatus::Loading { drives_loaded, drives_total } => (
            Glyph::Warn,
            cat5(
                "loading (",
                &show_u64(*drives_loaded as u64),
                "/",
                &show_u64(*drives_total as u64),
                " drives)",
            ),
        ),
        DaemonStatus::Refreshing { drives } => {
            let ghost wanted = colon_texts(drives@);
            let mut list: Vec<String> = Vec::new();
            let mut i: usize = 0;
            assert(text::texts(list@) =~= wanted.take(0));
            while i < drives.len()
                invariant
                    i <= drives@.len(),
                    wanted == colon_texts(drives@),
                    text::texts(list@) == wanted.take(i as int),
                decreases drives@.len() - i,
            {
                push_line(&mut list, cat2(&drives[i].show(), ":"));
                assert(text::texts(list@) =~= wanted.take(i + 1));
                i += 1;
            }
            assert(wanted.take(i as int) =~= wanted);
            (Glyph::Warn, cat3("refreshing (", &join(&list, ", "), ")"))
        },
    }
}

/// How many records drives have.
pub open spec fn record_total(drives: Seq<DriveInfo>) -> nat
    decreases drives.len(),
{
    if drives.len() == 0 {
        0
    } else {
        record_total(drives.drop_last()) + drives.last().records as nat
    }
}

proof fn lemma_record_total(drives: Seq<DriveInfo>, k: int)
    requires
        0 <= k <= drives.len(),
    ensures
        record_total(drives.take(k)) <= record_total(drives),
    decreases drives.len(),
{
    if k == drives.len() {
        assert(drives.take(k) =~= drives);
    } else {
        assert(drives.drop_last().take(k) =~= drives.take(k));
        lemma_record_total(drives.drop_last(), k);
    }
}

pub(crate) fn total_records(drives: &Vec<DriveInfo>) -> (res: u64)
    requires
        record_total(drives@) <= u64::MAX,
    ensures
        res == record_total(drives@),
{
    let mut sum: u64 = 0;
    let mut i: usize = 0;
    assert(drives@.take(0) =~= Seq::empty());
    while i < drives.len()
        invariant
            i <= drives@.len(),
            record_total(drives@) <= u64::MAX,
            sum == record_total(drives@.take(i as int)),
        decreases drives@.len() - i,
    {
        proof {
            assert(drives@.take(i + 1).drop_last() =~= drives@.take(i as int));
            lemma_record_total(drives@, i + 1);
        }
        sum = sum + drives[i].records;
        i += 1;
    }
    assert(drives@.take(i as int) =~= drives@);
    sum
}

// ---- the view of the daemon ----

/// The line of the drives in the short view.
pub open spec fn drive_headline(drives: Seq<DriveInfo>, width: usize) -> LineView {
    if drives.len() == 0 {
        text_line("Drives"@, "(none loaded)"@, width)
    } else {
        LineView::Field(
            "Drives"@,
            seq![
                PieceView::Text(text::decimal(drives.len()) + " loaded \u{b7} "@),
                PieceView::Count(record_total(drives) as u64),
                PieceView::Text(" records"@),
            ],
            width,
        )
    }
}

/// The line of the searches in the short view.
pub open spec fn query_headline(perf: StatsResponse, width: usize) -> LineView {
    if perf.total_queries == 0 {
        text_line("Queries"@, "0"@, width)
    } else {
        LineView::Field(
            "Queries"@,
            seq![
                PieceView::Text(text::decimal(perf.total_queries as nat) + " (avg "@),
                PieceView::Micros(perf.avg_query_time_us),
                PieceView::Text(", "@ + perf.queries_per_second_short@ + "/s)"@),
            ],
            width,
        )
    }
}

/// The section of the build.
pub open spec fn build_block(status: StatusResponse) -> Seq<LineView> {
    seq![
        LineView::Section("Build"@),
        text_line(
            "Commit"@,
            if status.git_sha@.len() == 0 {
                "unknown"@
            } else {
                status.git_sha@
            },
            9,
        ),
        text_line(
            "Elevated"@,
            if status.elevated {
                "yes (direct elevated reads)"@
            } else if status.reading_via_broker {
                "no (reading via Access Broker, zero-UAC)"@
            } else {
                "no"@
            },
            9,
        ),
    ]
}

/// The section of the journals.
pub open spec fn live_update_block(status: StatusResponse) -> Seq<LineView> {
    seq![
        LineView::Section("Live update"@),
        text_line(
            "Journal"@,
            match status.live_update {
                Some(loops) => if loops > 0 {
                    text::decimal(loops as nat) + " journal loop(s) running"@
                } else {
                    "inactive (offline source or non-Windows)"@
                },
                None => "inactive (offline source or non-Windows)"@,
            },
            9,
        ),
    ]
}

/// An amount of memory in mebibytes, if it is known.
pub open spec fn memory_line(label: Seq<char>, bytes: Option<u64>, unit: Seq<char>) -> Seq<LineView> {
    match bytes {
        Some(bytes) => seq![text_line(label, text::decimal((bytes / MIB) as nat) + unit, 11)],
        None => Seq::empty(),
    }
}

/// The section of the memory; nothing where none is known.
pub open spec fn memory_block(status: StatusResponse) -> Seq<LineView> {
    if status.index_heap_bytes is None && status.mimalloc_committed_bytes is None
        && status.rss_bytes is None {
        Seq::empty()
    } else {
        seq![LineView::Section("Memory"@)] + memory_line(
            "Index heap"@,
            status.index_heap_bytes,
            " MB"@,
        ) + memory_line("Mimalloc"@, status.mimalloc_committed_bytes, " MB committed"@)
            + memory_line("RSS"@, status.rss_bytes, " MB"@)
    }
}

/// A path, if it is known.
pub open spec fn path_line(label: Seq<char>, path: Seq<char>) -> Seq<LineView> {
    if path.len() == 0 {
        Seq::empty()
    } else {
        seq![text_line(label, path, 8)]
    }
}

/// The section of the paths; nothing where none is known.
pub open spec fn paths_block(status: StatusResponse) -> Seq<LineView> {
    match status.paths {
        Some(paths) => seq![LineView::Section("Paths"@)] + path_line("Data"@, paths.data_dir@)
            + path_line("Socket"@, paths.socket@) + path_line("Logs"@, paths.log_dir@),
        None => Seq::empty(),
    }
}

/// The section of the performance.
pub open spec fn performance_block(perf: StatsResponse) -> Seq<LineView> {
    seq![
        LineView::Section("Performance"@),
        LineView::Field(
            "Startup duration"@,
            seq![PieceView::Millis(perf.startup_duration_ms)],
            17,
        ),
        LineView::Field("Total records"@, seq![PieceView::Count(perf.total_records)], 17),
        text_line("Queries served"@, text::decimal(perf.total_queries as nat), 17),
    ] + (if perf.total_queries > 0 {
        seq![
            LineView::Field(
                "Avg query time"@,
                seq![PieceView::Micros(perf.avg_query_time_us)],
                17,
            ),
            LineView::Field(
                "Total query time"@,
                seq![PieceView::Micros(perf.total_query_time_us)],
                17,
            ),
        ]
    } else {
        Seq::empty()
    }) + seq![
        text_line("Queries/second"@, perf.queries_per_second@, 17),
        text_line(
            "Agg cache"@,
            text::decimal(perf.agg_cache_hits as nat) + " hits / "@ + text::decimal(
                perf.agg_cache_misses as nat,
            ) + " misses ("@ + perf.hit_rate@ + ("% hit-rate, "@ + text::decimal(
                perf.agg_cache_entries as nat,
            ) + " entries)"@),
            17,
        ),
    ]
}

/// How well a drive is, by where it is kept.
pub open spec fn tier_health(tier: Option<ShardTier>) -> Glyph {
    match tier {
        None => Glyph::Up,
        Some(ShardTier::Hot) => Glyph::Up,
        Some(ShardTier::Warm) => Glyph::Up,
        Some(ShardTier::Parked) => Glyph::Warn,
        Some(ShardTier::Cold) => Glyph::Down,
        Some(ShardTier::Evicting) => Glyph::Down,
        Some(ShardTier::Unknown) => Glyph::Off,
    }
}

/// How well a drive is, by where it is kept.
pub fn tier_glyph(tier: Option<ShardTier>) -> (res: Glyph)
    ensures
        res == tier_health(tier),
{
    match tier {
        None => Glyph::Up,
        Some(ShardTier::Hot) => Glyph::Up,
        Some(ShardTier::Warm) => Glyph::Up,
        Some(ShardTier::Parked) => Glyph::Warn,
        Some(ShardTier::Cold) => Glyph::Down,
        Some(ShardTier::Evicting) => Glyph::Down,
        Some(ShardTier::Unknown) => Glyph::Off,
    }
}

/// The first entry of a drive.
pub open spec fn memory_of(memory: Seq<DriveMemoryInfo>, drive: DriveLetter, from: int) -> Option<
    DriveMemoryInfo,
>
    decreases memory.len() - from,
{
    if from < 0 || from >= memory.len() {
        None
    } else if memory[from].drive == drive {
        Some(memory[from])
    } else {
        memory_of(memory, drive, from + 1)
    }
}

fn find_memory(memory: &Vec<DriveMemoryInfo>, drive: DriveLetter) -> (res: Option<DriveMemoryInfo>)
    ensures
        res == memory_of(memory@, drive, 0),
{
    let mut i: usize = 0;
    while i < memory.len()
        invariant
            i <= memory@.len(),
            memory_of(memory@, drive, i as int) == memory_of(memory@, drive, 0),
        decreases memory@.len() - i,
    {
        if memory[i].drive == drive {
            return Some(memory[i]);
        }
        i += 1;
    }
    None
}

/// An amount of memory in mebibytes.
pub open spec fn mb(bytes: u64) -> Seq<char> {
    text::decimal((bytes / MIB) as nat)
}

/// What memory a drive takes.
pub open spec fn memory_text(memory: DriveMemoryInfo) -> Seq<char> {
    mb(memory.heap_bytes) + " MB  [rec="@ + mb(memory.records_bytes) + " names="@ + (mb(
        memory.names_bytes,
    ) + " tri="@ + mb(memory.trigram_bytes) + " ch="@ + (mb(memory.children_bytes) + " ext="@ + mb(
        memory.ext_index_bytes,
    ) + "]"@))
}

/// The line of a drive in the long view.
pub open spec fn drive_line(drive: DriveInfo, memory: Seq<DriveMemoryInfo>) -> LineView {
    let glyph = tier_health(drive.tier);
    match drive.tier {
        Some(ShardTier::Parked) => LineView::Drive(
            glyph,
            drive.letter,
            seq![PieceView::Text("bloom + trie resident; body released"@)],
            true,
        ),
        Some(ShardTier::Cold) => LineView::Drive(
            glyph,
            drive.letter,
            seq![PieceView::Text("encrypted cache only; nothing in RAM"@)],
            true,
        ),
        Some(ShardTier::Evicting) => LineView::Drive(
            glyph,
            drive.letter,
            seq![PieceView::Text("("@ + drive.source@ + ")"@)],
            false,
        ),
        Some(ShardTier::Unknown) => LineView::Drive(
            glyph,
            drive.letter,
            seq![PieceView::Text("("@ + drive.source@ + ")"@)],
            false,
        ),
        _ => LineView::Drive(
            glyph,
            drive.letter,
            seq![
                PieceView::CountRight(drive.records),
                PieceView::Text(
                    match memory_of(memory, drive.letter, 0) {
                        Some(found) => " records ("@ + drive.source@ + ") \u{b7} "@ + memory_text(
                            found,
                        ),
                        None => " records ("@ + drive.source@ + ")"@,
                    },
                ),
            ],
            false,
        ),
    }
}

/// The section of the drives in the long view.
pub open spec fn drive_block(drives: Seq<DriveInfo>, memory: Seq<DriveMemoryInfo>) -> Seq<LineView> {
    if drives.len() == 0 {
        seq![LineView::Section("Drives"@), LineView::Remark("(none loaded)"@)]
    } else {
        seq![LineView::Section("Drives"@)] + drives.map_values(
            |drive: DriveInfo| drive_line(drive, memory),
        )
    }
}

/// The detail of a running process.
pub open spec fn pid_text(pid: u32) -> Seq<char> {
    "PID "@ + text::decimal(pid as nat)
}

/// The view of a daemon that runs.
pub open spec fn daemon_view(
    verbose: bool,
    status: StatusResponse,
    drives: Seq<DriveInfo>,
    perf: Option<StatsResponse>,
    stale: bool,
) -> Seq<LineView> {
    let (glyph, state) = health_text(status.status);
    seq![
        LineView::Header("UFFS Daemon"@),
        LineView::Row(glyph, state, pid_text(status.pid), stale),
        LineView::Field("Version"@, seq![PieceView::Version(status.version@)], 11),
        LineView::Field("Uptime"@, seq![PieceView::Seconds(status.uptime_secs)], 11),
        drive_headline(drives, 11),
    ] + (match perf {
        Some(perf) => seq![query_headline(perf, 11)],
        None => Seq::empty(),
    }) + (if verbose {
        build_block(status) + live_update_block(status) + memory_block(status) + paths_block(status)
            + (match perf {
            Some(perf) => performance_block(perf),
            None => Seq::empty(),
        }) + drive_block(drives, status.drive_memory@)
    } else {
        Seq::empty()
    })
}

fn push_drive_headline(out: &mut Vec<StatusLine>, drives: &Vec<DriveInfo>, width: usize)
    requires
        record_total(drives@) <= u64::MAX,
    ensures
        line_views(final(out)@) == line_views(old(out)@).push(drive_headline(drives@, width)),
{
    if drives.len() == 0 {
        push_text(out, "Drives", "(none loaded)".to_owned(), width);
        return;
    }
    let mut value: Vec<Piece> = Vec::new();
    assert(piece_views(value@) =~= Seq::empty());
    push_piece_to(
        &mut value,
        Piece::Text(cat2(&show_u64(drives.len() as u64), " loaded \u{b7} ")),
    );
    push_piece_to(&mut value, Piece::Count(total_records(drives)));
    push_piece_to(&mut value, Piece::Text(" records".to_owned()));
    assert(piece_views(value@) =~= drive_headline(drives@, width)->Field_1);
    push_pieces(out, "Drives", value, width);
}

pub(crate) fn push_query_headline(out: &mut Vec<StatusLine>, perf: &StatsResponse, width: usize)
    ensures
        line_views(final(out)@) == line_views(old(out)@).push(query_headline(*perf, width)),
{
    if perf.total_queries == 0 {
        push_text(out, "Queries", "0".to_owned(), width);
        return;
    }
    let mut value: Vec<Piece> = Vec::new();
    assert(piece_views(value@) =~= Seq::empty());
    push_piece_to(&mut value, Piece::Text(cat2(&show_u64(perf.total_queries), " (avg ")));
    push_piece_to(&mut value, Piece::Micros(perf.avg_query_time_us));
    push_piece_to(&mut value, Piece::Text(cat3(", ", &perf.queries_per_second_short, "/s)")));
    assert(piece_views(value@) =~= query_headline(*perf, width)->Field_1);
    push_pieces(out, "Queries", value, width);
}

pub(crate) fn is_blank(value: &str) -> (res: bool)
    ensures
        res == (value@.len() == 0),
{
    proof {
        reveal_strlit("");
        assert(value@.len() == 0 ==> value@ =~= ""@);
    }
    same(value, "")
}

/// The section of the build: the commit, and how the daemon reads.
pub fn build_lines(status: &StatusResponse) -> (res: Vec<StatusLine>)
    ensures
        line_views(res@) == build_block(*status),
{
    let mut res = no_lines();
    push(&mut res, StatusLine::Section("Build"));
    let commit = if is_blank(&status.git_sha) {
        "unknown".to_owned()
    } else {
        status.git_sha.clone()
    };
    push_text(&mut res, "Commit", commit, 9);
    let mode = if status.elevated {
        "yes (direct elevated reads)"
    } else if status.reading_via_broker {
        "no (reading via Access Broker, zero-UAC)"
    } else {
        "no"
    };
    push_text(&mut res, "Elevated", mode.to_owned(), 9);
    assert(line_views(res@) =~= build_block(*status));
    res
}

/// The section of the journals.
pub fn live_update_lines(status: &StatusResponse) -> (res: Vec<StatusLine>)
    ensures
        line_views(res@) == live_update_block(*status),
{
    let mut res = no_lines();
    push(&mut res, StatusLine::Section("Live update"));
    let loops: u64 = match status.live_update {
        Some(loops) => loops,
        None => 0,
    };
    let value = if loops > 0 {
        cat2(&show_u64(loops), " journal loop(s) running")
    } else {
        "inactive (offline source or non-Windows)".to_owned()
    };
    push_text(&mut res, "Journal", value, 9);
    assert(line_views(res@) =~= live_update_block(*status));
    res
}

fn push_memory(out: &mut Vec<StatusLine>, label: &'static str, bytes: Option<u64>, unit: &str)
    ensures
        line_views(final(out)@) == line_views(old(out)@) + memory_line(label@, bytes, unit@),
{
    let ghost before = line_views(out@);
    if let Some(bytes) = bytes {
        push_text(out, label, cat2(&show_u64(bytes / MIB), unit), 11);
    }
    assert(line_views(out@) =~= before + memory_line(label@, bytes, unit@));
}

/// The section of the memory; nothing where none is known.
pub fn memory_lines(status: &StatusResponse) -> (res: Vec<StatusLine>)
    ensures
        line_views(res@) == memory_block(*status),
{
    let mut res = no_lines();
    if status.index_heap_bytes.is_none() && status.mimalloc_committed_bytes.is_none()
        && status.rss_bytes.is_none() {
        return res;
    }
    push(&mut res, StatusLine::Section("Memory"));
    push_memory(&mut res, "Index heap", status.index_heap_bytes, " MB");
    push_memory(&mut res, "Mimalloc", status.mimalloc_committed_bytes, " MB committed");
    push_memory(&mut res, "RSS", status.rss_bytes, " MB");
    assert(line_views(res@) =~= memory_block(*status));
    res
}

fn push_path(out: &mut Vec<StatusLine>, label: &'static str, path: &String)
    ensures
        line_views(final(out)@) == line_views(old(out)@) + path_line(label@, path@),
{
    let ghost before = line_views(out@);
    if !is_blank(path) {
        push_text(out, label, path.clone(), 8);
    }
    assert(line_views(out@) =~= before + path_line(label@, path@));
}

/// The section of the paths; nothing where none is known.
pub fn paths_lines(status: &StatusResponse) -> (res: Vec<StatusLine>)
    ensures
        line_views(res@) == paths_block(*status),
{
    let mut res = no_lines();
    if let Some(paths) = &status.paths {
        push(&mut res, StatusLine::Section("Paths"));
        push_path(&mut res, "Data", &paths.data_dir);
        push_path(&mut res, "Socket", &paths.socket);
        push_path(&mut res, "Logs", &paths.log_dir);
        assert(line_views(res@) =~= paths_block(*status));
    }
    res
}

/// The section of the performance.
pub fn performance_lines(perf: &StatsResponse) -> (res: Vec<StatusLine>)
    ensures
        line_views(res@) == performance_block(*perf),
{
    let mut res = no_lines();
    push(&mut res, StatusLine::Section("Performance"));
    push_piece(&mut res, "Startup duration", Piece::Millis(perf.startup_duration_ms), 17);
    push_piece(&mut res, "Total records", Piece::Count(perf.total_records), 17);
    push_text(&mut res, "Queries served", show_u64(perf.total_queries), 17);
    if perf.total_queries > 0 {
        push_piece(&mut res, "Avg query time", Piece::Micros(perf.avg_query_time_us), 17);
        push_piece(&mut res, "Total query time", Piece::Micros(perf.total_query_time_us), 17);
    }
    push_text(&mut res, "Queries/second", perf.queries_per_second.clone(), 17);
    let end = cat3("% hit-rate, ", &show_u64(perf.agg_cache_entries), " entries)");
    push_text(
        &mut res,
        "Agg cache",
        text::cat6(
            &show_u64(perf.agg_cache_hits),
            " hits / ",
            &show_u64(perf.agg_cache_misses),
            " misses (",
            &perf.hit_rate,
            &end,
        ),
        17,
    );
    assert(line_views(res@) =~= performance_block(*perf));
    res
}

fn show_mb(bytes: u64) -> (res: String)
    ensures
        res@ == mb(bytes),
{
    show_u64(bytes / MIB)
}

fn memory_detail(memory: &DriveMemoryInfo) -> (res: String)
    ensures
        res@ == memory_text(*memory),
{
    let end = cat4(&show_mb(memory.children_bytes), " ext=", &show_mb(memory.ext_index_bytes), "]");
    let middle = cat5(
        &show_mb(memory.names_bytes),
        " tri=",
        &show_mb(memory.trigram_bytes),
        " ch=",
        &end,
    );
    cat5(
        &show_mb(memory.heap_bytes),
        " MB  [rec=",
        &show_mb(memory.records_bytes),
        " names=",
        &middle,
    )
}

fn plain_drive(glyph: Glyph, letter: DriveLetter, detail: String, dim: bool) -> (res: StatusLine)
    ensures
        res@ == LineView::Drive(glyph, letter, seq![PieceView::Text(detail@)], dim),
{
    let mut pieces: Vec<Piece> = Vec::new();
    assert(piece_views(pieces@) =~= Seq::empty());
    push_piece_to(&mut pieces, Piece::Text(detail));
    assert(piece_views(pieces@) =~= seq![PieceView::Text(detail@)]);
    StatusLine::Drive { glyph, letter, detail: pieces, dim }
}

/// The line of a drive in the long view.
pub fn drive_status_line(drive: &DriveInfo, memory: &Vec<DriveMemoryInfo>) -> (res: StatusLine)
    ensures
        res@ == drive_line(*drive, memory@),
{
    let glyph = tier_glyph(drive.tier);
    let letter = drive.letter;
    match drive.tier {
        Some(ShardTier::Parked) => plain_drive(
            glyph,
            letter,
            "bloom + trie resident; body released".to_owned(),
            true,
        ),
        Some(ShardTier::Cold) => plain_drive(
            glyph,
            letter,
            "encrypted cache only; nothing in RAM".to_owned(),
            true,
        ),
        Some(ShardTier::Evicting) => plain_drive(
            glyph,
            letter,
            cat3("(", &drive.source, ")"),
            false,
        ),
        Some(ShardTier::Unknown) => plain_drive(
            glyph,
            letter,
            cat3("(", &drive.source, ")"),
            false,
        ),
        _ => {
            let rest = match find_memory(memory, letter) {
                Some(found) => cat4(
                    " records (",
                    &drive.source,
                    ") \u{b7} ",
                    &memory_detail(&found),
                ),
                None => cat3(" records (", &drive.source, ")"),
            };
            let mut detail: Vec<Piece> = Vec::new();
            assert(piece_views(detail@) =~= Seq::empty());
            push_piece_to(&mut detail, Piece::CountRight(drive.records));
            push_piece_to(&mut detail, Piece::Text(rest));
            let res = StatusLine::Drive { glyph, letter, detail, dim: false };
            assert(piece_views(detail@) =~= drive_line(*drive, memory@)->Drive_2);
            res
        },
    }
}

/// The section of the drives in the long view.
pub fn drive_detail_lines(drives: &Vec<DriveInfo>, memory: &Vec<DriveMemoryInfo>) -> (res: Vec<
    StatusLine,
>)
    ensures
        line_views(res@) == drive_block(drives@, memory@),
{
    let mut res = no_lines();
    push(&mut res, StatusLine::Section("Drives"));
    if drives.len() == 0 {
        push(&mut res, StatusLine::Remark("(none loaded)".to_owned()));
        assert(line_views(res@) =~= drive_block(drives@, memory@));
        return res;
    }
    let ghost wanted = drive_block(drives@, memory@);
    let mut i: usize = 0;
    assert(line_views(res@) =~= wanted.take(1));
    while i < drives.len()
        invariant
            i <= drives@.len(),
            drives@.len() > 0,
            wanted == drive_block(drives@, memory@),
            line_views(res@) == wanted.take(i + 1),
        decreases drives@.len() - i,
    {
        push(&mut res, drive_status_line(&drives[i], memory));
        proof {
            assert(wanted[i + 1] == drive_line(drives@[i as int], memory@));
            assert(line_views(res@) =~= wanted.take(i + 2));
        }
        i += 1;
    }
    assert(wanted.take(i + 1) =~= wanted);
    res
}

pub(crate) fn show_pid(pid: u32) -> (res: String)
    ensures
        res@ == pid_text(pid),
{
    cat2("PID ", &show_u64(pid as u64))
}

/// The view of a daemon that runs, short or long.
pub fn daemon_lines(
    verbose: bool,
    status: &StatusResponse,
    drives: &Vec<DriveInfo>,
    perf: &Option<StatsResponse>,
    stale: bool,
) -> (res: Vec<StatusLine>)
    requires
        record_total(drives@) <= u64::MAX,
    ensures
        line_views(res@) == daemon_view(verbose, *status, drives@, *perf, stale),
{
    let mut res = no_lines();
    push(&mut res, StatusLine::Header("UFFS Daemon"));
    let (glyph, state) = health(&status.status);
    push(&mut res, StatusLine::Row { glyph, state, detail: show_pid(status.pid), stale });
    push_piece(&mut res, "Version", Piece::Version(status.version.clone()), 11);
    push_piece(&mut res, "Uptime", Piece::Seconds(status.uptime_secs), 11);
    push_drive_headline(&mut res, drives, 11);
    if let Some(counters) = perf {
        push_query_headline(&mut res, counters, 11);
    }
    if verbose {
        push_all(&mut res, build_lines(status));
        push_all(&mut res, live_update_lines(status));
        push_all(&mut res, memory_lines(status));
        push_all(&mut res, paths_lines(status));
        if let Some(counters) = perf {
            push_all(&mut res, performance_lines(counters));
        }
        push_all(&mut res, drive_detail_lines(drives, &status.drive_memory));
    }
    assert(line_views(res@) =~= daemon_view(verbose, *status, drives@, *perf, stale));
    res
}

/// What a PID file tells of a daemon that does not answer.
#[derive(Debug)]
pub enum PidFileState {
    /// There is none.
    Absent,
    /// It names a process of the daemon that lives.
    Alive(u32),
    /// It names none; this is its path.
    Stale(String),
}

/// What is told of a PID file.
pub open spec fn pid_file_note(state: PidFileState) -> Option<Seq<char>> {
    match state {
        PidFileState::Absent => None,
        PidFileState::Alive(pid) => Some(
            "(daemon process is alive at PID "@ + text::decimal(pid as nat)
                + " but not answering on IPC \u{2014} it may still be loading, or it is wedged; run `uffs --daemon restart` to clear it)"@,
        ),
        PidFileState::Stale(path) => Some("(stale PID file at "@ + path@ + ")"@),
    }
}

/// The view of a daemon that does not answer.
pub open spec fn not_running_view(state: PidFileState) -> Seq<LineView> {
    seq![LineView::Row(Glyph::Down, "Daemon"@, "not running"@, false)] + match pid_file_note(
        state,
    ) {
        Some(note) => seq![LineView::Remark(note)],
        None => Seq::empty(),
    }
}

/// The view of a daemon that does not answer.
pub fn not_running_lines(state: &PidFileState) -> (res: Vec<StatusLine>)
    ensures
        line_views(res@) == not_running_view(*state),
{
    let mut res = no_lines();
    push(
        &mut res,
        StatusLine::Row {
            glyph: Glyph::Down,
            state: "Daemon".to_owned(),
            detail: "not running".to_owned(),
            stale: false,
        },
    );
    match state {
        PidFileState::Absent => {},
        PidFileState::Alive(pid) => push(
            &mut res,
            StatusLine::Remark(
                cat3(
                    "(daemon process is alive at PID ",
                    &show_u64(*pid as u64),
                    " but not answering on IPC \u{2014} it may still be loading, or it is wedged; run `uffs --daemon restart` to clear it)",
                ),
            ),
        ),
        PidFileState::Stale(path) => push(
            &mut res,
            StatusLine::Remark(cat3("(stale PID file at ", path, ")")),
        ),
    }
    assert(line_views(res@) =~= not_running_view(*state));
    res
}

/// The lines of a listing are as many as those that are shown.
proof fn lemma_lines(res: Seq<StatusLine>)
    ensures
        line_views(res).len() == res.len(),
        forall|i: int| 0 <= i < res.len() ==> #[trigger] line_views(res)[i] == res[i]@,
{
}

/// A daemon that is ready is up, and one that is busy warns and tells with what: how many of how many
/// drives are loaded, or which are refreshed.
pub proof fn law_what_is_told_of_the_health(status: &DaemonStatus, res: (Glyph, String))
    requires
        call_ensures(health, (status,), res),
    ensures
        res.0 == Glyph::Up <==> *status is Ready,
        res.0 == Glyph::Warn <==> !(*status is Ready),
        *status is Ready ==> res.1@ == "running"@,
        status matches DaemonStatus::Loading { drives_loaded, drives_total } ==> res.1@
            == "loading ("@ + text::decimal(*drives_loaded as nat) + "/"@ + text::decimal(
            *drives_total as nat,
        ) + " drives)"@,
        status matches DaemonStatus::Refreshing { drives } ==> res.1@ == "refreshing ("@
            + text::joined(
            drives@.map_values(|drive: DriveLetter| seq![drive.letter(), ':']),
            ", "@,
        ) + ")"@,
{
    if let DaemonStatus::Refreshing { drives } = *status {
        reveal_strlit(":");
        assert(":"@ =~= seq![':']);
        let wanted = drives@.map_values(|drive: DriveLetter| seq![drive.letter(), ':']);
        assert forall|i: int| 0 <= i < drives@.len() implies #[trigger] colon_texts(drives@)[i]
            == wanted[i] by {
            assert(colon_texts(drives@)[i] =~= wanted[i]);
        }
        assert(colon_texts(drives@) =~= wanted);
    }
}

/// A drive is shown by its tier: what is resident is up, what is parked warns, what is cold or on its
/// way out is down, and a tier that is not known is off.
pub proof fn law_the_sign_of_a_tier(tier: Option<ShardTier>, res: Glyph)
    requires
        call_ensures(tier_glyph, (tier,), res),
    ensures
        res == Glyph::Up <==> tier is None || tier == Some(ShardTier::Hot) || tier == Some(
            ShardTier::Warm,
        ),
        res == Glyph::Warn <==> tier == Some(ShardTier::Parked),
        res == Glyph::Down <==> tier == Some(ShardTier::Cold) || tier == Some(ShardTier::Evicting),
        res == Glyph::Off <==> tier == Some(ShardTier::Unknown),
{
}

/// The line of a drive names it, shows the sign of its tier, and is dim exactly where its body is not
/// resident; a resident drive tells its own records and the memory that is listed for it.
pub proof fn law_the_line_of_a_drive(
    drive: &DriveInfo,
    memory: &Vec<DriveMemoryInfo>,
    sign: Glyph,
    res: StatusLine,
    i: int,
)
    requires
        call_ensures(drive_status_line, (drive, memory), res),
        call_ensures(tier_glyph, (drive.tier,), sign),
        0 <= i <= memory@.len(),
        forall|j: int| 0 <= j < i ==> (#[trigger] memory@[j]).drive != drive.letter,
    ensures
        res@ is Drive && res@->Drive_0 == sign && res@->Drive_1 == drive.letter,
        res@->Drive_3 <==> drive.tier == Some(ShardTier::Parked) || drive.tier == Some(
            ShardTier::Cold,
        ),
        sign == Glyph::Up ==> res@->Drive_2.len() == 2 && res@->Drive_2[0] == PieceView::CountRight(
            drive.records,
        ),
        sign == Glyph::Up && i == memory@.len() ==> res@->Drive_2[1] == PieceView::Text(
            " records ("@ + drive.source@ + ")"@,
        ),
        sign == Glyph::Up && i < memory@.len() && memory@[i].drive == drive.letter
            ==> res@->Drive_2[1] == PieceView::Text(
            " records ("@ + drive.source@ + ") \u{b7} "@ + (text::decimal(
                (memory@[i].heap_bytes / 1048576) as nat,
            ) + " MB  [rec="@ + text::decimal((memory@[i].records_bytes / 1048576) as nat)
                + " names="@ + (text::decimal((memory@[i].names_bytes / 1048576) as nat) + " tri="@
                + text::decimal((memory@[i].trigram_bytes / 1048576) as nat) + " ch="@ + (
            text::decimal((memory@[i].children_bytes / 1048576) as nat) + " ext="@ + text::decimal(
                (memory@[i].ext_index_bytes / 1048576) as nat,
            ) + "]"@))),
        ),
        drive.tier == Some(ShardTier::Parked) ==> res@->Drive_2 == seq![
            PieceView::Text("bloom + trie resident; body released"@),
        ],
        drive.tier == Some(ShardTier::Cold) ==> res@->Drive_2 == seq![
            PieceView::Text("encrypted cache only; nothing in RAM"@),
        ],
        drive.tier == Some(ShardTier::Evicting) || drive.tier == Some(ShardTier::Unknown)
            ==> res@->Drive_2 == seq![PieceView::Text("("@ + drive.source@ + ")"@)],
{
    lemma_memory_skips(memory@, drive.letter, 0, i);
}

proof fn lemma_memory_skips(memory: Seq<DriveMemoryInfo>, drive: DriveLetter, from: int, to: int)
    requires
        0 <= from <= to <= memory.len(),
        forall|j: int| from <= j < to ==> (#[trigger] memory[j]).drive != drive,
    ensures
        memory_of(memory, drive, from) == memory_of(memory, drive, to),
    decreases to - from,
{
    if from < to {
        lemma_memory_skips(memory, drive, from + 1, to);
    }
}

/// Every drive has its line, in order, under one heading.
pub proof fn law_every_drive_has_its_line(
    drives: &Vec<DriveInfo>,
    memory: &Vec<DriveMemoryInfo>,
    res: Vec<StatusLine>,
    i: int,
    line: StatusLine,
)
    requires
        call_ensures(drive_detail_lines, (drives, memory), res),
        0 <= i < drives@.len(),
        call_ensures(drive_status_line, (&drives@[i], memory), line),
    ensures
        res@.len() == drives@.len() + 1,
        res@[0]@ == LineView::Section("Drives"@),
        res@[i + 1]@ == line@,
{
    lemma_lines(res@);
    assert(line_views(res@)[0] == res@[0]@);
    assert(line_views(res@)[i + 1] == res@[i + 1]@);
}

/// The total of the records is that of the drives, each counted once.
pub proof fn law_every_record_counts_once(drives: Seq<DriveInfo>, more: Seq<DriveInfo>)
    ensures
        record_total(drives + more) == record_total(drives) + record_total(more),
        drives.len() == 1 ==> record_total(drives) == drives[0].records,
    decreases more.len(),
{
    if more.len() == 0 {
        assert(drives + more =~= drives);
    } else {
        law_every_record_counts_once(drives, more.drop_last());
        assert((drives + more).drop_last() =~= drives + more.drop_last());
        assert((drives + more).last() == more.last());
    }
    if drives.len() == 1 {
        assert(record_total(drives.drop_last()) == 0);
    }
}

/// What is told of the build and of the journal: the commit where it is known, how the drives are
/// read, and how many loops run.
pub proof fn law_what_is_told_of_the_build(
    status: &StatusResponse,
    build: Vec<StatusLine>,
    live: Vec<StatusLine>,
)
    requires
        call_ensures(build_lines, (status,), build),
        call_ensures(live_update_lines, (status,), live),
    ensures
        build@.len() == 3 && live@.len() == 2,
        build@[0]@ == LineView::Section("Build"@),
        live@[0]@ == LineView::Section("Live update"@),
        status.git_sha@.len() > 0 ==> build@[1]@ == text_line("Commit"@, status.git_sha@, 9),
        status.git_sha@.len() == 0 ==> build@[1]@ == text_line("Commit"@, "unknown"@, 9),
        status.elevated ==> build@[2]@ == text_line(
            "Elevated"@,
            "yes (direct elevated reads)"@,
            9,
        ),
        !status.elevated && status.reading_via_broker ==> build@[2]@ == text_line(
            "Elevated"@,
            "no (reading via Access Broker, zero-UAC)"@,
            9,
        ),
        !status.elevated && !status.reading_via_broker ==> build@[2]@ == text_line(
            "Elevated"@,
            "no"@,
            9,
        ),
        status.live_update matches Some(loops) ==> (loops > 0 ==> live@[1]@ == text_line(
            "Journal"@,
            text::decimal(loops as nat) + " journal loop(s) running"@,
            9,
        )),
        status.live_update is None || status.live_update->Some_0 == 0 ==> live@[1]@ == text_line(
            "Journal"@,
            "inactive (offline source or non-Windows)"@,
            9,
        ),
{
    lemma_lines(build@);
    lemma_lines(live@);
    assert(line_views(build@)[0] == build@[0]@ && line_views(build@)[1] == build@[1]@
        && line_views(build@)[2] == build@[2]@);
    assert(line_views(live@)[0] == live@[0]@ && line_views(live@)[1] == live@[1]@);
}

/// Each amount of memory stands under its own label, in whole megabytes, and only where it is known;
/// with none of them there is no heading.
pub proof fn law_each_memory_has_its_label(
    status: &StatusResponse,
    res: Vec<StatusLine>,
    line: LineView,
)
    requires
        call_ensures(memory_lines, (status,), res),
    ensures
        ({
            let heap = if status.index_heap_bytes is Some {
                1int
            } else {
                0
            };
            let committed = if status.mimalloc_committed_bytes is Some {
                1int
            } else {
                0
            };
            let rss = if status.rss_bytes is Some {
                1int
            } else {
                0
            };
            let all = heap + committed + rss;
            &&& res@.len() == if all > 0 {
                all + 1
            } else {
                0
            }
            &&& all > 0 ==> res@[0]@ == LineView::Section("Memory"@)
            &&& heap == 1 ==> res@[1]@ == text_line(
                "Index heap"@,
                text::decimal((status.index_heap_bytes->Some_0 / 1048576) as nat) + " MB"@,
                11,
            )
            &&& committed == 1 ==> res@[1 + heap]@ == text_line(
                "Mimalloc"@,
                text::decimal((status.mimalloc_committed_bytes->Some_0 / 1048576) as nat)
                    + " MB committed"@,
                11,
            )
            &&& rss == 1 ==> res@[1 + heap + committed]@ == text_line(
                "RSS"@,
                text::decimal((status.rss_bytes->Some_0 / 1048576) as nat) + " MB"@,
                11,
            )
        }),
{
    lemma_lines(res@);
    let told = line_views(res@);
    let heap = if status.index_heap_bytes is Some {
        1int
    } else {
        0
    };
    let committed = if status.mimalloc_committed_bytes is Some {
        1int
    } else {
        0
    };
    if told.len() > 0 {
        assert(told[0] == res@[0]@);
    }
    if status.index_heap_bytes is Some {
        assert(told[1] == res@[1]@);
    }
    if status.mimalloc_committed_bytes is Some {
        assert(told[1 + heap] == res@[1 + heap]@);
    }
    if status.rss_bytes is Some {
        assert(told[1 + heap + committed] == res@[1 + heap + committed]@);
    }
}

/// Each path stands under its own label, and only where there is one.
pub proof fn law_each_path_has_its_label(status: &StatusResponse, res: Vec<StatusLine>)
    requires
        call_ensures(paths_lines, (status,), res),
    ensures
        status.paths is None ==> res@.len() == 0,
        status.paths matches Some(paths) ==> {
            let data = if paths.data_dir@.len() > 0 {
                1int
            } else {
                0
            };
            let socket = if paths.socket@.len() > 0 {
                1int
            } else {
                0
            };
            let log = if paths.log_dir@.len() > 0 {
                1int
            } else {
                0
            };
            &&& res@.len() == 1 + data + socket + log
            &&& res@[0]@ == LineView::Section("Paths"@)
            &&& data == 1 ==> res@[1]@ == text_line("Data"@, paths.data_dir@, 8)
            &&& socket == 1 ==> res@[1 + data]@ == text_line("Socket"@, paths.socket@, 8)
            &&& log == 1 ==> res@[1 + data + socket]@ == text_line("Logs"@, paths.log_dir@, 8)
        },
{
    lemma_lines(res@);
    let told = line_views(res@);
    if let Some(paths) = status.paths {
        let data = if paths.data_dir@.len() > 0 {
            1int
        } else {
            0
        };
        let socket = if paths.socket@.len() > 0 {
            1int
        } else {
            0
        };
        assert(told[0] == res@[0]@);
        if data == 1 {
            assert(told[1] == res@[1]@);
        }
        if socket == 1 {
            assert(told[1 + data] == res@[1 + data]@);
        }
        if paths.log_dir@.len() > 0 {
            assert(told[1 + data + socket] == res@[1 + data + socket]@);
        }
    }
}

/// What is told of the performance: each figure under its own label, and the times of queries only
/// where there were any.
pub proof fn law_each_figure_has_its_label(perf: &StatsResponse, res: Vec<StatusLine>)
    requires
        call_ensures(performance_lines, (perf,), res),
    ensures
        ({
            let times = if perf.total_queries > 0 {
                2int
            } else {
                0
            };
            &&& res@.len() == 6 + times
            &&& res@[0]@ == LineView::Section("Performance"@)
            &&& res@[1]@ == LineView::Field(
                "Startup duration"@,
                seq![PieceView::Millis(perf.startup_duration_ms)],
                17,
            )
            &&& res@[2]@ == LineView::Field(
                "Total records"@,
                seq![PieceView::Count(perf.total_records)],
                17,
            )
            &&& res@[3]@ == text_line(
                "Queries served"@,
                text::decimal(perf.total_queries as nat),
                17,
            )
            &&& perf.total_queries > 0 ==> res@[4]@ == LineView::Field(
                "Avg query time"@,
                seq![PieceView::Micros(perf.avg_query_time_us)],
                17,
            ) && res@[5]@ == LineView::Field(
                "Total query time"@,
                seq![PieceView::Micros(perf.total_query_time_us)],
                17,
            )
            &&& res@[4 + times]@ == text_line("Queries/second"@, perf.queries_per_second@, 17)
            &&& res@[5 + times]@ == text_line(
                "Agg cache"@,
                text::decimal(perf.agg_cache_hits as nat) + " hits / "@ + text::decimal(
                    perf.agg_cache_misses as nat,
                ) + " misses ("@ + perf.hit_rate@ + ("% hit-rate, "@ + text::decimal(
                    perf.agg_cache_entries as nat,
                ) + " entries)"@),
                17,
            )
        }),
{
    lemma_lines(res@);
    let told = line_views(res@);
    assert(told[0] == res@[0]@ && told[1] == res@[1]@ && told[2] == res@[2]@ && told[3]
        == res@[3]@);
    if perf.total_queries > 0 {
        assert(told[4] == res@[4]@ && told[5] == res@[5]@ && told[6] == res@[6]@ && told[7]
            == res@[7]@);
    } else {
        assert(told[4] == res@[4]@ && told[5] == res@[5]@);
    }
}

/// What is told of the daemon begins with its state, its process, its version, its time and its
/// drives, whether or not more is asked for; and what is asked for follows, each part in its order.
pub proof fn law_what_is_told_first_of_the_daemon(
    status: &StatusResponse,
    drives: &Vec<DriveInfo>,
    perf: &Option<StatsResponse>,
    stale: bool,
    res: Vec<StatusLine>,
    more: Vec<StatusLine>,
    state: (Glyph, String),
)
    requires
        record_total(drives@) <= u64::MAX,
        call_ensures(daemon_lines, (false, status, drives, perf, stale), res),
        call_ensures(daemon_lines, (true, status, drives, perf, stale), more),
        call_ensures(health, (&status.status,), state),
    ensures
        res@.len() == if *perf is Some {
            6nat
        } else {
            5
        },
        res@[0]@ == LineView::Header("UFFS Daemon"@),
        res@[1]@ == LineView::Row(
            state.0,
            state.1@,
            "PID "@ + text::decimal(status.pid as nat),
            stale,
        ),
        res@[2]@ == LineView::Field("Version"@, seq![PieceView::Version(status.version@)], 11),
        res@[3]@ == LineView::Field("Uptime"@, seq![PieceView::Seconds(status.uptime_secs)], 11),
        drives@.len() == 0 ==> res@[4]@ == text_line("Drives"@, "(none loaded)"@, 11),
        drives@.len() > 0 ==> res@[4]@ == LineView::Field(
            "Drives"@,
            seq![
                PieceView::Text(text::decimal(drives@.len()) + " loaded \u{b7} "@),
                PieceView::Count(record_total(drives@) as u64),
                PieceView::Text(" records"@),
            ],
            11,
        ),
        perf matches Some(perf) ==> (perf.total_queries == 0 ==> res@[5]@ == text_line(
            "Queries"@,
            "0"@,
            11,
        )),
        perf matches Some(perf) ==> (perf.total_queries > 0 ==> res@[5]@ == LineView::Field(
            "Queries"@,
            seq![
                PieceView::Text(text::decimal(perf.total_queries as nat) + " (avg "@),
                PieceView::Micros(perf.avg_query_time_us),
                PieceView::Text(", "@ + perf.queries_per_second_short@ + "/s)"@),
            ],
            11,
        )),
        more@.len() > res@.len(),
        line_views(more@).take(res@.len() as int) == line_views(res@),
{
    lemma_lines(res@);
    lemma_lines(more@);
    let told = line_views(res@);
    assert(told[0] == res@[0]@ && told[1] == res@[1]@ && told[2] == res@[2]@ && told[3] == res@[3]@
        && told[4] == res@[4]@);
    if *perf is Some {
        assert(told[5] == res@[5]@);
    }
    assert(line_views(more@).take(res@.len() as int) =~= told);
}

/// The parts that follow where more is asked for: the build, the journal, the memory, the paths, the
/// performance where it is known, and the drives.
pub proof fn law_what_more_is_told_of_the_daemon(
    status: &StatusResponse,
    drives: &Vec<DriveInfo>,
    perf: &Option<StatsResponse>,
    stale: bool,
    res: Vec<StatusLine>,
    more: Vec<StatusLine>,
    build: Vec<StatusLine>,
    live: Vec<StatusLine>,
    memory: Vec<StatusLine>,
    paths: Vec<StatusLine>,
    figures: Vec<StatusLine>,
    each: Vec<StatusLine>,
)
    requires
        record_total(drives@) <= u64::MAX,
        call_ensures(daemon_lines, (false, status, drives, perf, stale), res),
        call_ensures(daemon_lines, (true, status, drives, perf, stale), more),
        call_ensures(build_lines, (status,), build),
        call_ensures(live_update_lines, (status,), live),
        call_ensures(memory_lines, (status,), memory),
        call_ensures(paths_lines, (status,), paths),
        *perf is Some ==> call_ensures(performance_lines, (&perf->Some_0,), figures),
        *perf is None ==> figures@.len() == 0,
        call_ensures(drive_detail_lines, (drives, &status.drive_memory), each),
    ensures
        line_views(more@) == line_views(res@) + line_views(build@) + line_views(live@)
            + line_views(memory@) + line_views(paths@) + line_views(figures@) + line_views(each@),
{
    assert(*perf is None ==> line_views(figures@) =~= Seq::<LineView>::empty());
    assert(line_views(more@) =~= line_views(res@) + line_views(build@) + line_views(live@)
        + line_views(memory@) + line_views(paths@) + line_views(figures@) + line_views(each@));
}

/// A daemon that does not run is told as down, with what its file says of it.
pub proof fn law_a_daemon_that_does_not_run(state: &PidFileState, res: Vec<StatusLine>)
    requires
        call_ensures(not_running_lines, (state,), res),
    ensures
        res@.len() == if *state is Absent {
            1nat
        } else {
            2
        },
        res@[0]@ == LineView::Row(Glyph::Down, "Daemon"@, "not running"@, false),
        state matches PidFileState::Stale(path) ==> res@[1]@ == LineView::Remark(
            "(stale PID file at "@ + path@ + ")"@,
        ),
        state matches PidFileState::Alive(pid) ==> res@[1]@ == LineView::Remark(
            "(daemon process is alive at PID "@ + text::decimal(*pid as nat)
                + " but not answering on IPC \u{2014} it may still be loading, or it is wedged; run `uffs --daemon restart` to clear it)"@,
        ),
{
    lemma_lines(res@);
    assert(line_views(res@)[0] == res@[0]@);
    if !(*state is Absent) {
        assert(line_views(res@)[1] == res@[1]@);
    }
}

} // verus!
