//! Capturing the file table of a drive into a file.

use crate::args;
use crate::drive;
use crate::drive::{drive_argument, DriveLetter};
use crate::error;
use crate::error::{fail, CliError};
use crate::platform::Platform;
use crate::text;
use crate::text::{cat2, cat3, cat4, cat6, parse_i32, push_line, same, show_i64, show_u64};
use vstd::prelude::*;

verus! {

/// What a capture is asked for.
#[derive(Debug)]
pub struct SnapshotArgs {
    /// The drive.
    pub drive: DriveLetter,
    /// The file to write.
    pub out: String,
    /// Do not compress.
    pub no_compress: bool,
    /// Write no header.
    pub raw: bool,
    /// How hard to compress.
    pub compression_level: i32,
}

/// What has been read of the arguments.
#[verifier::ext_equal]
pub struct SnapshotView {
    /// The drive.
    pub drive: Option<DriveLetter>,
    /// The file to write.
    pub out: Option<Seq<char>>,
    /// Do not compress.
    pub no_compress: bool,
    /// Write no header.
    pub raw: bool,
    /// How hard to compress.
    pub compression_level: i32,
}

impl View for SnapshotArgs {
    type V = SnapshotView;

    open spec fn view(&self) -> SnapshotView {
        SnapshotView {
            drive: Some(self.drive),
            out: Some(self.out@),
            no_compress: self.no_compress,
            raw: self.raw,
            compression_level: self.compression_level,
        }
    }
}

/// The level that a text stands for, or the error it is answered with.
pub open spec fn level_of(value: Seq<char>) -> Result<i32, error::ErrorView> {
    match text::number(value, 0x8000_0000, i32::MAX as nat) {
        Ok(n) => Ok(n as i32),
        Err(err) => Err(
            error::ErrorView {
                message: "invalid --compression-level '"@ + value + "'"@,
                cause: Some(err.text()),
            },
        ),
    }
}

fn parse_level(value: &str) -> (res: Result<i32, CliError>)
    ensures
        match (res, level_of(value@)) {
            (Ok(level), Ok(wanted)) => level == wanted,
            (Err(err), Err(wanted)) => err@ == wanted,
            _ => false,
        },
{
    match parse_i32(value) {
        Ok(level) => Ok(level),
        Err(err) => Err(
            CliError {
                message: cat3("invalid --compression-level '", value, "'"),
                cause: Some(err.message().to_owned()),
            },
        ),
    }
}

/// What has been read once the arguments from `i` on have been.
pub open spec fn snapshot_from(acc: SnapshotView, args: Seq<Seq<char>>, i: int) -> Result<
    SnapshotView,
    error::ErrorView,
>
    decreases args.len() - i,
{
    if i < 0 || i >= args.len() {
        Ok(acc)
    } else if args[i] == "--drive"@ || args[i] == "-d"@ {
        if i + 1 >= args.len() {
            Err(error::plain("`--drive` requires a drive letter (e.g. C)"@))
        } else {
            match drive::drive_of(args[i + 1]) {
                Some(drive) => snapshot_from(
                    SnapshotView { drive: Some(drive), ..acc },
                    args,
                    i + 2,
                ),
                None => Err(drive::drive_error(args[i + 1])),
            }
        }
    } else if args[i] == "--out"@ || args[i] == "-o"@ {
        if i + 1 >= args.len() {
            Err(error::plain("`--out` requires a path"@))
        } else {
            snapshot_from(SnapshotView { out: Some(args[i + 1]), ..acc }, args, i + 2)
        }
    } else if args[i] == "--no-compress"@ {
        snapshot_from(SnapshotView { no_compress: true, ..acc }, args, i + 1)
    } else if args[i] == "--raw"@ {
        snapshot_from(SnapshotView { raw: true, ..acc }, args, i + 1)
    } else if args[i] == "--compression-level"@ {
        if i + 1 >= args.len() {
            Err(error::plain("`--compression-level` requires a number (1-22)"@))
        } else {
            match level_of(args[i + 1]) {
                Ok(level) => snapshot_from(
                    SnapshotView { compression_level: level, ..acc },
                    args,
                    i + 2,
                ),
                Err(err) => Err(err),
            }
        }
    } else {
        Err(
            error::plain(
                "unknown argument '"@ + args[i] + "'; see `uffs --snapshot --help`"@,
            ),
        )
    }
}

/// What is asked for before any argument.
pub open spec fn snapshot_default() -> SnapshotView {
    SnapshotView { drive: None, out: None, no_compress: false, raw: false, compression_level: 3 }
}

/// What arguments ask for.
pub open spec fn snapshot_args(args: Seq<Seq<char>>) -> Result<SnapshotView, error::ErrorView> {
    match snapshot_from(snapshot_default(), args, 0) {
        Ok(parsed) => if parsed.drive is None {
            Err(error::plain("missing `--drive <LETTER>` (which drive to capture)"@))
        } else if parsed.out is None {
            Err(error::plain("missing `--out <FILE>` (where to write the capture)"@))
        } else {
            Ok(parsed)
        },
        Err(err) => Err(err),
    }
}

/// Parse the arguments.
pub fn parse_snapshot_args(args: &[String]) -> (res: Result<SnapshotArgs, CliError>)
    ensures
        match (res, snapshot_args(text::texts(args@))) {
            (Ok(parsed), Ok(wanted)) => parsed@ == wanted,
            (Err(err), Err(wanted)) => err@ == wanted,
            _ => false,
        },
{
    let ghost list = text::texts(args@);
    let mut drive: Option<DriveLetter> = None;
    let mut out: Option<String> = None;
    let mut no_compress = false;
    let mut raw = false;
    let mut compression_level: i32 = 3;
    let mut i: usize = 0;
    while i < args.len()
        invariant
            i <= args@.len(),
            list == text::texts(args@),
            snapshot_from(
                SnapshotView { drive, out: error::shown(out), no_compress, raw, compression_level },
                list,
                i as int,
            ) == snapshot_from(snapshot_default(), list, 0),
        decreases args@.len() - i,
    {
        let arg = &args[i];
        assert(list[i as int] == arg@);
        if same(arg, "--drive") || same(arg, "-d") {
            if i + 1 >= args.len() {
                return Err(fail("`--drive` requires a drive letter (e.g. C)".to_owned()));
            }
            assert(list[i + 1] == args@[i + 1]@);
            match drive_argument(&args[i + 1]) {
                Ok(letter) => {
                    drive = Some(letter);
                },
                Err(err) => {
                    return Err(err);
                },
            }
            i += 2;
        } else if same(arg, "--out") || same(arg, "-o") {
            if i + 1 >= args.len() {
                return Err(fail("`--out` requires a path".to_owned()));
            }
            assert(list[i + 1] == args@[i + 1]@);
            out = Some(args[i + 1].clone());
            i += 2;
        } else if same(arg, "--no-compress") {
            no_compress = true;
            i += 1;
        } else if same(arg, "--raw") {
            raw = true;
            i += 1;
        } else if same(arg, "--compression-level") {
            if i + 1 >= args.len() {
                return Err(fail("`--compression-level` requires a number (1-22)".to_owned()));
            }
            assert(list[i + 1] == args@[i + 1]@);
            match parse_level(&args[i + 1]) {
                Ok(level) => {
                    compression_level = level;
                },
                Err(err) => {
                    return Err(err);
                },
            }
            i += 2;
        } else {
            return Err(
                fail(cat3("unknown argument '", arg, "'; see `uffs --snapshot --help`")),
            );
        }
    }
    match drive {
        None => Err(fail("missing `--drive <LETTER>` (which drive to capture)".to_owned())),
        Some(drive) => match out {
            None => Err(fail("missing `--out <FILE>` (where to write the capture)".to_owned())),
            Some(out) => Ok(SnapshotArgs { drive, out, no_compress, raw, compression_level }),
        },
    }
}

// ---- the capture ----

/// Whether a capture is compressed: unless it was forbidden, or there is no header to say so.
pub fn compresses(args: &SnapshotArgs) -> (res: bool)
    ensures
        res == (!args.no_compress && !args.raw),
{
    !args.no_compress && !args.raw
}

/// How a truth value is shown.
pub open spec fn bool_text(value: bool) -> Seq<char> {
    if value {
        "true"@
    } else {
        "false"@
    }
}

fn show_bool(value: bool) -> (res: &'static str)
    ensures
        res@ == bool_text(value),
{
    if value {
        "true"
    } else {
        "false"
    }
}

/// Why nothing can be captured off Windows.
pub open spec fn refusal_text(args: SnapshotView, drive: DriveLetter, out: Seq<char>) -> Seq<char> {
    "uffs --snapshot ("@ + seq![drive.letter()] + " -> "@ + out + ", no_compress="@ + (bool_text(
        args.no_compress,
    ) + ", raw="@ + bool_text(args.raw) + ", level="@ + text::signed_decimal(
        args.compression_level as int,
    )
        + ") reads the live NTFS MFT and requires Windows (elevated). On other platforms, diff two existing captures with `uffs --diff <BASELINE> --mft-file <CURRENT>` instead."@)
}

/// Why nothing can be captured on a platform, if so.
pub fn capture_refusal(platform: Platform, args: &SnapshotArgs) -> (res: Option<CliError>)
    ensures
        platform == Platform::Windows ==> res is None,
        platform != Platform::Windows ==> res is Some && res->Some_0@ == error::plain(
            refusal_text(args@, args.drive, args.out@),
        ),
{
    if platform == Platform::Windows {
        return None;
    }
    let flags = cat6(
        show_bool(args.no_compress),
        ", raw=",
        show_bool(args.raw),
        ", level=",
        &show_i64(args.compression_level as i64),
        ") reads the live NTFS MFT and requires Windows (elevated). On other platforms, diff two existing captures with `uffs --diff <BASELINE> --mft-file <CURRENT>` instead.",
    );
    Some(
        fail(
            cat6(
                "uffs --snapshot (",
                &args.drive.show(),
                " -> ",
                &args.out,
                ", no_compress=",
                &flags,
            ),
        ),
    )
}

/// What a capture does.
#[derive(Debug)]
pub enum SnapshotAction {
    /// Show the help.
    ShowHelp,
    /// Read the drive and write the capture.
    Capture(SnapshotArgs),
}

/// What arguments of a capture lead to: the help, wherever it is asked for, a capture, or an error.
pub fn run_snapshot(platform: Platform, args: &[String]) -> (res: Result<SnapshotAction, CliError>)
    ensures
        if args::any_of(args@, "--help"@, "-h"@) {
            res == Ok::<SnapshotAction, CliError>(SnapshotAction::ShowHelp)
        } else {
            match snapshot_args(text::texts(args@)) {
                Ok(wanted) => if platform == Platform::Windows {
                    res matches Ok(SnapshotAction::Capture(parsed)) && parsed@ == wanted
                } else {
                    res matches Err(err) && err@ == error::plain(
                        refusal_text(wanted, wanted.drive->Some_0, wanted.out->Some_0),
                    )
                },
                Err(wanted) => res matches Err(err) && err@ == wanted,
            }
        },
{
    if text::has(args, "--help") || text::has(args, "-h") {
        return Ok(SnapshotAction::ShowHelp);
    }
    match parse_snapshot_args(args) {
        Ok(parsed) => match capture_refusal(platform, &parsed) {
            Some(err) => Err(err),
            None => Ok(SnapshotAction::Capture(parsed)),
        },
        Err(err) => Err(err),
    }
}

/// What is told when a drive cannot be read.
pub fn open_failure(drive: DriveLetter) -> (res: String)
    ensures
        res@ == "failed to open drive "@ + seq![drive.letter()] + ": (needs Administrator)"@,
{
    cat3("failed to open drive ", &drive.show(), ": (needs Administrator)")
}

/// What is told when a capture cannot be written.
pub fn write_failure(out: &str) -> (res: String)
    ensures
        res@ == "failed to write snapshot to "@ + out@,
{
    cat2("failed to write snapshot to ", out)
}

/// What is told after a capture.
pub open spec fn captured_text(drive: DriveLetter, out: Seq<char>, raw: bool, records: nat) -> Seq<
    Seq<char>,
> {
    seq![
        "Saved MFT snapshot of "@ + seq![drive.letter()] + ": -> "@ + out + " ("@ + (text::decimal(
            records,
        ) + " records)"@),
        if raw {
            "  Format: raw (headerless) \u{2014} NOT loadable by `uffs --diff`; drop --raw for that."@
        } else {
            "  Diff it later with:  uffs --diff "@ + out + " --drive "@ + seq![drive.letter()]
        },
    ]
}

/// What is told after a capture.
pub fn captured_lines(args: &SnapshotArgs, records: u64) -> (res: Vec<String>)
    ensures
        text::texts(res@) == captured_text(args.drive, args.out@, args.raw, records as nat),
{
    let mut res: Vec<String> = Vec::new();
    assert(text::texts(res@) =~= Seq::empty());
    push_line(
        &mut res,
        cat6(
            "Saved MFT snapshot of ",
            &args.drive.show(),
            ": -> ",
            &args.out,
            " (",
            &cat2(&show_u64(records), " records)"),
        ),
    );
    if args.raw {
        push_line(
            &mut res,
            "  Format: raw (headerless) \u{2014} NOT loadable by `uffs --diff`; drop --raw for that.".to_owned(),
        );
    } else {
        push_line(
            &mut res,
            cat4("  Diff it later with:  uffs --diff ", &args.out, " --drive ", &args.drive.show()),
        );
    }
    assert(text::texts(res@) =~= captured_text(args.drive, args.out@, args.raw, records as nat));
    res
}

// ---- laws of the arguments ----

proof fn lemma_option_words()
    ensures
        "--drive"@.len() == 7,
        "-d"@.len() == 2,
        "--out"@.len() == 5,
        "-o"@.len() == 2,
        "--compression-level"@.len() == 19,
        "--no-compress"@.len() == 13,
        "--raw"@.len() == 5,
        "-d"@ != "-o"@,
        "--out"@ != "--raw"@,
{
    reveal_strlit("--drive");
    reveal_strlit("-d");
    reveal_strlit("--out");
    reveal_strlit("-o");
    reveal_strlit("--compression-level");
    reveal_strlit("--no-compress");
    reveal_strlit("--raw");
    assert("-d"@[1] != "-o"@[1]);
    assert("--out"@[2] != "--raw"@[2]);
}

proof fn lemma_shift(acc: SnapshotView, head: Seq<Seq<char>>, tail: Seq<Seq<char>>, i: int)
    requires
        0 <= i,
    ensures
        snapshot_from(acc, head + tail, head.len() + i) == snapshot_from(acc, tail, i),
    decreases tail.len() - i,
{
    let args = head + tail;
    let n = head.len() as int;
    if i < tail.len() {
        assert(args[n + i] == tail[i]);
        if i + 1 < tail.len() {
            let v = tail[i + 1];
            assert(args[n + i + 1] == v);
            if let Some(found) = drive::drive_of(v) {
                lemma_shift(SnapshotView { drive: Some(found), ..acc }, head, tail, i + 2);
            }
            lemma_shift(SnapshotView { out: Some(v), ..acc }, head, tail, i + 2);
            if let Ok(found) = level_of(v) {
                lemma_shift(SnapshotView { compression_level: found, ..acc }, head, tail, i + 2);
            }
        }
        lemma_shift(SnapshotView { no_compress: true, ..acc }, head, tail, i + 1);
        lemma_shift(SnapshotView { raw: true, ..acc }, head, tail, i + 1);
    }
}

proof fn lemma_merge(acc: SnapshotView, args: Seq<Seq<char>>, i: int)
    requires
        0 <= i,
    ensures
        match (snapshot_from(acc, args, i), snapshot_from(snapshot_default(), args, i)) {
            (Ok(w), Ok(l)) => {
                &&& w.drive == (if l.drive is Some { l.drive } else { acc.drive })
                &&& w.out == (if l.out is Some { l.out } else { acc.out })
                &&& w.no_compress == (acc.no_compress || l.no_compress)
                &&& w.raw == (acc.raw || l.raw)
                &&& w.compression_level == l.compression_level || w.compression_level == acc.compression_level
                &&& acc.compression_level == 3 ==> w.compression_level == l.compression_level
                &&& l.compression_level != 3 ==> w.compression_level == l.compression_level
                &&& (forall|k: int| i <= k < args.len() ==> #[trigger] args[k] != "--compression-level"@) ==> w.compression_level == acc.compression_level
            },
            (Err(one), Err(other)) => one == other,
            _ => false,
        },
    decreases args.len() - i,
{
    lemma_option_words();
    let base = snapshot_default();
    if i < args.len() {
        if i + 1 < args.len() {
            let v = args[i + 1];
            if let Some(found) = drive::drive_of(v) {
                lemma_merge(SnapshotView { drive: Some(found), ..acc }, args, i + 2);
            }
            lemma_merge(SnapshotView { out: Some(v), ..acc }, args, i + 2);
            if let Ok(found) = level_of(v) {
                lemma_merge(SnapshotView { compression_level: found, ..acc }, args, i + 2);
            }
            if let Some(found) = drive::drive_of(v) {
                lemma_merge(SnapshotView { drive: Some(found), ..base }, args, i + 2);
            }
            lemma_merge(SnapshotView { out: Some(v), ..base }, args, i + 2);
            if let Ok(found) = level_of(v) {
                lemma_merge(SnapshotView { compression_level: found, ..base }, args, i + 2);
            }
            if let Ok(found) = level_of(v) {
                lemma_same_compression_level(SnapshotView { compression_level: found, ..acc }, SnapshotView { compression_level: found, ..base }, args, i + 2);
            }
        }
        lemma_merge(SnapshotView { no_compress: true, ..acc }, args, i + 1);
        lemma_merge(SnapshotView { raw: true, ..acc }, args, i + 1);
        lemma_merge(SnapshotView { no_compress: true, ..base }, args, i + 1);
        lemma_merge(SnapshotView { raw: true, ..base }, args, i + 1);
    }
}

proof fn lemma_same_compression_level(one: SnapshotView, other: SnapshotView, args: Seq<Seq<char>>, i: int)
    requires
        0 <= i,
        one.compression_level == other.compression_level,
    ensures
        match (snapshot_from(one, args, i), snapshot_from(other, args, i)) {
            (Ok(a), Ok(b)) => a.compression_level == b.compression_level,
            (Err(a), Err(b)) => a == b,
            _ => false,
        },
    decreases args.len() - i,
{
    if i < args.len() {
        if i + 1 < args.len() {
            let v = args[i + 1];
            if let Some(found) = drive::drive_of(v) {
                lemma_same_compression_level(SnapshotView { drive: Some(found), ..one }, SnapshotView { drive: Some(found), ..other }, args, i + 2);
            }
            lemma_same_compression_level(SnapshotView { out: Some(v), ..one }, SnapshotView { out: Some(v), ..other }, args, i + 2);
            if let Ok(found) = level_of(v) {
                lemma_same_compression_level(SnapshotView { compression_level: found, ..one }, SnapshotView { compression_level: found, ..other }, args, i + 2);
            }
        }
        lemma_same_compression_level(SnapshotView { no_compress: true, ..one }, SnapshotView { no_compress: true, ..other }, args, i + 1);
        lemma_same_compression_level(SnapshotView { raw: true, ..one }, SnapshotView { raw: true, ..other }, args, i + 1);
    }
}

/// An option before other arguments of a capture that are accepted sets what it names, where these
/// do not set it again, and nothing else; it is refused where its value is.
pub proof fn law_options_set_what_they_name(
    option: Seq<char>,
    value: Seq<char>,
    n: i32,
    tail: &[String],
    rest: &[String],
    one: Result<SnapshotArgs, CliError>,
    both: Result<SnapshotArgs, CliError>,
)
    requires
        call_ensures(parse_snapshot_args, (tail,), one),
        call_ensures(parse_snapshot_args, (rest,), both),
        text::texts(rest@) == seq![option, value] + text::texts(tail@),
        option == "--drive"@ || option == "-d"@ || option == "--out"@ || option == "-o"@ || option == "--compression-level"@,
        one is Ok,
    ensures
        both is Ok <==> ((option == "--drive"@ || option == "-d"@) ==> drive::drive_of(value) is Some) && ((option == "--compression-level"@) ==> level_of(value) is Ok),
        both is Ok ==> {
            let a = one->Ok_0@;
            let b = both->Ok_0@;
            &&& b.drive == (if (option == "--drive"@ || option == "-d"@) && a.drive is None { drive::drive_of(value) } else { a.drive })
            &&& b.out == (if (option == "--out"@ || option == "-o"@) && a.out is None { Some(value) } else { a.out })
            &&& b.no_compress == a.no_compress
            &&& b.raw == a.raw
            &&& !(option == "--compression-level"@) ==> b.compression_level == a.compression_level
            &&& (option == "--compression-level"@) && value == text::signed_decimal(n as int) && (forall|k: int| 0 <= k < tail@.len() ==> #[trigger] tail@[k]@ != "--compression-level"@) ==> b.compression_level == n
        },
{
    lemma_option_words();
    let base = snapshot_default();
    let more = text::texts(tail@);
    let args = text::texts(rest@);
    assert(args[0] == option && args[1] == value);
    let acc = if (option == "--drive"@ || option == "-d"@) {
        SnapshotView { drive: drive::drive_of(value), ..base }
    } else if (option == "--out"@ || option == "-o"@) {
        SnapshotView { out: Some(value), ..base }
    } else {
        SnapshotView { compression_level: level_of(value)->Ok_0, ..base }
    };
    lemma_shift(acc, seq![option, value], more, 0);
    lemma_merge(acc, more, 0);
    if value == text::signed_decimal(n as int) {
        if n < 0 {
            text::lemma_digits((-(n as int)) as nat, 0x8000_0000, i32::MAX as nat, true);
            assert(value.drop_first() =~= text::decimal((-(n as int)) as nat));
        } else {
            text::lemma_digits(n as nat, 0x8000_0000, i32::MAX as nat, false);
            assert(text::is_digit(value[0]));
        }
    }
    assert forall|k: int| 0 <= k < more.len() && (forall|q: int| 0 <= q < tail@.len() ==> #[trigger] tail@[q]@ != "--compression-level"@) implies #[trigger] more[k] != "--compression-level"@ by {
        assert(more[k] == tail@[k]@);
    }
}

/// A flag before other arguments of a capture that are accepted sets what it names and nothing else; what
/// is no option at all is refused.
pub proof fn law_flags_set_what_they_name(
    word: Seq<char>,
    tail: &[String],
    rest: &[String],
    one: Result<SnapshotArgs, CliError>,
    both: Result<SnapshotArgs, CliError>,
)
    requires
        call_ensures(parse_snapshot_args, (tail,), one),
        call_ensures(parse_snapshot_args, (rest,), both),
        text::texts(rest@) == seq![word] + text::texts(tail@),
        one is Ok,
    ensures
        word == "--no-compress"@ ==> (both matches Ok(b) && b@ == (SnapshotView { no_compress: true, ..one->Ok_0@ })),
        word == "--raw"@ ==> (both matches Ok(b) && b@ == (SnapshotView { raw: true, ..one->Ok_0@ })),
        word != "--drive"@ && word != "-d"@ && word != "--out"@ && word != "-o"@ && word != "--compression-level"@ && word != "--no-compress"@ && word != "--raw"@ ==> both is Err,
        tail@.len() > 0,
{
    lemma_option_words();
    let base = snapshot_default();
    let more = text::texts(tail@);
    let args = text::texts(rest@);
    assert(args[0] == word);
    assert(args.len() == more.len() + 1);
    lemma_shift(SnapshotView { no_compress: true, ..base }, seq![word], more, 0);
    lemma_merge(SnapshotView { no_compress: true, ..base }, more, 0);
    lemma_shift(SnapshotView { raw: true, ..base }, seq![word], more, 0);
    lemma_merge(SnapshotView { raw: true, ..base }, more, 0);
}

/// A drive and a file, in either order, are what a capture needs: it is compressed then, at the
/// usual level, and has a header; neither alone is enough.
pub proof fn law_drive_and_file_are_needed(
    value: Seq<char>,
    path: Seq<char>,
    args: &[String],
    res: Result<SnapshotArgs, CliError>,
)
    requires
        call_ensures(parse_snapshot_args, (args,), res),
        drive::drive_of(value) is Some,
    ensures
        ({
            let list = text::texts(args@);
            &&& list == seq!["--drive"@, value, "--out"@, path] || list == seq![
                "--out"@,
                path,
                "--drive"@,
                value,
            ] ==> (res matches Ok(parsed) && parsed@ == (SnapshotView {
                drive: drive::drive_of(value),
                out: Some(path),
                no_compress: false,
                raw: false,
                compression_level: 3,
            }))
            &&& list == seq!["--drive"@, value] || list == seq!["--out"@, path] || list.len() == 0
                ==> res is Err
        }),
{
    lemma_option_words();
    reveal_with_fuel(snapshot_from, 4);
}

/// A capture is compressed exactly where neither of the flags that forbid it was given.
pub proof fn law_either_flag_forbids_compression(args: &SnapshotArgs, res: bool)
    requires
        call_ensures(compresses, (args,), res),
    ensures
        res <==> !(args.no_compress || args.raw),
{
}

/// The help is shown wherever it is asked for among the arguments.  Else a capture that the arguments
/// ask for is made on Windows and refused elsewhere, and arguments that ask for none are refused.
pub proof fn law_help_comes_first(
    platform: Platform,
    args: &[String],
    res: Result<SnapshotAction, CliError>,
    parsed: Result<SnapshotArgs, CliError>,
    i: int,
)
    requires
        call_ensures(run_snapshot, (platform, args), res),
        call_ensures(parse_snapshot_args, (args,), parsed),
    ensures
        0 <= i < args@.len() && (args@[i]@ == "--help"@ || args@[i]@ == "-h"@) ==> (res matches Ok(
            action,
        ) && action is ShowHelp),
        (forall|k: int|
            0 <= k < args@.len() ==> #[trigger] args@[k]@ != "--help"@ && args@[k]@ != "-h"@) ==> {
            &&& res is Ok <==> parsed is Ok && platform == Platform::Windows
            &&& res matches Ok(action) ==> action is Capture && action->Capture_0@
                == parsed->Ok_0@
            &&& parsed is Err ==> res is Err && res->Err_0@ == parsed->Err_0@
        },
{
}

/// After a capture its drive, its file and its records are told; a comparison with that file and
/// that drive is proposed exactly where the file has a header.
pub proof fn law_a_capture_can_be_compared(args: &SnapshotArgs, records: u64, res: Vec<String>)
    requires
        call_ensures(captured_lines, (args, records), res),
    ensures
        res@.len() == 2,
        res@[0]@ == "Saved MFT snapshot of "@ + seq![args.drive.letter()] + ": -> "@ + args.out@
            + " ("@ + (text::decimal(records as nat) + " records)"@),
        !args.raw ==> res@[1]@ == "  Diff it later with:  uffs --diff "@ + args.out@ + " --drive "@
            + seq![args.drive.letter()],
        args.raw ==> res@[1]@
            == "  Format: raw (headerless) \u{2014} NOT loadable by `uffs --diff`; drop --raw for that."@,
{
    assert(res@.len() == text::texts(res@).len());
    assert(text::texts(res@)[0] == res@[0]@);
    assert(text::texts(res@)[1] == res@[1]@);
}

} // verus!
