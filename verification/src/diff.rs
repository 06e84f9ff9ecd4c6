//! The comparison of a drive with an earlier capture of it.

use crate::args;
use crate::deleted;
use crate::deleted::{human_bytes, parse_limit};
use crate::drive;
use crate::drive::{drive_argument, DriveLetter};
use crate::error;
use crate::error::{fail, CliError};
use crate::text;
use crate::text::{cat2, cat3, cat5, cat6, push_line, push_lines, same, show_u64, starts_with};
use vstd::prelude::*;

verus! {

/// What a comparison is asked for.
#[derive(Debug)]
pub struct DiffArgs {
    /// The earlier capture.
    pub baseline: String,
    /// The drive.
    pub drive: DriveLetter,
    /// How many entries of each class to list at most; zero for all.
    pub limit: u32,
    /// Whether the listing is JSON.
    pub json: bool,
}

/// What has been read of the arguments.
#[verifier::ext_equal]
pub struct DiffView {
    /// The earlier capture.
    pub baseline: Option<Seq<char>>,
    /// The drive.
    pub drive: Option<DriveLetter>,
    /// How many entries of each class to list at most.
    pub limit: u32,
    /// Whether the listing is JSON.
    pub json: bool,
}

impl View for DiffArgs {
    type V = DiffView;

    open spec fn view(&self) -> DiffView {
        DiffView {
            baseline: Some(self.baseline@),
            drive: Some(self.drive),
            limit: self.limit,
            json: self.json,
        }
    }
}

/// What has been read once the arguments from `i` on have been.
pub open spec fn diff_from(acc: DiffView, args: Seq<Seq<char>>, i: int) -> Result<
    DiffView,
    error::ErrorView,
>
    decreases args.len() - i,
{
    if i < 0 || i >= args.len() {
        Ok(acc)
    } else if args[i] == "--drive"@ || args[i] == "-d"@ {
        if i + 1 >= args.len() {
            Err(error::plain("`--drive` requires a drive letter (e.g. C)"@))
        } else {
            match drive::drive_of(args[i + 1]) {
                Some(drive) => diff_from(DiffView { drive: Some(drive), ..acc }, args, i + 2),
                None => Err(drive::drive_error(args[i + 1])),
            }
        }
    } else if args[i] == "--limit"@ || args[i] == "-n"@ {
        if i + 1 >= args.len() {
            Err(error::plain("`--limit` requires a number"@))
        } else {
            match deleted::limit_of(args[i + 1]) {
                Ok(limit) => diff_from(DiffView { limit, ..acc }, args, i + 2),
                Err(err) => Err(err),
            }
        }
    } else if args[i] == "--json"@ {
        diff_from(DiffView { json: true, ..acc }, args, i + 1)
    } else if text::begins(args[i], "-"@) {
        Err(error::plain("unknown flag '"@ + args[i] + "'; see `uffs --diff --help`"@))
    } else if acc.baseline is Some {
        Err(
            error::plain(
                "only one baseline path may be given; got a second: '"@ + args[i] + "'"@,
            ),
        )
    } else {
        diff_from(DiffView { baseline: Some(args[i]), ..acc }, args, i + 1)
    }
}

/// What is asked for before any argument.
pub open spec fn diff_default() -> DiffView {
    DiffView { baseline: None, drive: None, limit: 0, json: false }
}

/// What arguments ask for.
pub open spec fn diff_args(args: Seq<Seq<char>>) -> Result<DiffView, error::ErrorView> {
    match diff_from(diff_default(), args, 0) {
        Ok(parsed) => if parsed.baseline is None {
            Err(
                error::plain(
                    "missing baseline snapshot path; usage: uffs --diff <BASELINE> --drive <D>"@,
                ),
            )
        } else if parsed.drive is None {
            Err(
                error::plain(
                    "missing `--drive <LETTER>`; the diff needs to know which drive"@,
                ),
            )
        } else {
            Ok(parsed)
        },
        Err(err) => Err(err),
    }
}

/// Parse the arguments.
pub fn parse_diff_args(args: &[String]) -> (res: Result<DiffArgs, CliError>)
    ensures
        match (res, diff_args(text::texts(args@))) {
            (Ok(parsed), Ok(wanted)) => parsed@ == wanted,
            (Err(err), Err(wanted)) => err@ == wanted,
            _ => false,
        },
{
    let ghost list = text::texts(args@);
    let mut baseline: Option<String> = None;
    let mut drive: Option<DriveLetter> = None;
    let mut limit: u32 = 0;
    let mut json = false;
    let mut i: usize = 0;
    while i < args.len()
        invariant
            i <= args@.len(),
            list == text::texts(args@),
            diff_from(
                DiffView { baseline: error::shown(baseline), drive, limit, json },
                list,
                i as int,
            ) == diff_from(diff_default(), list, 0),
        decreases args@.len() - i,
    {
        let arg = &args[i];
        assert(list[i as int] == arg@);
        if same(arg, "--drive") || same(arg, "-d") {
            if i + 1 >= args.len() {
                return Err(fail("`--drive` requires a drive letter (e.g. C)".to_owned()));
            }
            assert(list[i + 1] == args@[i + 1]@);
            match drive_argument(&args[i + 1]) {
                Ok(letter) => {
                    drive = Some(letter);
                },
                Err(err) => {
                    return Err(err);
                },
            }
            i += 2;
        } else if same(arg, "--limit") || same(arg, "-n") {
            if i + 1 >= args.len() {
                return Err(fail("`--limit` requires a number".to_owned()));
            }
            assert(list[i + 1] == args@[i + 1]@);
            match parse_limit(&args[i + 1]) {
                Ok(count) => {
                    limit = count;
                },
                Err(err) => {
                    return Err(err);
                },
            }
            i += 2;
        } else if same(arg, "--json") {
            json = true;
            i += 1;
        } else if starts_with(arg, "-") {
            return Err(fail(cat3("unknown flag '", arg, "'; see `uffs --diff --help`")));
        } else if baseline.is_some() {
            return Err(
                fail(cat3("only one baseline path may be given; got a second: '", arg, "'")),
            );
        } else {
            baseline = Some(arg.clone());
            i += 1;
        }
    }
    match baseline {
        None => Err(
            fail(
                "missing baseline snapshot path; usage: uffs --diff <BASELINE> --drive <D>".to_owned(),
            ),
        ),
        Some(baseline) => match drive {
            None => Err(
                fail("missing `--drive <LETTER>`; the diff needs to know which drive".to_owned()),
            ),
            Some(drive) => Ok(DiffArgs { baseline, drive, limit, json }),
        },
    }
}

/// What a comparison does.
#[derive(Debug)]
pub enum DiffAction {
    /// Show the help.
    ShowHelp,
    /// Ask the daemon for what differs.
    Compare(DiffArgs),
}

/// What arguments of a comparison lead to: the help, wherever it is asked for, a comparison, or an
/// error.
pub fn run_diff(args: &[String]) -> (res: Result<DiffAction, CliError>)
    ensures
        if args::any_of(args@, "--help"@, "-h"@) {
            res == Ok::<DiffAction, CliError>(DiffAction::ShowHelp)
        } else {
            match diff_args(text::texts(args@)) {
                Ok(wanted) => res matches Ok(DiffAction::Compare(parsed)) && parsed@ == wanted,
                Err(wanted) => res matches Err(err) && err@ == wanted,
            }
        },
{
    if text::has(args, "--help") || text::has(args, "-h") {
        return Ok(DiffAction::ShowHelp);
    }
    match parse_diff_args(args) {
        Ok(parsed) => Ok(DiffAction::Compare(parsed)),
        Err(err) => Err(err),
    }
}

// ---- the listing ----

/// A file that differs.
#[derive(Debug)]
pub struct DiffEntry {
    /// Its path.
    pub path: String,
    /// Its size in bytes.
    pub size: u64,
}

/// What differs between a drive and an earlier capture of it.
#[derive(Debug)]
pub struct DiffResult {
    /// Files that are gone.
    pub deleted: Vec<DiffEntry>,
    /// Files that are new.
    pub added: Vec<DiffEntry>,
    /// Files that changed.
    pub modified: Vec<DiffEntry>,
    /// Whether a limit cut a list short.
    pub truncated: bool,
}

/// The line of an entry.
pub open spec fn entry_text(entry: DiffEntry, with_size: bool) -> Seq<char> {
    if with_size {
        "  "@ + entry.path@ + "  ("@ + deleted::human(entry.size as nat) + ")"@
    } else {
        "  "@ + entry.path@
    }
}

/// A class of entries; nothing where it is empty.
pub open spec fn section_text(label: Seq<char>, entries: Seq<DiffEntry>, with_size: bool) -> Seq<
    Seq<char>,
> {
    if entries.len() == 0 {
        Seq::empty()
    } else {
        seq!["\n"@ + label + ":"@] + entries.map_values(
            |entry: DiffEntry| entry_text(entry, with_size),
        )
    }
}

fn section_lines(label: &str, entries: &Vec<DiffEntry>, with_size: bool) -> (res: Vec<String>)
    ensures
        text::texts(res@) == section_text(label@, entries@, with_size),
{
    let mut res: Vec<String> = Vec::new();
    assert(text::texts(res@) =~= Seq::empty());
    if entries.len() == 0 {
        return res;
    }
    let ghost wanted = section_text(label@, entries@, with_size);
    push_line(&mut res, cat3("\n", label, ":"));
    let mut i: usize = 0;
    assert(text::texts(res@) =~= wanted.take(1));
    while i < entries.len()
        invariant
            i <= entries@.len(),
            entries@.len() > 0,
            wanted == section_text(label@, entries@, with_size),
            text::texts(res@) == wanted.take(i + 1),
        decreases entries@.len() - i,
    {
        let entry = &entries[i];
        if with_size {
            push_line(&mut res, cat5("  ", &entry.path, "  (", &human_bytes(entry.size), ")"));
        } else {
            push_line(&mut res, cat2("  ", &entry.path));
        }
        proof {
            assert(wanted[i + 1] == entry_text(*entry, with_size));
            assert(text::texts(res@) =~= wanted.take(i + 2));
        }
        i += 1;
    }
    assert(wanted.take(i + 1) =~= wanted);
    res
}

/// The listing of what differs: the counts, then the classes, what is gone with sizes.
pub open spec fn diff_text(drive: DriveLetter, baseline: Seq<char>, result: DiffResult) -> Seq<
    Seq<char>,
> {
    seq![
        "Diff of drive "@ + seq![drive.letter()] + " vs baseline "@ + baseline + ":"@,
        "  deleted "@ + text::decimal(result.deleted@.len()) + ", added "@ + text::decimal(
            result.added@.len(),
        ) + ", modified "@ + (text::decimal(result.modified@.len()) + if result.truncated {
            " (truncated \u{2014} pass a larger --limit for the full list)"@
        } else {
            ""@
        }),
    ] + section_text("Deleted"@, result.deleted@, true) + section_text(
        "Added"@,
        result.added@,
        false,
    ) + section_text("Modified"@, result.modified@, false)
}

/// The listing of what differs.
pub fn diff_lines(drive: DriveLetter, baseline: &str, result: &DiffResult) -> (res: Vec<String>)
    ensures
        text::texts(res@) == diff_text(drive, baseline@, *result),
{
    let mut res: Vec<String> = Vec::new();
    assert(text::texts(res@) =~= Seq::empty());
    push_line(
        &mut res,
        cat5("Diff of drive ", &drive.show(), " vs baseline ", baseline, ":"),
    );
    let end = if result.truncated {
        " (truncated \u{2014} pass a larger --limit for the full list)"
    } else {
        ""
    };
    push_line(
        &mut res,
        cat6(
            "  deleted ",
            &show_u64(result.deleted.len() as u64),
            ", added ",
            &show_u64(result.added.len() as u64),
            ", modified ",
            &cat2(&show_u64(result.modified.len() as u64), end),
        ),
    );
    push_lines(&mut res, section_lines("Deleted", &result.deleted, true));
    push_lines(&mut res, section_lines("Added", &result.added, false));
    push_lines(&mut res, section_lines("Modified", &result.modified, false));
    assert(text::texts(res@) =~= diff_text(drive, baseline@, *result));
    res
}

/// What is told when the daemon could not compare.
pub const RPC_FAILURE: &'static str = "diff RPC failed";

/// What is told when the daemon cannot be reached.
pub fn daemon_not_running(err: &str) -> (res: CliError)
    ensures
        res@ == error::plain("Daemon is not running: "@ + err@),
{
    fail(cat2("Daemon is not running: ", err))
}

// ---- laws ----

/// How many lines a class of entries takes: a heading and one for each entry, or none.
pub open spec fn section_len(entries: Seq<DiffEntry>) -> int {
    if entries.len() == 0 {
        0
    } else {
        entries.len() as int + 1
    }
}

/// The listing holds three classes, in this order: what is gone, what is new, what changed.  A class
/// that is empty leaves no line; any other one has its own heading, and behind it one line for each
/// of its own entries, in order and with its path, and nothing else.
pub proof fn law_each_class_lists_its_own(
    drive: DriveLetter,
    baseline: &str,
    result: &DiffResult,
    res: Vec<String>,
    k: int,
)
    requires
        call_ensures(diff_lines, (drive, baseline, result), res),
    ensures
        ({
            let (gone, new, changed) = (result.deleted@, result.added@, result.modified@);
            let added = 2 + section_len(gone);
            let modified = added + section_len(new);
            &&& res@.len() == modified + section_len(changed)
            &&& gone.len() > 0 ==> res@[2]@ == "\nDeleted:"@
            &&& new.len() > 0 ==> res@[added]@ == "\nAdded:"@
            &&& changed.len() > 0 ==> res@[modified]@ == "\nModified:"@
            &&& 0 <= k < gone.len() ==> text::begins(res@[3 + k]@, "  "@ + gone[k].path@ + "  ("@)
            &&& 0 <= k < new.len() ==> res@[added + 1 + k]@ == "  "@ + new[k].path@
            &&& 0 <= k < changed.len() ==> res@[modified + 1 + k]@ == "  "@ + changed[k].path@
        }),
{
    let (gone, new, changed) = (result.deleted@, result.added@, result.modified@);
    let added = 2 + section_len(gone);
    let modified = added + section_len(new);
    let lines = diff_text(drive, baseline@, *result);
    assert(res@.len() == text::texts(res@).len());
    assert(forall|i: int| 0 <= i < res@.len() ==> #[trigger] text::texts(res@)[i] == res@[i]@);
    reveal_strlit("\n");
    reveal_strlit(":");
    reveal_strlit("Deleted");
    reveal_strlit("Added");
    reveal_strlit("Modified");
    reveal_strlit("\nDeleted:");
    reveal_strlit("\nAdded:");
    reveal_strlit("\nModified:");
    assert("\n"@ + "Deleted"@ + ":"@ =~= "\nDeleted:"@);
    assert("\n"@ + "Added"@ + ":"@ =~= "\nAdded:"@);
    assert("\n"@ + "Modified"@ + ":"@ =~= "\nModified:"@);
    if gone.len() > 0 {
        assert(lines[2] == section_text("Deleted"@, gone, true)[0]);
    }
    if 0 <= k < gone.len() {
        let line = entry_text(gone[k], true);
        let head = "  "@ + gone[k].path@ + "  ("@;
        assert(lines[3 + k] == section_text("Deleted"@, gone, true)[k + 1]);
        assert(lines[3 + k] == line);
        assert(line.subrange(0, head.len() as int) =~= head);
    }
    if new.len() > 0 {
        assert(lines[added] == section_text("Added"@, new, false)[0]);
    }
    if 0 <= k < new.len() {
        assert(lines[added + 1 + k] == section_text("Added"@, new, false)[k + 1]);
    }
    if changed.len() > 0 {
        assert(lines[modified] == section_text("Modified"@, changed, false)[0]);
    }
    if 0 <= k < changed.len() {
        assert(lines[modified + 1 + k] == section_text("Modified"@, changed, false)[k + 1]);
    }
}

/// The listing begins with the drive and the capture, and with how many entries of each class there
/// are; that a limit cut a list short is told exactly where it did.
pub proof fn law_the_listing_counts(
    drive: DriveLetter,
    baseline: &str,
    result: &DiffResult,
    res: Vec<String>,
)
    requires
        call_ensures(diff_lines, (drive, baseline, result), res),
    ensures
        res@.len() >= 2,
        res@[0]@ == "Diff of drive "@ + seq![drive.letter()] + " vs baseline "@ + baseline@ + ":"@,
        ({
            let counts = "  deleted "@ + text::decimal(result.deleted@.len()) + ", added "@
                + text::decimal(result.added@.len()) + ", modified "@ + text::decimal(
                result.modified@.len(),
            );
            if result.truncated {
                res@[1]@ == counts
                    + " (truncated \u{2014} pass a larger --limit for the full list)"@
            } else {
                res@[1]@ == counts
            }
        }),
{
    let lines = diff_text(drive, baseline@, *result);
    assert(res@.len() == text::texts(res@).len());
    assert(text::texts(res@)[0] == res@[0]@);
    assert(text::texts(res@)[1] == res@[1]@);
    reveal_strlit("");
    let counts = "  deleted "@ + text::decimal(result.deleted@.len()) + ", added "@
        + text::decimal(result.added@.len()) + ", modified "@ + text::decimal(
        result.modified@.len(),
    );
    if result.truncated {
        assert(lines[1] =~= counts
            + " (truncated \u{2014} pass a larger --limit for the full list)"@);
    } else {
        assert(lines[1] =~= counts);
    }
}

// ---- laws of the arguments ----

proof fn lemma_option_words()
    ensures
        "--drive"@.len() == 7,
        "-d"@.len() == 2,
        "--limit"@.len() == 7,
        "-n"@.len() == 2,
        "--json"@.len() == 6,
        "--drive"@ != "--limit"@,
        "-d"@ != "-n"@,
{
    reveal_strlit("--drive");
    reveal_strlit("-d");
    reveal_strlit("--limit");
    reveal_strlit("-n");
    reveal_strlit("--json");
    assert("--drive"@[2] != "--limit"@[2]);
    assert("-d"@[1] != "-n"@[1]);
}

proof fn lemma_shift(acc: DiffView, head: Seq<Seq<char>>, tail: Seq<Seq<char>>, i: int)
    requires
        0 <= i,
    ensures
        diff_from(acc, head + tail, head.len() + i) == diff_from(acc, tail, i),
    decreases tail.len() - i,
{
    let args = head + tail;
    let n = head.len() as int;
    if i < tail.len() {
        assert(args[n + i] == tail[i]);
        if i + 1 < tail.len() {
            let v = tail[i + 1];
            assert(args[n + i + 1] == v);
            if let Some(found) = drive::drive_of(v) {
                lemma_shift(DiffView { drive: Some(found), ..acc }, head, tail, i + 2);
            }
            if let Ok(found) = deleted::limit_of(v) {
                lemma_shift(DiffView { limit: found, ..acc }, head, tail, i + 2);
            }
        }
        lemma_shift(DiffView { json: true, ..acc }, head, tail, i + 1);
        lemma_shift(DiffView { baseline: Some(tail[i]), ..acc }, head, tail, i + 1);
    }
}

proof fn lemma_merge(acc: DiffView, args: Seq<Seq<char>>, i: int)
    requires
        0 <= i,
    ensures
        match (diff_from(acc, args, i), diff_from(DiffView { baseline: acc.baseline, ..diff_default() }, args, i)) {
            (Ok(w), Ok(l)) => {
                &&& w.baseline == l.baseline
                &&& w.drive == (if l.drive is Some { l.drive } else { acc.drive })
                &&& w.json == (acc.json || l.json)
                &&& w.limit == l.limit || w.limit == acc.limit
                &&& acc.limit == 0 ==> w.limit == l.limit
                &&& l.limit != 0 ==> w.limit == l.limit
                &&& (forall|k: int| i <= k < args.len() ==> #[trigger] args[k] != "--limit"@ && args[k] != "-n"@) ==> w.limit == acc.limit
            },
            (Err(one), Err(other)) => one == other,
            _ => false,
        },
    decreases args.len() - i,
{
    lemma_option_words();
    let base = DiffView { baseline: acc.baseline, ..diff_default() };
    if i < args.len() {
        if i + 1 < args.len() {
            let v = args[i + 1];
            if let Some(found) = drive::drive_of(v) {
                lemma_merge(DiffView { drive: Some(found), ..acc }, args, i + 2);
            }
            if let Ok(found) = deleted::limit_of(v) {
                lemma_merge(DiffView { limit: found, ..acc }, args, i + 2);
            }
            if let Some(found) = drive::drive_of(v) {
                lemma_merge(DiffView { drive: Some(found), ..base }, args, i + 2);
            }
            if let Ok(found) = deleted::limit_of(v) {
                lemma_merge(DiffView { limit: found, ..base }, args, i + 2);
            }
            if let Ok(found) = deleted::limit_of(v) {
                lemma_same_limit(DiffView { limit: found, ..acc }, DiffView { limit: found, ..base }, args, i + 2);
            }
        }
        lemma_merge(DiffView { json: true, ..acc }, args, i + 1);
        lemma_merge(DiffView { baseline: Some(args[i]), ..acc }, args, i + 1);
        lemma_merge(DiffView { json: true, ..base }, args, i + 1);
    }
}

proof fn lemma_same_limit(one: DiffView, other: DiffView, args: Seq<Seq<char>>, i: int)
    requires
        0 <= i,
        one.limit == other.limit,
        one.baseline is Some <==> other.baseline is Some,
    ensures
        match (diff_from(one, args, i), diff_from(other, args, i)) {
            (Ok(a), Ok(b)) => a.limit == b.limit,
            (Err(a), Err(b)) => a == b,
            _ => false,
        },
    decreases args.len() - i,
{
    if i < args.len() {
        if i + 1 < args.len() {
            let v = args[i + 1];
            if let Some(found) = drive::drive_of(v) {
                lemma_same_limit(DiffView { drive: Some(found), ..one }, DiffView { drive: Some(found), ..other }, args, i + 2);
            }
            if let Ok(found) = deleted::limit_of(v) {
                lemma_same_limit(DiffView { limit: found, ..one }, DiffView { limit: found, ..other }, args, i + 2);
            }
        }
        lemma_same_limit(DiffView { json: true, ..one }, DiffView { json: true, ..other }, args, i + 1);
        lemma_same_limit(DiffView { baseline: Some(args[i]), ..one }, DiffView { baseline: Some(args[i]), ..other }, args, i + 1);
    }
}

/// An option before other arguments of a comparison that are accepted sets what it names, where these
/// do not set it again, and nothing else; it is refused where its value is.
pub proof fn law_options_set_what_they_name(
    option: Seq<char>,
    value: Seq<char>,
    n: u32,
    tail: &[String],
    rest: &[String],
    one: Result<DiffArgs, CliError>,
    both: Result<DiffArgs, CliError>,
)
    requires
        call_ensures(parse_diff_args, (tail,), one),
        call_ensures(parse_diff_args, (rest,), both),
        text::texts(rest@) == seq![option, value] + text::texts(tail@),
        option == "--drive"@ || option == "-d"@ || option == "--limit"@ || option == "-n"@,
        one is Ok,
    ensures
        both is Ok <==> ((option == "--drive"@ || option == "-d"@) ==> drive::drive_of(value) is Some) && ((option == "--limit"@ || option == "-n"@) ==> deleted::limit_of(value) is Ok),
        both is Ok ==> {
            let a = one->Ok_0@;
            let b = both->Ok_0@;
            &&& b.baseline == a.baseline
            &&& b.drive == (if (option == "--drive"@ || option == "-d"@) && a.drive is None { drive::drive_of(value) } else { a.drive })
            &&& b.json == a.json
            &&& !(option == "--limit"@ || option == "-n"@) ==> b.limit == a.limit
            &&& (option == "--limit"@ || option == "-n"@) && value == text::decimal(n as nat) && (forall|k: int| 0 <= k < tail@.len() ==> #[trigger] tail@[k]@ != "--limit"@ && tail@[k]@ != "-n"@) ==> b.limit == n
        },
{
    lemma_option_words();
    let base = diff_default();
    let more = text::texts(tail@);
    let args = text::texts(rest@);
    assert(args[0] == option && args[1] == value);
    let acc = if (option == "--drive"@ || option == "-d"@) {
        DiffView { drive: drive::drive_of(value), ..base }
    } else {
        DiffView { limit: deleted::limit_of(value)->Ok_0, ..base }
    };
    lemma_shift(acc, seq![option, value], more, 0);
    lemma_merge(acc, more, 0);
    if value == text::decimal(n as nat) {
        text::lemma_digits(n as nat, 0, u32::MAX as nat, false);
        assert(text::is_digit(value[0]));
    }
    assert forall|k: int| 0 <= k < more.len() && (forall|q: int| 0 <= q < tail@.len() ==> #[trigger] tail@[q]@ != "--limit"@ && tail@[q]@ != "-n"@) implies #[trigger] more[k] != "--limit"@ && more[k] != "-n"@ by {
        assert(more[k] == tail@[k]@);
    }
}

proof fn lemma_second_capture(one: DiffView, other: DiffView, args: Seq<Seq<char>>, i: int)
    requires
        0 <= i,
        one.baseline is Some,
        other.baseline is None,
        diff_from(other, args, i) matches Ok(read) && read.baseline is Some,
    ensures
        diff_from(one, args, i) is Err,
    decreases args.len() - i,
{
    if i < args.len() {
        if args[i] == "--drive"@ || args[i] == "-d"@ {
            let drive = drive::drive_of(args[i + 1]);
            lemma_second_capture(
                DiffView { drive, ..one },
                DiffView { drive, ..other },
                args,
                i + 2,
            );
        } else if args[i] == "--limit"@ || args[i] == "-n"@ {
            let limit = deleted::limit_of(args[i + 1])->Ok_0;
            lemma_second_capture(
                DiffView { limit, ..one },
                DiffView { limit, ..other },
                args,
                i + 2,
            );
        } else if args[i] == "--json"@ {
            lemma_second_capture(
                DiffView { json: true, ..one },
                DiffView { json: true, ..other },
                args,
                i + 1,
            );
        }
    }
}

/// A flag before other arguments of a comparison that are accepted sets what it names and nothing else; what
/// is no option at all is refused.
pub proof fn law_flags_set_what_they_name(
    word: Seq<char>,
    tail: &[String],
    rest: &[String],
    one: Result<DiffArgs, CliError>,
    both: Result<DiffArgs, CliError>,
)
    requires
        call_ensures(parse_diff_args, (tail,), one),
        call_ensures(parse_diff_args, (rest,), both),
        text::texts(rest@) == seq![word] + text::texts(tail@),
        one is Ok,
    ensures
        word == "--json"@ ==> (both matches Ok(b) && b@ == (DiffView { json: true, ..one->Ok_0@ })),
        word != "--drive"@ && word != "-d"@ && word != "--limit"@ && word != "-n"@ && word != "--json"@ ==> both is Err,
        tail@.len() > 0,
{
    lemma_option_words();
    let base = diff_default();
    let more = text::texts(tail@);
    let args = text::texts(rest@);
    assert(args[0] == word);
    let second = DiffView { baseline: Some(word), ..base };
    lemma_shift(second, seq![word], more, 0);
    lemma_second_capture(second, base, more, 0);
    assert(args.len() == more.len() + 1);
    lemma_shift(DiffView { json: true, ..base }, seq![word], more, 0);
    lemma_merge(DiffView { json: true, ..base }, more, 0);
}

/// The two things that a comparison needs, in either order, come to a comparison of that drive with
/// that capture, without limit and not as JSON; neither alone is enough.
pub proof fn law_drive_and_capture_are_needed(
    path: Seq<char>,
    value: Seq<char>,
    args: &[String],
    res: Result<DiffArgs, CliError>,
)
    requires
        call_ensures(parse_diff_args, (args,), res),
        !text::begins(path, "-"@),
        drive::drive_of(value) is Some,
    ensures
        ({
            let list = text::texts(args@);
            &&& list == seq!["--drive"@, value, path] || list == seq![path, "--drive"@, value] ==> (
            res matches Ok(parsed) && parsed.baseline@ == path && parsed.limit == 0 && !parsed.json
                && Some(parsed.drive) == drive::drive_of(value))
            &&& list == seq!["--drive"@, value] || list == seq![path] || list.len() == 0 ==> res
                is Err
            &&& list == seq![path, path, "--drive"@, value] ==> res is Err
        }),
{
    lemma_option_words();
    reveal_with_fuel(diff_from, 5);
    reveal_strlit("-");
    let list = text::texts(args@);
    assert("--drive"@.subrange(0, 1) =~= "-"@) by {
        reveal_strlit("--drive");
    }
    assert("-d"@.subrange(0, 1) =~= "-"@) by {
        reveal_strlit("-d");
    }
    assert("--limit"@.subrange(0, 1) =~= "-"@) by {
        reveal_strlit("--limit");
    }
    assert("-n"@.subrange(0, 1) =~= "-"@) by {
        reveal_strlit("-n");
    }
    assert("--json"@.subrange(0, 1) =~= "-"@) by {
        reveal_strlit("--json");
    }
    assert(path != "--drive"@ && path != "-d"@ && path != "--limit"@ && path != "-n"@ && path
        != "--json"@);
}

/// The help is shown wherever it is asked for among the arguments, and else what they ask for.
pub proof fn law_help_comes_first(
    args: &[String],
    res: Result<DiffAction, CliError>,
    parsed: Result<DiffArgs, CliError>,
    i: int,
)
    requires
        call_ensures(run_diff, (args,), res),
        call_ensures(parse_diff_args, (args,), parsed),
    ensures
        0 <= i < args@.len() && (args@[i]@ == "--help"@ || args@[i]@ == "-h"@) ==> (res matches Ok(
            action,
        ) && action is ShowHelp),
        (forall|k: int|
            0 <= k < args@.len() ==> #[trigger] args@[k]@ != "--help"@ && args@[k]@ != "-h"@) ==> {
            &&& res is Ok <==> parsed is Ok
            &&& res matches Ok(action) ==> action is Compare && action->Compare_0@
                == parsed->Ok_0@
            &&& res matches Err(err) ==> err@ == parsed->Err_0@
        },
{
}

} // verus!
