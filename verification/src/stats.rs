//! The statistics of the index, which are a search of their own.

use crate::args;
use crate::args::split_csv;
use crate::error;
use crate::error::{fail, CliError};
use crate::text;
use crate::text::{cat2, cat3, parse_u32, push_line, same, starts_with, strings};
use vstd::prelude::*;

verus! {

/// What statistics are asked for.
#[verifier::ext_equal]
pub struct StatsView {
    /// A path, which is no longer supported.
    pub path: Option<Seq<char>>,
    /// How many of the largest to list.
    pub top: u32,
    /// Data directory.
    pub data_dir: Option<Seq<char>>,
    /// Raw MFT files.
    pub mft_file: Seq<Seq<char>>,
}

/// What statistics are asked for.
#[derive(Debug)]
pub struct StatsArgs {
    /// A path, which is no longer supported.
    pub path: Option<String>,
    /// How many of the largest to list.
    pub top: u32,
    /// Data directory.
    pub data_dir: Option<String>,
    /// Raw MFT files.
    pub mft_file: Vec<String>,
}

impl View for StatsArgs {
    type V = StatsView;

    open spec fn view(&self) -> StatsView {
        StatsView {
            path: error::shown(self.path),
            top: self.top,
            data_dir: error::shown(self.data_dir),
            mft_file: text::texts(self.mft_file@),
        }
    }
}

/// What has been read once the arguments from `i` on have been.  An option at the end whose value is
/// missing adds nothing, nor does an unknown option or a second path.
pub open spec fn stats_from(acc: StatsView, args: Seq<Seq<char>>, i: int) -> Result<
    StatsView,
    error::ErrorView,
>
    decreases args.len() - i,
{
    if i < 0 || i >= args.len() {
        Ok(acc)
    } else if args[i] == "--top"@ {
        if i + 1 >= args.len() {
            Ok(acc)
        } else {
            match text::number(args[i + 1], 0, u32::MAX as nat) {
                Ok(top) => stats_from(StatsView { top: top as u32, ..acc }, args, i + 2),
                Err(err) => Err(error::plain("Bad --top: "@ + err.text())),
            }
        }
    } else if args[i] == "--data-dir"@ {
        if i + 1 >= args.len() {
            Ok(acc)
        } else {
            stats_from(StatsView { data_dir: Some(args[i + 1]), ..acc }, args, i + 2)
        }
    } else if args[i] == "--mft-file"@ {
        if i + 1 >= args.len() {
            Ok(acc)
        } else {
            stats_from(
                StatsView { mft_file: args::csv_parts(args[i + 1]), ..acc },
                args,
                i + 2,
            )
        }
    } else if !text::begins(args[i], "-"@) && acc.path is None {
        stats_from(StatsView { path: Some(args[i]), ..acc }, args, i + 1)
    } else {
        stats_from(acc, args, i + 1)
    }
}

/// What is asked for before any argument.
pub open spec fn stats_default() -> StatsView {
    StatsView { path: None, top: 10, data_dir: None, mft_file: Seq::empty() }
}

/// Parse the arguments.
pub fn parse_stats_args(args: &[String]) -> (res: Result<StatsArgs, CliError>)
    ensures
        match (res, stats_from(stats_default(), text::texts(args@), 0)) {
            (Ok(parsed), Ok(wanted)) => parsed@ == wanted,
            (Err(err), Err(wanted)) => err@ == wanted,
            _ => false,
        },
{
    let ghost list = text::texts(args@);
    let mut parsed = StatsArgs { path: None, top: 10, data_dir: None, mft_file: Vec::new() };
    let mut i: usize = 0;
    assert(parsed@ =~= stats_default());
    while i < args.len()
        invariant
            i <= args@.len(),
            list == text::texts(args@),
            stats_from(parsed@, list, i as int) == stats_from(stats_default(), list, 0),
        decreases args@.len() - i,
    {
        let arg = &args[i];
        assert(list[i as int] == arg@);
        if same(arg, "--top") {
            if i + 1 >= args.len() {
                return Ok(parsed);
            }
            assert(list[i + 1] == args@[i + 1]@);
            match parse_u32(&args[i + 1]) {
                Ok(top) => {
                    parsed.top = top;
                },
                Err(err) => {
                    return Err(fail(cat2("Bad --top: ", err.message())));
                },
            }
            i += 2;
        } else if same(arg, "--data-dir") {
            if i + 1 >= args.len() {
                return Ok(parsed);
            }
            assert(list[i + 1] == args@[i + 1]@);
            parsed.data_dir = Some(args[i + 1].clone());
            i += 2;
        } else if same(arg, "--mft-file") {
            if i + 1 >= args.len() {
                return Ok(parsed);
            }
            assert(list[i + 1] == args@[i + 1]@);
            parsed.mft_file = split_csv(&args[i + 1]);
            i += 2;
        } else if !starts_with(arg, "-") && parsed.path.is_none() {
            parsed.path = Some(arg.clone());
            i += 1;
        } else {
            i += 1;
        }
    }
    Ok(parsed)
}

/// Raw MFT files as options.
pub open spec fn file_options(files: Seq<Seq<char>>) -> Seq<Seq<char>>
    decreases files.len(),
{
    if files.len() == 0 {
        Seq::empty()
    } else {
        file_options(files.drop_last()) + seq!["--mft-file"@, files.last()]
    }
}

/// The search that statistics are: an overview of everything, without rows.
pub open spec fn overview_args(args: StatsView) -> Seq<Seq<char>> {
    seq!["*"@, "--agg"@, "overview"@, "--format"@, "table"@, "--limit"@, "0"@] + (
    match args.data_dir {
        Some(dir) => seq!["--data-dir"@, dir],
        None => Seq::empty(),
    }) + file_options(args.mft_file)
}

/// The arguments of the search that statistics are.
pub fn overview_search(args: &StatsArgs) -> (res: Vec<String>)
    ensures
        text::texts(res@) == overview_args(args@),
{
    let mut res = strings(&["*", "--agg", "overview", "--format", "table", "--limit", "0"]);
    let ghost first = text::texts(res@);
    assert(first =~= seq!["*"@, "--agg"@, "overview"@, "--format"@, "table"@, "--limit"@, "0"@]);
    if let Some(dir) = &args.data_dir {
        push_line(&mut res, "--data-dir".to_owned());
        push_line(&mut res, dir.clone());
    }
    let ghost before = text::texts(res@);
    assert(before =~= first + (match args@.data_dir {
        Some(dir) => seq!["--data-dir"@, dir],
        None => Seq::empty(),
    }));
    let ghost files = text::texts(args.mft_file@);
    let mut i: usize = 0;
    proof {
        assert(files.take(0) =~= Seq::empty());
        assert(before + file_options(files.take(0)) =~= before);
    }
    while i < args.mft_file.len()
        invariant
            i <= args.mft_file@.len(),
            files == text::texts(args.mft_file@),
            text::texts(res@) == before + file_options(files.take(i as int)),
        decreases args.mft_file@.len() - i,
    {
        push_line(&mut res, "--mft-file".to_owned());
        push_line(&mut res, args.mft_file[i].clone());
        proof {
            assert(files.take(i + 1).drop_last() =~= files.take(i as int));
            assert(files.take(i + 1).last() == args.mft_file@[i as int]@);
            assert(text::texts(res@) =~= before + file_options(files.take(i + 1)));
        }
        i += 1;
    }
    assert(files.take(i as int) =~= files);
    res
}

/// Show the statistics of a path, which always fails: those of a path are no longer supported, and
/// those without one are a search.
pub fn stats(path: Option<&str>, _top: u32) -> (res: Result<(), CliError>)
    ensures
        res matches Err(err) && err@ == error::plain(
            match path {
                None =>
                    "stats without a path should be routed through `run_stats`'s search path"@,
                Some(dir) => "Legacy parquet stats for '"@ + dir@
                    + "' are no longer supported by the thin CLI.\nUse `uffs --stats` (daemon mode) instead."@,
            },
        ),
{
    match path {
        None => Err(
            fail(
                "stats without a path should be routed through `run_stats`'s search path".to_owned(),
            ),
        ),
        Some(dir) => Err(
            fail(
                cat3(
                    "Legacy parquet stats for '",
                    dir,
                    "' are no longer supported by the thin CLI.\nUse `uffs --stats` (daemon mode) instead.",
                ),
            ),
        ),
    }
}

/// What statistics do.
#[derive(Debug)]
pub enum StatsAction {
    /// Show the help.
    ShowHelp,
    /// Search with these arguments.
    Search(Vec<String>),
}

/// What arguments of statistics lead to: the help, a search, or an error.
pub fn run_stats(args: &[String]) -> (res: Result<StatsAction, CliError>)
    ensures
        if args::any_of(args@, "--help"@, "-h"@) {
            res == Ok::<StatsAction, CliError>(StatsAction::ShowHelp)
        } else {
            match stats_from(stats_default(), text::texts(args@), 0) {
                Err(wanted) => res matches Err(err) && err@ == wanted,
                Ok(parsed) => match parsed.path {
                    Some(path) => res matches Err(err) && err@ == error::plain(
                        "Legacy parquet stats for '"@ + path
                            + "' are no longer supported by the thin CLI.\nUse `uffs --stats` (daemon mode) instead."@,
                    ),
                    None => res matches Ok(StatsAction::Search(search)) && text::texts(search@)
                        == overview_args(parsed),
                },
            }
        },
{
    if text::has(args, "--help") || text::has(args, "-h") {
        return Ok(StatsAction::ShowHelp);
    }
    match parse_stats_args(args) {
        Err(err) => Err(err),
        Ok(parsed) => match &parsed.path {
            Some(path) => match stats(Some(path.as_str()), parsed.top) {
                Ok(()) => Ok(StatsAction::ShowHelp),
                Err(err) => Err(err),
            },
            None => Ok(StatsAction::Search(overview_search(&parsed))),
        },
    }
}

proof fn lemma_shift(acc: StatsView, front: Seq<Seq<char>>, more: Seq<Seq<char>>, i: int)
    requires
        0 <= i,
    ensures
        stats_from(acc, front + more, front.len() + i) == stats_from(acc, more, i),
    decreases more.len() - i,
{
    let all = front + more;
    let at = front.len() + i;
    if i < more.len() {
        assert(all[at] == more[i]);
        if i + 1 < more.len() {
            assert(all[at + 1] == more[i + 1]);
        }
        if more[i] == "--top"@ {
            if i + 1 < more.len() {
                if let Ok(top) = text::number(more[i + 1], 0, u32::MAX as nat) {
                    lemma_shift(StatsView { top: top as u32, ..acc }, front, more, i + 2);
                }
            }
        } else if more[i] == "--data-dir"@ {
            if i + 1 < more.len() {
                lemma_shift(StatsView { data_dir: Some(more[i + 1]), ..acc }, front, more, i + 2);
            }
        } else if more[i] == "--mft-file"@ {
            if i + 1 < more.len() {
                lemma_shift(
                    StatsView { mft_file: args::csv_parts(more[i + 1]), ..acc },
                    front,
                    more,
                    i + 2,
                );
            }
        } else if !text::begins(more[i], "-"@) && acc.path is None {
            lemma_shift(StatsView { path: Some(more[i]), ..acc }, front, more, i + 1);
        } else {
            lemma_shift(acc, front, more, i + 1);
        }
    }
}

proof fn lemma_merge(a: StatsView, b: StatsView, more: Seq<Seq<char>>, i: int)
    requires
        0 <= i,
        a.path is Some || a.path == b.path,
    ensures
        stats_from(a, more, i) is Ok <==> stats_from(b, more, i) is Ok,
        stats_from(a, more, i) is Ok ==> {
            let x = stats_from(a, more, i)->Ok_0;
            let y = stats_from(b, more, i)->Ok_0;
            &&& (x.top == a.top && y.top == b.top) || x.top == y.top
            &&& (forall|k: int| i <= k < more.len() ==> #[trigger] more[k] != "--top"@) ==> x.top
                == a.top
            &&& (x.data_dir == a.data_dir && y.data_dir == b.data_dir) || (x.data_dir == y.data_dir
                && y.data_dir is Some)
            &&& (x.mft_file == a.mft_file && y.mft_file == b.mft_file) || (x.mft_file == y.mft_file
                && y.mft_file.len() > 0)
            &&& a.path is Some ==> x.path == a.path
            &&& b.path is Some ==> y.path == b.path
            &&& a.path is None ==> x.path == y.path
        },
    decreases more.len() - i,
{
    if i < more.len() {
        if more[i] == "--top"@ {
            if i + 1 < more.len() {
                if let Ok(top) = text::number(more[i + 1], 0, u32::MAX as nat) {
                    lemma_merge(
                        StatsView { top: top as u32, ..a },
                        StatsView { top: top as u32, ..b },
                        more,
                        i + 2,
                    );
                }
            }
        } else if more[i] == "--data-dir"@ {
            if i + 1 < more.len() {
                lemma_merge(
                    StatsView { data_dir: Some(more[i + 1]), ..a },
                    StatsView { data_dir: Some(more[i + 1]), ..b },
                    more,
                    i + 2,
                );
            }
        } else if more[i] == "--mft-file"@ {
            if i + 1 < more.len() {
                let files = args::csv_parts(more[i + 1]);
                text::lemma_split(more[i + 1], ',');
                assert(files.len() > 0);
                lemma_merge(
                    StatsView { mft_file: files, ..a },
                    StatsView { mft_file: files, ..b },
                    more,
                    i + 2,
                );
            }
        } else {
            let word = !text::begins(more[i], "-"@);
            let x = if word && a.path is None {
                StatsView { path: Some(more[i]), ..a }
            } else {
                a
            };
            let y = if word && b.path is None {
                StatsView { path: Some(more[i]), ..b }
            } else {
                b
            };
            lemma_merge(x, y, more, i + 1);
        }
    }
}

/// An option before other arguments that are accepted sets what it names, where these do not set it
/// again, and nothing else; it is refused where its value is no number and has to be one.
pub proof fn law_options_set_what_they_name(
    option: Seq<char>,
    value: Seq<char>,
    n: u32,
    tail: &[String],
    rest: &[String],
    one: Result<StatsArgs, CliError>,
    both: Result<StatsArgs, CliError>,
)
    requires
        call_ensures(parse_stats_args, (tail,), one),
        call_ensures(parse_stats_args, (rest,), both),
        text::texts(rest@) == seq![option, value] + text::texts(tail@),
        option == "--top"@ || option == "--data-dir"@ || option == "--mft-file"@,
        one is Ok,
    ensures
        option != "--top"@ || value == text::decimal(n as nat) ==> both is Ok,
        option == "--top"@ && value.len() == 0 ==> both is Err,
        both is Ok ==> {
            let a = one->Ok_0@;
            let b = both->Ok_0@;
            &&& b.path == a.path
            &&& b.data_dir == (if option == "--data-dir"@ && a.data_dir is None {
                Some(value)
            } else {
                a.data_dir
            })
            &&& b.mft_file == (if option == "--mft-file"@ && a.mft_file.len() == 0 {
                text::split_at_char(value, ',').map_values(
                    |part: Seq<char>| text::trimmed(part),
                )
            } else {
                a.mft_file
            })
            &&& option != "--top"@ ==> b.top == a.top
            &&& option == "--top"@ && value == text::decimal(n as nat) && (forall|k: int|
                0 <= k < tail@.len() ==> #[trigger] tail@[k]@ != "--top"@) ==> b.top == n
        },
{
    reveal_strlit("--top");
    reveal_strlit("--data-dir");
    reveal_strlit("--mft-file");
    assert("--top"@.len() == 5 && "--data-dir"@.len() == 10 && "--mft-file"@.len() == 10);
    assert("--data-dir"@[2] == 'd' && "--mft-file"@[2] == 'm');
    let base = stats_default();
    let more = text::texts(tail@);
    let all = text::texts(rest@);
    assert(all[0] == option && all[1] == value);
    let acc = if option == "--top"@ {
        StatsView { top: text::number(value, 0, u32::MAX as nat)->Ok_0 as u32, ..base }
    } else if option == "--data-dir"@ {
        StatsView { data_dir: Some(value), ..base }
    } else {
        StatsView { mft_file: args::csv_parts(value), ..base }
    };
    lemma_shift(acc, seq![option, value], more, 0);
    lemma_merge(acc, base, more, 0);
    text::lemma_split(value, ',');
    if value == text::decimal(n as nat) {
        text::lemma_digits(n as nat, 0, u32::MAX as nat, false);
        assert(text::is_digit(value[0]));
    }
    assert forall|k: int|
        0 <= k < more.len() && (forall|q: int|
            0 <= q < tail@.len() ==> #[trigger] tail@[q]@ != "--top"@) implies #[trigger] more[k]
        != "--top"@ by {
        assert(more[k] == tail@[k]@);
    }
}

/// A word before other arguments that are accepted is the path, and what is no option and begins with
/// a dash is passed over; without arguments ten entries are shown, and nothing else is set.
pub proof fn law_words_are_paths(
    word: Seq<char>,
    tail: &[String],
    rest: &[String],
    one: Result<StatsArgs, CliError>,
    both: Result<StatsArgs, CliError>,
)
    requires
        call_ensures(parse_stats_args, (tail,), one),
        call_ensures(parse_stats_args, (rest,), both),
        text::texts(rest@) == seq![word] + text::texts(tail@),
        one is Ok,
        word != "--top"@ && word != "--data-dir"@ && word != "--mft-file"@,
    ensures
        both is Ok,
        word.len() > 0 && word[0] == '-' ==> both->Ok_0@ == one->Ok_0@,
        word.len() == 0 || word[0] != '-' ==> both->Ok_0@ == (StatsView {
            path: Some(word),
            ..one->Ok_0@
        }),
        tail@.len() == 0 ==> one->Ok_0@ == (StatsView {
            path: None,
            top: 10,
            data_dir: None,
            mft_file: Seq::empty(),
        }),
{
    reveal_strlit("-");
    let base = stats_default();
    let more = text::texts(tail@);
    let all = text::texts(rest@);
    assert(all[0] == word);
    if word.len() > 0 {
        assert(word.subrange(0, 1) =~= seq![word[0]]);
        assert("-"@ =~= seq!['-']);
        assert("-"@[0] == '-');
    } else {
        assert("-"@.len() == 1);
    }
    let acc = if word.len() > 0 && word[0] == '-' {
        base
    } else {
        StatsView { path: Some(word), ..base }
    };
    if word.len() > 0 && word[0] != '-' {
        assert(seq![word[0]][0] != "-"@[0]);
    }
    assert(text::begins(word, "-"@) <==> word.len() > 0 && word[0] == '-');
    lemma_shift(acc, seq![word], more, 0);
    lemma_merge(acc, base, more, 0);
}

/// The search that shows the overview: everything, summed up, with the directory and each of the
/// files that were given, in order.
pub proof fn law_what_is_searched_for(
    args: &StatsArgs,
    res: Vec<String>,
    more: &StatsArgs,
    last: Seq<char>,
    after: Vec<String>,
)
    requires
        call_ensures(overview_search, (args,), res),
        call_ensures(overview_search, (more,), after),
        more@ == (StatsView { mft_file: args@.mft_file.push(last), ..args@ }),
    ensures
        text::texts(after@) == text::texts(res@) + seq!["--mft-file"@, last],
        args.mft_file@.len() == 0 && args.data_dir is None ==> text::texts(res@) == seq![
            "*"@,
            "--agg"@,
            "overview"@,
            "--format"@,
            "table"@,
            "--limit"@,
            "0"@,
        ],
        args.mft_file@.len() == 0 && args.data_dir is Some ==> text::texts(res@) == seq![
            "*"@,
            "--agg"@,
            "overview"@,
            "--format"@,
            "table"@,
            "--limit"@,
            "0"@,
            "--data-dir"@,
            args.data_dir->Some_0@,
        ],
{
    let files = args@.mft_file;
    assert(files.push(last).drop_last() =~= files);
    assert(text::texts(after@) =~= text::texts(res@) + seq!["--mft-file"@, last]);
    if args.mft_file@.len() == 0 {
        assert(files.len() == 0);
        if args.data_dir is None {
            assert(text::texts(res@) =~= seq![
                "*"@,
                "--agg"@,
                "overview"@,
                "--format"@,
                "table"@,
                "--limit"@,
                "0"@,
            ]);
        } else {
            assert(text::texts(res@) =~= seq![
                "*"@,
                "--agg"@,
                "overview"@,
                "--format"@,
                "table"@,
                "--limit"@,
                "0"@,
                "--data-dir"@,
                args.data_dir->Some_0@,
            ]);
        }
    }
}

/// Help comes first wherever it is asked for; a path is refused; and what is left is the search for the
/// overview.
pub proof fn law_what_the_statistics_do(
    args: &[String],
    res: Result<StatsAction, CliError>,
    parsed: Result<StatsArgs, CliError>,
    search: Vec<String>,
)
    requires
        call_ensures(run_stats, (args,), res),
        call_ensures(parse_stats_args, (args,), parsed),
        parsed is Ok ==> call_ensures(overview_search, (&parsed->Ok_0,), search),
    ensures
        ({
            let help = exists|i: int|
                0 <= i < args@.len() && ((#[trigger] args@[i])@ == "--help"@ || args@[i]@
                    == "-h"@);
            &&& (res matches Ok(StatsAction::ShowHelp)) <==> help
            &&& !help ==> (res is Ok <==> parsed is Ok && parsed->Ok_0.path is None)
            &&& !help && res is Ok ==> (res matches Ok(StatsAction::Search(found)) && text::texts(
                found@,
            ) == text::texts(search@))
            &&& !help && parsed is Err ==> res is Err && res->Err_0@ == parsed->Err_0@
        }),
{
    if args::any_of(args@, "--help"@, "-h"@) {
        if text::listed(args@, "--help"@) {
            let i = choose|i: int| 0 <= i < args@.len() && (#[trigger] args@[i])@ == "--help"@;
            assert(args@[i]@ == "--help"@);
        } else {
            let i = choose|i: int| 0 <= i < args@.len() && (#[trigger] args@[i])@ == "-h"@;
            assert(args@[i]@ == "-h"@);
        }
    }
}

} // verus!
