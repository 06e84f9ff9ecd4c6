//! What the arguments of the program ask for, and how a failure is told.

use crate::text;
use crate::text::{cat2, has, push_line, same};
use vstd::prelude::*;

verus! {

/// What the arguments of the program ask for.
#[derive(Debug)]
pub enum Run {
    /// To show the help.
    Help,
    /// To show the version, with all that is known of the build or without.
    Version(bool),
    /// To search, with these arguments.
    Search(Vec<String>),
    /// To run a command, with these arguments.
    Command(String, Vec<String>),
}

/// The contents of a [`Run`].
#[verifier::ext_equal]
pub enum RunView {
    /// To show the help.
    Help,
    /// To show the version.
    Version(bool),
    /// To search.
    Search(Seq<Seq<char>>),
    /// To run a command.
    Command(Seq<char>, Seq<Seq<char>>),
}

impl View for Run {
    type V = RunView;

    open spec fn view(&self) -> RunView {
        match *self {
            Run::Help => RunView::Help,
            Run::Version(verbose) => RunView::Version(verbose),
            Run::Search(args) => RunView::Search(text::texts(args@)),
            Run::Command(token, args) => RunView::Command(token@, text::texts(args@)),
        }
    }
}

/// Whether an argument asks for more.
pub open spec fn is_verbose(arg: Seq<char>) -> bool {
    arg == "--verbose"@ || arg == "-v"@
}

/// What the arguments of the program, the first of which is its own name, ask for.  The first token
/// decides: a global flag, then `--`, then a known command; anything else is a search.
pub open spec fn asked(args: Seq<Seq<char>>, commands: Seq<Seq<char>>) -> RunView {
    if args.len() < 2 || args[1] == "--help"@ || args[1] == "-h"@ {
        RunView::Help
    } else if args[1] == "--version"@ || args[1] == "-V"@ {
        RunView::Version(exists|i: int| 2 <= i < args.len() && is_verbose(#[trigger] args[i]))
    } else if args[1] == "--"@ {
        RunView::Search(args.skip(2))
    } else if commands.contains(args[1]) {
        RunView::Command(args[1], args.skip(2))
    } else {
        RunView::Search(args.skip(1))
    }
}

fn rest(args: &Vec<String>, from: usize) -> (res: Vec<String>)
    requires
        from <= args@.len(),
    ensures
        text::texts(res@) == text::texts(args@).skip(from as int),
{
    let ghost wanted = text::texts(args@).skip(from as int);
    let mut res: Vec<String> = Vec::new();
    let mut i: usize = from;
    assert(text::texts(res@) =~= wanted.take(0));
    while i < args.len()
        invariant
            from <= i <= args@.len(),
            wanted == text::texts(args@).skip(from as int),
            text::texts(res@) == wanted.take(i - from),
        decreases args@.len() - i,
    {
        push_line(&mut res, args[i].clone());
        assert(text::texts(res@) =~= wanted.take(i + 1 - from));
        i += 1;
    }
    assert(wanted.take(i - from) =~= wanted);
    res
}

/// What the arguments of the program, the first of which is its own name, ask for.
pub fn run(raw_args: &Vec<String>, commands: &Vec<String>) -> (res: Run)
    ensures
        res@ == asked(text::texts(raw_args@), text::texts(commands@)),
{
    let ghost args = text::texts(raw_args@);
    if raw_args.len() < 2 {
        return Run::Help;
    }
    let first = &raw_args[1];
    assert(args[1] == first@);
    if same(first, "--help") || same(first, "-h") {
        return Run::Help;
    }
    if same(first, "--version") || same(first, "-V") {
        let mut verbose = false;
        let mut i: usize = 2;
        while i < raw_args.len()
            invariant
                2 <= i,
                args == text::texts(raw_args@),
                verbose == exists|k: int| 2 <= k < i && k < args.len() && is_verbose(
                    #[trigger] args[k],
                ),
            decreases raw_args@.len() - i,
        {
            assert(args[i as int] == raw_args@[i as int]@);
            if same(&raw_args[i], "--verbose") || same(&raw_args[i], "-v") {
                assert(is_verbose(args[i as int]));
                verbose = true;
            }
            i += 1;
        }
        return Run::Version(verbose);
    }
    if same(first, "--") {
        return Run::Search(rest(raw_args, 2));
    }
    let known = has(commands, first);
    proof {
        let shown = text::texts(commands@);
        if known {
            let i = choose|i: int| 0 <= i < commands@.len() && (#[trigger] commands@[i])@ == first@;
            assert(shown[i] == first@);
        }
        if shown.contains(first@) {
            let i = choose|i: int| 0 <= i < shown.len() && shown[i] == first@;
            assert(commands@[i]@ == first@);
        }
    }
    if known {
        Run::Command(first.clone(), rest(raw_args, 2))
    } else {
        Run::Search(rest(raw_args, 1))
    }
}

// ---- failures ----

/// One of the errors that lie behind a failure.
#[derive(Debug)]
pub struct Cause {
    /// What it tells.
    pub message: String,
    /// The daemon that could not be started for want of rights, if that is what it is about.
    pub daemon_path: Option<String>,
}

/// The first daemon that could not be started for want of rights.
pub open spec fn unelevated_daemon(chain: Seq<Cause>, from: int) -> Option<Seq<char>>
    decreases chain.len() - from,
{
    if from < 0 || from >= chain.len() {
        None
    } else {
        match chain[from].daemon_path {
            Some(path) => Some(path@),
            None => unelevated_daemon(chain, from + 1),
        }
    }
}

/// The daemon that could not be started for want of rights, if some error behind a failure tells of
/// one.
pub fn find_needs_elevation(chain: &Vec<Cause>) -> (res: Option<&str>)
    ensures
        match (res, unelevated_daemon(chain@, 0)) {
            (Some(path), Some(wanted)) => path@ == wanted,
            (None, None) => true,
            _ => false,
        },
{
    let mut i: usize = 0;
    while i < chain.len()
        invariant
            i <= chain@.len(),
            unelevated_daemon(chain@, i as int) == unelevated_daemon(chain@, 0),
        decreases chain@.len() - i,
    {
        if let Some(path) = &chain[i].daemon_path {
            return Some(path.as_str());
        }
        i += 1;
    }
    None
}

/// What is told when the daemon could not be started for want of rights, but for the daemon.
pub const ELEVATION_HELP: &'static str =
    "Error: UFFS daemon needs admin privileges to read NTFS Master File Tables.\n\nThe daemon is not running, and this shell is not elevated.  To start it, pick one:\n\n  1. Relaunch in an elevated shell (PowerShell/cmd \"Run as administrator\"),\n     then retry the command.\n\n  2. Explicitly request a UAC prompt for this invocation:\n       uffs --daemon start --elevate\n     Or set it as the default for the current session:\n       set UFFS_ELEVATE=1     (cmd)\n       $env:UFFS_ELEVATE = '1'  (PowerShell)\n\n  3. Install the broker service \u{2014} one-time setup, no future UAC prompts:\n       uffs-broker --install\n\nDaemon binary that would have been spawned:\n  ";

/// What is told when a daemon could not be started for want of rights: three ways out, and the
/// daemon.
pub fn format_elevation_help(daemon_path: &str) -> (res: String)
    ensures
        res@ == ELEVATION_HELP@ + daemon_path@,
{
    cat2(ELEVATION_HELP, daemon_path)
}

/// The lines that tell a failure: its own error, and each that lies behind it.
pub open spec fn chain_text(chain: Seq<Cause>) -> Seq<Seq<char>> {
    Seq::new(
        chain.len(),
        |i: int|
            (if i == 0 {
                "Error: "@
            } else {
                "  Caused by: "@
            }) + chain[i].message@,
    )
}

/// What is told of a failure: ways out where the daemon could not be started for want of rights, else
/// every error.
pub fn failure_lines(chain: &Vec<Cause>) -> (res: Vec<String>)
    ensures
        text::texts(res@) == match unelevated_daemon(chain@, 0) {
            Some(path) => seq![ELEVATION_HELP@ + path],
            None => chain_text(chain@),
        },
{
    let mut res: Vec<String> = Vec::new();
    assert(text::texts(res@) =~= Seq::empty());
    if let Some(path) = find_needs_elevation(chain) {
        push_line(&mut res, format_elevation_help(path));
        assert(text::texts(res@) =~= seq![ELEVATION_HELP@ + path@]);
        return res;
    }
    let mut i: usize = 0;
    assert(text::texts(res@) =~= chain_text(chain@).take(0));
    while i < chain.len()
        invariant
            i <= chain@.len(),
            text::texts(res@) == chain_text(chain@).take(i as int),
        decreases chain@.len() - i,
    {
        let label = if i == 0 {
            "Error: "
        } else {
            "  Caused by: "
        };
        push_line(&mut res, cat2(label, &chain[i].message));
        assert(text::texts(res@) =~= chain_text(chain@).take(i + 1));
        i += 1;
    }
    assert(chain_text(chain@).take(i as int) =~= chain_text(chain@));
    res
}

// ---- laws ----

/// Whatever the first token is that is no global flag, no `--` and no command, it is searched for,
/// and so is everything after `--`, whatever it begins with.
pub proof fn law_anything_else_is_searched(args: Seq<Seq<char>>, commands: Seq<Seq<char>>)
    requires
        args.len() >= 2,
    ensures
        args[1] == "--"@ ==> asked(args, commands) == RunView::Search(args.skip(2)),
        args[1] != "--help"@ && args[1] != "-h"@ && args[1] != "--version"@ && args[1] != "-V"@
            && args[1] != "--"@ && !commands.contains(args[1]) ==> asked(args, commands)
            == RunView::Search(args.skip(1)),
{
    reveal_strlit("--");
    reveal_strlit("--help");
    reveal_strlit("-h");
    reveal_strlit("--version");
    reveal_strlit("-V");
    if args[1] == "--"@ {
        assert("--"@.len() != "--help"@.len());
        assert("--"@[1] != "-h"@[1]);
        assert("--"@.len() != "--version"@.len());
        assert("--"@[1] != "-V"@[1]);
    }
}

/// A want of rights is told wherever it stands among the errors behind a failure, with the daemon of
/// the first of them.
pub proof fn law_want_of_rights_is_found(chain: Seq<Cause>, i: int)
    requires
        0 <= i < chain.len(),
        chain[i].daemon_path is Some,
    ensures
        unelevated_daemon(chain, 0) is Some,
        (forall|j: int| 0 <= j < i ==> (#[trigger] chain[j]).daemon_path is None)
            ==> unelevated_daemon(chain, 0) == Some(chain[i].daemon_path->Some_0@),
{
    lemma_found_from(chain, 0, i);
}

proof fn lemma_found_from(chain: Seq<Cause>, from: int, i: int)
    requires
        0 <= from <= i < chain.len(),
        chain[i].daemon_path is Some,
    ensures
        unelevated_daemon(chain, from) is Some,
        (forall|j: int| from <= j < i ==> (#[trigger] chain[j]).daemon_path is None)
            ==> unelevated_daemon(chain, from) == Some(chain[i].daemon_path->Some_0@),
    decreases i - from,
{
    if chain[from].daemon_path is None {
        lemma_found_from(chain, from + 1, i);
    }
}

/// The first argument decides: the help where there is none or it asks for it, the version, a command
/// with everything behind it, or a search; and a search is for everything from the first argument on,
/// or for everything behind a `--`.
pub proof fn law_the_first_argument_decides(raw_args: &Vec<String>, commands: &Vec<String>, res: Run, i: int)
    requires
        call_ensures(run, (raw_args, commands), res),
    ensures
        raw_args@.len() < 2 ==> res is Help,
        raw_args@.len() >= 2 ==> {
            let first = raw_args@[1]@;
            let help = first == "--help"@ || first == "-h"@;
            let version = first == "--version"@ || first == "-V"@;
            let global = help || version || first == "--"@;
            &&& help ==> res is Help
            &&& version ==> res is Version
            &&& version && 2 <= i < raw_args@.len() && (raw_args@[i]@ == "--verbose"@
                || raw_args@[i]@ == "-v"@) ==> res->Version_0
            &&& version && (forall|k: int|
                2 <= k < raw_args@.len() ==> #[trigger] raw_args@[k]@ != "--verbose"@
                    && raw_args@[k]@ != "-v"@) ==> !res->Version_0
            &&& first == "--"@ ==> res is Search && text::texts(res->Search_0@) == text::texts(
                raw_args@,
            ).skip(2)
            &&& !global && 0 <= i < commands@.len() && commands@[i]@ == first ==> res is Command
                && res->Command_0@ == first && text::texts(res->Command_1@) == text::texts(
                raw_args@,
            ).skip(2)
            &&& !global && (forall|k: int|
                0 <= k < commands@.len() ==> #[trigger] commands@[k]@ != first) ==> res is Search
                && text::texts(res->Search_0@) == text::texts(raw_args@).skip(1)
        },
{
    let args = text::texts(raw_args@);
    let words = text::texts(commands@);
    assert(args.len() == raw_args@.len());
    assert(forall|k: int| 0 <= k < args.len() ==> #[trigger] args[k] == raw_args@[k]@);
    assert(forall|k: int| 0 <= k < words.len() ==> #[trigger] words[k] == commands@[k]@);
    reveal_strlit("--");
    reveal_strlit("--help");
    reveal_strlit("-h");
    reveal_strlit("--version");
    reveal_strlit("-V");
    assert("--"@[1] != "-h"@[1]);
    assert("--"@[1] != "-V"@[1]);
    assert("-h"@[1] != "-V"@[1]);
    if raw_args@.len() >= 2 {
        assert(args[1] == raw_args@[1]@);
        if 0 <= i < commands@.len() {
            assert(words[i] == commands@[i]@);
        }
        if 2 <= i < raw_args@.len() {
            assert(args[i] == raw_args@[i]@);
            assert(is_verbose(args[i]) == (args[i] == "--verbose"@ || args[i] == "-v"@));
        }
        if words.contains(args[1]) {
            let k = choose|k: int| 0 <= k < words.len() && words[k] == args[1];
            assert(commands@[k]@ == args[1]);
        }
        if exists|k: int| 2 <= k < args.len() && is_verbose(#[trigger] args[k]) {
            let k = choose|k: int| 2 <= k < args.len() && is_verbose(#[trigger] args[k]);
            assert(raw_args@[k]@ == args[k]);
        }
    }
}

/// A failure that is no want of rights is told with every error behind it, each on a line of its own
/// and in order: the first as the error, every other as what caused it.
pub proof fn law_every_cause_is_told(chain: &Vec<Cause>, res: Vec<String>, k: int)
    requires
        call_ensures(failure_lines, (chain,), res),
        forall|i: int| 0 <= i < chain@.len() ==> (#[trigger] chain@[i]).daemon_path is None,
    ensures
        res@.len() == chain@.len(),
        0 <= k < chain@.len() ==> res@[k]@ == (if k == 0 {
            "Error: "@
        } else {
            "  Caused by: "@
        }) + chain@[k].message@,
{
    lemma_none_found(chain@, 0);
    assert(res@.len() == text::texts(res@).len());
    if 0 <= k < chain@.len() {
        assert(text::texts(res@)[k] == res@[k]@);
    }
}

proof fn lemma_none_found(chain: Seq<Cause>, from: int)
    requires
        forall|i: int| 0 <= i < chain.len() ==> (#[trigger] chain[i]).daemon_path is None,
    ensures
        unelevated_daemon(chain, from) is None,
    decreases chain.len() - from,
{
    if 0 <= from < chain.len() {
        lemma_none_found(chain, from + 1);
    }
}

/// A want of rights is told as ways out, with the daemon that it is about at the end, and nothing
/// else.
pub proof fn law_a_want_of_rights_is_told(chain: &Vec<Cause>, res: Vec<String>, i: int)
    requires
        call_ensures(failure_lines, (chain,), res),
        0 <= i < chain@.len(),
        chain@[i].daemon_path is Some,
        forall|j: int| 0 <= j < i ==> (#[trigger] chain@[j]).daemon_path is None,
    ensures
        res@.len() == 1,
        res@[0]@ == ELEVATION_HELP@ + chain@[i].daemon_path->Some_0@,
{
    law_want_of_rights_is_found(chain@, i);
    assert(res@.len() == text::texts(res@).len());
    assert(text::texts(res@)[0] == res@[0]@);
}

} // verus!
