//! Sending a search to the daemon and writing out what comes back.

use crate::args;
use crate::error;
use crate::error::{fail, CliError};
use crate::text;
use crate::text::{cat2, cat6, same, starts_with};
use vstd::prelude::*;

verus! {

/// Whether arguments ask for the help instead of a search: there are none, or the first one does.
pub open spec fn asks_for_help(args: Seq<Seq<char>>) -> bool {
    args.len() == 0 || args[0] == "--help"@ || args[0] == "-h"@
}

/// Whether arguments ask for the help instead of a search.
pub fn wants_help(args: &[String]) -> (res: bool)
    ensures
        res == asks_for_help(text::texts(args@)),
{
    if args.len() == 0 {
        return true;
    }
    assert(text::texts(args@)[0] == args@[0]@);
    same(&args[0], "--help") || same(&args[0], "-h")
}

/// What is told when a flag is a mistyped command.
pub open spec fn hint_text(flag: Seq<char>, command: Seq<char>) -> Seq<char> {
    "`"@ + flag + "` is not a known search flag.\nDid you mean the command `uffs "@ + command
        + "`?  (run `uffs "@ + (command + " --help`)"@)
}

/// The hint that a search is refused with before the daemon is asked, if it is: its first argument
/// looks like a flag and is no command, the search knows a flag of it not, and that flag is close to
/// a command.
pub fn typo_hint(
    args: &[String],
    first_is_command: bool,
    unknown_flag: &Option<String>,
    suggestion: &Option<String>,
) -> (res: Option<CliError>)
    ensures
        match (res, *unknown_flag, *suggestion) {
            (Some(err), Some(flag), Some(command)) => args@.len() > 0 && text::begins(
                args@[0]@,
                "--"@,
            ) && !first_is_command && err@ == error::plain(hint_text(flag@, command@)),
            (None, Some(_), Some(_)) => args@.len() == 0 || !text::begins(args@[0]@, "--"@)
                || first_is_command,
            (Some(_), _, _) => false,
            (None, _, _) => true,
        },
{
    if args.len() == 0 || first_is_command || !starts_with(&args[0], "--") {
        return None;
    }
    match unknown_flag {
        Some(flag) => match suggestion {
            Some(command) => Some(
                fail(
                    cat6(
                        "`",
                        flag,
                        "` is not a known search flag.\nDid you mean the command `uffs ",
                        command,
                        "`?  (run `uffs ",
                        &cat2(command, " --help`)"),
                    ),
                ),
            ),
            None => None,
        },
        None => None,
    }
}

/// Whether arguments name a file that the daemon writes to.
pub open spec fn names_file(args: Seq<Seq<char>>) -> bool {
    exists|i: int|
        0 <= i < args.len() && (#[trigger] args[i] == "--out"@ || text::begins(args[i], "--out="@))
}

/// Whether arguments name a file that the daemon writes to.
pub fn has_out(args: &[String]) -> (res: bool)
    ensures
        res == names_file(text::texts(args@)),
{
    let ghost shown = text::texts(args@);
    let mut i: usize = 0;
    while i < args.len()
        invariant
            i <= args@.len(),
            shown == text::texts(args@),
            forall|k: int|
                0 <= k < i ==> #[trigger] shown[k] != "--out"@ && !text::begins(
                    shown[k],
                    "--out="@,
                ),
        decreases args@.len() - i,
    {
        assert(shown[i as int] == args@[i as int]@);
        if same(&args[i], "--out") || starts_with(&args[i], "--out=") {
            return true;
        }
        i += 1;
    }
    false
}

/// What is written out after a search.
#[derive(Debug, Clone, Copy, PartialEq, Eq, Structural)]
pub struct SearchOutput {
    /// How long it took.
    pub profile: bool,
    /// What was found.
    pub payload: bool,
    /// What was counted.
    pub aggregations: bool,
}

/// What is written out after a search.  `args` are the arguments as given, `sent` as they went to the
/// daemon.  What was found is not written out where the daemon wrote it to a file, and nothing is
/// where output is off.
pub open spec fn written(
    args: Seq<String>,
    sent: Seq<String>,
    payload_empty: bool,
    aggregations_empty: bool,
) -> SearchOutput {
    let off = text::listed(sent, "--no-output"@);
    SearchOutput {
        profile: args::any_of(args, "--profile"@, "--benchmark"@),
        payload: !(names_file(text::texts(args)) && payload_empty) && !off,
        aggregations: !off && !aggregations_empty,
    }
}

/// What is written out after a search.
pub fn output_after(
    args: &[String],
    sent: &[String],
    payload_empty: bool,
    aggregations_empty: bool,
) -> (res: SearchOutput)
    ensures
        res == written(args@, sent@, payload_empty, aggregations_empty),
{
    let suppress = text::has(sent, "--no-output");
    let daemon_wrote_file = has_out(args) && payload_empty;
    SearchOutput {
        profile: text::has(args, "--profile") || text::has(args, "--benchmark"),
        payload: !daemon_wrote_file && !suppress,
        aggregations: !suppress && !aggregations_empty,
    }
}

/// How the daemon hands over what was found.
#[derive(Debug)]
pub enum SearchPayload {
    /// Nothing was found, or it was written elsewhere.
    Empty,
    /// Text in a shared file.
    ShmemBlob(String),
    /// Text.
    InlineBlob(String),
    /// Rows in a shared file.
    ShmemRows(String),
    /// Rows, each in JSON form.
    InlineRows(Vec<String>),
}

/// How what was found is written out.
#[derive(Debug)]
pub enum PayloadWrite {
    /// Not at all.
    Nothing,
    /// The contents of a file, as they are.
    StreamFile {
        /// The file.
        path: String,
        /// What is told when that fails.
        failure: String,
    },
    /// A text, as it is.
    Text {
        /// The text.
        text: String,
        /// What is told when that fails.
        failure: String,
    },
    /// The rows of a file, in the format that was asked for.
    RowsOfFile {
        /// The file.
        path: String,
        /// What is told when that fails.
        failure: String,
    },
    /// Rows, in the format that was asked for.
    Rows(Vec<String>),
}

impl SearchPayload {
    /// Whether there is nothing to write out.
    pub fn is_empty(&self) -> (res: bool)
        ensures
            res == (*self is Empty),
    {
        match self {
            SearchPayload::Empty => true,
            _ => false,
        }
    }

    /// How what was found is written out.
    pub fn write(self) -> (res: PayloadWrite)
        ensures
            match (self, res) {
                (SearchPayload::Empty, PayloadWrite::Nothing) => true,
                (SearchPayload::ShmemBlob(from), PayloadWrite::StreamFile { path, failure }) => path
                    == from && failure@ == "Failed to stream shmem_blob from "@ + from@,
                (SearchPayload::InlineBlob(blob), PayloadWrite::Text { text, failure }) => text
                    == blob && failure@ == "Failed to write inline_blob to stdout"@,
                (SearchPayload::ShmemRows(from), PayloadWrite::RowsOfFile { path, failure }) => path
                    == from && failure@ == "Failed to read shmem_rows from "@ + from@,
                (SearchPayload::InlineRows(rows), PayloadWrite::Rows(written)) => written == rows,
                _ => false,
            },
    {
        match self {
            SearchPayload::Empty => PayloadWrite::Nothing,
            SearchPayload::ShmemBlob(path) => {
                let failure = cat2("Failed to stream shmem_blob from ", &path);
                PayloadWrite::StreamFile { path, failure }
            },
            SearchPayload::InlineBlob(text) => PayloadWrite::Text {
                text,
                failure: "Failed to write inline_blob to stdout".to_owned(),
            },
            SearchPayload::ShmemRows(path) => {
                let failure = cat2("Failed to read shmem_rows from ", &path);
                PayloadWrite::RowsOfFile { path, failure }
            },
            SearchPayload::InlineRows(rows) => PayloadWrite::Rows(rows),
        }
    }
}

/// What a search does first.
#[derive(Debug)]
pub enum SearchStep {
    /// It shows the help.
    ShowHelp,
    /// It is refused.
    Refuse(CliError),
    /// It goes to the daemon.
    Send,
}

/// What a search does first: it shows the help, is refused with a hint, or goes to the daemon.
pub fn run_search(
    args: &[String],
    first_is_command: bool,
    unknown_flag: &Option<String>,
    suggestion: &Option<String>,
) -> (res: SearchStep)
    ensures
        if asks_for_help(text::texts(args@)) {
            res == SearchStep::ShowHelp
        } else if text::begins(args@[0]@, "--"@) && !first_is_command && *unknown_flag is Some
            && *suggestion is Some {
            res matches SearchStep::Refuse(err) && err@ == error::plain(
                hint_text((*unknown_flag)->Some_0@, (*suggestion)->Some_0@),
            )
        } else {
            res == SearchStep::Send
        },
{
    if wants_help(args) {
        return SearchStep::ShowHelp;
    }
    match typo_hint(args, first_is_command, unknown_flag, suggestion) {
        Some(err) => SearchStep::Refuse(err),
        None => SearchStep::Send,
    }
}

/// Where output is off nothing that was found or counted is written out.
pub proof fn law_no_output_writes_nothing(
    args: Seq<String>,
    sent: Seq<String>,
    payload_empty: bool,
    aggregations_empty: bool,
)
    requires
        text::listed(sent, "--no-output"@),
    ensures
        !written(args, sent, payload_empty, aggregations_empty).payload,
        !written(args, sent, payload_empty, aggregations_empty).aggregations,
{
}

/// What the daemon wrote to a file is not overwritten: it is not written out again.
pub proof fn law_written_files_stay(
    args: Seq<String>,
    sent: Seq<String>,
    aggregations_empty: bool,
)
    requires
        names_file(text::texts(args)),
    ensures
        !written(args, sent, true, aggregations_empty).payload,
{
}

/// A search shows the help exactly where there is nothing to search for or the first argument asks
/// for it.  It is refused exactly where the first argument begins like a command, is none, is no flag
/// of a search either, and some command is near; the refusal names the flag and that command.  Every
/// other search is sent.
pub proof fn law_what_a_search_does_first(
    args: &[String],
    first_is_command: bool,
    unknown_flag: &Option<String>,
    suggestion: &Option<String>,
    res: SearchStep,
)
    requires
        call_ensures(run_search, (args, first_is_command, unknown_flag, suggestion), res),
    ensures
        res is ShowHelp <==> args@.len() == 0 || args@[0]@ == "--help"@ || args@[0]@ == "-h"@,
        res is Refuse <==> !(res is ShowHelp) && args@[0]@.len() >= 2 && args@[0]@[0] == '-'
            && args@[0]@[1] == '-' && !first_is_command && *unknown_flag is Some && *suggestion
            is Some,
        res matches SearchStep::Refuse(err) ==> err.cause is None && err.message@ == "`"@
            + unknown_flag->Some_0@ + "` is not a known search flag.\nDid you mean the command `uffs "@
            + suggestion->Some_0@ + "`?  (run `uffs "@ + (suggestion->Some_0@ + " --help`)"@),
        res is Send <==> !(res is ShowHelp) && !(res is Refuse),
{
    if args@.len() > 0 {
        assert(text::texts(args@)[0] == args@[0]@);
        reveal_strlit("--");
        let first = args@[0]@;
        if first.len() >= 2 {
            assert(first.subrange(0, 2)[0] == first[0]);
            assert(first.subrange(0, 2)[1] == first[1]);
            if first[0] == '-' && first[1] == '-' {
                assert(first.subrange(0, 2) =~= "--"@);
            }
        }
    } else {
        assert(text::texts(args@).len() == 0);
    }
}

/// What a search writes out: what was found, unless output is off or the daemon has written it to
/// the file that was named; what was counted, unless output is off or nothing was; and how long it
/// took, exactly where that is asked for.
pub proof fn law_what_a_search_writes(
    args: &[String],
    sent: &[String],
    payload_empty: bool,
    aggregations_empty: bool,
    res: SearchOutput,
    i: int,
)
    requires
        call_ensures(output_after, (args, sent, payload_empty, aggregations_empty), res),
    ensures
        0 <= i < sent@.len() && sent@[i]@ == "--no-output"@ ==> !res.payload && !res.aggregations,
        (forall|k: int| 0 <= k < sent@.len() ==> #[trigger] sent@[k]@ != "--no-output"@) ==> {
            &&& res.aggregations == !aggregations_empty
            &&& !payload_empty ==> res.payload
            &&& payload_empty && 0 <= i < args@.len() && (args@[i]@ == "--out"@ || text::begins(
                args@[i]@,
                "--out="@,
            )) ==> !res.payload
            &&& (forall|k: int|
                0 <= k < args@.len() ==> #[trigger] args@[k]@ != "--out"@ && !text::begins(
                    args@[k]@,
                    "--out="@,
                )) ==> res.payload
        },
        0 <= i < args@.len() && (args@[i]@ == "--profile"@ || args@[i]@ == "--benchmark"@)
            ==> res.profile,
        (forall|k: int|
            0 <= k < args@.len() ==> #[trigger] args@[k]@ != "--profile"@ && args@[k]@
                != "--benchmark"@) ==> !res.profile,
{
    let list = text::texts(args@);
    assert(forall|k: int| 0 <= k < args@.len() ==> #[trigger] list[k] == args@[k]@);
    if names_file(list) {
        let k = choose|k: int|
            0 <= k < list.len() && (#[trigger] list[k] == "--out"@ || text::begins(
                list[k],
                "--out="@,
            ));
        assert(list[k] == args@[k]@);
    }
    if 0 <= i < args@.len() {
        assert(list[i] == args@[i]@);
    }
}

/// What was found is written out as it came: nothing where there is nothing, a file where it stands
/// in one, and else the text or the rows themselves.
pub proof fn law_what_was_found_is_written_as_it_came(payload: SearchPayload, res: PayloadWrite)
    requires
        call_ensures(SearchPayload::write, (payload,), res),
    ensures
        res is Nothing <==> payload is Empty,
        res is StreamFile <==> payload is ShmemBlob,
        res is Text <==> payload is InlineBlob,
        res is RowsOfFile <==> payload is ShmemRows,
        res is Rows <==> payload is InlineRows,
        payload matches SearchPayload::ShmemBlob(from) ==> res->StreamFile_path == from,
        payload matches SearchPayload::InlineBlob(found) ==> res->text == found,
        payload matches SearchPayload::ShmemRows(from) ==> res->RowsOfFile_path == from,
        payload matches SearchPayload::InlineRows(found) ==> res->Rows_0 == found,
{
}

} // verus!
