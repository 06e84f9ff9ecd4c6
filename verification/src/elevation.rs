//! The question about Administrator rights that a flow asks before it changes anything.
//!
//! A run without these rights is told up front which items take them, and decides once.  Where the
//! flow can obtain the rights later on, on Windows, there are three choices: obtain them then, go on
//! without the items, or abort.  Everywhere else there are only the last two.

use crate::error;
use crate::error::{fail, CliError};
use crate::platform::Platform;
use crate::text;
use crate::text::{cat3, same, to_ascii_lowercase, trim};
use vstd::prelude::*;

verus! {

/// A plan of which some items may take Administrator rights.
pub trait ElevatablePlan: Sized {
    /// Whether some item takes Administrator rights.
    spec fn privileged(&self) -> bool;

    /// The descriptions of the items that take Administrator rights.
    spec fn privileged_items(&self) -> Seq<Seq<char>>;

    /// Whether a plan is this one without the items that take Administrator rights.
    spec fn reduces_to(&self, after: &Self) -> bool;

    /// What is told of the items that take Administrator rights.
    spec fn needed_text(&self) -> Seq<Seq<char>>;

    /// Whether some item takes Administrator rights.
    fn requires_elevation(&self) -> (res: bool)
        ensures
            res == self.privileged(),
    ;

    /// Drops the items that take Administrator rights and returns their descriptions.
    fn drop_elevation_required(&mut self) -> (res: Vec<String>)
        ensures
            text::texts(res@) == old(self).privileged_items(),
            old(self).reduces_to(final(self)),
    ;

    /// What is told of the items that take Administrator rights.
    fn elevation_needed_lines(&self) -> (res: Vec<String>)
        ensures
            text::texts(res@) == self.needed_text(),
    ;
}

/// The words of a flow in its question.
#[derive(Debug, Clone, Copy)]
pub struct GateWording {
    /// What the flow does.
    pub action: &'static str,
    /// The command to run again with more rights.
    pub rerun_cmd: &'static str,
}

/// What was decided about Administrator rights.
#[derive(Debug)]
pub enum ElevationChoice {
    /// There was nothing to decide; the plan is as it was.
    NotNeeded,
    /// The rights are obtained later; the plan is as it was.
    ElevateLater,
    /// The items that take them were dropped; these are their descriptions.
    ContinueWithout(Vec<String>),
}

/// What the elevation prompt begins with.
#[derive(Debug)]
pub enum GateStep {
    /// The decision is made.
    Decided(ElevationChoice),
    /// A question is asked.
    Ask {
        /// The question.
        prompt: String,
        /// Whether the rights can be obtained later on.
        can_elevate: bool,
    },
}

/// A line of input as an answer: without the white space around it, with ASCII capitals made small.
pub open spec fn answer(line: Seq<char>) -> Seq<char> {
    text::lowered(text::trimmed(line))
}

/// A line of input as an answer.
pub fn answer_of(line: &str) -> (res: String)
    ensures
        res@ == answer(line@),
{
    to_ascii_lowercase(&trim(line))
}

/// The question with three choices.
pub open spec fn three_way_prompt(action: Seq<char>) -> Seq<char> {
    "\n  e = elevate at "@ + action
        + " time (Windows shows one UAC prompt)\n  c = continue without it (the item(s) above are left as-is)\n  a = abort\n\nChoice [e/c/A]: "@
}

/// The question with two choices.
pub const BINARY_PROMPT: &'static str =
    "\n  c = continue without it (the item(s) above are left as-is)\n  a = abort\n\nChoice [c/A]: ";

/// What an abortion says.
pub open spec fn aborted(rerun_cmd: Seq<char>) -> Seq<char> {
    "aborted \u{2014} re-run `"@ + rerun_cmd
        + "` from an elevated (Administrator) terminal to include the item(s) above"@
}

/// Opens the elevation prompt: decides, or asks.  The first result is what is told before.  Nothing
/// is asked and nothing dropped in a dry run, with Administrator rights, or where no item takes them.
/// A run that assumes consent goes on without the items.
pub fn gate_start<P: ElevatablePlan>(
    plan: &mut P,
    dry_run: bool,
    assume_yes: bool,
    elevated: bool,
    platform: Platform,
    offer_inflow_elevation: bool,
    wording: &GateWording,
) -> (res: (Vec<String>, GateStep))
    ensures
        if dry_run || !old(plan).privileged() || elevated {
            &&& res.0@.len() == 0
            &&& res.1 == GateStep::Decided(ElevationChoice::NotNeeded)
            &&& *final(plan) == *old(plan)
        } else {
            &&& text::texts(res.0@) == old(plan).needed_text()
            &&& if assume_yes {
                &&& res.1 matches GateStep::Decided(ElevationChoice::ContinueWithout(skipped))
                &&& text::texts(skipped@) == old(plan).privileged_items()
                &&& old(plan).reduces_to(final(plan))
            } else {
                &&& *final(plan) == *old(plan)
                &&& res.1 matches GateStep::Ask { prompt, can_elevate }
                &&& can_elevate == (offer_inflow_elevation && platform == Platform::Windows)
                &&& prompt@ == if can_elevate {
                    three_way_prompt(wording.action@)
                } else {
                    BINARY_PROMPT@
                }
            }
        },
{
    if dry_run || elevated || !plan.requires_elevation() {
        return (Vec::new(), GateStep::Decided(ElevationChoice::NotNeeded));
    }
    let lines = plan.elevation_needed_lines();
    if assume_yes {
        let skipped = plan.drop_elevation_required();
        return (lines, GateStep::Decided(ElevationChoice::ContinueWithout(skipped)));
    }
    let can_elevate = offer_inflow_elevation && platform == Platform::Windows;
    let prompt = if can_elevate {
        cat3(
            "\n  e = elevate at ",
            wording.action,
            " time (Windows shows one UAC prompt)\n  c = continue without it (the item(s) above are left as-is)\n  a = abort\n\nChoice [e/c/A]: ",
        )
    } else {
        BINARY_PROMPT.to_owned()
    };
    (lines, GateStep::Ask { prompt, can_elevate })
}

/// What an answer at the elevation prompt stands for.
pub enum GateAnswer {
    /// Obtain the rights later on.
    Elevate,
    /// Go on without the items.
    Continue,
    /// Abort.
    Abort,
}

/// What an answer at the elevation prompt stands for; anything that is not understood aborts.
pub open spec fn gate_meaning(can_elevate: bool, line: Seq<char>) -> GateAnswer {
    let said = answer(line);
    if can_elevate && (said == "e"@ || said == "elevate"@) {
        GateAnswer::Elevate
    } else if said == "c"@ || said == "continue"@ {
        GateAnswer::Continue
    } else {
        GateAnswer::Abort
    }
}

/// Takes the answer at the elevation prompt.
pub fn gate_answer<P: ElevatablePlan>(
    plan: &mut P,
    can_elevate: bool,
    line: &str,
    wording: &GateWording,
) -> (res: Result<ElevationChoice, CliError>)
    ensures
        match gate_meaning(can_elevate, line@) {
            GateAnswer::Elevate => {
                &&& res == Ok::<ElevationChoice, CliError>(ElevationChoice::ElevateLater)
                &&& *final(plan) == *old(plan)
            },
            GateAnswer::Continue => {
                &&& res matches Ok(ElevationChoice::ContinueWithout(skipped))
                &&& text::texts(skipped@) == old(plan).privileged_items()
                &&& old(plan).reduces_to(final(plan))
            },
            GateAnswer::Abort => {
                &&& res matches Err(err)
                &&& err@ == error::plain(aborted(wording.rerun_cmd@))
                &&& *final(plan) == *old(plan)
            },
        },
{
    let said = answer_of(line);
    if can_elevate && (same(&said, "e") || same(&said, "elevate")) {
        return Ok(ElevationChoice::ElevateLater);
    }
    if same(&said, "c") || same(&said, "continue") {
        let skipped = plan.drop_elevation_required();
        return Ok(ElevationChoice::ContinueWithout(skipped));
    }
    Err(
        fail(
            cat3(
                "aborted \u{2014} re-run `",
                wording.rerun_cmd,
                "` from an elevated (Administrator) terminal to include the item(s) above",
            ),
        ),
    )
}

/// What a line means at the question about rights: it is read without the white space around it and
/// whatever the case of its letters.  Only where rights can be obtained does anything obtain them,
/// and everything that is no such word, and not the one for going on, aborts.
pub proof fn law_only_the_offered_words_go_on(can_elevate: bool, line: Seq<char>)
    ensures
        ({
            let said = text::lowered(text::trimmed(line));
            &&& gate_meaning(can_elevate, line) is Elevate <==> can_elevate && (said == "e"@ || said
                == "elevate"@)
            &&& gate_meaning(can_elevate, line) is Continue <==> said == "c"@ || said
                == "continue"@
            &&& gate_meaning(can_elevate, line) is Abort <==> !(gate_meaning(
                can_elevate,
                line,
            ) is Elevate) && !(gate_meaning(can_elevate, line) is Continue)
        }),
{
    reveal_strlit("e");
    reveal_strlit("c");
    reveal_strlit("elevate");
    reveal_strlit("continue");
    assert("e"@[0] != "c"@[0]);
    assert("e"@.len() == 1 && "c"@.len() == 1 && "elevate"@.len() == 7 && "continue"@.len() == 8);
}

} // verus!
