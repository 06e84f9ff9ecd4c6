//! The course of an uninstallation: what is decided, asked and told, and in which order.
//!
//! Every choice is made before anything is touched: first whether every drive is searched for stray
//! files, then what becomes of the items that take Administrator rights, and at the end, with the
//! whole picture on screen, what is removed.

use super::inventory;
use super::inventory::{BrokerServiceState, Inventory, StrayHit, UninstallArgs};
use super::plan;
use super::plan::{PlanItem, PlanTarget, RemovalPlan};
use super::remove;
use super::remove::{execute, Effects, RemovalOutcome};
use super::render;
use super::render::{
    extra_lines, inventory_lines, outcome_lines, plan_lines, resolution_lines, skipped_lines,
    StemResolution,
};
use crate::elevation;
use crate::elevation::{answer_of, ElevatablePlan, ElevationChoice, GateWording};
use crate::platform;
use crate::platform::{is_in, join_path, parent_of, Platform};
use crate::spinner;
use crate::text;
use crate::text::{cat2, cat3, cat5, push_line, push_lines, same, show_u64};
use vstd::prelude::*;

verus! {

/// The words of this flow at the elevation prompt.
pub fn gate_wording() -> (res: GateWording)
    ensures
        res.action@ == "removal"@,
        res.rerun_cmd@ == "uffs --uninstall"@,
{
    GateWording { action: "removal", rerun_cmd: "uffs --uninstall" }
}

/// What is told above the items that take Administrator rights.
pub const GATE_INTRO: &'static str =
    "\nThis terminal is not elevated (Administrator). The following can only be\nremoved from an elevated terminal (the broker runs as LocalSystem):\n";

impl ElevatablePlan for RemovalPlan {
    open spec fn privileged(&self) -> bool {
        plan::any_elevated(plan::all_items(self@))
    }

    open spec fn privileged_items(&self) -> Seq<Seq<char>> {
        plan::privileged_descriptions(plan::all_items(self@))
    }

    open spec fn reduces_to(&self, after: &Self) -> bool {
        after@ == plan::unprivileged_groups(self@)
    }

    open spec fn needed_text(&self) -> Seq<Seq<char>> {
        seq![GATE_INTRO@] + render::dashed(
            plan::privileged_descriptions(plan::all_items(self@)),
        )
    }

    fn requires_elevation(&self) -> (res: bool) {
        RemovalPlan::requires_elevation(self)
    }

    fn drop_elevation_required(&mut self) -> (res: Vec<String>) {
        RemovalPlan::drop_elevation_required(self)
    }

    fn elevation_needed_lines(&self) -> (res: Vec<String>) {
        let mut res: Vec<String> = Vec::new();
        assert(text::texts(res@) =~= Seq::empty());
        push_line(&mut res, GATE_INTRO.to_owned());
        let items = self.items();
        let ghost shown = plan::all_items(self@);
        let ghost intro = seq![GATE_INTRO@];
        let mut i: usize = 0;
        proof {
            assert(shown.take(0) =~= Seq::empty());
            assert(text::texts(res@) =~= intro + render::dashed(Seq::empty()));
        }
        while i < items.len()
            invariant
                i <= items@.len(),
                shown == items@.map_values(|item: &PlanItem| item@),
                text::texts(res@) == intro + render::dashed(
                    plan::privileged_descriptions(shown.take(i as int)),
                ),
            decreases items@.len() - i,
        {
            let item = items[i];
            let ghost before = plan::privileged_descriptions(shown.take(i as int));
            proof {
                assert(shown.take(i + 1).drop_last() =~= shown.take(i as int));
                assert(shown.take(i + 1).last() == item@);
            }
            if item.needs_elevation {
                let description = item.target.describe();
                push_line(&mut res, cat2("  - ", &description));
                proof {
                    assert(render::dashed(before.push(description@)) =~= render::dashed(
                        before,
                    ).push("  - "@ + description@));
                    assert(text::texts(res@) =~= intro + render::dashed(
                        before.push(description@),
                    ));
                }
            }
            i += 1;
        }
        assert(shown.take(i as int) =~= shown);
        res
    }
}

// ---- the search for stray files ----

/// Whether every drive is searched for stray files.
#[derive(Debug, Clone, Copy, PartialEq, Eq, Structural)]
pub enum SweepDecision {
    /// It is.
    Proceed {
        /// Whether the index daemon is started with more rights for that.
        elevate_daemon: bool,
    },
    /// It is not.
    Skip,
}

/// What the decision about the search does first.
#[derive(Debug, Clone, Copy, PartialEq, Eq, Structural)]
pub enum SweepStep {
    /// The decision is made.
    Decided(SweepDecision),
    /// [`SWEEP_PROMPT`] is asked.
    Ask,
}

/// What is told when a scripted run cannot search.
pub const SWEEP_SKIPPED_NOTE: &'static str =
    "\nDeep sweep skipped: without the Access Broker the index daemon needs\nAdministrator to start. Run elevated (or install the broker) for a full sweep.";

/// What is told before the question about the search.
pub const SWEEP_INTRO: &'static str =
    "\nA thorough uninstall deep-sweeps every drive for stray UFFS files. Without\nthe Access Broker, the index daemon can only start from an elevated process.";

/// The question about the search.
pub const SWEEP_PROMPT: &'static str =
    "\n  d = deep sweep \u{2014} start the daemon now (Windows shows one UAC prompt)\n  s = skip the deep sweep (standard locations only)\n\nChoice [d/S]: ";

/// What is told when the search was declined.
pub const SWEEP_DECLINED_NOTE: &'static str =
    "Deep sweep skipped; only the standard locations are cleaned.";

/// The first step of the decision about the search.  A complete search needs the index daemon to
/// cover every drive; without the broker and without rights it can only be started after a prompt,
/// which a run that asks nothing, or changes nothing, never causes.
pub open spec fn sweep_step(
    args: UninstallArgs,
    coverage_complete: bool,
    elevated: bool,
    broker_serving: bool,
) -> SweepStep {
    if args.no_deep_sweep {
        SweepStep::Decided(SweepDecision::Skip)
    } else if coverage_complete || elevated || broker_serving {
        SweepStep::Decided(SweepDecision::Proceed { elevate_daemon: false })
    } else if args.dry_run || args.assume_yes {
        SweepStep::Decided(SweepDecision::Skip)
    } else {
        SweepStep::Ask
    }
}

/// What is told at the first step of the decision about the search.
pub open spec fn sweep_note(
    args: UninstallArgs,
    coverage_complete: bool,
    elevated: bool,
    broker_serving: bool,
) -> Option<Seq<char>> {
    if args.no_deep_sweep || coverage_complete || elevated || broker_serving {
        None
    } else if args.dry_run || args.assume_yes {
        Some(SWEEP_SKIPPED_NOTE@)
    } else {
        Some(SWEEP_INTRO@)
    }
}

/// The first step of the decision about the search, and what is told at it.
pub fn sweep_decision(
    args: &UninstallArgs,
    coverage_complete: bool,
    elevated: bool,
    broker_serving: bool,
) -> (res: (Option<&'static str>, SweepStep))
    ensures
        res.1 == sweep_step(*args, coverage_complete, elevated, broker_serving),
        match (res.0, sweep_note(*args, coverage_complete, elevated, broker_serving)) {
            (Some(note), Some(wanted)) => note@ == wanted,
            (None, None) => true,
            _ => false,
        },
{
    if args.no_deep_sweep {
        return (None, SweepStep::Decided(SweepDecision::Skip));
    }
    if coverage_complete || elevated || broker_serving {
        return (None, SweepStep::Decided(SweepDecision::Proceed { elevate_daemon: false }));
    }
    if args.dry_run || args.assume_yes {
        return (Some(SWEEP_SKIPPED_NOTE), SweepStep::Decided(SweepDecision::Skip));
    }
    (Some(SWEEP_INTRO), SweepStep::Ask)
}

/// Whether an answer asks for the search.
pub open spec fn wants_sweep(line: Seq<char>) -> bool {
    let said = elevation::answer(line);
    said == "d"@ || said == "deep"@ || said == "deep sweep"@
}

/// Takes the answer about the search, and what is told then.
pub fn sweep_answer(line: &str) -> (res: (&'static str, SweepDecision))
    ensures
        wants_sweep(line@) ==> res.0@ == ""@ && res.1 == (SweepDecision::Proceed {
            elevate_daemon: true,
        }),
        !wants_sweep(line@) ==> res.0@ == SWEEP_DECLINED_NOTE@ && res.1 == SweepDecision::Skip,
{
    let said = answer_of(line);
    if same(&said, "d") || same(&said, "deep") || same(&said, "deep sweep") {
        ("", SweepDecision::Proceed { elevate_daemon: true })
    } else {
        (SWEEP_DECLINED_NOTE, SweepDecision::Skip)
    }
}

/// How the search for stray files is run.
#[derive(Debug, Clone, Copy, PartialEq, Eq, Structural)]
pub enum GatherMode {
    /// Not at all.
    Skipped,
    /// Beside the next question, with what it tells kept for the presentation.
    Background {
        /// Whether the index daemon is started with more rights.
        elevate_daemon: bool,
    },
    /// After the next question, telling what it does.
    Foreground {
        /// Whether the index daemon is started with more rights.
        elevate_daemon: bool,
    },
}

/// How the search for stray files is run.  It begins at once, so that it does not cost time after the
/// next question, unless its details are to be read.
pub fn gather_mode(verbose: bool, sweep: SweepDecision) -> (res: GatherMode)
    ensures
        res == match sweep {
            SweepDecision::Skip => GatherMode::Skipped,
            SweepDecision::Proceed { elevate_daemon } => if verbose {
                GatherMode::Foreground { elevate_daemon }
            } else {
                GatherMode::Background { elevate_daemon }
            },
        },
{
    match sweep {
        SweepDecision::Skip => GatherMode::Skipped,
        SweepDecision::Proceed { elevate_daemon } => if verbose {
            GatherMode::Foreground { elevate_daemon }
        } else {
            GatherMode::Background { elevate_daemon }
        },
    }
}

/// What a search for stray files does now.
#[derive(Debug, Clone, Copy, PartialEq, Eq, Structural)]
pub enum GatherPhase {
    /// The drives are indexed.
    Indexing,
    /// The index is searched.
    Searching,
}

/// The line that is drawn while the search runs.
pub open spec fn gather_text(phase: GatherPhase, frame: nat) -> Seq<char> {
    "\r"@ + spinner::glyph_text(frame) + " Gathering artifacts ("@ + (match phase {
        GatherPhase::Indexing => "indexing the drives for the deep sweep"@,
        GatherPhase::Searching => "searching the drives for UFFS files"@,
    }) + ")...      "@
}

/// The line that is drawn while the search runs.
pub fn gather_line(phase: GatherPhase, frame: usize) -> (res: String)
    ensures
        res@ == gather_text(phase, frame as nat),
{
    let label = match phase {
        GatherPhase::Indexing => "indexing the drives for the deep sweep",
        GatherPhase::Searching => "searching the drives for UFFS files",
    };
    cat5("\r", spinner::glyph(frame), " Gathering artifacts (", label, ")...      ")
}

/// What erases that line.
pub open spec fn gather_erase_text() -> Seq<char> {
    "\r"@ + text::repeated(' ', 74) + "\r"@
}

/// What erases that line.
pub fn gather_erase() -> (res: String)
    ensures
        res@ == gather_erase_text(),
{
    let mut res = "\r".to_owned();
    text::push_repeated(&mut res, ' ', 74);
    res.append("\r");
    res
}

/// The erasing covers the line of every frame: it has at least as many columns.
pub proof fn law_gathering_leaves_a_clean_line(phase: GatherPhase, frame: nat)
    ensures
        gather_text(phase, frame).len() - 1 <= gather_erase_text().len() - 2,
{
    reveal_strlit("\r");
    reveal_strlit(" Gathering artifacts (");
    reveal_strlit("indexing the drives for the deep sweep");
    reveal_strlit("searching the drives for UFFS files");
    reveal_strlit(")...      ");
    spinner::lemma_glyph_is_one_char(frame);
}

/// The process id of the daemon that runs now, if one answered: zero is none.  A search may have
/// started it after the plan was made.
pub fn live_daemon(reported: Option<u32>) -> (res: Option<u32>)
    ensures
        res == match reported {
            Some(pid) if pid != 0 => Some(pid),
            _ => None,
        },
{
    match reported {
        Some(pid) => if pid != 0 {
            Some(pid)
        } else {
            None
        },
        None => None,
    }
}

// ---- consent ----

/// What is removed in the end.
#[derive(Debug, Clone, Copy, PartialEq, Eq, Structural)]
pub enum FinalChoice {
    /// The installation and the stray files.
    All,
    /// The installation only.
    CoreOnly,
    /// Nothing.
    Abort,
}

/// What the question about consent does.
#[derive(Debug)]
pub enum ConsentStep {
    /// Consent is assumed.
    Given(FinalChoice),
    /// A question with yes or no.
    Confirm(String),
    /// A question with three choices.
    Choose(String),
}

/// The question where there is an installation and no stray file.
pub const PROCEED_PROMPT: &'static str = "\nProceed with removal? [y/N] ";

/// The question where there are only stray files.
pub open spec fn extra_prompt(strays: nat) -> Seq<char> {
    "\nRemove the "@ + text::decimal(strays) + " EXTRA file(s) found elsewhere? [y/N] "@
}

/// The question where there are both.
pub open spec fn choice_prompt(strays: nat) -> Seq<char> {
    "\nRemove:\n  a = ALL   \u{2014} CORE and the "@ + text::decimal(strays)
        + " EXTRA file(s) found elsewhere\n  c = CORE  \u{2014} the standard install only (leave the EXTRA files)\n  q = ABORT \u{2014} nothing is removed\n\nChoice [a/c/Q]: "@
}

/// Asks for consent, unless it is assumed.
pub fn final_consent(args: &UninstallArgs, core: &RemovalPlan, strays: &RemovalPlan) -> (res:
    ConsentStep)
    ensures
        ({
            let count = plan::all_items(strays@).len();
            if args.assume_yes {
                res == ConsentStep::Given(FinalChoice::All)
            } else if count == 0 {
                res matches ConsentStep::Confirm(prompt) && prompt@ == PROCEED_PROMPT@
            } else if plan::all_items(core@).len() == 0 {
                res matches ConsentStep::Confirm(prompt) && prompt@ == extra_prompt(count)
            } else {
                res matches ConsentStep::Choose(prompt) && prompt@ == choice_prompt(count)
            }
        }),
{
    if args.assume_yes {
        return ConsentStep::Given(FinalChoice::All);
    }
    let count: usize = strays.item_count();
    if count == 0 {
        return ConsentStep::Confirm(PROCEED_PROMPT.to_owned());
    }
    let shown = show_u64(count as u64);
    if core.is_empty() {
        return ConsentStep::Confirm(
            cat3("\nRemove the ", &shown, " EXTRA file(s) found elsewhere? [y/N] "),
        );
    }
    ConsentStep::Choose(
        cat3(
            "\nRemove:\n  a = ALL   \u{2014} CORE and the ",
            &shown,
            " EXTRA file(s) found elsewhere\n  c = CORE  \u{2014} the standard install only (leave the EXTRA files)\n  q = ABORT \u{2014} nothing is removed\n\nChoice [a/c/Q]: ",
        ),
    )
}

/// Whether a line confirms; anything but `y` and `yes` does not.
pub open spec fn confirms(line: Seq<char>) -> bool {
    let said = elevation::answer(line);
    said == "y"@ || said == "yes"@
}

/// Whether a line confirms.
pub fn confirm(line: &str) -> (res: bool)
    ensures
        res == confirms(line@),
{
    let said = answer_of(line);
    same(&said, "y") || same(&said, "yes")
}

/// What an answer to the question with three choices stands for.
pub open spec fn chosen(line: Seq<char>) -> FinalChoice {
    let said = elevation::answer(line);
    if said == "a"@ || said == "all"@ {
        FinalChoice::All
    } else if said == "c"@ || said == "core"@ {
        FinalChoice::CoreOnly
    } else {
        FinalChoice::Abort
    }
}

/// Takes the answer to the question about consent.
pub fn consent_answer(step: &ConsentStep, line: &str) -> (res: FinalChoice)
    ensures
        res == match *step {
            ConsentStep::Given(choice) => choice,
            ConsentStep::Confirm(_) => if confirms(line@) {
                FinalChoice::All
            } else {
                FinalChoice::Abort
            },
            ConsentStep::Choose(_) => chosen(line@),
        },
{
    match step {
        ConsentStep::Given(choice) => *choice,
        ConsentStep::Confirm(_) => if confirm(line) {
            FinalChoice::All
        } else {
            FinalChoice::Abort
        },
        ConsentStep::Choose(_) => {
            let said = answer_of(line);
            if same(&said, "a") || same(&said, "all") {
                FinalChoice::All
            } else if same(&said, "c") || same(&said, "core") {
                FinalChoice::CoreOnly
            } else {
                FinalChoice::Abort
            }
        },
    }
}

// ---- the order of the flow ----

/// How the elevation prompt was answered.
#[derive(Debug, Clone, Copy, PartialEq, Eq, Structural)]
pub enum GateOutcome {
    /// There was nothing to decide.
    NotNeeded,
    /// The rights are obtained at the removal.
    ElevateLater,
    /// The items that take them were dropped.
    ContinueWithout,
}

/// How far a run has come.
#[derive(Debug, Clone, Copy)]
pub struct Progress {
    /// An earlier run did not come to its end.
    pub interrupted: bool,
    /// That was told.
    pub noted: bool,
    /// The analysis was made.
    pub analyzed: bool,
    /// The header was shown.
    pub headed: bool,
    /// What was decided about the search for stray files.
    pub sweep: Option<SweepDecision>,
    /// How the elevation prompt was answered.
    pub gate: Option<GateOutcome>,
    /// The search for stray files is over.
    pub gathered: bool,
    /// Everything was shown.
    pub presented: bool,
    /// Whether the plan of the installation is empty.
    pub core_empty: bool,
    /// Whether the plan of the stray files is empty.
    pub strays_empty: bool,
    /// What was consented to.
    pub consent: Option<FinalChoice>,
    /// The plans were carried out.
    pub executed: bool,
}

impl Progress {
    /// A run that has not begun.
    pub fn start(interrupted: bool) -> (res: Self)
        ensures
            res.interrupted == interrupted,
            !res.noted,
            !res.analyzed,
            !res.headed,
            res.sweep is None,
            res.gate is None,
            !res.gathered,
            !res.presented,
            res.core_empty,
            res.strays_empty,
            res.consent is None,
            !res.executed,
    {
        Progress {
            interrupted,
            noted: false,
            analyzed: false,
            headed: false,
            sweep: None,
            gate: None,
            gathered: false,
            presented: false,
            core_empty: true,
            strays_empty: true,
            consent: None,
            executed: false,
        }
    }
}

/// What a run does next.
#[derive(Debug, Clone, Copy, PartialEq, Eq, Structural)]
pub enum UninstallAction {
    /// Show the help and end.
    ShowHelp,
    /// Remove the service that the process was started for, and end.
    RemoveService,
    /// Tell that an earlier run did not come to its end; this one completes it.
    NoteInterrupted,
    /// Make the analysis and the plan.
    Analyze,
    /// Show the analysis as JSON and end.
    ShowJson,
    /// Show which build runs.
    ShowHeader,
    /// Decide about the search for stray files, and begin it.
    DecideSweep,
    /// Decide about the items that take Administrator rights.
    OpenGate,
    /// Wait for the search for stray files.
    Gather,
    /// Show everything.
    Present,
    /// End a dry run.
    EndDryRun,
    /// End a run that has nothing to remove.
    EndNothing,
    /// Ask for consent.
    AskConsent,
    /// End a run that was declined.
    EndAborted,
    /// Carry out the plans.
    Execute {
        /// Whether the stray files are removed too.
        remove_strays: bool,
        /// Whether rights are obtained for the items that take them.
        elevate_via_uac: bool,
    },
    /// The run is over.
    Finished,
}

/// What a run does next.
pub open spec fn next_step(platform: Platform, args: UninstallArgs, progress: Progress) -> UninstallAction {
    let sweeps = platform == Platform::Windows;
    if args.help {
        UninstallAction::ShowHelp
    } else if args.admin_helper_service is Some {
        UninstallAction::RemoveService
    } else if progress.interrupted && !progress.noted {
        UninstallAction::NoteInterrupted
    } else if !progress.analyzed {
        UninstallAction::Analyze
    } else if args.json {
        UninstallAction::ShowJson
    } else if !progress.headed {
        UninstallAction::ShowHeader
    } else if sweeps && progress.sweep is None {
        UninstallAction::DecideSweep
    } else if progress.gate is None {
        UninstallAction::OpenGate
    } else if sweeps && !progress.gathered {
        UninstallAction::Gather
    } else if !progress.presented {
        UninstallAction::Present
    } else if args.dry_run {
        UninstallAction::EndDryRun
    } else if progress.core_empty && progress.strays_empty {
        UninstallAction::EndNothing
    } else {
        match progress.consent {
            None => UninstallAction::AskConsent,
            Some(FinalChoice::Abort) => UninstallAction::EndAborted,
            Some(choice) => if progress.executed {
                UninstallAction::Finished
            } else {
                UninstallAction::Execute {
                    remove_strays: choice == FinalChoice::All && !progress.strays_empty,
                    elevate_via_uac: progress.gate == Some(GateOutcome::ElevateLater),
                }
            },
        }
    }
}

/// What a run does next.
pub fn next_action(platform: Platform, args: &UninstallArgs, progress: &Progress) -> (res:
    UninstallAction)
    ensures
        res == next_step(platform, *args, *progress),
{
    if args.help {
        return UninstallAction::ShowHelp;
    }
    if args.admin_helper_service.is_some() {
        return UninstallAction::RemoveService;
    }
    if progress.interrupted && !progress.noted {
        return UninstallAction::NoteInterrupted;
    }
    if !progress.analyzed {
        return UninstallAction::Analyze;
    }
    if args.json {
        return UninstallAction::ShowJson;
    }
    if !progress.headed {
        return UninstallAction::ShowHeader;
    }
    let sweeps = platform == Platform::Windows;
    if sweeps && progress.sweep.is_none() {
        return UninstallAction::DecideSweep;
    }
    let gate = match progress.gate {
        Some(gate) => gate,
        None => {
            return UninstallAction::OpenGate;
        },
    };
    if sweeps && !progress.gathered {
        return UninstallAction::Gather;
    }
    if !progress.presented {
        return UninstallAction::Present;
    }
    if args.dry_run {
        return UninstallAction::EndDryRun;
    }
    if progress.core_empty && progress.strays_empty {
        return UninstallAction::EndNothing;
    }
    match progress.consent {
        None => UninstallAction::AskConsent,
        Some(FinalChoice::Abort) => UninstallAction::EndAborted,
        Some(choice) => if progress.executed {
            UninstallAction::Finished
        } else {
            UninstallAction::Execute {
                remove_strays: choice == FinalChoice::All && !progress.strays_empty,
                elevate_via_uac: gate == GateOutcome::ElevateLater,
            }
        },
    }
}

/// Nothing is removed before everything was decided and shown and the removal consented to, and
/// nothing ever by a run that only shows something.  Stray files are removed only where there are
/// any and everything was consented to.
pub proof fn law_removal_comes_last(platform: Platform, args: UninstallArgs, progress: Progress)
    ensures
        next_step(platform, args, progress) matches UninstallAction::Execute {
            remove_strays,
            elevate_via_uac,
        } ==> {
            &&& !args.help && !args.json && !args.dry_run && args.admin_helper_service is None
            &&& progress.analyzed && progress.gate is Some && progress.presented
            &&& platform == Platform::Windows ==> progress.sweep is Some && progress.gathered
            &&& progress.consent == Some(FinalChoice::All) || progress.consent == Some(
                FinalChoice::CoreOnly,
            )
            &&& remove_strays ==> progress.consent == Some(FinalChoice::All)
                && !progress.strays_empty
            &&& elevate_via_uac ==> progress.gate == Some(GateOutcome::ElevateLater)
        },
{
}

/// A run that assumes consent, or changes nothing, asks nothing about the search for stray files and
/// never has the daemon started with more rights.
pub proof fn law_scripted_sweep_asks_nothing(
    args: UninstallArgs,
    coverage_complete: bool,
    elevated: bool,
    broker_serving: bool,
)
    requires
        args.assume_yes || args.dry_run,
    ensures
        sweep_step(args, coverage_complete, elevated, broker_serving) == SweepStep::Decided(
            SweepDecision::Skip,
        ) || sweep_step(args, coverage_complete, elevated, broker_serving) == SweepStep::Decided(
            SweepDecision::Proceed { elevate_daemon: false },
        ),
{
}

// ---- presentation ----

/// Everything that is shown before consent is asked for.
pub open spec fn presentation_text(
    platform: Platform,
    coverage_notes: Seq<Seq<char>>,
    inventory: Inventory,
    resolved: Seq<StemResolution>,
    strays: Seq<StrayHit>,
    core: Seq<plan::GroupView>,
    extra: Seq<plan::GroupView>,
    gate: ElevationChoice,
) -> Seq<Seq<char>> {
    let windows = platform == Platform::Windows;
    (if windows {
        coverage_notes
    } else {
        Seq::empty()
    }) + render::inventory_text(inventory) + render::resolution_text(resolved) + (if windows {
        render::extra_text(platform, strays)
    } else {
        Seq::empty()
    }) + render::plan_text(platform, core, extra) + (match gate {
        ElevationChoice::ContinueWithout(skipped) => render::skipped_text(
            text::texts(skipped@),
        ),
        ElevationChoice::ElevateLater => seq![render::UAC_NOTE@],
        ElevationChoice::NotNeeded => Seq::empty(),
    })
}

/// Everything that is shown before consent is asked for.
pub fn presentation_lines(
    platform: Platform,
    coverage_notes: Vec<String>,
    inventory: &Inventory,
    resolved: &Vec<StemResolution>,
    strays: &Vec<StrayHit>,
    core: &RemovalPlan,
    extra: &RemovalPlan,
    gate: &ElevationChoice,
) -> (res: Vec<String>)
    ensures
        text::texts(res@) == presentation_text(
            platform,
            text::texts(coverage_notes@),
            *inventory,
            resolved@,
            strays@,
            core@,
            extra@,
            *gate,
        ),
{
    let windows = platform == Platform::Windows;
    let mut res: Vec<String> = if windows {
        coverage_notes
    } else {
        Vec::new()
    };
    assert(!windows ==> text::texts(res@) =~= Seq::empty());
    push_lines(&mut res, inventory_lines(inventory));
    push_lines(&mut res, resolution_lines(resolved));
    if windows {
        push_lines(&mut res, extra_lines(platform, strays));
    }
    push_lines(&mut res, plan_lines(platform, core, extra));
    match gate {
        ElevationChoice::ContinueWithout(skipped) => {
            push_lines(&mut res, skipped_lines(skipped));
        },
        ElevationChoice::ElevateLater => {
            push_line(&mut res, render::UAC_NOTE.to_owned());
        },
        ElevationChoice::NotNeeded => {},
    }
    assert(text::texts(res@) =~= presentation_text(
        platform,
        text::texts(coverage_notes@),
        *inventory,
        resolved@,
        strays@,
        core@,
        extra@,
        *gate,
    ));
    res
}

/// What is told at the end of a dry run.
pub const DRY_RUN_FOOTER: &'static str = "\nDry run: nothing was removed.";

/// What is told when the removal was declined.
pub const ABORTED_NOTE: &'static str = "Aborted. Nothing was removed.";

/// What is told at the end of a dry run.
pub fn dry_run_lines(core: &RemovalPlan, elevated: bool) -> (res: Vec<String>)
    ensures
        text::texts(res@) == if plan::any_elevated(plan::all_items(core@)) && !elevated {
            seq![render::DRY_RUN_ELEVATION_NOTE@, DRY_RUN_FOOTER@]
        } else {
            seq![DRY_RUN_FOOTER@]
        },
{
    let mut res: Vec<String> = Vec::new();
    assert(text::texts(res@) =~= Seq::empty());
    if RemovalPlan::requires_elevation(core) && !elevated {
        push_line(&mut res, render::DRY_RUN_ELEVATION_NOTE.to_owned());
    }
    push_line(&mut res, DRY_RUN_FOOTER.to_owned());
    assert(text::texts(res@) =~= if plan::any_elevated(plan::all_items(core@)) && !elevated {
        seq![render::DRY_RUN_ELEVATION_NOTE@, DRY_RUN_FOOTER@]
    } else {
        seq![DRY_RUN_FOOTER@]
    });
    res
}

/// Why a process that was to remove a service does not, if it lacks the rights.
pub fn admin_helper_refusal(elevated: bool) -> (res: Option<&'static str>)
    ensures
        elevated ==> res is None,
        !elevated ==> res is Some && res->Some_0@
            == "--remove-service-helper must run elevated (it is spawned via a UAC prompt by `uffs --uninstall`)"@,
{
    if elevated {
        None
    } else {
        Some(
            "--remove-service-helper must run elevated (it is spawned via a UAC prompt by `uffs --uninstall`)",
        )
    }
}

// ---- carrying out ----

/// Whether some item removes the broker service.
pub open spec fn removes_service(items: Seq<plan::ItemView>) -> bool {
    exists|i: int| 0 <= i < items.len() && (#[trigger] items[i]).target is RemoveService
}

/// Whether the broker service is still there after a plan is carried out: it is now, and the plan
/// does not remove it.
pub fn broker_remains(inventory: &Inventory, core: &RemovalPlan) -> (res: bool)
    ensures
        res == (inventory.broker_service == BrokerServiceState::Installed && !removes_service(
            plan::all_items(core@),
        )),
{
    if inventory.broker_service != BrokerServiceState::Installed {
        return false;
    }
    let items = core.items();
    let ghost shown = plan::all_items(core@);
    let mut i: usize = 0;
    while i < items.len()
        invariant
            i <= items@.len(),
            shown == plan::all_items(core@),
            shown == items@.map_values(|item: &PlanItem| item@),
            forall|k: int| 0 <= k < i ==> !((#[trigger] shown[k]).target is RemoveService),
        decreases items@.len() - i,
    {
        assert(shown[i as int] == items@[i as int]@);
        if let PlanTarget::RemoveService { .. } = items[i].target {
            assert(shown[i as int].target is RemoveService);
            return false;
        }
        i += 1;
    }
    true
}

/// The directory that an item acts on, if it acts on one.
pub open spec fn dir_of(target: plan::TargetView) -> Option<Seq<char>> {
    match target {
        plan::TargetView::DeleteBinaries(dir, _) => Some(dir),
        plan::TargetView::DelegateWinget(_, _, dir) => Some(dir),
        plan::TargetView::RemovePathEntry(dir) => Some(dir),
        plan::TargetView::DeleteDir(path, _) => Some(path),
        plan::TargetView::DeleteFile(_, _) => None,
        plan::TargetView::StopProcess(_, _) => None,
        plan::TargetView::RemoveService(_) => None,
    }
}

/// The directories that items act on.
pub open spec fn dirs_of(items: Seq<plan::ItemView>) -> Seq<Seq<char>>
    decreases items.len(),
{
    if items.len() == 0 {
        Seq::empty()
    } else {
        match dir_of(items.last().target) {
            Some(dir) => dirs_of(items.drop_last()).push(dir),
            None => dirs_of(items.drop_last()),
        }
    }
}

/// The directories that a plan acts on.
pub fn plan_dirs(plan: &RemovalPlan) -> (res: Vec<String>)
    ensures
        text::texts(res@) == dirs_of(plan::all_items(plan@)),
{
    let items = plan.items();
    let ghost shown = plan::all_items(plan@);
    let mut res: Vec<String> = Vec::new();
    let mut i: usize = 0;
    proof {
        assert(shown.take(0) =~= Seq::empty());
        assert(text::texts(res@) =~= Seq::empty());
    }
    while i < items.len()
        invariant
            i <= items@.len(),
            shown == items@.map_values(|item: &PlanItem| item@),
            text::texts(res@) == dirs_of(shown.take(i as int)),
        decreases items@.len() - i,
    {
        proof {
            assert(shown.take(i + 1).drop_last() =~= shown.take(i as int));
            assert(shown.take(i + 1).last() == items@[i as int]@);
        }
        match &items[i].target {
            PlanTarget::DeleteBinaries { dir, .. } => push_line(&mut res, dir.clone()),
            PlanTarget::DelegateWinget { dir, .. } => push_line(&mut res, dir.clone()),
            PlanTarget::RemovePathEntry { dir } => push_line(&mut res, dir.clone()),
            PlanTarget::DeleteDir { path, .. } => push_line(&mut res, path.clone()),
            PlanTarget::DeleteFile { .. } => {},
            PlanTarget::StopProcess { .. } => {},
            PlanTarget::RemoveService { .. } => {},
        }
        i += 1;
    }
    assert(shown.take(i as int) =~= shown);
    res
}

/// The executables that run now and cannot be deleted in place: that of this process and the updater
/// beside it.
pub open spec fn own_binaries(platform: Platform, exe: Seq<char>) -> Seq<Seq<char>> {
    seq![exe] + match platform::parent(platform, exe) {
        Some(dir) => seq![
            platform::joined(
                platform,
                dir,
                if platform == Platform::Windows {
                    "uffs-update.exe"@
                } else {
                    "uffs-update"@
                },
            ),
        ],
        None => Seq::empty(),
    }
}

/// The executables that run now and cannot be deleted in place; none where the executable of this
/// process is not known.
pub fn self_binaries(platform: Platform, exe: &Option<String>) -> (res: Vec<String>)
    ensures
        text::texts(res@) == match *exe {
            Some(exe) => own_binaries(platform, exe@),
            None => Seq::empty(),
        },
{
    let mut res: Vec<String> = Vec::new();
    assert(text::texts(res@) =~= Seq::empty());
    if let Some(exe) = exe {
        push_line(&mut res, exe.clone());
        if let Some(dir) = parent_of(platform, exe) {
            let updater = if platform == Platform::Windows {
                "uffs-update.exe"
            } else {
                "uffs-update"
            };
            push_line(&mut res, join_path(platform, &dir, updater));
        }
        assert(text::texts(res@) =~= own_binaries(platform, exe@));
    }
    res
}

/// Whether some path lies in a directory.
pub open spec fn any_in(platform: Platform, paths: Seq<Seq<char>>, dir: Seq<char>) -> bool {
    exists|i: int| 0 <= i < paths.len() && platform::lies_in(platform, #[trigger] paths[i], dir)
}

/// The directories in which none of the paths lies.
pub open spec fn without(platform: Platform, dirs: Seq<Seq<char>>, paths: Seq<Seq<char>>) -> Seq<
    Seq<char>,
>
    decreases dirs.len(),
{
    if dirs.len() == 0 {
        Seq::empty()
    } else if any_in(platform, paths, dirs.last()) {
        without(platform, dirs.drop_last(), paths)
    } else {
        without(platform, dirs.drop_last(), paths).push(dirs.last())
    }
}

/// The places that are looked at again after a run: the directories of the plan, but for those that
/// hold executables which run now.
pub fn places_to_check(platform: Platform, plan: &RemovalPlan, self_paths: &Vec<String>) -> (res: Vec<
    String,
>)
    ensures
        text::texts(res@) == without(
            platform,
            dirs_of(plan::all_items(plan@)),
            text::texts(self_paths@),
        ),
{
    let dirs = plan_dirs(plan);
    let ghost shown = text::texts(dirs@);
    let ghost paths = text::texts(self_paths@);
    let mut res: Vec<String> = Vec::new();
    let mut i: usize = 0;
    proof {
        assert(shown.take(0) =~= Seq::empty());
        assert(text::texts(res@) =~= Seq::empty());
    }
    while i < dirs.len()
        invariant
            i <= dirs@.len(),
            shown == text::texts(dirs@),
            paths == text::texts(self_paths@),
            text::texts(res@) == without(platform, shown.take(i as int), paths),
        decreases dirs@.len() - i,
    {
        let dir = &dirs[i];
        proof {
            assert(shown.take(i + 1).drop_last() =~= shown.take(i as int));
            assert(shown.take(i + 1).last() == dir@);
        }
        let mut held = false;
        let mut k: usize = 0;
        while k < self_paths.len()
            invariant
                k <= self_paths@.len(),
                paths == text::texts(self_paths@),
                held == exists|j: int|
                    0 <= j < k && platform::lies_in(platform, #[trigger] paths[j], dir@),
            decreases self_paths@.len() - k,
        {
            assert(paths[k as int] == self_paths@[k as int]@);
            if is_in(platform, &self_paths[k], dir) {
                assert(platform::lies_in(platform, paths[k as int], dir@));
                held = true;
            }
            k += 1;
        }
        assert(held == any_in(platform, paths, dir@));
        if !held {
            push_line(&mut res, dir.clone());
        }
        i += 1;
    }
    assert(shown.take(i as int) =~= shown);
    res
}

/// Carries out the plan of the installation and, if asked, that of the stray files, as one outcome.
pub fn execute_all<E: Effects>(
    platform: Platform,
    core: &RemovalPlan,
    strays: &RemovalPlan,
    remove_strays: bool,
    broker_remains: bool,
    effects: &mut E,
) -> (res: RemovalOutcome)
    ensures
        ({
            let items = plan::all_items(core@);
            let extra = plan::all_items(strays@);
            let first = res.attempts@.take(items.len() as int);
            let second = res.attempts@.skip(items.len() as int);
            &&& remove::attempted(items, broker_remains, first)
            &&& final(effects).made() == old(effects).made() + remove::calls_of(res.attempts@)
            &&& if remove_strays {
                &&& remove::attempted(extra, false, second)
                &&& res.entries() == remove::recorded_over(platform, items, broker_remains, first)
                    + remove::recorded_over(platform, extra, false, second)
            } else {
                &&& second.len() == 0
                &&& res.entries() == remove::recorded_over(platform, items, broker_remains, first)
            }
        }),
{
    let mut outcome = RemovalOutcome::default();
    let ghost items = plan::all_items(core@);
    if !core.is_empty() {
        outcome.absorb(execute(platform, core, effects, broker_remains));
    }
    let ghost first = outcome.attempts@;
    proof {
        assert(remove::attempted(items, broker_remains, first));
        assert(effects.made() =~= old(effects).made() + remove::calls_of(first));
        assert(outcome.entries() =~= remove::recorded_over(platform, items, broker_remains, first));
    }
    if remove_strays {
        let extra = execute(platform, strays, effects, false);
        let ghost second = extra.attempts@;
        outcome.absorb(extra);
        proof {
            remove::lemma_calls_concat(first, second);
            assert(effects.made() =~= old(effects).made() + remove::calls_of(outcome.attempts@));
        }
        assert(outcome.attempts@.skip(items.len() as int) =~= second);
    }
    assert(outcome.attempts@.take(items.len() as int) =~= first);
    outcome
}

/// What is told after the plans were carried out.
pub open spec fn report_text(
    entries: Seq<remove::EntryView>,
    strays: nat,
    remove_strays: bool,
) -> Seq<Seq<char>> {
    (if entries.len() > 0 {
        render::outcome_text(entries)
    } else {
        Seq::empty()
    }) + (if strays > 0 && !remove_strays {
        seq![render::STRAYS_KEPT@]
    } else {
        Seq::empty()
    })
}

/// What is told after the plans were carried out.
pub fn report_lines(outcome: &RemovalOutcome, strays: &RemovalPlan, remove_strays: bool) -> (res: Vec<
    String,
>)
    ensures
        text::texts(res@) == report_text(
            outcome.entries(),
            plan::all_items(strays@).len(),
            remove_strays,
        ),
{
    let mut res: Vec<String> = Vec::new();
    assert(text::texts(res@) =~= Seq::empty());
    if !outcome.is_empty() {
        push_lines(&mut res, outcome_lines(outcome));
    }
    if !strays.is_empty() && !remove_strays {
        push_line(&mut res, render::STRAYS_KEPT.to_owned());
    }
    assert(text::texts(res@) =~= report_text(
        outcome.entries(),
        plan::all_items(strays@).len(),
        remove_strays,
    ));
    res
}

/// How many bytes files take together, at most `u64::MAX`; an unknown one takes none.
pub open spec fn bytes_of(sizes: Seq<Option<u64>>) -> nat
    decreases sizes.len(),
{
    if sizes.len() == 0 {
        0
    } else {
        let sum = bytes_of(sizes.drop_last()) + match sizes.last() {
            Some(size) => size as nat,
            None => 0,
        };
        if sum > u64::MAX {
            u64::MAX as nat
        } else {
            sum
        }
    }
}

/// How many bytes the executables in a directory take, by the sizes of those that could be read.
pub fn binary_dir_bytes(sizes: &Vec<Option<u64>>) -> (res: u64)
    ensures
        res == bytes_of(sizes@),
{
    let mut sum: u64 = 0;
    let mut i: usize = 0;
    assert(sizes@.take(0) =~= Seq::empty());
    while i < sizes.len()
        invariant
            i <= sizes@.len(),
            sum == bytes_of(sizes@.take(i as int)),
        decreases sizes@.len() - i,
    {
        assert(sizes@.take(i + 1).drop_last() =~= sizes@.take(i as int));
        if let Some(size) = sizes[i] {
            sum = sum.saturating_add(size);
        }
        i += 1;
    }
    assert(sizes@.take(i as int) =~= sizes@);
    sum
}

/// The search for stray files: it is left out where that is asked for; it goes on without more
/// rights where the daemon covers everything or can be started; a run that asks nothing leaves it
/// out; and else it is asked about.
pub proof fn law_when_stray_files_are_searched(
    args: &UninstallArgs,
    complete: bool,
    elevated: bool,
    serving: bool,
    res: (Option<&'static str>, SweepStep),
)
    requires
        call_ensures(sweep_decision, (args, complete, elevated, serving), res),
    ensures
        ({
            let can = complete || elevated || serving;
            let mute = args.dry_run || args.assume_yes;
            &&& res.1 is Ask <==> !args.no_deep_sweep && !can && !mute
            &&& res.1 == SweepStep::Decided(SweepDecision::Skip) <==> args.no_deep_sweep || (!can
                && mute)
            &&& res.1 == SweepStep::Decided(SweepDecision::Proceed { elevate_daemon: false })
                <==> !args.no_deep_sweep && can
            &&& res.0 is Some <==> !args.no_deep_sweep && !can
        }),
{
}

/// How lines are understood: without the white space around them, whatever the case of the letters,
/// and only the offered words mean anything; anything else removes nothing and searches nothing.
pub proof fn law_only_the_offered_words_count(
    line: &str,
    sweep: (&'static str, SweepDecision),
    yes: bool,
    prompt: String,
    confirmed: FinalChoice,
    picked: FinalChoice,
    given: FinalChoice,
    kept: FinalChoice,
)
    requires
        call_ensures(sweep_answer, (line,), sweep),
        call_ensures(confirm, (line,), yes),
        call_ensures(consent_answer, (&ConsentStep::Confirm(prompt), line), confirmed),
        call_ensures(consent_answer, (&ConsentStep::Choose(prompt), line), picked),
        call_ensures(consent_answer, (&ConsentStep::Given(given), line), kept),
    ensures
        ({
            let said = text::lowered(text::trimmed(line@));
            &&& sweep.1 == (SweepDecision::Proceed { elevate_daemon: true }) <==> said == "d"@ || said
                == "deep"@ || said == "deep sweep"@
            &&& sweep.1 == SweepDecision::Skip <==> !(said == "d"@ || said == "deep"@ || said
                == "deep sweep"@)
            &&& yes <==> said == "y"@ || said == "yes"@
            &&& confirmed == FinalChoice::All <==> yes
            &&& confirmed == FinalChoice::Abort <==> !yes
            &&& picked == FinalChoice::All <==> said == "a"@ || said == "all"@
            &&& picked == FinalChoice::CoreOnly <==> said == "c"@ || said == "core"@
            &&& kept == given
        }),
{
    reveal_strlit("a");
    reveal_strlit("c");
    reveal_strlit("all");
    reveal_strlit("core");
    assert("a"@[0] != "c"@[0]);
    assert("a"@.len() == 1 && "c"@.len() == 1 && "all"@.len() == 3 && "core"@.len() == 4);
}

/// What is asked last: nothing where consent is assumed; whether to go on where there are no stray
/// files, or nothing else; and else which of the two is removed.
pub proof fn law_what_is_asked_last(
    args: &UninstallArgs,
    core: &RemovalPlan,
    strays: &RemovalPlan,
    res: ConsentStep,
)
    requires
        call_ensures(final_consent, (args, core, strays), res),
    ensures
        ({
            let extra = plan::all_items(strays@).len();
            let main = plan::all_items(core@).len();
            &&& args.assume_yes <==> res is Given
            &&& res matches ConsentStep::Given(choice) ==> choice == FinalChoice::All
            &&& res is Choose <==> !args.assume_yes && extra > 0 && main > 0
            &&& res is Confirm <==> !args.assume_yes && (extra == 0 || main == 0)
        }),
{
}

/// A removal goes its way step by step, and each step only while it is still to do: nothing is asked
/// or shown twice.
pub proof fn law_the_way_of_a_removal(
    platform: Platform,
    args: &UninstallArgs,
    progress: &Progress,
    res: UninstallAction,
)
    requires
        call_ensures(next_action, (platform, args, progress), res),
    ensures
        args.help <==> res is ShowHelp,
        res is RemoveService <==> !args.help && args.admin_helper_service is Some,
        res is NoteInterrupted ==> progress.interrupted && !progress.noted,
        res is Analyze ==> !progress.analyzed,
        res is ShowJson ==> args.json && progress.analyzed,
        res is ShowHeader ==> !progress.headed && progress.analyzed && !args.json,
        res is DecideSweep ==> progress.sweep is None && platform == Platform::Windows
            && progress.headed,
        res is OpenGate ==> progress.gate is None && progress.headed,
        res is Gather ==> !progress.gathered && platform == Platform::Windows && progress.sweep
            is Some && progress.gate is Some,
        res is Present ==> !progress.presented && progress.gate is Some,
        res is EndDryRun ==> args.dry_run && progress.presented,
        res is EndNothing ==> progress.presented && progress.core_empty && progress.strays_empty
            && !args.dry_run,
        res is AskConsent ==> progress.consent is None && progress.presented && !args.dry_run,
        res is EndAborted ==> progress.consent == Some(FinalChoice::Abort),
        res is Finished ==> progress.executed,
        ({
            let ready = !args.help && args.admin_helper_service is None && !(progress.interrupted
                && !progress.noted) && progress.analyzed && !args.json && progress.headed
                && progress.gate is Some && progress.presented && (platform == Platform::Windows
                ==> progress.sweep is Some && progress.gathered);
            let decided = ready && !args.dry_run && !(progress.core_empty && progress.strays_empty);
            &&& ready && args.dry_run ==> res is EndDryRun
            &&& decided && progress.consent is None ==> res is AskConsent
            &&& decided && progress.consent == Some(FinalChoice::Abort) ==> res is EndAborted
            &&& decided && progress.consent == Some(FinalChoice::All) && !progress.executed ==> res
                == (UninstallAction::Execute {
                remove_strays: !progress.strays_empty,
                elevate_via_uac: progress.gate == Some(GateOutcome::ElevateLater),
            })
            &&& decided && progress.consent == Some(FinalChoice::CoreOnly) && !progress.executed
                ==> res == (UninstallAction::Execute {
                remove_strays: false,
                elevate_via_uac: progress.gate == Some(GateOutcome::ElevateLater),
            })
        }),
{
}

/// The broker service stays exactly where it is there and no item of the plan removes it.
pub proof fn law_when_the_broker_is_kept(inventory: &Inventory, core: &RemovalPlan, res: bool, i: int)
    requires
        call_ensures(broker_remains, (inventory, core), res),
    ensures
        ({
            let items = plan::all_items(core@);
            &&& inventory.broker_service != BrokerServiceState::Installed ==> !res
            &&& 0 <= i < items.len() && items[i].target is RemoveService ==> !res
            &&& inventory.broker_service == BrokerServiceState::Installed && (forall|k: int|
                0 <= k < items.len() ==> !((#[trigger] items[k]).target is RemoveService)) ==> res
        }),
{
}

/// The places of a plan are those of its items, in their order: the directory of executables, of what
/// is handed to WinGet, of what leaves PATH and of what is deleted; processes, services and single
/// files have none.
pub proof fn law_the_places_of_a_plan(a: Seq<plan::ItemView>, b: Seq<plan::ItemView>, one: plan::ItemView)
    ensures
        dirs_of(a + b) == dirs_of(a) + dirs_of(b),
        dirs_of(seq![one]) == (match one.target {
            plan::TargetView::DeleteBinaries(dir, _) => seq![dir],
            plan::TargetView::DelegateWinget(_, _, dir) => seq![dir],
            plan::TargetView::RemovePathEntry(dir) => seq![dir],
            plan::TargetView::DeleteDir(dir, _) => seq![dir],
            _ => Seq::empty(),
        }),
    decreases b.len(),
{
    reveal_with_fuel(dirs_of, 2);
    assert(seq![one].drop_last() =~= Seq::empty());
    assert(dirs_of(seq![one]) =~= (match one.target {
        plan::TargetView::DeleteBinaries(dir, _) => seq![dir],
        plan::TargetView::DelegateWinget(_, _, dir) => seq![dir],
        plan::TargetView::RemovePathEntry(dir) => seq![dir],
        plan::TargetView::DeleteDir(dir, _) => seq![dir],
        _ => Seq::empty(),
    }));
    if b.len() == 0 {
        assert(a + b =~= a);
        assert(dirs_of(a + b) =~= dirs_of(a) + dirs_of(b));
    } else {
        law_the_places_of_a_plan(a, b.drop_last(), one);
        assert((a + b).drop_last() =~= a + b.drop_last());
        assert((a + b).last() == b.last());
        assert(dirs_of(a + b) =~= dirs_of(a) + dirs_of(b));
    }
}

/// The places that are looked at after a removal are those of the plan in which none of the
/// executables that delete themselves later lies, in their order.
pub proof fn law_own_places_are_not_checked(
    platform: Platform,
    plan: &RemovalPlan,
    self_paths: &Vec<String>,
    res: Vec<String>,
)
    requires
        call_ensures(places_to_check, (platform, plan, self_paths), res),
    ensures
        text::texts(res@) == dirs_of(plan::all_items(plan@)).filter(
            |dir: Seq<char>|
                forall|i: int|
                    0 <= i < self_paths@.len() ==> !platform::lies_in(
                        platform,
                        (#[trigger] self_paths@[i])@,
                        dir,
                    ),
        ),
{
    let dirs = dirs_of(plan::all_items(plan@));
    let free = |dir: Seq<char>|
        forall|i: int|
            0 <= i < self_paths@.len() ==> !platform::lies_in(
                platform,
                (#[trigger] self_paths@[i])@,
                dir,
            );
    lemma_without(platform, dirs, self_paths@, free);
}

proof fn lemma_without(
    platform: Platform,
    dirs: Seq<Seq<char>>,
    paths: Seq<String>,
    free: spec_fn(Seq<char>) -> bool,
)
    requires
        forall|dir: Seq<char>| #[trigger]
            free(dir) == forall|i: int|
                0 <= i < paths.len() ==> !platform::lies_in(
                    platform,
                    (#[trigger] paths[i])@,
                    dir,
                ),
    ensures
        without(platform, dirs, text::texts(paths)) == dirs.filter(free),
    decreases dirs.len(),
{
    reveal(Seq::filter);
    if dirs.len() > 0 {
        lemma_without(platform, dirs.drop_last(), paths, free);
        let dir = dirs.last();
        let shown = text::texts(paths);
        assert(forall|i: int| 0 <= i < paths.len() ==> #[trigger] shown[i] == paths[i]@);
        if any_in(platform, shown, dir) {
            let i = choose|i: int|
                0 <= i < shown.len() && platform::lies_in(platform, #[trigger] shown[i], dir);
            assert(platform::lies_in(platform, paths[i]@, dir));
            assert(!free(dir));
        } else {
            assert forall|i: int| 0 <= i < paths.len() implies !platform::lies_in(
                platform,
                (#[trigger] paths[i])@,
                dir,
            ) by {
                assert(shown[i] == paths[i]@);
            }
            assert(free(dir));
        }
    }
    assert(without(platform, dirs, text::texts(paths)) =~= dirs.filter(free));
}

/// The executables that delete themselves later are this program and the updater beside it.
pub proof fn law_own_executables(platform: Platform, exe: &Option<String>, res: Vec<String>)
    requires
        call_ensures(self_binaries, (platform, exe), res),
    ensures
        *exe is None ==> res@.len() == 0,
        exe matches Some(path) ==> {
            &&& res@.len() >= 1
            &&& res@[0]@ == path@
            &&& platform::parent(platform, path@) matches Some(dir) ==> res@.len() == 2
                && res@[1]@ == platform::joined(
                platform,
                dir,
                if platform == Platform::Windows {
                    "uffs-update.exe"@
                } else {
                    "uffs-update"@
                },
            )
            &&& platform::parent(platform, path@) is None ==> res@.len() == 1
        },
{
    let list = text::texts(res@);
    assert(list.len() == res@.len());
    assert(forall|i: int| 0 <= i < res@.len() ==> #[trigger] list[i] == res@[i]@);
    if *exe is Some {
        assert(list[0] == res@[0]@);
        if list.len() == 2 {
            assert(list[1] == res@[1]@);
        }
    }
}

/// The size of executables is the sum of those that are there, as far as a number can hold it.
pub proof fn law_sizes_add_up(sizes: Seq<Option<u64>>, size: u64)
    ensures
        bytes_of(Seq::empty()) == 0,
        bytes_of(sizes.push(None)) == bytes_of(sizes),
        bytes_of(sizes.push(Some(size))) == (if bytes_of(sizes) + size <= u64::MAX {
            bytes_of(sizes) + size
        } else {
            u64::MAX as int
        }),
        bytes_of(sizes) <= u64::MAX,
{
    assert(sizes.push(None).drop_last() =~= sizes);
    assert(sizes.push(Some(size)).drop_last() =~= sizes);
}

/// What was found is searched in the background unless everything is to be shown, and not at all
/// where the search was left out; a daemon without an id counts as none.
pub proof fn law_how_stray_files_are_searched(
    verbose: bool,
    elevate_daemon: bool,
    left_out: GatherMode,
    found: GatherMode,
    reported: Option<u32>,
    live: Option<u32>,
)
    requires
        call_ensures(gather_mode, (verbose, SweepDecision::Skip), left_out),
        call_ensures(gather_mode, (verbose, SweepDecision::Proceed { elevate_daemon }), found),
        call_ensures(live_daemon, (reported,), live),
    ensures
        left_out is Skipped,
        verbose ==> found == (GatherMode::Foreground { elevate_daemon }),
        !verbose ==> found == (GatherMode::Background { elevate_daemon }),
        live matches Some(pid) ==> pid != 0 && reported == Some(pid),
        reported matches Some(pid) ==> (pid != 0 ==> live == Some(pid)),
{
}

/// A dry run tells that it removed nothing, and before that that more rights would be needed, exactly
/// where some item takes them and the terminal has none.  After a run, that stray files were kept is
/// told exactly where there are some and they were not removed.
pub proof fn law_what_the_end_tells(
    core: &RemovalPlan,
    elevated: bool,
    dry: Vec<String>,
    outcome: &RemovalOutcome,
    strays: &RemovalPlan,
    remove_strays: bool,
    told: Vec<String>,
)
    requires
        call_ensures(dry_run_lines, (core, elevated), dry),
        call_ensures(report_lines, (outcome, strays, remove_strays), told),
    ensures
        dry@.len() > 0,
        dry@[dry@.len() - 1]@ == "\nDry run: nothing was removed."@,
        dry@.len() == 2 <==> !elevated && exists|i: int|
            0 <= i < plan::all_items(core@).len() && (#[trigger] plan::all_items(
                core@,
            )[i]).needs_elevation,
        ({
            let kept = plan::all_items(strays@).len() > 0 && !remove_strays;
            let lines = text::texts(told@);
            &&& kept ==> lines.len() > 0 && lines.last() == render::STRAYS_KEPT@
            &&& outcome.results@.len() == 0 ==> lines.len() == (if kept {
                1nat
            } else {
                0
            })
        }),
{
    let list = text::texts(dry@);
    assert(list.len() == dry@.len());
    assert(list[list.len() - 1] == dry@[dry@.len() - 1]@);
    assert(outcome.entries().len() == outcome.results@.len());
}

} // verus!
