//! Carrying out a removal plan.
//!
//! The plan is walked in order, and each item becomes one call of an [`Effects`] implementation.  An
//! item that fails is recorded and the rest still runs, so that one locked file never strands the
//! cleanup.

use super::effects;
use super::effects::exe_file_name;
use super::plan;
use super::plan::{PlanItem, PlanTarget, RemovalPlan};
use crate::model::Scope;
use crate::platform::Platform;
use crate::text;
use crate::text::{cat3, eq_ignore_ascii_case, show_u64};
use vstd::prelude::*;

verus! {

/// The rights that an item needs were declined at the prompt.
#[derive(Debug)]
pub struct ElevationDeclined;

impl ElevationDeclined {
    /// The diagnostic text.
    pub open spec fn text() -> Seq<char> {
        "elevation was declined at the UAC prompt"@
    }

    /// The diagnostic text.
    pub fn message(&self) -> (res: &'static str)
        ensures
            res@ == Self::text(),
    {
        "elevation was declined at the UAC prompt"
    }
}

/// Why an effect did not take place.
#[derive(Debug)]
pub enum EffectError {
    /// The rights it needs were declined.
    Declined(ElevationDeclined),
    /// It failed, with the text of the error.
    Failed(String),
}

/// Why the broker service is left when its removal was declined.
pub const BROKER_SERVICE_LEFT: &'static str =
    "the Access Broker (a LocalSystem service) needs Administrator";

/// Why the broker executable is left: its service still runs and locks it.
pub const BROKER_BINARY_LEFT: &'static str = "the Access Broker service is still running";

/// What came back from an effect.
#[verifier::ext_equal]
pub enum ReplyView {
    /// It took place.
    Done,
    /// The rights it needs were declined.
    Declined,
    /// It failed, with the text of the error.
    Failed(Seq<char>),
}

/// What came back from an effect.
pub open spec fn reply_view(reply: Result<(), EffectError>) -> ReplyView {
    match reply {
        Ok(()) => ReplyView::Done,
        Err(EffectError::Declined(_)) => ReplyView::Declined,
        Err(EffectError::Failed(error)) => ReplyView::Failed(error@),
    }
}

/// One call of an effect, with its arguments.
#[verifier::ext_equal]
pub enum EffectView {
    /// [`Effects::stop_process`].
    StopProcess(Seq<char>, u32),
    /// [`Effects::remove_service`].
    RemoveService(Seq<char>),
    /// [`Effects::delete_binaries`].
    DeleteBinaries(Seq<char>, Seq<Seq<char>>),
    /// [`Effects::delete_file`].
    DeleteFile(Seq<char>),
    /// [`Effects::delegate_winget`].
    DelegateWinget(Seq<char>, Scope),
    /// [`Effects::remove_dir`].
    RemoveDir(Seq<char>),
    /// [`Effects::remove_path_entry`].
    RemovePathEntry(Seq<char>),
}

/// The effects that carry out a plan.
///
/// Each method adds one entry to what was made.  Nothing is promised of what comes back.
pub trait Effects {
    /// The calls that were made so far, the earliest first, and what came back from each.  Effects
    /// that are themselves verified give their own; nothing is known of the one given here.
    closed spec fn made(&self) -> Seq<(EffectView, ReplyView)> {
        arbitrary()
    }

    /// Stops a running process.
    fn stop_process(&mut self, component: &str, pid: u32) -> (res: Result<(), EffectError>)
        ensures
            final(self).made() == old(self).made().push(
                (EffectView::StopProcess(component@, pid), reply_view(res)),
            ),
    ;

    /// Stops and deletes a service.
    fn remove_service(&mut self, service: &str) -> (res: Result<(), EffectError>)
        ensures
            final(self).made() == old(self).made().push(
                (EffectView::RemoveService(service@), reply_view(res)),
            ),
    ;

    /// Deletes executables in a directory; an absent one is no failure.
    fn delete_binaries(&mut self, dir: &str, stems: &[String]) -> (res: Result<(), EffectError>)
        ensures
            final(self).made() == old(self).made().push(
                (EffectView::DeleteBinaries(dir@, text::texts(stems@)), reply_view(res)),
            ),
    ;

    /// Deletes one file; an absent one is no failure.
    fn delete_file(&mut self, path: &str) -> (res: Result<(), EffectError>)
        ensures
            final(self).made() == old(self).made().push(
                (EffectView::DeleteFile(path@), reply_view(res)),
            ),
    ;

    /// Hands a managed root to WinGet.
    fn delegate_winget(&mut self, package_id: &str, scope: Scope) -> (res: Result<(), EffectError>)
        ensures
            final(self).made() == old(self).made().push(
                (EffectView::DelegateWinget(package_id@, scope), reply_view(res)),
            ),
    ;

    /// Deletes a directory with everything in it; an absent one is no failure.
    fn remove_dir(&mut self, path: &str) -> (res: Result<(), EffectError>)
        ensures
            final(self).made() == old(self).made().push(
                (EffectView::RemoveDir(path@), reply_view(res)),
            ),
    ;

    /// Removes a directory from PATH.
    fn remove_path_entry(&mut self, dir: &str) -> (res: Result<(), EffectError>)
        ensures
            final(self).made() == old(self).made().push(
                (EffectView::RemovePathEntry(dir@), reply_view(res)),
            ),
    ;
}

// ---- outcomes ----

/// What became of an item.
#[derive(Debug, Clone, PartialEq, Eq)]
pub enum ItemStatus {
    /// It is gone, or was absent.
    Done,
    /// It failed, with the text of the error.
    Failed(String),
    /// It was left in place on purpose, with the reason.
    Skipped(String),
}

/// The contents of an [`ItemStatus`].
#[verifier::ext_equal]
pub enum StatusView {
    /// It is gone, or was absent.
    Done,
    /// It failed, with the text of the error.
    Failed(Seq<char>),
    /// It was left in place on purpose, with the reason.
    Skipped(Seq<char>),
}

impl View for ItemStatus {
    type V = StatusView;

    open spec fn view(&self) -> StatusView {
        match *self {
            ItemStatus::Done => StatusView::Done,
            ItemStatus::Failed(error) => StatusView::Failed(error@),
            ItemStatus::Skipped(reason) => StatusView::Skipped(reason@),
        }
    }
}

/// What was recorded: a description and what became of it.
#[verifier::ext_equal]
pub struct EntryView {
    /// What was to be removed.
    pub description: Seq<char>,
    /// What became of it.
    pub status: StatusView,
}

/// The contents of what was recorded.
pub open spec fn entry_views(results: Seq<(String, ItemStatus)>) -> Seq<EntryView> {
    results.map_values(
        |entry: (String, ItemStatus)| EntryView { description: entry.0@, status: entry.1@ },
    )
}

/// What an item of a plan led to: the call that was made for it, if one was, and what came back.
#[verifier::ext_equal]
pub struct Attempt {
    /// The call.
    pub call: Option<EffectView>,
    /// What came back; done where no call was made.
    pub reply: ReplyView,
}

/// The calls among attempts, each with what came back from it.
pub open spec fn calls_of(attempts: Seq<Attempt>) -> Seq<(EffectView, ReplyView)>
    decreases attempts.len(),
{
    if attempts.len() == 0 {
        Seq::empty()
    } else {
        let before = calls_of(attempts.drop_last());
        match attempts.last().call {
            Some(call) => before.push((call, attempts.last().reply)),
            None => before,
        }
    }
}

/// The calls of two runs of attempts.
pub proof fn lemma_calls_concat(a: Seq<Attempt>, b: Seq<Attempt>)
    ensures
        calls_of(a + b) == calls_of(a) + calls_of(b),
    decreases b.len(),
{
    if b.len() == 0 {
        assert(a + b =~= a);
    } else {
        assert((a + b).drop_last() =~= a + b.drop_last());
        lemma_calls_concat(a, b.drop_last());
    }
}

/// The result of carrying out plans.
pub struct RemovalOutcome {
    /// A description and what became of it, in the order of removal.
    pub results: Vec<(String, ItemStatus)>,
    /// What each item led to, in the order of removal.
    pub attempts: Ghost<Seq<Attempt>>,
}

impl Default for RemovalOutcome {
    fn default() -> (res: Self)
        ensures
            res.entries() == Seq::<EntryView>::empty(),
            res.attempts@ == Seq::<Attempt>::empty(),
    {
        let res = RemovalOutcome { results: Vec::new(), attempts: Ghost(Seq::empty()) };
        assert(res.entries() =~= Seq::empty());
        res
    }
}

/// How many entries are done.
pub open spec fn done_in(entries: Seq<EntryView>) -> nat
    decreases entries.len(),
{
    if entries.len() == 0 {
        0
    } else {
        done_in(entries.drop_last()) + if entries.last().status is Done {
            1nat
        } else {
            0
        }
    }
}

/// How many entries failed.
pub open spec fn failed_in(entries: Seq<EntryView>) -> nat
    decreases entries.len(),
{
    if entries.len() == 0 {
        0
    } else {
        failed_in(entries.drop_last()) + if entries.last().status is Failed {
            1nat
        } else {
            0
        }
    }
}

/// How many entries were left on purpose.
pub open spec fn skipped_in(entries: Seq<EntryView>) -> nat
    decreases entries.len(),
{
    if entries.len() == 0 {
        0
    } else {
        skipped_in(entries.drop_last()) + if entries.last().status is Skipped {
            1nat
        } else {
            0
        }
    }
}

/// Every entry is counted exactly once: as done, as failed or as left.
pub proof fn law_every_entry_is_counted_once(entries: Seq<EntryView>)
    ensures
        done_in(entries) + failed_in(entries) + skipped_in(entries) == entries.len(),
    decreases entries.len(),
{
    if entries.len() > 0 {
        law_every_entry_is_counted_once(entries.drop_last());
    }
}

impl RemovalOutcome {
    /// What was recorded.
    pub open spec fn entries(self) -> Seq<EntryView> {
        entry_views(self.results@)
    }

    fn record(&mut self, description: String, status: ItemStatus)
        ensures
            final(self).entries() == old(self).entries().push(
                EntryView { description: description@, status: status@ },
            ),
            final(self).attempts@ == old(self).attempts@,
    {
        let ghost before = self.entries();
        self.results.push((description, status));
        assert(self.entries() =~= before.push(
            EntryView { description: description@, status: status@ },
        ));
    }

    /// Appends what another outcome recorded.
    pub fn absorb(&mut self, other: Self)
        ensures
            final(self).entries() == old(self).entries() + other.entries(),
            final(self).attempts@ == old(self).attempts@ + other.attempts@,
    {
        let ghost before = self.entries();
        let ghost more = other.entries();
        let ghost attempts = other.attempts@;
        let mut results = other.results;
        self.results.append(&mut results);
        assert(self.entries() =~= before + more);
        self.attempts = Ghost(self.attempts@ + attempts);
    }

    /// Whether nothing was recorded.
    pub fn is_empty(&self) -> (res: bool)
        ensures
            res == (self.entries().len() == 0),
    {
        self.results.len() == 0
    }

    /// How many items are gone.
    pub fn done_count(&self) -> (res: usize)
        ensures
            res == done_in(self.entries()),
    {
        let mut count: usize = 0;
        let mut i: usize = 0;
        while i < self.results.len()
            invariant
                i <= self.results@.len(),
                count == done_in(self.entries().take(i as int)),
                count <= i,
            decreases self.results@.len() - i,
        {
            assert(self.entries().take(i + 1).drop_last() =~= self.entries().take(i as int));
            if let ItemStatus::Done = self.results[i].1 {
                count += 1;
            }
            i += 1;
        }
        assert(self.entries().take(i as int) =~= self.entries());
        count
    }

    /// How many items failed.
    pub fn failed_count(&self) -> (res: usize)
        ensures
            res == failed_in(self.entries()),
    {
        let mut count: usize = 0;
        let mut i: usize = 0;
        while i < self.results.len()
            invariant
                i <= self.results@.len(),
                count == failed_in(self.entries().take(i as int)),
                count <= i,
            decreases self.results@.len() - i,
        {
            assert(self.entries().take(i + 1).drop_last() =~= self.entries().take(i as int));
            if let ItemStatus::Failed(_) = self.results[i].1 {
                count += 1;
            }
            i += 1;
        }
        assert(self.entries().take(i as int) =~= self.entries());
        count
    }

    /// How many items were left on purpose.
    pub fn skipped_count(&self) -> (res: usize)
        ensures
            res == skipped_in(self.entries()),
    {
        let mut count: usize = 0;
        let mut i: usize = 0;
        while i < self.results.len()
            invariant
                i <= self.results@.len(),
                count == skipped_in(self.entries().take(i as int)),
                count <= i,
            decreases self.results@.len() - i,
        {
            assert(self.entries().take(i + 1).drop_last() =~= self.entries().take(i as int));
            if let ItemStatus::Skipped(_) = self.results[i].1 {
                count += 1;
            }
            i += 1;
        }
        assert(self.entries().take(i as int) =~= self.entries());
        count
    }

    /// Whether nothing failed and nothing was left.
    pub fn is_clean(&self) -> (res: bool)
        ensures
            res == (failed_in(self.entries()) == 0 && skipped_in(self.entries()) == 0),
    {
        self.failed_count() == 0 && self.skipped_count() == 0
    }
}

// ---- the walk ----

/// Whether a name is that of the broker executable, which is locked while its service runs.
pub open spec fn broker_stem(stem: Seq<char>) -> bool {
    text::lowered(stem) == text::lowered("uffs-broker"@)
}

/// Whether a name is that of the broker executable.
pub fn is_broker_stem(stem: &str) -> (res: bool)
    ensures
        res == broker_stem(stem@),
{
    eq_ignore_ascii_case(stem, "uffs-broker")
}

/// The names that are those of the broker executable, or the others.
pub open spec fn chosen(stems: Seq<Seq<char>>, broker: bool) -> Seq<Seq<char>>
    decreases stems.len(),
{
    if stems.len() == 0 {
        Seq::empty()
    } else if broker_stem(stems.last()) == broker {
        chosen(stems.drop_last(), broker).push(stems.last())
    } else {
        chosen(stems.drop_last(), broker)
    }
}

/// The names of executables split into those of the broker executable and the others.
fn split_stems(stems: &[String]) -> (res: (Vec<String>, Vec<String>))
    ensures
        text::texts(res.0@) == chosen(text::texts(stems@), true),
        text::texts(res.1@) == chosen(text::texts(stems@), false),
{
    let mut broker: Vec<String> = Vec::new();
    let mut rest: Vec<String> = Vec::new();
    let mut i: usize = 0;
    let ghost names = text::texts(stems@);
    proof {
        assert(text::texts(broker@) =~= Seq::empty());
        assert(text::texts(rest@) =~= Seq::empty());
    }
    while i < stems.len()
        invariant
            i <= stems@.len(),
            names == text::texts(stems@),
            text::texts(broker@) == chosen(names.take(i as int), true),
            text::texts(rest@) == chosen(names.take(i as int), false),
        decreases stems@.len() - i,
    {
        proof {
            assert(names.take(i + 1).drop_last() =~= names.take(i as int));
            assert(names.take(i + 1).last() == stems@[i as int]@);
        }
        if is_broker_stem(&stems[i]) {
            text::push_line(&mut broker, stems[i].clone());
        } else {
            text::push_line(&mut rest, stems[i].clone());
        }
        i += 1;
    }
    assert(names.take(i as int) =~= names);
    (broker, rest)
}

/// The call that a target stands for.
pub open spec fn effect_of(target: plan::TargetView) -> EffectView {
    match target {
        plan::TargetView::StopProcess(component, pid) => EffectView::StopProcess(component, pid),
        plan::TargetView::RemoveService(service) => EffectView::RemoveService(service),
        plan::TargetView::DeleteBinaries(dir, stems) => EffectView::DeleteBinaries(dir, stems),
        plan::TargetView::DelegateWinget(package, scope, _) => EffectView::DelegateWinget(
            package,
            scope,
        ),
        plan::TargetView::DeleteDir(path, _) => EffectView::RemoveDir(path),
        plan::TargetView::RemovePathEntry(dir) => EffectView::RemovePathEntry(dir),
        plan::TargetView::DeleteFile(path, _) => EffectView::DeleteFile(path),
    }
}

/// Whether executables are deleted among which that of the broker is locked.
pub open spec fn leaves_broker(target: plan::TargetView, remains: bool) -> bool {
    match target {
        plan::TargetView::DeleteBinaries(_, stems) => remains && chosen(stems, true).len() > 0,
        _ => false,
    }
}

/// The call that is made for a target, if one is.  `remains` says that the broker service stays.
pub open spec fn requested(target: plan::TargetView, remains: bool) -> Option<EffectView> {
    match target {
        plan::TargetView::DeleteBinaries(dir, stems) => if leaves_broker(target, remains) {
            if chosen(stems, false).len() == 0 {
                None
            } else {
                Some(EffectView::DeleteBinaries(dir, chosen(stems, false)))
            }
        } else {
            Some(effect_of(target))
        },
        _ => Some(effect_of(target)),
    }
}

/// What a reply makes of an item.
pub open spec fn status_of(reply: ReplyView) -> StatusView {
    match reply {
        ReplyView::Done => StatusView::Done,
        ReplyView::Declined => StatusView::Failed(ElevationDeclined::text()),
        ReplyView::Failed(error) => StatusView::Failed(error),
    }
}

/// The entry of an executable of the broker that is left.
pub open spec fn left_binary(platform: Platform, dir: Seq<char>, stem: Seq<char>) -> EntryView {
    EntryView {
        description: effects::exe_name(platform, stem) + " in "@ + dir,
        status: StatusView::Skipped(BROKER_BINARY_LEFT@),
    }
}

/// What is recorded of a target after a reply.
pub open spec fn recorded(
    platform: Platform,
    target: plan::TargetView,
    remains: bool,
    reply: ReplyView,
) -> Seq<EntryView> {
    match target {
        plan::TargetView::RemoveService(_) => seq![
            EntryView {
                description: plan::described(target),
                status: if reply is Declined {
                    StatusView::Skipped(BROKER_SERVICE_LEFT@)
                } else {
                    status_of(reply)
                },
            },
        ],
        plan::TargetView::DeleteBinaries(dir, stems) => if leaves_broker(target, remains) {
            let rest = chosen(stems, false);
            (if rest.len() == 0 {
                Seq::empty()
            } else {
                seq![
                    EntryView {
                        description: plan::described(plan::TargetView::DeleteBinaries(dir, rest)),
                        status: status_of(reply),
                    },
                ]
            }) + chosen(stems, true).map_values(|stem: Seq<char>| left_binary(platform, dir, stem))
        } else {
            seq![EntryView { description: plan::described(target), status: status_of(reply) }]
        },
        _ => seq![EntryView { description: plan::described(target), status: status_of(reply) }],
    }
}

/// Whether the broker service stays after an item.
pub open spec fn remains_after(target: plan::TargetView, remains: bool, reply: ReplyView) -> bool {
    remains || (target is RemoveService && reply is Declined)
}

/// Calls the effect of a target.
fn dispatch<E: Effects>(target: &PlanTarget, effects: &mut E) -> (res: Result<(), EffectError>)
    ensures
        final(effects).made() == old(effects).made().push((effect_of(target@), reply_view(res))),
{
    match target {
        PlanTarget::StopProcess { component, pid } => effects.stop_process(component, *pid),
        PlanTarget::RemoveService { service } => effects.remove_service(service),
        PlanTarget::DeleteBinaries { dir, stems } => effects.delete_binaries(dir, stems),
        PlanTarget::DeleteFile { path, .. } => effects.delete_file(path),
        PlanTarget::DelegateWinget { package_id, scope, .. } => effects.delegate_winget(
            package_id,
            *scope,
        ),
        PlanTarget::DeleteDir { path, .. } => effects.remove_dir(path),
        PlanTarget::RemovePathEntry { dir } => effects.remove_path_entry(dir),
    }
}

/// What a reply makes of an item.
fn status_from(reply: Result<(), EffectError>) -> (res: ItemStatus)
    ensures
        res@ == status_of(reply_view(reply)),
{
    match reply {
        Ok(()) => ItemStatus::Done,
        Err(EffectError::Declined(declined)) => ItemStatus::Failed(declined.message().to_owned()),
        Err(EffectError::Failed(error)) => ItemStatus::Failed(error),
    }
}

/// Records what became of a target after a reply to the call that was made for it, and whether the
/// broker service stays.
pub fn record_reply(
    platform: Platform,
    target: &PlanTarget,
    reply: Result<(), EffectError>,
    broker_remains: &mut bool,
    outcome: &mut RemovalOutcome,
)
    ensures
        final(outcome).entries() == old(outcome).entries() + recorded(
            platform,
            target@,
            *old(broker_remains),
            reply_view(reply),
        ),
        final(outcome).attempts@ == old(outcome).attempts@,
        *final(broker_remains) == remains_after(target@, *old(broker_remains), reply_view(reply)),
{
    let ghost before = outcome.entries();
    if let PlanTarget::RemoveService { .. } = target {
        if let Err(EffectError::Declined(_)) = reply {
            *broker_remains = true;
            outcome.record(
                target.describe(),
                ItemStatus::Skipped(BROKER_SERVICE_LEFT.to_owned()),
            );
            assert(outcome.entries() =~= before + recorded(
                platform,
                target@,
                *old(broker_remains),
                reply_view(reply),
            ));
            return;
        }
    }
    if let PlanTarget::DeleteBinaries { dir, stems } = target {
        let (broker, rest) = split_stems(stems);
        if *broker_remains && broker.len() > 0 {
            let ghost rest_names = text::texts(rest@);
            let ghost broker_names = text::texts(broker@);
            let ghost left = broker_names.map_values(
                |stem: Seq<char>| left_binary(platform, dir@, stem),
            );
            if rest.len() > 0 {
                outcome.record(
                    cat3(&show_u64(rest.len() as u64), " binaries in ", dir),
                    status_from(reply),
                );
            }
            let ghost first = outcome.entries();
            let mut i: usize = 0;
            assert(left.take(0) =~= Seq::empty());
            while i < broker.len()
                invariant
                    i <= broker@.len(),
                    broker_names == text::texts(broker@),
                    left == broker_names.map_values(
                        |stem: Seq<char>| left_binary(platform, dir@, stem),
                    ),
                    outcome.entries() == first + left.take(i as int),
                    outcome.attempts@ == old(outcome).attempts@,
                decreases broker@.len() - i,
            {
                outcome.record(
                    cat3(&exe_file_name(platform, &broker[i]), " in ", dir),
                    ItemStatus::Skipped(BROKER_BINARY_LEFT.to_owned()),
                );
                i += 1;
                proof {
                    assert(left[i - 1] == left_binary(platform, dir@, broker@[i - 1]@));
                    assert(outcome.entries() =~= first + left.take(i as int));
                }
            }
            proof {
                assert(left.take(i as int) =~= left);
                assert(outcome.entries() =~= before + recorded(
                    platform,
                    target@,
                    *old(broker_remains),
                    reply_view(reply),
                ));
            }
            return;
        }
    }
    outcome.record(target.describe(), status_from(reply));
    assert(outcome.entries() =~= before + recorded(
        platform,
        target@,
        *old(broker_remains),
        reply_view(reply),
    ));
}

/// Carries out one item.
fn run_item<E: Effects>(
    platform: Platform,
    item: &PlanItem,
    effects: &mut E,
    broker_remains: &mut bool,
    outcome: &mut RemovalOutcome,
)
    ensures
        ({
            let attempt = final(outcome).attempts@.last();
            &&& final(outcome).attempts@ == old(outcome).attempts@.push(attempt)
            &&& attempt.call == requested(item@.target, *old(broker_remains))
            &&& attempt.call is None ==> attempt.reply is Done
            &&& final(effects).made() == match attempt.call {
                Some(call) => old(effects).made().push((call, attempt.reply)),
                None => old(effects).made(),
            }
            &&& final(outcome).entries() == old(outcome).entries() + recorded(
                platform,
                item@.target,
                *old(broker_remains),
                attempt.reply,
            )
            &&& *final(broker_remains) == remains_after(
                item@.target,
                *old(broker_remains),
                attempt.reply,
            )
        }),
{
    let reply = match &item.target {
        PlanTarget::DeleteBinaries { dir, stems } => delete_binaries_leaving_broker(
            dir,
            stems,
            *broker_remains,
            effects,
        ),
        target => dispatch(target, effects),
    };
    let ghost attempt = Attempt {
        call: requested(item@.target, *broker_remains),
        reply: reply_view(reply),
    };
    record_reply(platform, &item.target, reply, broker_remains, outcome);
    outcome.attempts = Ghost(outcome.attempts@.push(attempt));
}

/// Deletes executables, but for that of the broker where its service stays.
fn delete_binaries_leaving_broker<E: Effects>(
    dir: &String,
    stems: &Vec<String>,
    broker_remains: bool,
    effects: &mut E,
) -> (res: Result<(), EffectError>)
    ensures
        match requested(
            plan::TargetView::DeleteBinaries(dir@, text::texts(stems@)),
            broker_remains,
        ) {
            Some(call) => final(effects).made() == old(effects).made().push(
                (call, reply_view(res)),
            ),
            None => final(effects).made() == old(effects).made() && res is Ok,
        },
{
    let (broker, rest) = split_stems(stems);
    if broker_remains && broker.len() > 0 {
        if rest.len() == 0 {
            return Ok(());
        }
        return effects.delete_binaries(dir, &rest);
    }
    effects.delete_binaries(dir, stems)
}

/// Whether the broker service stays after some items.
pub open spec fn remains_over(
    items: Seq<plan::ItemView>,
    remains: bool,
    attempts: Seq<Attempt>,
) -> bool
    decreases items.len(),
{
    if items.len() == 0 {
        remains
    } else {
        remains_after(
            items.last().target,
            remains_over(items.drop_last(), remains, attempts),
            attempts[items.len() - 1].reply,
        )
    }
}

/// What is recorded of items after the replies.
pub open spec fn recorded_over(
    platform: Platform,
    items: Seq<plan::ItemView>,
    remains: bool,
    attempts: Seq<Attempt>,
) -> Seq<EntryView>
    decreases items.len(),
{
    if items.len() == 0 {
        Seq::empty()
    } else {
        recorded_over(platform, items.drop_last(), remains, attempts) + recorded(
            platform,
            items.last().target,
            remains_over(items.drop_last(), remains, attempts),
            attempts[items.len() - 1].reply,
        )
    }
}

/// Whether the attempts are those of the items: one for each, in order, with the call that the item
/// stands for after what came back before it, and done where it stands for none.
pub open spec fn attempted(
    items: Seq<plan::ItemView>,
    remains: bool,
    attempts: Seq<Attempt>,
) -> bool {
    &&& attempts.len() == items.len()
    &&& forall|i: int|
        0 <= i < items.len() ==> (#[trigger] attempts[i]).call == requested(
            items[i].target,
            remains_over(items.take(i), remains, attempts),
        ) && (attempts[i].call is None ==> attempts[i].reply is Done)
}

proof fn lemma_over_prefix(
    platform: Platform,
    items: Seq<plan::ItemView>,
    remains: bool,
    attempts: Seq<Attempt>,
    attempt: Attempt,
)
    requires
        items.len() <= attempts.len(),
    ensures
        remains_over(items, remains, attempts.push(attempt)) == remains_over(
            items,
            remains,
            attempts,
        ),
        recorded_over(platform, items, remains, attempts.push(attempt)) == recorded_over(
            platform,
            items,
            remains,
            attempts,
        ),
    decreases items.len(),
{
    if items.len() > 0 {
        lemma_over_prefix(platform, items.drop_last(), remains, attempts, attempt);
    }
}

/// Carries out a plan in order, and makes the calls of its items and no others.  `broker_remains` says
/// that the broker service will still be there afterwards, so that its executable is locked and is
/// left.
pub fn execute<E: Effects>(
    platform: Platform,
    plan: &RemovalPlan,
    effects: &mut E,
    broker_remains: bool,
) -> (res: RemovalOutcome)
    ensures
        attempted(plan::all_items(plan@), broker_remains, res.attempts@),
        final(effects).made() == old(effects).made() + calls_of(res.attempts@),
        res.entries() == recorded_over(
            platform,
            plan::all_items(plan@),
            broker_remains,
            res.attempts@,
        ),
{
    let mut outcome = RemovalOutcome::default();
    let mut remains = broker_remains;
    let items = plan.items();
    let ghost shown = plan::all_items(plan@);
    let mut i: usize = 0;
    proof {
        assert(shown =~= items@.map_values(|item: &PlanItem| item@));
        assert(shown.take(0) =~= Seq::empty());
    }
    while i < items.len()
        invariant
            i <= items@.len(),
            shown == items@.map_values(|item: &PlanItem| item@),
            remains == remains_over(shown.take(i as int), broker_remains, outcome.attempts@),
            outcome.entries() == recorded_over(
                platform,
                shown.take(i as int),
                broker_remains,
                outcome.attempts@,
            ),
            attempted(shown.take(i as int), broker_remains, outcome.attempts@),
            effects.made() == old(effects).made() + calls_of(outcome.attempts@),
        decreases items@.len() - i,
    {
        let ghost before = outcome.attempts@;
        run_item(platform, items[i], effects, &mut remains, &mut outcome);
        proof {
            let attempt = outcome.attempts@.last();
            let now = shown.take(i + 1);
            assert(now.drop_last() =~= shown.take(i as int));
            assert(now.last() == items@[i as int]@);
            lemma_over_prefix(platform, shown.take(i as int), broker_remains, before, attempt);
            assert(outcome.attempts@.drop_last() =~= before);
            assert(effects.made() =~= old(effects).made() + calls_of(outcome.attempts@));
            assert forall|k: int| 0 <= k < now.len() implies (
            #[trigger] outcome.attempts@[k]).call == requested(
                now[k].target,
                remains_over(now.take(k), broker_remains, outcome.attempts@),
            ) && (outcome.attempts@[k].call is None ==> outcome.attempts@[k].reply is Done) by {
                assert(now.take(k) =~= shown.take(i as int).take(k));
                lemma_over_prefix(platform, now.take(k), broker_remains, before, attempt);
                if k < i {
                    assert(outcome.attempts@[k] == before[k]);
                    assert(shown.take(i as int)[k] == now[k]);
                }
            }
        }
        i += 1;
    }
    assert(shown.take(i as int) =~= shown);
    outcome
}

// ---- laws ----

proof fn lemma_chosen(stems: Seq<Seq<char>>, broker: bool)
    ensures
        forall|k: int|
            0 <= k < chosen(stems, broker).len() ==> broker_stem(
                #[trigger] chosen(stems, broker)[k],
            ) == broker,
        chosen(stems, broker).len() + chosen(stems, !broker).len() == stems.len(),
        chosen(stems, !broker).len() == 0 ==> forall|k: int|
            0 <= k < stems.len() ==> broker_stem(#[trigger] stems[k]) == broker,
    decreases stems.len(),
{
    if stems.len() > 0 {
        let before = stems.drop_last();
        lemma_chosen(before, broker);
        let now = chosen(stems, broker);
        assert forall|k: int| 0 <= k < now.len() implies broker_stem(#[trigger] now[k])
            == broker by {
            if k < chosen(before, broker).len() {
                assert(now[k] == chosen(before, broker)[k]);
            }
        }
        assert forall|k: int|
            0 <= k < stems.len() && chosen(stems, !broker).len() == 0 implies broker_stem(
            #[trigger] stems[k],
        ) == broker by {
            if k < before.len() {
                assert(before[k] == stems[k]);
            }
        }
    }
}

/// Whether a call deletes the broker executable.
pub open spec fn deletes_broker(call: EffectView) -> bool {
    match call {
        EffectView::DeleteBinaries(_, stems) => exists|k: int|
            0 <= k < stems.len() && broker_stem(#[trigger] stems[k]),
        _ => false,
    }
}

proof fn lemma_remains(
    items: Seq<plan::ItemView>,
    remains: bool,
    attempts: Seq<Attempt>,
    i: int,
    j: int,
)
    requires
        0 <= i <= j <= items.len(),
        remains_over(items.take(i), remains, attempts),
    ensures
        remains_over(items.take(j), remains, attempts),
    decreases j,
{
    if i < j {
        lemma_remains(items, remains, attempts, i, j - 1);
        assert(items.take(j).drop_last() =~= items.take(j - 1));
    }
}

/// Once the broker service stays, be it from the start or because its removal was declined, nothing
/// tries to delete the broker executable, which the service locks.
pub proof fn law_locked_broker_is_left(
    items: Seq<plan::ItemView>,
    remains: bool,
    attempts: Seq<Attempt>,
    i: int,
    j: int,
)
    requires
        attempted(items, remains, attempts),
        0 <= i <= j < items.len(),
        remains_over(items.take(i), remains, attempts),
    ensures
        attempts[j].call is Some ==> !deletes_broker(attempts[j].call->Some_0),
{
    lemma_remains(items, remains, attempts, i, j);
    match items[j].target {
        plan::TargetView::DeleteBinaries(_, stems) => {
            lemma_chosen(stems, false);
        },
        _ => {},
    }
}

/// Where the broker service does not stay and no removal of it is declined, each item is one call, in
/// the order of the items, whatever came back from the others.
pub proof fn law_one_call_for_each_item(
    items: Seq<plan::ItemView>,
    attempts: Seq<Attempt>,
)
    requires
        attempted(items, false, attempts),
        forall|k: int|
            0 <= k < items.len() && items[k].target is RemoveService ==> !((
            #[trigger] attempts[k]).reply is Declined),
    ensures
        calls_of(attempts) == Seq::new(
            items.len(),
            |k: int| (effect_of(items[k].target), attempts[k].reply),
        ),
{
    lemma_calls_so_far(items, attempts, items.len() as int);
    assert(attempts.take(items.len() as int) =~= attempts);
}

proof fn lemma_calls_so_far(items: Seq<plan::ItemView>, attempts: Seq<Attempt>, n: int)
    requires
        attempted(items, false, attempts),
        forall|k: int|
            0 <= k < items.len() && items[k].target is RemoveService ==> !((
            #[trigger] attempts[k]).reply is Declined),
        0 <= n <= items.len(),
    ensures
        !remains_over(items.take(n), false, attempts),
        calls_of(attempts.take(n)) == Seq::new(
            n as nat,
            |k: int| (effect_of(items[k].target), attempts[k].reply),
        ),
    decreases n,
{
    let wanted = Seq::new(n as nat, |k: int| (effect_of(items[k].target), attempts[k].reply));
    if n > 0 {
        lemma_calls_so_far(items, attempts, n - 1);
        assert(items.take(n).drop_last() =~= items.take(n - 1));
        assert(attempts.take(n).drop_last() =~= attempts.take(n - 1));
        assert(attempts.take(n).last() == attempts[n - 1]);
        assert(items.take(n).last() == items[n - 1]);
        assert(attempts[n - 1].call == requested(items[n - 1].target, false));
    }
    assert(calls_of(attempts.take(n)) =~= wanted);
}

/// A failure stops nothing: two runs over the same items in which the same service removals are
/// declined make the same calls, whatever else came back.
pub proof fn law_failures_do_not_change_the_calls(
    items: Seq<plan::ItemView>,
    remains: bool,
    one: Seq<Attempt>,
    other: Seq<Attempt>,
    i: int,
)
    requires
        attempted(items, remains, one),
        attempted(items, remains, other),
        forall|k: int|
            0 <= k < items.len() && items[k].target is RemoveService ==> ((
            #[trigger] one[k]).reply is Declined <==> (#[trigger] other[k]).reply is Declined),
        0 <= i < items.len(),
    ensures
        one[i].call == other[i].call,
{
    lemma_same_remains(items, remains, one, other, i);
}

proof fn lemma_same_remains(
    items: Seq<plan::ItemView>,
    remains: bool,
    one: Seq<Attempt>,
    other: Seq<Attempt>,
    i: int,
)
    requires
        one.len() == items.len() == other.len(),
        forall|k: int|
            0 <= k < items.len() && items[k].target is RemoveService ==> ((
            #[trigger] one[k]).reply is Declined <==> (#[trigger] other[k]).reply is Declined),
        0 <= i <= items.len(),
    ensures
        remains_over(items.take(i), remains, one) == remains_over(items.take(i), remains, other),
    decreases i,
{
    if i > 0 {
        lemma_same_remains(items, remains, one, other, i - 1);
        assert(items.take(i).drop_last() =~= items.take(i - 1));
        assert(items.take(i).last() == items[i - 1]);
        assert(one[i - 1].reply is Declined <==> one[i - 1].reply is Declined);
        assert(other[i - 1].reply is Declined <==> other[i - 1].reply is Declined);
    }
}

/// The entries of items where the broker service does not stay: one for each, with what came back.
pub open spec fn plain_entries(items: Seq<plan::ItemView>, attempts: Seq<Attempt>) -> Seq<EntryView> {
    Seq::new(
        items.len(),
        |k: int|
            EntryView {
                description: plan::described(items[k].target),
                status: status_of(attempts[k].reply),
            },
    )
}

/// Where the broker service does not stay and no removal of it is declined, each item has one entry,
/// which tells what came back from its call; and the run is clean exactly where everything took
/// place.
pub proof fn law_each_item_has_its_entry(
    platform: Platform,
    items: Seq<plan::ItemView>,
    attempts: Seq<Attempt>,
)
    requires
        attempts.len() >= items.len(),
        forall|k: int|
            0 <= k < items.len() && items[k].target is RemoveService ==> !((
            #[trigger] attempts[k]).reply is Declined),
    ensures
        !remains_over(items, false, attempts),
        recorded_over(platform, items, false, attempts) == plain_entries(items, attempts),
        skipped_in(plain_entries(items, attempts)) == 0,
        failed_in(plain_entries(items, attempts)) == 0 <==> forall|k: int|
            0 <= k < items.len() ==> (#[trigger] attempts[k]).reply is Done,
    decreases items.len(),
{
    let entries = plain_entries(items, attempts);
    if items.len() > 0 {
        let before = items.drop_last();
        law_each_item_has_its_entry(platform, before, attempts);
        assert(entries.drop_last() =~= plain_entries(before, attempts));
        let last = attempts[items.len() - 1];
        assert(entries.last().status == status_of(last.reply));
        assert(items[items.len() - 1] == items.last());
        assert(recorded_over(platform, items, false, attempts) =~= entries);
        if failed_in(entries) == 0 {
            assert forall|k: int| 0 <= k < items.len() implies (
            #[trigger] attempts[k]).reply is Done by {
                if k == items.len() - 1 {
                    assert(status_of(last.reply) is Done);
                }
            }
        } else if forall|k: int|
            0 <= k < items.len() ==> (#[trigger] attempts[k]).reply is Done {
            assert(last.reply is Done);
        }
    } else {
        assert(recorded_over(platform, items, false, attempts) =~= entries);
    }
}

/// Every item is accounted for: it leaves at least one entry, whatever came back.
pub proof fn law_every_item_is_recorded(
    platform: Platform,
    items: Seq<plan::ItemView>,
    remains: bool,
    attempts: Seq<Attempt>,
)
    ensures
        recorded_over(platform, items, remains, attempts).len() >= items.len(),
    decreases items.len(),
{
    if items.len() > 0 {
        law_every_item_is_recorded(platform, items.drop_last(), remains, attempts);
        match items.last().target {
            plan::TargetView::DeleteBinaries(_, stems) => {
                lemma_chosen(stems, true);
            },
            _ => {},
        }
    }
}

/// Each kind of item is carried out by the effect of its own kind, with its own values.
pub proof fn law_each_target_has_its_effect(
    component: Seq<char>,
    pid: u32,
    name: Seq<char>,
    stems: Seq<Seq<char>>,
    scope: Scope,
    other: Seq<char>,
    version: Option<Seq<char>>,
    remains: bool,
)
    ensures
        requested(plan::TargetView::StopProcess(component, pid), remains) == Some(
            EffectView::StopProcess(component, pid),
        ),
        requested(plan::TargetView::RemoveService(name), remains) == Some(
            EffectView::RemoveService(name),
        ),
        requested(plan::TargetView::DelegateWinget(name, scope, other), remains) == Some(
            EffectView::DelegateWinget(name, scope),
        ),
        requested(plan::TargetView::DeleteDir(name, other), remains) == Some(
            EffectView::RemoveDir(name),
        ),
        requested(plan::TargetView::RemovePathEntry(name), remains) == Some(
            EffectView::RemovePathEntry(name),
        ),
        requested(plan::TargetView::DeleteFile(name, version), remains) == Some(
            EffectView::DeleteFile(name),
        ),
        requested(plan::TargetView::DeleteBinaries(name, stems), false) == Some(
            EffectView::DeleteBinaries(name, stems),
        ),
{
}

/// Whether a name is that of the executable of the broker, whatever the case of its letters.
pub open spec fn names_the_broker(stem: Seq<char>) -> bool {
    text::lowered(stem) == "uffs-broker"@
}

proof fn lemma_names_the_broker(stem: Seq<char>)
    ensures
        broker_stem(stem) == names_the_broker(stem),
{
    reveal_strlit("uffs-broker");
    assert(text::lowered("uffs-broker"@) =~= "uffs-broker"@);
}

proof fn lemma_chosen_filter(stems: Seq<Seq<char>>, broker: bool)
    ensures
        chosen(stems, broker) == stems.filter(|stem: Seq<char>| names_the_broker(stem) == broker),
    decreases stems.len(),
{
    reveal(Seq::filter);
    if stems.len() > 0 {
        lemma_chosen_filter(stems.drop_last(), broker);
        lemma_names_the_broker(stems.last());
    }
    assert(chosen(stems, broker) =~= stems.filter(
        |stem: Seq<char>| names_the_broker(stem) == broker,
    ));
}

/// While the broker service stays, an item that deletes its executable among others deletes exactly
/// the others, in their order; one that deletes nothing else makes no call; and one without it is
/// carried out as it is.
pub proof fn law_the_broker_executable_is_taken_out(dir: Seq<char>, stems: Seq<Seq<char>>)
    ensures
        ({
            let others = stems.filter(|stem: Seq<char>| names_the_broker(stem) == false);
            let brokers = stems.filter(|stem: Seq<char>| names_the_broker(stem) == true);
            requested(plan::TargetView::DeleteBinaries(dir, stems), true) == (if brokers.len() == 0 {
                Some(EffectView::DeleteBinaries(dir, stems))
            } else if others.len() == 0 {
                None
            } else {
                Some(EffectView::DeleteBinaries(dir, others))
            })
        }),
{
    lemma_chosen_filter(stems, true);
    lemma_chosen_filter(stems, false);
}

/// What is recorded of an item that makes one call: that it is done exactly where it took place, that
/// it failed with the text of the failure, and that the service was left where its removal was
/// declined; always under the description of the item.
pub proof fn law_what_is_recorded_of_a_call(
    platform: Platform,
    target: plan::TargetView,
    remains: bool,
    reply: ReplyView,
)
    requires
        !(target is DeleteBinaries),
    ensures
        ({
            let entries = recorded(platform, target, remains, reply);
            &&& entries.len() == 1
            &&& entries[0].description == plan::described(target)
            &&& entries[0].status is Done <==> reply is Done
            &&& reply matches ReplyView::Failed(error) ==> entries[0].status == StatusView::Failed(
                error,
            )
            &&& reply is Declined ==> if target is RemoveService {
                entries[0].status == StatusView::Skipped(
                    "the Access Broker (a LocalSystem service) needs Administrator"@,
                )
            } else {
                entries[0].status == StatusView::Failed("elevation was declined at the UAC prompt"@)
            }
        }),
{
}

/// What is recorded of executables that are deleted: one entry for those that a call was made for,
/// and, where the broker service stays, one for each executable of the broker, which is left.
pub proof fn law_what_is_recorded_of_executables(
    platform: Platform,
    dir: Seq<char>,
    stems: Seq<Seq<char>>,
    remains: bool,
    reply: ReplyView,
)
    ensures
        ({
            let target = plan::TargetView::DeleteBinaries(dir, stems);
            let entries = recorded(platform, target, remains, reply);
            let others = stems.filter(|stem: Seq<char>| names_the_broker(stem) == false);
            let brokers = stems.filter(|stem: Seq<char>| names_the_broker(stem) == true);
            let left = |stem: Seq<char>|
                EntryView {
                    description: effects::exe_name(platform, stem) + " in "@ + dir,
                    status: StatusView::Skipped("the Access Broker service is still running"@),
                };
            let status = if reply is Done {
                StatusView::Done
            } else if reply is Declined {
                StatusView::Failed("elevation was declined at the UAC prompt"@)
            } else {
                StatusView::Failed(reply->Failed_0)
            };
            let one = |count: nat|
                seq![
                    EntryView {
                        description: text::decimal(count) + " binaries in "@ + dir,
                        status,
                    },
                ];
            entries == (if !remains || brokers.len() == 0 {
                one(stems.len())
            } else if others.len() == 0 {
                brokers.map_values(left)
            } else {
                one(others.len()) + brokers.map_values(left)
            })
        }),
{
    lemma_chosen_filter(stems, true);
    lemma_chosen_filter(stems, false);
    let target = plan::TargetView::DeleteBinaries(dir, stems);
    let brokers = stems.filter(|stem: Seq<char>| names_the_broker(stem) == true);
    let left = |stem: Seq<char>|
        EntryView {
            description: effects::exe_name(platform, stem) + " in "@ + dir,
            status: StatusView::Skipped("the Access Broker service is still running"@),
        };
    assert(brokers.map_values(|stem: Seq<char>| left_binary(platform, dir, stem))
        =~= brokers.map_values(left));
    let rest: Seq<EntryView> = Seq::empty();
    assert(rest + brokers.map_values(left) =~= brokers.map_values(left));
}

/// The broker service stays from the start, or from the moment on at which its removal was declined,
/// and for nothing else.
pub proof fn law_when_the_broker_stays(
    items: Seq<plan::ItemView>,
    remains: bool,
    attempts: Seq<Attempt>,
)
    ensures
        remains_over(items, remains, attempts) <==> remains || exists|k: int|
            0 <= k < items.len() && (#[trigger] items[k]).target is RemoveService
                && attempts[k].reply is Declined,
    decreases items.len(),
{
    if items.len() > 0 {
        let before = items.drop_last();
        law_when_the_broker_stays(before, remains, attempts);
        if exists|k: int|
            0 <= k < before.len() && (#[trigger] before[k]).target is RemoveService
                && attempts[k].reply is Declined {
            let k = choose|k: int|
                0 <= k < before.len() && (#[trigger] before[k]).target is RemoveService
                    && attempts[k].reply is Declined;
            assert(items[k] == before[k]);
        }
        if exists|k: int|
            0 <= k < items.len() && (#[trigger] items[k]).target is RemoveService
                && attempts[k].reply is Declined {
            let k = choose|k: int|
                0 <= k < items.len() && (#[trigger] items[k]).target is RemoveService
                    && attempts[k].reply is Declined;
            if k < before.len() {
                assert(before[k] == items[k]);
            }
        }
        assert(items[items.len() - 1] == items.last());
    }
}

/// A run is clean exactly where nothing failed and nothing was left.
pub proof fn law_when_a_run_is_clean(outcome: &RemovalOutcome, res: bool, k: int)
    requires
        call_ensures(RemovalOutcome::is_clean, (outcome,), res),
    ensures
        res ==> (0 <= k < outcome.results@.len() ==> outcome.results@[k].1 is Done),
        (forall|i: int| 0 <= i < outcome.results@.len() ==> (#[trigger] outcome.results@[i]).1 is Done)
            ==> res,
{
    let entries = outcome.entries();
    law_every_entry_is_counted_once(entries);
    lemma_all_done(entries);
    if 0 <= k < outcome.results@.len() {
        assert(entries[k].status == outcome.results@[k].1@);
    }
    if forall|i: int| 0 <= i < outcome.results@.len() ==> (#[trigger] outcome.results@[i]).1 is Done {
        assert forall|i: int| 0 <= i < entries.len() implies (#[trigger] entries[i]).status is Done by {
            assert(outcome.results@[i].1 is Done);
        }
    }
}

proof fn lemma_all_done(entries: Seq<EntryView>)
    ensures
        failed_in(entries) == 0 && skipped_in(entries) == 0 <==> forall|i: int|
            0 <= i < entries.len() ==> (#[trigger] entries[i]).status is Done,
    decreases entries.len(),
{
    if entries.len() > 0 {
        let before = entries.drop_last();
        lemma_all_done(before);
        if forall|i: int| 0 <= i < entries.len() ==> (#[trigger] entries[i]).status is Done {
            assert forall|i: int| 0 <= i < before.len() implies (#[trigger] before[i]).status is Done by {
                assert(entries[i].status is Done);
            }
            assert(entries[entries.len() - 1].status is Done);
        }
        if failed_in(entries) == 0 && skipped_in(entries) == 0 {
            assert forall|i: int| 0 <= i < entries.len() implies (#[trigger] entries[i]).status
                is Done by {
                if i < before.len() {
                    assert(before[i].status is Done);
                }
            }
        }
    }
}

} // verus!
