//! What an update does to each install root, and which rights that takes.
//!
//! A tree of a local build and a root that could not be classified are skipped.  What was placed by
//! hand is replaced in place.  What WinGet manages is upgraded by WinGet, which takes Administrator
//! rights for the whole machine, and must not have them for one user.

use crate::elevation::ElevatablePlan;
use crate::model::{Channel, DetectionReport, InstallRoot, RunningProcess, Scope};
use crate::platform;
use crate::platform::{parent_of, same_path, Platform};
use crate::text;
use crate::text::{cat2, cat6, push_line};
use crate::uninstall::render;
use vstd::prelude::*;

verus! {

/// What an update does to a root.
#[derive(Debug, Clone, Copy, PartialEq, Eq, Structural)]
pub enum UpdateAction {
    /// Replace the executables in place.
    ReplaceBinaries,
    /// Have WinGet upgrade them.
    WingetUpgrade,
    /// Nothing: it is the tree of a local build.
    SkipDevBuild,
    /// Nothing: it could not be classified.
    SkipUnknown,
}

impl UpdateAction {
    /// Whether the action changes the root.
    pub open spec fn mutates(self) -> bool {
        self == UpdateAction::ReplaceBinaries || self == UpdateAction::WingetUpgrade
    }

    /// How the action is shown.
    pub open spec fn text(self) -> Seq<char> {
        match self {
            UpdateAction::ReplaceBinaries => "replace binaries"@,
            UpdateAction::WingetUpgrade => "winget upgrade"@,
            UpdateAction::SkipDevBuild => "skip (dev-build)"@,
            UpdateAction::SkipUnknown => "skip (unclassified)"@,
        }
    }

    /// Whether the action changes the root.
    pub fn is_mutating(self) -> (res: bool)
        ensures
            res == self.mutates(),
    {
        match self {
            UpdateAction::ReplaceBinaries => true,
            UpdateAction::WingetUpgrade => true,
            UpdateAction::SkipDevBuild => false,
            UpdateAction::SkipUnknown => false,
        }
    }

    /// How the action is shown.
    pub fn label(self) -> (res: &'static str)
        ensures
            res@ == self.text(),
    {
        match self {
            UpdateAction::ReplaceBinaries => "replace binaries",
            UpdateAction::WingetUpgrade => "winget upgrade",
            UpdateAction::SkipDevBuild => "skip (dev-build)",
            UpdateAction::SkipUnknown => "skip (unclassified)",
        }
    }
}

/// What is planned for a root.
#[derive(Debug)]
pub struct UpdateItem {
    /// The root.
    pub dir: String,
    /// The channel that placed it.
    pub channel: Channel,
    /// Whom it is for.
    pub scope: Scope,
    /// What is done.
    pub action: UpdateAction,
    /// Whether that takes Administrator rights.
    pub needs_elevation: bool,
    /// Whether that must be done without Administrator rights.
    pub needs_non_elevated: bool,
}

/// The contents of an [`UpdateItem`].
#[verifier::ext_equal]
pub struct UpdateItemView {
    /// The root.
    pub dir: Seq<char>,
    /// The channel that placed it.
    pub channel: Channel,
    /// Whom it is for.
    pub scope: Scope,
    /// What is done.
    pub action: UpdateAction,
    /// Whether that takes Administrator rights.
    pub needs_elevation: bool,
    /// Whether that must be done without Administrator rights.
    pub needs_non_elevated: bool,
}

impl View for UpdateItem {
    type V = UpdateItemView;

    open spec fn view(&self) -> UpdateItemView {
        UpdateItemView {
            dir: self.dir@,
            channel: self.channel,
            scope: self.scope,
            action: self.action,
            needs_elevation: self.needs_elevation,
            needs_non_elevated: self.needs_non_elevated,
        }
    }
}

/// The one-line description of an item.
pub open spec fn described(item: UpdateItemView) -> Seq<char> {
    item.dir + " ("@ + item.channel.text() + (match item.scope {
        Scope::Unknown => ""@,
        scope => "/"@ + scope.text(),
    }) + ") \u{2014} "@ + item.action.text()
}

impl UpdateItem {
    /// One-line description of the item.
    pub fn describe(&self) -> (res: String)
        ensures
            res@ == described(self@),
    {
        let scope = match self.scope {
            Scope::Unknown => "".to_owned(),
            scope => cat2("/", scope.label()),
        };
        cat6(
            &self.dir,
            " (",
            self.channel.label(),
            &scope,
            ") \u{2014} ",
            self.action.label(),
        )
    }
}

/// What is planned for a root.
pub open spec fn classified(root: InstallRoot) -> UpdateItemView {
    let (action, needs_elevation, needs_non_elevated) = match root.channel {
        Channel::DevBuild => (UpdateAction::SkipDevBuild, false, false),
        Channel::Unknown => (UpdateAction::SkipUnknown, false, false),
        Channel::Unmanaged => (UpdateAction::ReplaceBinaries, !root.user_writable, false),
        Channel::WinGet => (
            UpdateAction::WingetUpgrade,
            root.scope == Scope::Machine,
            root.scope != Scope::Machine,
        ),
    };
    UpdateItemView {
        dir: root.dir@,
        channel: root.channel,
        scope: root.scope,
        action,
        needs_elevation,
        needs_non_elevated,
    }
}

/// What is planned for a root.
pub fn classify_root(root: &InstallRoot) -> (res: UpdateItem)
    ensures
        res@ == classified(*root),
{
    let (action, needs_elevation, needs_non_elevated) = match root.channel {
        Channel::DevBuild => (UpdateAction::SkipDevBuild, false, false),
        Channel::Unknown => (UpdateAction::SkipUnknown, false, false),
        Channel::Unmanaged => (UpdateAction::ReplaceBinaries, !root.user_writable, false),
        Channel::WinGet => (
            UpdateAction::WingetUpgrade,
            root.scope == Scope::Machine,
            root.scope != Scope::Machine,
        ),
    };
    UpdateItem {
        dir: root.dir.clone(),
        channel: root.channel,
        scope: root.scope,
        action,
        needs_elevation,
        needs_non_elevated,
    }
}

/// The name of the file by which a directory is tried: it is made and taken away again.
pub fn write_probe_name(pid: u32) -> (res: String)
    ensures
        res@ == ".uffs-write-probe-"@ + text::decimal(pid as nat),
{
    cat2(".uffs-write-probe-", &text::show_u64(pid as u64))
}

/// What an update does.
#[derive(Debug)]
pub struct UpdatePlan {
    /// What is planned for each root.
    pub items: Vec<UpdateItem>,
}

/// The contents of items.
pub open spec fn item_views(items: Seq<UpdateItem>) -> Seq<UpdateItemView> {
    items.map_values(|item: UpdateItem| item@)
}

impl View for UpdatePlan {
    type V = Seq<UpdateItemView>;

    open spec fn view(&self) -> Seq<UpdateItemView> {
        item_views(self.items@)
    }
}

/// The items that change a root.
pub open spec fn mutating(items: Seq<UpdateItemView>) -> Seq<UpdateItemView>
    decreases items.len(),
{
    if items.len() == 0 {
        Seq::empty()
    } else if items.last().action.mutates() {
        mutating(items.drop_last()).push(items.last())
    } else {
        mutating(items.drop_last())
    }
}

/// The items that must be done without Administrator rights, or the others.
pub open spec fn non_elevated(items: Seq<UpdateItemView>, wanted: bool) -> Seq<UpdateItemView>
    decreases items.len(),
{
    if items.len() == 0 {
        Seq::empty()
    } else if items.last().needs_non_elevated == wanted {
        non_elevated(items.drop_last(), wanted).push(items.last())
    } else {
        non_elevated(items.drop_last(), wanted)
    }
}

/// The items that take no Administrator rights.
pub open spec fn unprivileged(items: Seq<UpdateItemView>) -> Seq<UpdateItemView>
    decreases items.len(),
{
    if items.len() == 0 {
        Seq::empty()
    } else if items.last().needs_elevation {
        unprivileged(items.drop_last())
    } else {
        unprivileged(items.drop_last()).push(items.last())
    }
}

/// The descriptions of the items that take Administrator rights.
pub open spec fn privileged_descriptions(items: Seq<UpdateItemView>) -> Seq<Seq<char>>
    decreases items.len(),
{
    if items.len() == 0 {
        Seq::empty()
    } else if items.last().needs_elevation {
        privileged_descriptions(items.drop_last()).push(described(items.last()))
    } else {
        privileged_descriptions(items.drop_last())
    }
}

/// Whether some item takes Administrator rights.
pub open spec fn any_elevated(items: Seq<UpdateItemView>) -> bool {
    exists|i: int| 0 <= i < items.len() && (#[trigger] items[i]).needs_elevation
}

fn push_item(out: &mut Vec<UpdateItem>, item: UpdateItem)
    ensures
        item_views(final(out)@) == item_views(old(out)@).push(item@),
{
    let ghost before = item_views(out@);
    out.push(item);
    assert(item_views(out@) =~= before.push(item@));
}

impl UpdatePlan {
    /// The plan for what the detection found.
    pub fn build(report: &DetectionReport) -> (res: Self)
        ensures
            res@ == report.roots@.map_values(|root: InstallRoot| classified(root)),
    {
        let ghost wanted = report.roots@.map_values(|root: InstallRoot| classified(root));
        let mut items: Vec<UpdateItem> = Vec::new();
        let mut i: usize = 0;
        assert(item_views(items@) =~= wanted.take(0));
        while i < report.roots.len()
            invariant
                i <= report.roots@.len(),
                wanted == report.roots@.map_values(|root: InstallRoot| classified(root)),
                item_views(items@) == wanted.take(i as int),
            decreases report.roots@.len() - i,
        {
            push_item(&mut items, classify_root(&report.roots[i]));
            assert(item_views(items@) =~= wanted.take(i + 1));
            i += 1;
        }
        assert(wanted.take(i as int) =~= wanted);
        UpdatePlan { items }
    }

    /// The items that change a root.
    pub fn mutating_items(&self) -> (res: Vec<&UpdateItem>)
        ensures
            res@.map_values(|item: &UpdateItem| item@) == mutating(self@),
    {
        let mut res: Vec<&UpdateItem> = Vec::new();
        let mut i: usize = 0;
        assert(res@.map_values(|item: &UpdateItem| item@) =~= Seq::empty());
        while i < self.items.len()
            invariant
                i <= self.items@.len(),
                res@.map_values(|item: &UpdateItem| item@) == mutating(self@.take(i as int)),
            decreases self.items@.len() - i,
        {
            let item = &self.items[i];
            let ghost before = res@.map_values(|item: &UpdateItem| item@);
            proof {
                assert(self@.take(i + 1).drop_last() =~= self@.take(i as int));
                assert(self@.take(i + 1).last() == item@);
            }
            if item.action.is_mutating() {
                res.push(item);
                assert(res@.map_values(|item: &UpdateItem| item@) =~= before.push(item@));
            }
            i += 1;
        }
        assert(self@.take(i as int) =~= self@);
        res
    }

    /// Takes out, with Administrator rights, the items that must be done without them.
    pub fn split_off_non_elevated_when_elevated(&mut self, elevated: bool) -> (res: Vec<UpdateItem>)
        ensures
            elevated ==> final(self)@ == non_elevated(old(self)@, false) && item_views(res@)
                == non_elevated(old(self)@, true),
            !elevated ==> *final(self) == *old(self) && res@.len() == 0,
    {
        if !elevated {
            return Vec::new();
        }
        let mut items: Vec<UpdateItem> = Vec::new();
        std::mem::swap(&mut items, &mut self.items);
        let ghost all = items@;
        let ghost shown = item_views(all);
        let mut split: Vec<UpdateItem> = Vec::new();
        let mut keep: Vec<UpdateItem> = Vec::new();
        proof {
            assert(item_views(split@) =~= Seq::empty());
            assert(item_views(keep@) =~= Seq::empty());
            assert(shown.take(0) =~= Seq::empty());
        }
        for item in it: items
            invariant
                it.seq() == all,
                shown == item_views(all),
                item_views(split@) == non_elevated(shown.take(it.index() as int), true),
                item_views(keep@) == non_elevated(shown.take(it.index() as int), false),
        {
            let ghost at = it.index() as int;
            proof {
                assert(shown.take(at + 1).drop_last() =~= shown.take(at));
                assert(shown.take(at + 1).last() == item@);
            }
            if item.needs_non_elevated {
                push_item(&mut split, item);
            } else {
                push_item(&mut keep, item);
            }
        }
        assert(shown.take(shown.len() as int) =~= shown);
        self.items = keep;
        split
    }

    /// Whether the plan changes anything.
    pub fn has_work(&self) -> (res: bool)
        ensures
            res == (mutating(self@).len() > 0),
    {
        let items = self.mutating_items();
        proof {
            assert(items@.len() == items@.map_values(|item: &UpdateItem| item@).len());
        }
        items.len() > 0
    }
}

/// What is told above the roots that take Administrator rights.
pub const GATE_INTRO: &'static str =
    "\nThis terminal is not elevated (Administrator). The following can only\nbe updated from an elevated terminal:\n";

impl ElevatablePlan for UpdatePlan {
    open spec fn privileged(&self) -> bool {
        any_elevated(self@)
    }

    open spec fn privileged_items(&self) -> Seq<Seq<char>> {
        privileged_descriptions(self@)
    }

    open spec fn reduces_to(&self, after: &Self) -> bool {
        after@ == unprivileged(self@)
    }

    open spec fn needed_text(&self) -> Seq<Seq<char>> {
        seq![GATE_INTRO@] + render::dashed(privileged_descriptions(self@))
    }

    fn requires_elevation(&self) -> (res: bool) {
        let mut i: usize = 0;
        while i < self.items.len()
            invariant
                i <= self.items@.len(),
                forall|k: int| 0 <= k < i ==> !(#[trigger] self@[k]).needs_elevation,
            decreases self.items@.len() - i,
        {
            assert(self@[i as int] == self.items@[i as int]@);
            if self.items[i].needs_elevation {
                return true;
            }
            i += 1;
        }
        false
    }

    fn drop_elevation_required(&mut self) -> (res: Vec<String>) {
        let mut items: Vec<UpdateItem> = Vec::new();
        std::mem::swap(&mut items, &mut self.items);
        let ghost all = items@;
        let ghost shown = item_views(all);
        let mut dropped: Vec<String> = Vec::new();
        let mut keep: Vec<UpdateItem> = Vec::new();
        proof {
            assert(text::texts(dropped@) =~= Seq::empty());
            assert(item_views(keep@) =~= Seq::empty());
            assert(shown.take(0) =~= Seq::empty());
        }
        for item in it: items
            invariant
                it.seq() == all,
                shown == item_views(all),
                text::texts(dropped@) == privileged_descriptions(shown.take(it.index() as int)),
                item_views(keep@) == unprivileged(shown.take(it.index() as int)),
        {
            let ghost at = it.index() as int;
            proof {
                assert(shown.take(at + 1).drop_last() =~= shown.take(at));
                assert(shown.take(at + 1).last() == item@);
            }
            if item.needs_elevation {
                push_line(&mut dropped, item.describe());
            } else {
                push_item(&mut keep, item);
            }
        }
        assert(shown.take(shown.len() as int) =~= shown);
        self.items = keep;
        dropped
    }

    fn elevation_needed_lines(&self) -> (res: Vec<String>) {
        let mut res: Vec<String> = Vec::new();
        let ghost intro = seq![GATE_INTRO@];
        assert(text::texts(res@) =~= Seq::empty());
        push_line(&mut res, GATE_INTRO.to_owned());
        let mut i: usize = 0;
        proof {
            assert(self@.take(0) =~= Seq::empty());
            assert(text::texts(res@) =~= intro + render::dashed(Seq::empty()));
        }
        while i < self.items.len()
            invariant
                i <= self.items@.len(),
                text::texts(res@) == intro + render::dashed(
                    privileged_descriptions(self@.take(i as int)),
                ),
            decreases self.items@.len() - i,
        {
            let item = &self.items[i];
            let ghost before = privileged_descriptions(self@.take(i as int));
            proof {
                assert(self@.take(i + 1).drop_last() =~= self@.take(i as int));
                assert(self@.take(i + 1).last() == item@);
            }
            if item.needs_elevation {
                let description = item.describe();
                push_line(&mut res, cat2("  - ", &description));
                proof {
                    assert(render::dashed(before.push(description@)) =~= render::dashed(
                        before,
                    ).push("  - "@ + description@));
                    assert(text::texts(res@) =~= intro + render::dashed(
                        before.push(description@),
                    ));
                }
            }
            i += 1;
        }
        assert(self@.take(i as int) =~= self@);
        res
    }
}

// ---- notes ----

/// What is told of roots that were left for a run with Administrator rights; nothing where there are
/// none.
pub open spec fn skipped_text(dropped: Seq<Seq<char>>) -> Seq<Seq<char>> {
    if dropped.len() == 0 {
        Seq::empty()
    } else {
        seq!["\nLeft for an elevated run (re-run `uffs --update` as Administrator):"@]
            + render::dashed(dropped)
    }
}

/// What is told of roots that were left for a run with Administrator rights.
pub fn skipped_elevation_lines(dropped: &Vec<String>) -> (res: Vec<String>)
    ensures
        text::texts(res@) == skipped_text(text::texts(dropped@)),
{
    let mut res: Vec<String> = Vec::new();
    assert(text::texts(res@) =~= Seq::empty());
    if dropped.len() == 0 {
        return res;
    }
    push_line(
        &mut res,
        "\nLeft for an elevated run (re-run `uffs --update` as Administrator):".to_owned(),
    );
    render::push_dashed(&mut res, dropped);
    assert(text::texts(res@) =~= skipped_text(text::texts(dropped@)));
    res
}

/// The descriptions of items.
pub open spec fn descriptions(items: Seq<UpdateItemView>) -> Seq<Seq<char>> {
    items.map_values(|item: UpdateItemView| described(item))
}

/// What is told of roots that must be updated without Administrator rights; nothing where there are
/// none.
pub open spec fn delegation_text(delegated: Seq<UpdateItemView>) -> Seq<Seq<char>> {
    if delegated.len() == 0 {
        Seq::empty()
    } else {
        seq![
            "\nThis terminal is elevated; `winget` will not upgrade a user-scope\npackage from an elevated shell. Re-run `uffs --update` from a normal\n(non-elevated) terminal to update:"@,
        ] + render::dashed(descriptions(delegated))
    }
}

/// What is told of roots that must be updated without Administrator rights.
pub fn winget_delegation_lines(delegated: &Vec<UpdateItem>) -> (res: Vec<String>)
    ensures
        text::texts(res@) == delegation_text(item_views(delegated@)),
{
    let mut res: Vec<String> = Vec::new();
    assert(text::texts(res@) =~= Seq::empty());
    if delegated.len() == 0 {
        return res;
    }
    push_line(
        &mut res,
        "\nThis terminal is elevated; `winget` will not upgrade a user-scope\npackage from an elevated shell. Re-run `uffs --update` from a normal\n(non-elevated) terminal to update:".to_owned(),
    );
    let ghost wanted = descriptions(item_views(delegated@));
    let mut list: Vec<String> = Vec::new();
    let mut i: usize = 0;
    assert(text::texts(list@) =~= wanted.take(0));
    while i < delegated.len()
        invariant
            i <= delegated@.len(),
            wanted == descriptions(item_views(delegated@)),
            text::texts(list@) == wanted.take(i as int),
        decreases delegated@.len() - i,
    {
        push_line(&mut list, delegated[i].describe());
        proof {
            assert(item_views(delegated@)[i as int] == delegated@[i as int]@);
            assert(text::texts(list@) =~= wanted.take(i + 1));
        }
        i += 1;
    }
    assert(wanted.take(i as int) =~= wanted);
    render::push_dashed(&mut res, &list);
    assert(text::texts(res@) =~= delegation_text(item_views(delegated@)));
    res
}

/// What is told when nothing is left to update here.
pub const NO_LOCAL_WORK: &'static str =
    "\nNothing left to update in this terminal \u{2014} see the note(s) above.";

// ---- what is touched ----

/// Whether a directory is that of some item.
pub open spec fn touched(platform: Platform, items: Seq<UpdateItemView>, dir: Seq<char>) -> bool {
    exists|i: int|
        0 <= i < items.len() && platform::same_place(platform, (#[trigger] items[i]).dir, dir)
}

fn is_touched(platform: Platform, items: &Vec<&UpdateItem>, dir: &str) -> (res: bool)
    ensures
        res == touched(platform, items@.map_values(|item: &UpdateItem| item@), dir@),
{
    let ghost shown = items@.map_values(|item: &UpdateItem| item@);
    let mut i: usize = 0;
    while i < items.len()
        invariant
            i <= items@.len(),
            shown == items@.map_values(|item: &UpdateItem| item@),
            forall|k: int|
                0 <= k < i ==> !platform::same_place(platform, (#[trigger] shown[k]).dir, dir@),
        decreases items@.len() - i,
    {
        assert(shown[i as int] == items@[i as int]@);
        if same_path(platform, &items[i].dir, dir) {
            assert(platform::same_place(platform, shown[i as int].dir, dir@));
            return true;
        }
        i += 1;
    }
    false
}

/// The roots that items touch.
pub open spec fn touched_roots(
    platform: Platform,
    items: Seq<UpdateItemView>,
    roots: Seq<InstallRoot>,
) -> Seq<InstallRoot>
    decreases roots.len(),
{
    if roots.len() == 0 {
        Seq::empty()
    } else if touched(platform, items, roots.last().dir@) {
        touched_roots(platform, items, roots.drop_last()).push(roots.last())
    } else {
        touched_roots(platform, items, roots.drop_last())
    }
}

/// Whether a process runs from a root that items touch.
pub open spec fn runs_from(
    platform: Platform,
    items: Seq<UpdateItemView>,
    process: RunningProcess,
) -> bool {
    match process.image_path {
        Some(image) => match platform::parent(platform, image@) {
            Some(dir) => touched(platform, items, dir),
            None => false,
        },
        None => false,
    }
}

/// The processes that run from roots that items touch.
pub open spec fn touched_processes(
    platform: Platform,
    items: Seq<UpdateItemView>,
    running: Seq<RunningProcess>,
) -> Seq<RunningProcess>
    decreases running.len(),
{
    if running.len() == 0 {
        Seq::empty()
    } else if runs_from(platform, items, running.last()) {
        touched_processes(platform, items, running.drop_last()).push(running.last())
    } else {
        touched_processes(platform, items, running.drop_last())
    }
}

/// What the detection found, without the roots that the plan does not change and the processes that
/// do not run from them.
pub fn prune_report(platform: Platform, report: DetectionReport, plan: &UpdatePlan) -> (res:
    DetectionReport)
    ensures
        res.roots@ == touched_roots(platform, mutating(plan@), report.roots@),
        res.running@ == touched_processes(platform, mutating(plan@), report.running@),
{
    let items = plan.mutating_items();
    let ghost keep = mutating(plan@);
    let ghost all_roots = report.roots@;
    let ghost all_running = report.running@;
    let mut roots: Vec<InstallRoot> = Vec::new();
    assert(all_roots.take(0) =~= Seq::empty());
    for root in it: report.roots
        invariant
            it.seq() == all_roots,
            keep == items@.map_values(|item: &UpdateItem| item@),
            roots@ == touched_roots(platform, keep, all_roots.take(it.index() as int)),
    {
        let ghost at = it.index() as int;
        proof {
            assert(all_roots.take(at + 1).drop_last() =~= all_roots.take(at));
        }
        if is_touched(platform, &items, &root.dir) {
            roots.push(root);
        }
    }
    assert(all_roots.take(all_roots.len() as int) =~= all_roots);
    let mut running: Vec<RunningProcess> = Vec::new();
    assert(all_running.take(0) =~= Seq::empty());
    for process in it: report.running
        invariant
            it.seq() == all_running,
            keep == items@.map_values(|item: &UpdateItem| item@),
            running@ == touched_processes(platform, keep, all_running.take(it.index() as int)),
    {
        let ghost at = it.index() as int;
        proof {
            assert(all_running.take(at + 1).drop_last() =~= all_running.take(at));
        }
        let inside = match &process.image_path {
            Some(image) => match parent_of(platform, image) {
                Some(dir) => is_touched(platform, &items, &dir),
                None => false,
            },
            None => false,
        };
        if inside {
            running.push(process);
        }
    }
    assert(all_running.take(all_running.len() as int) =~= all_running);
    DetectionReport { roots, running }
}

// ---- laws ----

/// No root takes Administrator rights and must be without them, and none that is skipped takes or
/// forbids them.
pub proof fn law_rights_do_not_conflict(root: InstallRoot)
    ensures
        !(classified(root).needs_elevation && classified(root).needs_non_elevated),
        !classified(root).action.mutates() ==> !classified(root).needs_elevation && !classified(
            root,
        ).needs_non_elevated,
{
}

/// Taking out what must be done without Administrator rights loses nothing: what is taken out is
/// exactly the items that forbid such rights, what stays is exactly the others, both in their order,
/// and together they are all items.
pub proof fn law_splitting_loses_nothing(items: Seq<UpdateItemView>)
    ensures
        non_elevated(items, true) == items.filter(|item: UpdateItemView| item.needs_non_elevated),
        non_elevated(items, false) == items.filter(|item: UpdateItemView| !item.needs_non_elevated),
        non_elevated(items, true).to_multiset().add(non_elevated(items, false).to_multiset())
            == items.to_multiset(),
    decreases items.len(),
{
    broadcast use vstd::seq_lib::group_to_multiset_ensures;

    reveal(Seq::filter);
    if items.len() > 0 {
        law_splitting_loses_nothing(items.drop_last());
        assert(items =~= items.drop_last().push(items.last()));
    }
    assert(non_elevated(items, true) =~= items.filter(
        |item: UpdateItemView| item.needs_non_elevated,
    ));
    assert(non_elevated(items, false) =~= items.filter(
        |item: UpdateItemView| !item.needs_non_elevated,
    ));
    assert(non_elevated(items, true).to_multiset().add(non_elevated(items, false).to_multiset())
        =~= items.to_multiset());
}

/// After the items that take Administrator rights were dropped, exactly the others stay, in their
/// order, and what was dropped and what stays are together all items.
pub proof fn law_dropping_leaves_doable_work(items: Seq<UpdateItemView>)
    ensures
        !any_elevated(unprivileged(items)),
        unprivileged(items) == items.filter(|item: UpdateItemView| !item.needs_elevation),
        unprivileged(items).len() + privileged_descriptions(items).len() == items.len(),
        descriptions(items).to_multiset() == descriptions(unprivileged(items)).to_multiset().add(
            privileged_descriptions(items).to_multiset(),
        ),
    decreases items.len(),
{
    broadcast use vstd::seq_lib::group_to_multiset_ensures;

    reveal(Seq::filter);
    if items.len() > 0 {
        let earlier = items.drop_last();
        let text = described(items.last());
        law_dropping_leaves_doable_work(earlier);
        let before = unprivileged(earlier);
        let now = unprivileged(items);
        assert forall|i: int| 0 <= i < now.len() implies !(#[trigger] now[i]).needs_elevation by {
            if i < before.len() {
                assert(now[i] == before[i]);
            }
        }
        assert(descriptions(items) =~= descriptions(earlier).push(text));
        if !items.last().needs_elevation {
            assert(descriptions(now) =~= descriptions(before).push(text));
        }
    }
    assert(unprivileged(items) =~= items.filter(|item: UpdateItemView| !item.needs_elevation));
    assert(descriptions(items).to_multiset() =~= descriptions(
        unprivileged(items),
    ).to_multiset().add(privileged_descriptions(items).to_multiset()));
}

/// A report that was cut down to a plan holds exactly the roots that the plan changes, in their
/// order.
pub proof fn law_pruned_roots_are_changed(
    platform: Platform,
    items: Seq<UpdateItemView>,
    roots: Seq<InstallRoot>,
)
    ensures
        touched_roots(platform, items, roots) == roots.filter(
            |root: InstallRoot| touched(platform, items, root.dir@),
        ),
    decreases roots.len(),
{
    reveal(Seq::filter);
    if roots.len() > 0 {
        law_pruned_roots_are_changed(platform, items, roots.drop_last());
    }
    assert(touched_roots(platform, items, roots) =~= roots.filter(
        |root: InstallRoot| touched(platform, items, root.dir@),
    ));
}

/// A root is updated the way of its channel: one of the package manager through it, one that was
/// placed by hand by replacing its executables, and a development build or an unknown one not at all.
/// Rights are needed for what belongs to the machine or cannot be written, and a package of a user
/// must be updated without them.
pub proof fn law_each_root_is_updated_its_own_way(root: &InstallRoot, res: UpdateItem)
    requires
        call_ensures(classify_root, (root,), res),
    ensures
        res.dir@ == root.dir@ && res.channel == root.channel && res.scope == root.scope,
        root.channel == Channel::WinGet <==> res.action == UpdateAction::WingetUpgrade,
        root.channel == Channel::Unmanaged <==> res.action == UpdateAction::ReplaceBinaries,
        root.channel == Channel::DevBuild <==> res.action == UpdateAction::SkipDevBuild,
        root.channel == Channel::Unknown <==> res.action == UpdateAction::SkipUnknown,
        res.needs_elevation <==> (root.channel == Channel::WinGet && root.scope == Scope::Machine)
            || (root.channel == Channel::Unmanaged && !root.user_writable),
        res.needs_non_elevated <==> root.channel == Channel::WinGet && root.scope
            != Scope::Machine,
{
    assert(res@.action == res.action && res@.channel == res.channel);
}

/// A plan holds one item for each root, in their order; and the items that change something are those
/// that replace executables or upgrade a package, so that there is work exactly where there is one.
pub proof fn law_a_plan_follows_the_roots(
    report: &DetectionReport,
    plan: UpdatePlan,
    change: Vec<&UpdateItem>,
    works: bool,
    i: int,
)
    requires
        call_ensures(UpdatePlan::build, (report,), plan),
        call_ensures(UpdatePlan::mutating_items, (&plan,), change),
        call_ensures(UpdatePlan::has_work, (&plan,), works),
    ensures
        plan.items@.len() == report.roots@.len(),
        0 <= i < report.roots@.len() ==> plan.items@[i].dir@ == report.roots@[i].dir@
            && plan.items@[i].channel == report.roots@[i].channel && plan.items@[i].scope
            == report.roots@[i].scope,
        change@.map_values(|item: &UpdateItem| item@) == plan@.filter(
            |item: UpdateItemView|
                item.action == UpdateAction::ReplaceBinaries || item.action
                    == UpdateAction::WingetUpgrade,
        ),
        works <==> change@.len() > 0,
        works <==> exists|k: int|
            0 <= k < report.roots@.len() && ((#[trigger] report.roots@[k]).channel
                == Channel::WinGet || report.roots@[k].channel == Channel::Unmanaged),
{
    assert(plan@.len() == plan.items@.len());
    if 0 <= i < report.roots@.len() {
        assert(plan@[i] == plan.items@[i]@);
    }
    assert(change@.map_values(|item: &UpdateItem| item@).len() == change@.len());
    lemma_mutating(plan@);
    if works {
        let k = choose|k: int| 0 <= k < plan@.len() && (#[trigger] plan@[k]).action.mutates();
        assert(plan@[k] == classified(report.roots@[k]));
    }
    if exists|k: int|
        0 <= k < report.roots@.len() && ((#[trigger] report.roots@[k]).channel == Channel::WinGet
            || report.roots@[k].channel == Channel::Unmanaged) {
        let k = choose|k: int|
            0 <= k < report.roots@.len() && ((#[trigger] report.roots@[k]).channel
                == Channel::WinGet || report.roots@[k].channel == Channel::Unmanaged);
        assert(plan@[k] == classified(report.roots@[k]));
        assert(plan@[k].action.mutates());
    }
}

proof fn lemma_mutating(items: Seq<UpdateItemView>)
    ensures
        mutating(items) == items.filter(
            |item: UpdateItemView|
                item.action == UpdateAction::ReplaceBinaries || item.action
                    == UpdateAction::WingetUpgrade,
        ),
        mutating(items).len() > 0 <==> exists|k: int|
            0 <= k < items.len() && (#[trigger] items[k]).action.mutates(),
        forall|k: int|
            0 <= k < items.len() && (#[trigger] items[k]).action.mutates() ==> mutating(
                items,
            ).contains(items[k]),
        forall|k: int|
            0 <= k < mutating(items).len() ==> items.contains(#[trigger] mutating(items)[k])
                && mutating(items)[k].action.mutates(),
    decreases items.len(),
{
    reveal(Seq::filter);
    let wanted = |item: UpdateItemView|
        item.action == UpdateAction::ReplaceBinaries || item.action == UpdateAction::WingetUpgrade;
    let all = mutating(items);
    if items.len() > 0 {
        let rest = items.drop_last();
        let before = mutating(rest);
        lemma_mutating(rest);
        assert forall|k: int| 0 <= k < items.len() && (#[trigger] items[k]).action.mutates() implies all.contains(
            items[k],
        ) by {
            if k < rest.len() {
                assert(rest[k] == items[k]);
                assert(before.contains(rest[k]));
                let j = choose|j: int| 0 <= j < before.len() && before[j] == rest[k];
                assert(all[j] == items[k]);
            } else {
                assert(all[all.len() - 1] == items[k]);
            }
        }
        assert forall|k: int| 0 <= k < all.len() implies items.contains(#[trigger] all[k])
            && all[k].action.mutates() by {
            if k < before.len() {
                assert(all[k] == before[k]);
                assert(rest.contains(before[k]));
                let j = choose|j: int| 0 <= j < rest.len() && rest[j] == before[k];
                assert(items[j] == all[k]);
            } else {
                assert(items[items.len() - 1] == all[k]);
            }
        }
        if all.len() > 0 {
            assert(items.contains(all[0]));
            let j = choose|j: int| 0 <= j < items.len() && items[j] == all[0];
            assert(items[j].action.mutates());
        }
        if exists|k: int| 0 <= k < items.len() && (#[trigger] items[k]).action.mutates() {
            let k = choose|k: int| 0 <= k < items.len() && (#[trigger] items[k]).action.mutates();
            assert(all.contains(items[k]));
        }
    }
    assert(all =~= items.filter(wanted));
}

/// True if some item of a plan that changes something is about a directory.
pub open spec fn changes(platform: Platform, plan: UpdatePlan, dir: Seq<char>) -> bool {
    exists|k: int|
        0 <= k < plan.items@.len() && ((#[trigger] plan.items@[k]).action
            == UpdateAction::ReplaceBinaries || plan.items@[k].action
            == UpdateAction::WingetUpgrade) && platform::same_place(
            platform,
            plan.items@[k].dir@,
            dir,
        )
}

/// What is left of a report are the roots in whose directory the plan changes something and the
/// processes whose executable stands right in such a directory, each in their order.
pub proof fn law_only_what_changes_is_kept(
    platform: Platform,
    report: DetectionReport,
    plan: &UpdatePlan,
    res: DetectionReport,
)
    requires
        call_ensures(prune_report, (platform, report, plan), res),
    ensures
        res.roots@ == report.roots@.filter(
            |root: InstallRoot| changes(platform, *plan, root.dir@),
        ),
        res.running@ == report.running@.filter(
            |process: RunningProcess|
                process.image_path is Some && (platform::parent(
                    platform,
                    process.image_path->Some_0@,
                ) matches Some(dir) && changes(platform, *plan, dir)),
        ),
{
    assert forall|dir: Seq<char>| #[trigger]
        touched(platform, mutating(plan@), dir) == changes(platform, *plan, dir) by {
        lemma_touched(platform, *plan, dir);
    }
    lemma_touched_roots(
        platform,
        mutating(plan@),
        report.roots@,
        |root: InstallRoot| changes(platform, *plan, root.dir@),
    );
    lemma_touched_processes(
        platform,
        mutating(plan@),
        report.running@,
        |process: RunningProcess|
            process.image_path is Some && (platform::parent(platform, process.image_path->Some_0@) matches Some(
                dir,
            ) && changes(platform, *plan, dir)),
    );
}

proof fn lemma_touched(platform: Platform, plan: UpdatePlan, dir: Seq<char>)
    ensures
        touched(platform, mutating(plan@), dir) == changes(platform, plan, dir),
{
    let items = mutating(plan@);
    lemma_mutating(plan@);
    if touched(platform, items, dir) {
        let i = choose|i: int|
            0 <= i < items.len() && platform::same_place(platform, (#[trigger] items[i]).dir, dir);
        assert(plan@.contains(items[i]));
        let k = choose|k: int| 0 <= k < plan@.len() && plan@[k] == items[i];
        assert(plan@[k] == plan.items@[k]@);
        assert(plan.items@[k].action.mutates());
        assert(changes(platform, plan, dir));
    }
    if changes(platform, plan, dir) {
        let k = choose|k: int|
            0 <= k < plan.items@.len() && ((#[trigger] plan.items@[k]).action
                == UpdateAction::ReplaceBinaries || plan.items@[k].action
                == UpdateAction::WingetUpgrade) && platform::same_place(
                platform,
                plan.items@[k].dir@,
                dir,
            );
        assert(plan@[k] == plan.items@[k]@);
        assert(plan@[k].action.mutates());
        assert(items.contains(plan@[k]));
        let i = choose|i: int| 0 <= i < items.len() && items[i] == plan@[k];
        assert(platform::same_place(platform, items[i].dir, dir));
    }
}

proof fn lemma_touched_roots(
    platform: Platform,
    items: Seq<UpdateItemView>,
    roots: Seq<InstallRoot>,
    wanted: spec_fn(InstallRoot) -> bool,
)
    requires
        forall|root: InstallRoot| #[trigger]
            wanted(root) == touched(platform, items, root.dir@),
    ensures
        touched_roots(platform, items, roots) == roots.filter(wanted),
    decreases roots.len(),
{
    reveal(Seq::filter);
    if roots.len() > 0 {
        lemma_touched_roots(platform, items, roots.drop_last(), wanted);
        assert(wanted(roots.last()) == touched(platform, items, roots.last().dir@));
    }
    assert(touched_roots(platform, items, roots) =~= roots.filter(wanted));
}

proof fn lemma_touched_processes(
    platform: Platform,
    items: Seq<UpdateItemView>,
    running: Seq<RunningProcess>,
    wanted: spec_fn(RunningProcess) -> bool,
)
    requires
        forall|process: RunningProcess| #[trigger]
            wanted(process) == runs_from(platform, items, process),
    ensures
        touched_processes(platform, items, running) == running.filter(wanted),
    decreases running.len(),
{
    reveal(Seq::filter);
    if running.len() > 0 {
        lemma_touched_processes(platform, items, running.drop_last(), wanted);
        assert(wanted(running.last()) == runs_from(platform, items, running.last()));
    }
    assert(touched_processes(platform, items, running) =~= running.filter(wanted));
}

/// An item is told with its directory, its channel, its scope where that is known, and what is done
/// to it.
pub proof fn law_an_item_is_told_in_full(
    item: &UpdateItem,
    res: String,
    channel: &'static str,
    scope: &'static str,
    action: &'static str,
)
    requires
        call_ensures(UpdateItem::describe, (item,), res),
        call_ensures(Channel::label, (item.channel,), channel),
        call_ensures(Scope::label, (item.scope,), scope),
        call_ensures(UpdateAction::label, (item.action,), action),
    ensures
        item.scope == Scope::Unknown ==> res@ == item.dir@ + " ("@ + channel@ + ") \u{2014} "@
            + action@,
        item.scope != Scope::Unknown ==> res@ == item.dir@ + " ("@ + channel@ + ("/"@ + scope@)
            + ") \u{2014} "@ + action@,
        item.action == UpdateAction::ReplaceBinaries ==> action@ == "replace binaries"@,
        item.action == UpdateAction::WingetUpgrade ==> action@ == "winget upgrade"@,
        item.action == UpdateAction::SkipDevBuild ==> action@ == "skip (dev-build)"@,
        item.action == UpdateAction::SkipUnknown ==> action@ == "skip (unclassified)"@,
{
    reveal_strlit("");
    let front = item.dir@ + " ("@ + channel@;
    assert(front + ""@ =~= front);
}

/// What is left for another run is told under one heading, one line for each entry, in order; and
/// nothing is told where nothing is left.
pub proof fn law_what_is_left_is_told(
    dropped: &Vec<String>,
    res: Vec<String>,
    delegated: &Vec<UpdateItem>,
    notes: Vec<String>,
    i: int,
)
    requires
        call_ensures(skipped_elevation_lines, (dropped,), res),
        call_ensures(winget_delegation_lines, (delegated,), notes),
    ensures
        res@.len() == (if dropped@.len() == 0 {
            0nat
        } else {
            dropped@.len() + 1
        }),
        dropped@.len() > 0 ==> res@[0]@
            == "\nLeft for an elevated run (re-run `uffs --update` as Administrator):"@,
        0 <= i < dropped@.len() ==> res@[i + 1]@ == "  - "@ + dropped@[i]@,
        notes@.len() == (if delegated@.len() == 0 {
            0nat
        } else {
            delegated@.len() + 1
        }),
        0 <= i < delegated@.len() ==> notes@[i + 1]@ == "  - "@ + described(delegated@[i]@),
{
    let told = text::texts(res@);
    let noted = text::texts(notes@);
    assert(told.len() == res@.len() && noted.len() == notes@.len());
    if dropped@.len() > 0 {
        assert(told[0] == res@[0]@);
    }
    if 0 <= i < dropped@.len() {
        assert(told[i + 1] == res@[i + 1]@);
        assert(text::texts(dropped@)[i] == dropped@[i]@);
    }
    if 0 <= i < delegated@.len() {
        assert(noted[i + 1] == notes@[i + 1]@);
        assert(item_views(delegated@)[i] == delegated@[i]@);
    }
}

} // verus!
