//! The removal plan: what an uninstallation removes, in a safe order.
//!
//! A plan is made from the analysis alone.  Each item of it carries its target as data, from which
//! it is both described and executed, so that what is shown is what is removed.  A root that WinGet
//! manages is handed to WinGet, never deleted by hand.

use super::effects;
use super::inventory::{
    ArtifactKind, BrokerServiceState, Inventory, StrayHit, UninstallArgs, UninstallScope,
};
use crate::broker_service::SERVICE_NAME;
use crate::model::{Channel, Component, DetectionReport, InstallRoot, RunningProcess, Scope};
use crate::platform::Platform;
use crate::text;
use crate::text::{cat2, cat3, cat4, cat6, eq_ignore_ascii_case, push_line, same, show_u64};
use vstd::prelude::*;

verus! {

/// The WinGet package that the product is published under.
pub const WINGET_PACKAGE_ID: &'static str = "SkyLLC.UFFS";

/// Heading of the group of tool executables.
pub const TOOLS_GROUP_TITLE: &'static str = "Binaries";

/// Heading of the group of PATH entries.
pub const PATH_GROUP_TITLE: &'static str = "PATH";

/// Heading of the shutdown group.
pub const SHUTDOWN_GROUP_TITLE: &'static str = "Shutdown (stopped last)";

/// Heading of the data group, behind the shutdown group: a running daemon holds handles inside of
/// these directories.
pub const DATA_GROUP_TITLE: &'static str = "Data / cache / config";

/// Heading of the group of runtime executables, which can be deleted only after the shutdown.
pub const RUNTIME_GROUP_TITLE: &'static str = "Runtime binaries (after shutdown)";

/// Heading of the only group of a plan for stray files.
pub const STRAY_GROUP_TITLE: &'static str = "Found elsewhere (deep sweep)";

// ---- targets ----

/// What an item of a plan removes.
#[derive(Debug)]
pub enum PlanTarget {
    /// Stop a running process.
    StopProcess {
        /// Component label.
        component: String,
        /// Process id.
        pid: u32,
    },
    /// Stop and delete the broker service.
    RemoveService {
        /// Service name.
        service: String,
    },
    /// Delete executables in a root that is not managed.
    DeleteBinaries {
        /// The root directory.
        dir: String,
        /// The names of the executables, without suffix.
        stems: Vec<String>,
    },
    /// Hand a managed root to WinGet.
    DelegateWinget {
        /// The package to uninstall.
        package_id: String,
        /// Whom the root is for.
        scope: Scope,
        /// The root directory.
        dir: String,
    },
    /// Delete a directory with everything in it.
    DeleteDir {
        /// The directory.
        path: String,
        /// What it holds.
        label: &'static str,
    },
    /// Remove a directory from PATH.
    RemovePathEntry {
        /// The PATH entry.
        dir: String,
    },
    /// Delete a single stray file.
    DeleteFile {
        /// The file.
        path: String,
        /// The version it reports.
        version: Option<String>,
    },
}

/// The contents of a [`PlanTarget`].
#[verifier::ext_equal]
pub enum TargetView {
    /// Stop a process: component and process id.
    StopProcess(Seq<char>, u32),
    /// Remove a service.
    RemoveService(Seq<char>),
    /// Delete executables: directory and names.
    DeleteBinaries(Seq<char>, Seq<Seq<char>>),
    /// Hand a root to WinGet: package, scope and directory.
    DelegateWinget(Seq<char>, Scope, Seq<char>),
    /// Delete a directory: path and what it holds.
    DeleteDir(Seq<char>, Seq<char>),
    /// Remove a PATH entry.
    RemovePathEntry(Seq<char>),
    /// Delete a file: path and version.
    DeleteFile(Seq<char>, Option<Seq<char>>),
}

impl View for PlanTarget {
    type V = TargetView;

    open spec fn view(&self) -> TargetView {
        match *self {
            PlanTarget::StopProcess { component, pid } => TargetView::StopProcess(component@, pid),
            PlanTarget::RemoveService { service } => TargetView::RemoveService(service@),
            PlanTarget::DeleteBinaries { dir, stems } => TargetView::DeleteBinaries(
                dir@,
                text::texts(stems@),
            ),
            PlanTarget::DelegateWinget { package_id, scope, dir } => TargetView::DelegateWinget(
                package_id@,
                scope,
                dir@,
            ),
            PlanTarget::DeleteDir { path, label } => TargetView::DeleteDir(path@, label@),
            PlanTarget::RemovePathEntry { dir } => TargetView::RemovePathEntry(dir@),
            PlanTarget::DeleteFile { path, version } => TargetView::DeleteFile(
                path@,
                crate::error::shown(version),
            ),
        }
    }
}

/// The one-line description of a target.
pub open spec fn described(target: TargetView) -> Seq<char> {
    match target {
        TargetView::StopProcess(component, pid) => component + " (pid "@ + text::decimal(pid as nat)
            + ")"@,
        TargetView::RemoveService(service) => "Stop + delete service "@ + service,
        TargetView::DeleteBinaries(dir, stems) => text::decimal(stems.len()) + " binaries in "@
            + dir,
        TargetView::DelegateWinget(package, scope, dir) => "winget uninstall "@ + package + "  ("@
            + scope.text() + " root: "@ + (dir + ")"@),
        TargetView::DeleteDir(path, label) => label + " ("@ + path + ")"@,
        TargetView::RemovePathEntry(dir) => "PATH entry "@ + dir,
        TargetView::DeleteFile(path, version) => match version {
            Some(version) => path + " (v"@ + version + ")"@,
            None => path,
        },
    }
}

/// The verb of a target.
pub open spec fn action_text(target: TargetView) -> Seq<char> {
    match target {
        TargetView::StopProcess(_, _) => "stop-process"@,
        TargetView::RemoveService(_) => "remove-service"@,
        TargetView::DeleteBinaries(_, _) => "delete-binaries"@,
        TargetView::DelegateWinget(_, _, _) => "delegate-winget"@,
        TargetView::DeleteDir(_, _) => "delete-dir"@,
        TargetView::RemovePathEntry(_) => "remove-path-entry"@,
        TargetView::DeleteFile(_, _) => "delete-file"@,
    }
}

impl PlanTarget {
    /// Short verb of the target.
    pub fn action_label(&self) -> (res: &'static str)
        ensures
            res@ == action_text(self@),
    {
        match self {
            PlanTarget::StopProcess { .. } => "stop-process",
            PlanTarget::RemoveService { .. } => "remove-service",
            PlanTarget::DeleteBinaries { .. } => "delete-binaries",
            PlanTarget::DelegateWinget { .. } => "delegate-winget",
            PlanTarget::DeleteDir { .. } => "delete-dir",
            PlanTarget::RemovePathEntry { .. } => "remove-path-entry",
            PlanTarget::DeleteFile { .. } => "delete-file",
        }
    }

    /// One-line description of the target.
    pub fn describe(&self) -> (res: String)
        ensures
            res@ == described(self@),
    {
        match self {
            PlanTarget::StopProcess { component, pid } => cat4(
                component,
                " (pid ",
                &show_u64(*pid as u64),
                ")",
            ),
            PlanTarget::RemoveService { service } => cat2("Stop + delete service ", service),
            PlanTarget::DeleteBinaries { dir, stems } => cat3(
                &show_u64(stems.len() as u64),
                " binaries in ",
                dir,
            ),
            PlanTarget::DelegateWinget { package_id, scope, dir } => cat6(
                "winget uninstall ",
                package_id,
                "  (",
                scope.label(),
                " root: ",
                &cat2(dir, ")"),
            ),
            PlanTarget::DeleteDir { path, label } => cat4(label, " (", path, ")"),
            PlanTarget::RemovePathEntry { dir } => cat2("PATH entry ", dir),
            PlanTarget::DeleteFile { path, version } => match version {
                Some(version) => cat4(path, " (v", version, ")"),
                None => path.clone(),
            },
        }
    }
}

// ---- items, groups, plans ----

/// Whom an item of a plan concerns.
#[derive(Debug, Clone, Copy, PartialEq, Eq, Structural)]
pub enum ItemScope {
    /// One user.
    User,
    /// The whole machine.
    Machine,
    /// Either.
    Any,
}

/// One unit of removal work.
#[derive(Debug)]
pub struct PlanItem {
    /// What is removed.
    pub target: PlanTarget,
    /// Whether it takes Administrator rights.
    pub needs_elevation: bool,
    /// Whom it concerns.
    pub scope: ItemScope,
    /// How many bytes it reclaims.
    pub bytes: u64,
}

/// The contents of a [`PlanItem`].
#[verifier::ext_equal]
pub struct ItemView {
    /// What is removed.
    pub target: TargetView,
    /// Whether it takes Administrator rights.
    pub needs_elevation: bool,
    /// Whom it concerns.
    pub scope: ItemScope,
    /// How many bytes it reclaims.
    pub bytes: u64,
}

impl View for PlanItem {
    type V = ItemView;

    open spec fn view(&self) -> ItemView {
        ItemView {
            target: self.target@,
            needs_elevation: self.needs_elevation,
            scope: self.scope,
            bytes: self.bytes,
        }
    }
}

/// A named group of items.
#[derive(Debug)]
pub struct PlanGroup {
    /// Heading.
    pub title: &'static str,
    /// Items.
    pub items: Vec<PlanItem>,
}

/// The contents of a [`PlanGroup`].
#[verifier::ext_equal]
pub struct GroupView {
    /// Heading.
    pub title: Seq<char>,
    /// Items.
    pub items: Seq<ItemView>,
}

/// The contents of items.
pub open spec fn item_views(items: Seq<PlanItem>) -> Seq<ItemView> {
    items.map_values(|item: PlanItem| item@)
}

impl View for PlanGroup {
    type V = GroupView;

    open spec fn view(&self) -> GroupView {
        GroupView { title: self.title@, items: item_views(self.items@) }
    }
}

/// The contents of groups.
pub open spec fn group_views(groups: Seq<PlanGroup>) -> Seq<GroupView> {
    groups.map_values(|group: PlanGroup| group@)
}

/// A removal plan.
#[derive(Debug)]
pub struct RemovalPlan {
    /// Groups in the order of removal.
    pub groups: Vec<PlanGroup>,
}

impl View for RemovalPlan {
    type V = Seq<GroupView>;

    open spec fn view(&self) -> Seq<GroupView> {
        group_views(self.groups@)
    }
}

impl Default for RemovalPlan {
    fn default() -> (res: Self)
        ensures
            res@ == Seq::<GroupView>::empty(),
    {
        let res = RemovalPlan { groups: Vec::new() };
        assert(res@ =~= Seq::empty());
        res
    }
}

/// All items of a plan, in the order of removal.
pub open spec fn all_items(groups: Seq<GroupView>) -> Seq<ItemView>
    decreases groups.len(),
{
    if groups.len() == 0 {
        Seq::empty()
    } else {
        all_items(groups.drop_last()) + groups.last().items
    }
}

/// Whether some item takes Administrator rights.
pub open spec fn any_elevated(items: Seq<ItemView>) -> bool {
    exists|i: int| 0 <= i < items.len() && (#[trigger] items[i]).needs_elevation
}

/// The items that can be removed without Administrator rights.
pub open spec fn unprivileged(items: Seq<ItemView>) -> Seq<ItemView>
    decreases items.len(),
{
    if items.len() == 0 {
        Seq::empty()
    } else if items.last().needs_elevation {
        unprivileged(items.drop_last())
    } else {
        unprivileged(items.drop_last()).push(items.last())
    }
}

/// The descriptions of the items that take Administrator rights.
pub open spec fn privileged_descriptions(items: Seq<ItemView>) -> Seq<Seq<char>>
    decreases items.len(),
{
    if items.len() == 0 {
        Seq::empty()
    } else if items.last().needs_elevation {
        privileged_descriptions(items.drop_last()).push(described(items.last().target))
    } else {
        privileged_descriptions(items.drop_last())
    }
}

/// The groups without the items that take Administrator rights, and without the groups that this
/// leaves empty.
pub open spec fn unprivileged_groups(groups: Seq<GroupView>) -> Seq<GroupView>
    decreases groups.len(),
{
    if groups.len() == 0 {
        Seq::empty()
    } else {
        let before = unprivileged_groups(groups.drop_last());
        let kept = unprivileged(groups.last().items);
        if kept.len() == 0 {
            before
        } else {
            before.push(GroupView { title: groups.last().title, items: kept })
        }
    }
}

/// The bytes that items reclaim, at most `u64::MAX`.
pub open spec fn reclaimed(items: Seq<ItemView>) -> int
    decreases items.len(),
{
    if items.len() == 0 {
        0
    } else {
        let sum = reclaimed(items.drop_last()) + items.last().bytes;
        if sum > u64::MAX {
            u64::MAX as int
        } else {
            sum
        }
    }
}

proof fn lemma_all_items_push(groups: Seq<GroupView>, group: GroupView)
    ensures
        all_items(groups.push(group)) == all_items(groups) + group.items,
{
    assert(groups.push(group).drop_last() =~= groups);
}

impl RemovalPlan {
    /// Every item of the plan, in order.
    pub fn items(&self) -> (res: Vec<&PlanItem>)
        ensures
            res@.map_values(|item: &PlanItem| item@) == all_items(self@),
    {
        let mut res: Vec<&PlanItem> = Vec::new();
        let mut g: usize = 0;
        assert(res@.map_values(|item: &PlanItem| item@) =~= Seq::empty());
        while g < self.groups.len()
            invariant
                g <= self.groups@.len(),
                res@.map_values(|item: &PlanItem| item@) == all_items(self@.take(g as int)),
            decreases self.groups@.len() - g,
        {
            let ghost before = all_items(self@.take(g as int));
            let group = &self.groups[g];
            let mut k: usize = 0;
            assert(before + group@.items.take(0) =~= before);
            while k < group.items.len()
                invariant
                    k <= group.items@.len(),
                    res@.map_values(|item: &PlanItem| item@) == before + group@.items.take(
                        k as int,
                    ),
                decreases group.items@.len() - k,
            {
                let ghost listed = res@.map_values(|item: &PlanItem| item@);
                res.push(&group.items[k]);
                proof {
                    assert(res@.map_values(|item: &PlanItem| item@) =~= listed.push(
                        group.items@[k as int]@,
                    ));
                    assert(before + group@.items.take(k + 1) =~= listed.push(
                        group.items@[k as int]@,
                    ));
                }
                k += 1;
            }
            proof {
                assert(group@.items.take(k as int) =~= group@.items);
                assert(self@.take(g + 1).drop_last() =~= self@.take(g as int));
                assert(self@.take(g + 1).last() == group@);
            }
            g += 1;
        }
        assert(self@.take(g as int) =~= self@);
        res
    }

    /// Whether any item takes Administrator rights.
    pub fn requires_elevation(&self) -> (res: bool)
        ensures
            res == any_elevated(all_items(self@)),
    {
        let items = self.items();
        let ghost shown = items@.map_values(|item: &PlanItem| item@);
        let mut i: usize = 0;
        while i < items.len()
            invariant
                i <= items@.len(),
                shown == items@.map_values(|item: &PlanItem| item@),
                shown == all_items(self@),
                forall|k: int| 0 <= k < i ==> !(#[trigger] shown[k]).needs_elevation,
            decreases items@.len() - i,
        {
            assert(shown[i as int] == items@[i as int]@);
            if items[i].needs_elevation {
                return true;
            }
            i += 1;
        }
        false
    }

    /// Total bytes the plan would reclaim.
    pub fn total_bytes(&self) -> (res: u64)
        ensures
            res == reclaimed(all_items(self@)),
    {
        let items = self.items();
        let ghost shown = items@.map_values(|item: &PlanItem| item@);
        let mut total: u64 = 0;
        let mut i: usize = 0;
        while i < items.len()
            invariant
                i <= items@.len(),
                shown == items@.map_values(|item: &PlanItem| item@),
                total == reclaimed(shown.take(i as int)),
            decreases items@.len() - i,
        {
            proof {
                assert(shown.take(i + 1).drop_last() =~= shown.take(i as int));
                assert(shown.take(i + 1).last() == items@[i as int]@);
            }
            total = total.saturating_add(items[i].bytes);
            i += 1;
        }
        assert(shown.take(i as int) =~= shown);
        total
    }

    /// Number of items.
    pub fn item_count(&self) -> (res: usize)
        ensures
            res == all_items(self@).len(),
    {
        let items = self.items();
        assert(items@.map_values(|item: &PlanItem| item@).len() == items@.len());
        items.len()
    }

    /// Whether there is nothing to remove.
    pub fn is_empty(&self) -> (res: bool)
        ensures
            res == (all_items(self@).len() == 0),
    {
        self.item_count() == 0
    }

    /// Drop every item that takes Administrator rights, with the groups that this leaves empty, and
    /// give the descriptions of what was dropped.
    pub fn drop_elevation_required(&mut self) -> (dropped: Vec<String>)
        ensures
            final(self)@ == unprivileged_groups(old(self)@),
            text::texts(dropped@) == privileged_descriptions(all_items(old(self)@)),
    {
        let mut dropped: Vec<String> = Vec::new();
        let mut kept_groups: Vec<PlanGroup> = Vec::new();
        let mut groups: Vec<PlanGroup> = Vec::new();
        std::mem::swap(&mut groups, &mut self.groups);
        let ghost before = group_views(groups@);
        let ghost all = groups@;
        for group in it: groups
            invariant
                it.seq() == all,
                before == group_views(all),
                group_views(kept_groups@) == unprivileged_groups(before.take(it.index() as int)),
                text::texts(dropped@) == privileged_descriptions(
                    all_items(before.take(it.index() as int)),
                ),
        {
            let ghost g = it.index() as int;
            let ghost view = group@;
            let ghost done = all_items(before.take(g));
            proof {
                assert(before.take(g + 1).drop_last() =~= before.take(g));
                assert(before.take(g + 1).last() == view);
            }
            let title = group.title;
            let ghost items = group.items@;
            let mut kept: Vec<PlanItem> = Vec::new();
            assert(done + view.items.take(0) =~= done);
            assert(item_views(kept@) =~= Seq::empty());
            for item in inner: group.items
                invariant
                    inner.seq() == items,
                    view.items == item_views(items),
                    item_views(kept@) == unprivileged(view.items.take(inner.index() as int)),
                    text::texts(dropped@) == privileged_descriptions(
                        done + view.items.take(inner.index() as int),
                    ),
            {
                let ghost k = inner.index() as int;
                let ghost item_view = item@;
                proof {
                    assert(view.items.take(k + 1).drop_last() =~= view.items.take(k));
                    assert(view.items.take(k + 1).last() == item_view);
                    assert((done + view.items.take(k + 1)).drop_last() =~= done + view.items.take(
                        k,
                    ));
                    assert((done + view.items.take(k + 1)).last() == item_view);
                }
                if item.needs_elevation {
                    let ghost told = text::texts(dropped@);
                    dropped.push(item.target.describe());
                    assert(text::texts(dropped@) =~= told.push(described(item_view.target)));
                } else {
                    let ghost held = item_views(kept@);
                    kept.push(item);
                    assert(item_views(kept@) =~= held.push(item_view));
                }
            }
            proof {
                assert(view.items.take(items.len() as int) =~= view.items);
            }
            if kept.len() > 0 {
                let ghost held = group_views(kept_groups@);
                kept_groups.push(PlanGroup { title, items: kept });
                assert(group_views(kept_groups@) =~= held.push(
                    GroupView { title: view.title, items: unprivileged(view.items) },
                ));
            }
        }
        assert(before.take(all.len() as int) =~= before);
        self.groups = kept_groups;
        dropped
    }
}

// ---- sizing ----

/// Whether an item is another one with its size filled in: an item that deletes executables has a
/// size that `size_of` gives for its directory and names, any other one is as it was.
pub open spec fn sized<F: Fn(&str, &[String]) -> u64>(
    before: PlanItem,
    after: PlanItem,
    size_of: F,
) -> bool {
    &&& after.target == before.target
    &&& after.needs_elevation == before.needs_elevation
    &&& after.scope == before.scope
    &&& match before.target {
        PlanTarget::DeleteBinaries { dir, stems } => size_given(size_of, dir@, stems@, after.bytes),
        _ => after.bytes == before.bytes,
    }
}

/// Whether `size_of` gives a size for a directory and names.
pub open spec fn size_given<F: Fn(&str, &[String]) -> u64>(
    size_of: F,
    dir: Seq<char>,
    stems: Seq<String>,
    bytes: u64,
) -> bool {
    exists|d: &str, s: &[String]|
        d@ == dir && s@ == stems && #[trigger] call_ensures(size_of, (d, s), bytes)
}

fn sized_items<F: Fn(&str, &[String]) -> u64>(items: Vec<PlanItem>, size_of: &F) -> (res: Vec<
    PlanItem,
>)
    requires
        forall|d: &str, s: &[String]| call_requires(*size_of, (d, s)),
    ensures
        res@.len() == items@.len(),
        forall|i: int|
            0 <= i < items@.len() ==> sized(items@[i], #[trigger] res@[i], *size_of),
{
    let ghost all = items@;
    let mut res: Vec<PlanItem> = Vec::new();
    for item in it: items
        invariant
            it.seq() == all,
            res@.len() == it.index(),
            forall|d: &str, s: &[String]| call_requires(*size_of, (d, s)),
            forall|i: int| 0 <= i < res@.len() ==> sized(all[i], #[trigger] res@[i], *size_of),
    {
        let ghost before = item;
        let bytes: u64 = match &item.target {
            PlanTarget::DeleteBinaries { dir, stems } => {
                let d: &str = dir.as_str();
                let s: &[String] = stems.as_slice();
                let bytes: u64 = size_of(d, s);
                assert(call_ensures(*size_of, (d, s), bytes));
                assert(size_given(*size_of, dir@, stems@, bytes));
                bytes
            },
            _ => item.bytes,
        };
        let after = PlanItem {
            target: item.target,
            needs_elevation: item.needs_elevation,
            scope: item.scope,
            bytes,
        };
        assert(sized(before, after, *size_of));
        res.push(after);
    }
    res
}

impl RemovalPlan {
    /// Fill in the size of every item that deletes executables, by what `size_of` gives for its
    /// directory and names.  Everything else stays as it is.
    pub fn size_binaries<F: Fn(&str, &[String]) -> u64>(&mut self, size_of: F)
        requires
            forall|d: &str, s: &[String]| call_requires(size_of, (d, s)),
        ensures
            final(self).groups@.len() == old(self).groups@.len(),
            forall|g: int|
                0 <= g < old(self).groups@.len() ==> {
                    &&& (#[trigger] final(self).groups@[g]).title == old(self).groups@[g].title
                    &&& final(self).groups@[g].items@.len() == old(self).groups@[g].items@.len()
                    &&& forall|i: int|
                        0 <= i < old(self).groups@[g].items@.len() ==> sized(
                            old(self).groups@[g].items@[i],
                            #[trigger] final(self).groups@[g].items@[i],
                            size_of,
                        )
                },
    {
        let mut groups: Vec<PlanGroup> = Vec::new();
        std::mem::swap(&mut groups, &mut self.groups);
        let ghost all = groups@;
        let mut res: Vec<PlanGroup> = Vec::new();
        for group in it: groups
            invariant
                it.seq() == all,
                res@.len() == it.index(),
                forall|d: &str, s: &[String]| call_requires(size_of, (d, s)),
                forall|g: int|
                    0 <= g < res@.len() ==> {
                        &&& (#[trigger] res@[g]).title == all[g].title
                        &&& res@[g].items@.len() == all[g].items@.len()
                        &&& forall|i: int|
                            0 <= i < all[g].items@.len() ==> sized(
                                all[g].items@[i],
                                #[trigger] res@[g].items@[i],
                                size_of,
                            )
                    },
        {
            let title = group.title;
            let items = sized_items(group.items, &size_of);
            res.push(PlanGroup { title, items });
        }
        self.groups = res;
    }
}

// ---- making sure that the daemon is stopped ----

/// The item that stops the daemon.
pub open spec fn daemon_stop(pid: u32) -> ItemView {
    ItemView {
        target: TargetView::StopProcess(Component::Daemon.text(), pid),
        needs_elevation: false,
        scope: ItemScope::Any,
        bytes: 0,
    }
}

/// Whether an item stops the daemon.
pub open spec fn stops_daemon(item: ItemView) -> bool {
    match item.target {
        TargetView::StopProcess(component, _) => component == Component::Daemon.text(),
        _ => false,
    }
}

/// Whether some item stops the daemon.
pub open spec fn any_daemon_stop(items: Seq<ItemView>) -> bool {
    exists|i: int| 0 <= i < items.len() && stops_daemon(#[trigger] items[i])
}

/// The first group that is the shutdown group, from `from` on.
pub open spec fn shutdown_group(groups: Seq<GroupView>, from: int) -> Option<int>
    decreases groups.len() - from,
{
    if from < 0 || from >= groups.len() {
        None
    } else if groups[from].title == SHUTDOWN_GROUP_TITLE@ {
        Some(from)
    } else {
        shutdown_group(groups, from + 1)
    }
}

/// Where a shutdown group goes: before the first data or runtime group from `from` on, else last.
pub open spec fn shutdown_place(groups: Seq<GroupView>, from: int) -> int
    decreases groups.len() - from,
{
    if from < 0 || from >= groups.len() {
        groups.len() as int
    } else if groups[from].title == DATA_GROUP_TITLE@ || groups[from].title
        == RUNTIME_GROUP_TITLE@ {
        from
    } else {
        shutdown_place(groups, from + 1)
    }
}

/// The groups with an item that stops the daemon: as they are if they have one, else with one at
/// the front of the shutdown group, else in a shutdown group of its own.
pub open spec fn with_daemon_stop(groups: Seq<GroupView>, pid: u32) -> Seq<GroupView> {
    if any_daemon_stop(all_items(groups)) {
        groups
    } else {
        match shutdown_group(groups, 0) {
            Some(g) => groups.update(
                g,
                GroupView {
                    title: groups[g].title,
                    items: seq![daemon_stop(pid)] + groups[g].items,
                },
            ),
            None => groups.insert(
                shutdown_place(groups, 0),
                GroupView { title: SHUTDOWN_GROUP_TITLE@, items: seq![daemon_stop(pid)] },
            ),
        }
    }
}

proof fn lemma_shutdown_group_bounds(groups: Seq<GroupView>, from: int)
    requires
        0 <= from <= groups.len(),
    ensures
        from <= shutdown_place(groups, from) <= groups.len(),
        shutdown_group(groups, from) is Some ==> from <= shutdown_group(groups, from)->Some_0
            < groups.len(),
    decreases groups.len() - from,
{
    if from < groups.len() {
        lemma_shutdown_group_bounds(groups, from + 1);
    }
}

impl RemovalPlan {
    fn has_daemon_stop(&self) -> (res: bool)
        ensures
            res == any_daemon_stop(all_items(self@)),
    {
        let items = self.items();
        let ghost shown = items@.map_values(|item: &PlanItem| item@);
        let mut i: usize = 0;
        while i < items.len()
            invariant
                i <= items@.len(),
                shown == items@.map_values(|item: &PlanItem| item@),
                shown == all_items(self@),
                forall|k: int| 0 <= k < i ==> !stops_daemon(#[trigger] shown[k]),
            decreases items@.len() - i,
        {
            assert(shown[i as int] == items@[i as int]@);
            if let PlanTarget::StopProcess { component, pid: _ } = &items[i].target {
                if same(component, Component::Daemon.label()) {
                    return true;
                }
            }
            i += 1;
        }
        false
    }

    /// Make sure that the plan stops the daemon at `pid` before its executable is deleted.  A
    /// daemon that was started after the plan was made is not in it yet.
    pub fn ensure_daemon_shutdown(&mut self, pid: u32)
        ensures
            final(self)@ == with_daemon_stop(old(self)@, pid),
    {
        if self.has_daemon_stop() {
            return;
        }
        let stop = PlanItem {
            target: PlanTarget::StopProcess { component: Component::Daemon.label().to_owned(), pid },
            needs_elevation: false,
            scope: ItemScope::Any,
            bytes: 0,
        };
        let ghost before = self@;
        assert(stop@ =~= daemon_stop(pid));
        let mut g: usize = 0;
        while g < self.groups.len()
            invariant
                g <= self.groups@.len(),
                self@ == before,
                stop@ == daemon_stop(pid),
                !any_daemon_stop(all_items(before)),
                before == old(self)@,
                shutdown_group(before, g as int) == shutdown_group(before, 0),
            decreases self.groups@.len() - g,
        {
            assert(before[g as int] == self.groups@[g as int]@);
            if same(self.groups[g].title, SHUTDOWN_GROUP_TITLE) {
                let ghost items = self.groups@[g as int].items@;
                self.groups[g].items.insert(0, stop);
                proof {
                    assert(self.groups@[g as int].items@ =~= items.insert(0, stop));
                    assert(item_views(self.groups@[g as int].items@) =~= seq![daemon_stop(pid)]
                        + item_views(items));
                    assert(self@ =~= with_daemon_stop(before, pid));
                }
                return;
            }
            g += 1;
        }
        let mut at: usize = 0;
        while at < self.groups.len() && !same(self.groups[at].title, DATA_GROUP_TITLE) && !same(
            self.groups[at].title,
            RUNTIME_GROUP_TITLE,
        )
            invariant
                at <= self.groups@.len(),
                self@ == before,
                shutdown_place(before, at as int) == shutdown_place(before, 0),
            decreases self.groups@.len() - at,
        {
            assert(before[at as int] == self.groups@[at as int]@);
            at += 1;
        }
        proof {
            if at < self.groups@.len() {
                assert(before[at as int] == self.groups@[at as int]@);
            }
        }
        let mut items: Vec<PlanItem> = Vec::new();
        items.push(stop);
        assert(item_views(items@) =~= seq![daemon_stop(pid)]);
        self.groups.insert(at, PlanGroup { title: SHUTDOWN_GROUP_TITLE, items });
        assert(self@ =~= with_daemon_stop(before, pid));
    }
}

// ---- building the plan ----

/// The executables whose files are locked while the resident parts run.
pub open spec fn is_runtime_name(stem: Seq<char>) -> bool {
    let name = text::lowered(stem);
    name == text::lowered("uffsd"@) || name == text::lowered("uffs-broker"@) || name
        == text::lowered("uffsmcp"@) || name == text::lowered("uffs-mcp-http"@)
}

/// Whether `stem` names a runtime executable.
pub fn is_runtime_stem(stem: &str) -> (res: bool)
    ensures
        res == is_runtime_name(stem@),
{
    eq_ignore_ascii_case(stem, "uffsd") || eq_ignore_ascii_case(stem, "uffs-broker")
        || eq_ignore_ascii_case(stem, "uffsmcp") || eq_ignore_ascii_case(stem, "uffs-mcp-http")
}

/// Which of a root's executables are meant.
#[derive(Debug, Clone, Copy, PartialEq, Eq, Structural)]
pub enum StemSet {
    /// The tools, which can be deleted any time.
    Tools,
    /// The runtime executables, which can be deleted only after the shutdown.
    Runtime,
}

/// Whether removing a root's executables takes rights that the current user may not have: on
/// Windows where the root is for the whole machine, on Unix where the user cannot write to it.
pub open spec fn needs_escalation(platform: Platform, scope: Scope, user_writable: bool) -> bool {
    match platform {
        Platform::Windows => scope == Scope::Machine,
        Platform::MacOs => !user_writable,
        Platform::Unix => !user_writable,
        Platform::Other => false,
    }
}

/// Whether removing a root's executables takes rights that the current user may not have.
pub fn binaries_need_escalation(platform: Platform, scope: Scope, user_writable: bool) -> (res: bool)
    ensures
        res == needs_escalation(platform, scope, user_writable),
{
    match platform {
        Platform::Windows => scope == Scope::Machine,
        Platform::MacOs => !user_writable,
        Platform::Unix => !user_writable,
        Platform::Other => false,
    }
}

/// The names of a root's executables that are in a set, in order.
pub open spec fn stems_in(binaries: Seq<crate::model::BinaryInfo>, set: StemSet) -> Seq<Seq<char>>
    decreases binaries.len(),
{
    if binaries.len() == 0 {
        Seq::empty()
    } else {
        let before = stems_in(binaries.drop_last(), set);
        if (set == StemSet::Runtime) == is_runtime_name(binaries.last().name@) {
            before.push(binaries.last().name@)
        } else {
            before
        }
    }
}

/// The item that removes a set of a root's executables, if there is anything to remove.  A root
/// that WinGet manages is handed to it as a whole, after the shutdown: WinGet cannot delete the
/// files of what still runs.
pub open spec fn root_item(platform: Platform, root: InstallRoot, set: StemSet) -> Option<ItemView> {
    let needs_elevation = needs_escalation(platform, root.scope, root.user_writable);
    let stems = stems_in(root.binaries@, set);
    let target = if root.channel == Channel::WinGet {
        TargetView::DelegateWinget(WINGET_PACKAGE_ID@, root.scope, root.dir@)
    } else {
        TargetView::DeleteBinaries(root.dir@, stems)
    };
    if root.binaries@.len() == 0 || (root.channel == Channel::WinGet && set == StemSet::Tools) || (
    root.channel != Channel::WinGet && stems.len() == 0) {
        None
    } else {
        Some(
            ItemView {
                target,
                needs_elevation,
                scope: if needs_elevation {
                    ItemScope::Machine
                } else {
                    ItemScope::User
                },
                bytes: 0,
            },
        )
    }
}

fn stems_of(root: &InstallRoot, set: StemSet) -> (stems: Vec<String>)
    ensures
        text::texts(stems@) == stems_in(root.binaries@, set),
{
    let mut stems: Vec<String> = Vec::new();
    let mut i: usize = 0;
    assert(text::texts(stems@) =~= Seq::empty());
    while i < root.binaries.len()
        invariant
            i <= root.binaries@.len(),
            text::texts(stems@) == stems_in(root.binaries@.take(i as int), set),
        decreases root.binaries@.len() - i,
    {
        proof {
            assert(root.binaries@.take(i + 1).drop_last() =~= root.binaries@.take(i as int));
        }
        let name = &root.binaries[i].name;
        if (set == StemSet::Runtime) == is_runtime_stem(name) {
            let ghost before = text::texts(stems@);
            stems.push(name.clone());
            assert(text::texts(stems@) =~= before.push(name@));
        }
        i += 1;
    }
    assert(root.binaries@.take(i as int) =~= root.binaries@);
    stems
}

/// The item that removes a set of a root's executables, if there is anything to remove.
pub fn binary_item(platform: Platform, root: &InstallRoot, set: StemSet) -> (res: Option<PlanItem>)
    ensures
        match root_item(platform, *root, set) {
            Some(item) => res is Some && res->Some_0@ == item,
            None => res is None,
        },
{
    if root.binaries.len() == 0 {
        return None;
    }
    let needs_elevation = binaries_need_escalation(platform, root.scope, root.user_writable);
    let scope = if needs_elevation {
        ItemScope::Machine
    } else {
        ItemScope::User
    };
    let target = match root.channel {
        Channel::WinGet => {
            if set == StemSet::Tools {
                return None;
            }
            PlanTarget::DelegateWinget {
                package_id: WINGET_PACKAGE_ID.to_owned(),
                scope: root.scope,
                dir: root.dir.clone(),
            }
        },
        _ => {
            let stems = stems_of(root, set);
            assert(text::texts(stems@).len() == stems@.len());
            if stems.len() == 0 {
                return None;
            }
            PlanTarget::DeleteBinaries { dir: root.dir.clone(), stems }
        },
    };
    let item = PlanItem { target, needs_elevation, scope, bytes: 0 };
    assert(item@ =~= root_item(platform, *root, set)->Some_0);
    Some(item)
}

/// The items that remove a set of executables, one per root that has any.
pub open spec fn root_items(platform: Platform, roots: Seq<InstallRoot>, set: StemSet) -> Seq<
    ItemView,
>
    decreases roots.len(),
{
    if roots.len() == 0 {
        Seq::empty()
    } else {
        let before = root_items(platform, roots.drop_last(), set);
        match root_item(platform, roots.last(), set) {
            Some(item) => before.push(item),
            None => before,
        }
    }
}

fn binary_items(platform: Platform, roots: &[InstallRoot], set: StemSet) -> (items: Vec<PlanItem>)
    ensures
        item_views(items@) == root_items(platform, roots@, set),
{
    let mut items: Vec<PlanItem> = Vec::new();
    let mut i: usize = 0;
    assert(item_views(items@) =~= Seq::empty());
    while i < roots.len()
        invariant
            i <= roots@.len(),
            item_views(items@) == root_items(platform, roots@.take(i as int), set),
        decreases roots@.len() - i,
    {
        proof {
            assert(roots@.take(i + 1).drop_last() =~= roots@.take(i as int));
        }
        if let Some(item) = binary_item(platform, &roots[i], set) {
            let ghost before = item_views(items@);
            let ghost view = item@;
            items.push(item);
            assert(item_views(items@) =~= before.push(view));
        }
        i += 1;
    }
    assert(roots@.take(i as int) =~= roots@);
    items
}

/// Whether a directory is in a list, but for the case of its letters.
pub open spec fn dir_listed(dirs: Seq<String>, dir: Seq<char>) -> bool {
    exists|i: int|
        0 <= i < dirs.len() && text::lowered((#[trigger] dirs[i])@) == text::lowered(dir)
}

fn is_dir_listed(dirs: &[String], dir: &str) -> (res: bool)
    ensures
        res == dir_listed(dirs@, dir@),
{
    let mut i: usize = 0;
    while i < dirs.len()
        invariant
            i <= dirs@.len(),
            forall|k: int|
                0 <= k < i ==> text::lowered((#[trigger] dirs@[k])@) != text::lowered(dir@),
        decreases dirs@.len() - i,
    {
        if eq_ignore_ascii_case(&dirs[i], dir) {
            return true;
        }
        i += 1;
    }
    false
}

/// The item that removes a root from PATH, if the root has executables, is not managed by WinGet
/// and is among the directories that may leave PATH.
pub open spec fn path_item(root: InstallRoot, removable: Seq<String>) -> Option<ItemView> {
    if root.binaries@.len() > 0 && root.channel != Channel::WinGet && dir_listed(
        removable,
        root.dir@,
    ) {
        let machine = root.scope == Scope::Machine;
        Some(
            ItemView {
                target: TargetView::RemovePathEntry(root.dir@),
                needs_elevation: machine,
                scope: if machine {
                    ItemScope::Machine
                } else {
                    ItemScope::User
                },
                bytes: 0,
            },
        )
    } else {
        None
    }
}

/// The items that remove roots from PATH.
pub open spec fn path_items(roots: Seq<InstallRoot>, removable: Seq<String>) -> Seq<ItemView>
    decreases roots.len(),
{
    if roots.len() == 0 {
        Seq::empty()
    } else {
        let before = path_items(roots.drop_last(), removable);
        match path_item(roots.last(), removable) {
            Some(item) => before.push(item),
            None => before,
        }
    }
}

fn path_entry_items(roots: &[InstallRoot], removable: &[String]) -> (items: Vec<PlanItem>)
    ensures
        item_views(items@) == path_items(roots@, removable@),
{
    let mut items: Vec<PlanItem> = Vec::new();
    let mut i: usize = 0;
    assert(item_views(items@) =~= Seq::empty());
    while i < roots.len()
        invariant
            i <= roots@.len(),
            item_views(items@) == path_items(roots@.take(i as int), removable@),
        decreases roots@.len() - i,
    {
        proof {
            assert(roots@.take(i + 1).drop_last() =~= roots@.take(i as int));
        }
        let root = &roots[i];
        if root.binaries.len() > 0 && root.channel != Channel::WinGet && is_dir_listed(
            removable,
            &root.dir,
        ) {
            let machine = root.scope == Scope::Machine;
            let item = PlanItem {
                target: PlanTarget::RemovePathEntry { dir: root.dir.clone() },
                needs_elevation: machine,
                scope: if machine {
                    ItemScope::Machine
                } else {
                    ItemScope::User
                },
                bytes: 0,
            };
            let ghost before = item_views(items@);
            let ghost view = item@;
            items.push(item);
            assert(item_views(items@) =~= before.push(view));
        }
        i += 1;
    }
    assert(roots@.take(i as int) =~= roots@);
    items
}

/// The items that stop running processes.  The broker is a service: it cannot be stopped as a
/// process, so it is left to the removal of the service.
pub open spec fn stop_items(running: Seq<RunningProcess>) -> Seq<ItemView>
    decreases running.len(),
{
    if running.len() == 0 {
        Seq::empty()
    } else {
        let before = stop_items(running.drop_last());
        if running.last().component == Component::Broker {
            before
        } else {
            before.push(
                ItemView {
                    target: TargetView::StopProcess(
                        running.last().component.text(),
                        running.last().pid,
                    ),
                    needs_elevation: false,
                    scope: ItemScope::Any,
                    bytes: 0,
                },
            )
        }
    }
}

/// The item that removes the broker service.
pub open spec fn service_item() -> ItemView {
    ItemView {
        target: TargetView::RemoveService(SERVICE_NAME@),
        needs_elevation: true,
        scope: ItemScope::Machine,
        bytes: 0,
    }
}

/// The items of the shutdown: stopping the processes, and then removing the service if there is one.
pub open spec fn shutdown_items(
    running: Seq<RunningProcess>,
    broker: BrokerServiceState,
) -> Seq<ItemView> {
    if broker == BrokerServiceState::Installed {
        stop_items(running).push(service_item())
    } else {
        stop_items(running)
    }
}

fn shutdown_plan_items(running: &[RunningProcess], broker: BrokerServiceState) -> (items: Vec<
    PlanItem,
>)
    ensures
        item_views(items@) == shutdown_items(running@, broker),
{
    let mut items: Vec<PlanItem> = Vec::new();
    let mut i: usize = 0;
    assert(item_views(items@) =~= Seq::empty());
    while i < running.len()
        invariant
            i <= running@.len(),
            item_views(items@) == stop_items(running@.take(i as int)),
        decreases running@.len() - i,
    {
        proof {
            assert(running@.take(i + 1).drop_last() =~= running@.take(i as int));
        }
        if running[i].component != Component::Broker {
            let item = PlanItem {
                target: PlanTarget::StopProcess {
                    component: running[i].component.label().to_owned(),
                    pid: running[i].pid,
                },
                needs_elevation: false,
                scope: ItemScope::Any,
                bytes: 0,
            };
            let ghost before = item_views(items@);
            let ghost view = item@;
            items.push(item);
            assert(item_views(items@) =~= before.push(view));
        }
        i += 1;
    }
    assert(running@.take(i as int) =~= running@);
    if broker == BrokerServiceState::Installed {
        let item = PlanItem {
            target: PlanTarget::RemoveService { service: SERVICE_NAME.to_owned() },
            needs_elevation: true,
            scope: ItemScope::Machine,
            bytes: 0,
        };
        let ghost before = item_views(items@);
        assert(item@ =~= service_item());
        items.push(item);
        assert(item_views(items@) =~= before.push(service_item()));
    }
    items
}

/// The items that delete directories: those that exist, without the settings if they are kept.
pub open spec fn dir_items(
    dirs: Seq<super::inventory::ArtifactDir>,
    keep_config: bool,
) -> Seq<ItemView>
    decreases dirs.len(),
{
    if dirs.len() == 0 {
        Seq::empty()
    } else {
        let before = dir_items(dirs.drop_last(), keep_config);
        let dir = dirs.last();
        if dir.exists && !(keep_config && dir.kind == ArtifactKind::Config) {
            before.push(
                ItemView {
                    target: TargetView::DeleteDir(dir.path@, dir.kind.text()),
                    needs_elevation: false,
                    scope: ItemScope::User,
                    bytes: dir.size_bytes,
                },
            )
        } else {
            before
        }
    }
}

fn data_items(dirs: &[super::inventory::ArtifactDir], keep_config: bool) -> (items: Vec<PlanItem>)
    ensures
        item_views(items@) == dir_items(dirs@, keep_config),
{
    let mut items: Vec<PlanItem> = Vec::new();
    let mut i: usize = 0;
    assert(item_views(items@) =~= Seq::empty());
    while i < dirs.len()
        invariant
            i <= dirs@.len(),
            item_views(items@) == dir_items(dirs@.take(i as int), keep_config),
        decreases dirs@.len() - i,
    {
        proof {
            assert(dirs@.take(i + 1).drop_last() =~= dirs@.take(i as int));
        }
        let dir = &dirs[i];
        if dir.exists && !(keep_config && dir.kind == ArtifactKind::Config) {
            let item = PlanItem {
                target: PlanTarget::DeleteDir { path: dir.path.clone(), label: dir.kind.label() },
                needs_elevation: false,
                scope: ItemScope::User,
                bytes: dir.size_bytes,
            };
            let ghost before = item_views(items@);
            let ghost view = item@;
            items.push(item);
            assert(item_views(items@) =~= before.push(view));
        }
        i += 1;
    }
    assert(dirs@.take(i as int) =~= dirs@);
    items
}

/// Whether a requested scope admits an item.
pub open spec fn admits(requested: UninstallScope, item: ItemScope) -> bool {
    match (requested, item) {
        (UninstallScope::User, ItemScope::Machine) => false,
        (UninstallScope::Machine, ItemScope::User) => false,
        _ => true,
    }
}

/// Whether a requested scope admits an item.
pub fn scope_admits(requested: UninstallScope, item: ItemScope) -> (res: bool)
    ensures
        res == admits(requested, item),
{
    match (requested, item) {
        (UninstallScope::User, ItemScope::Machine) => false,
        (UninstallScope::Machine, ItemScope::User) => false,
        _ => true,
    }
}

/// The items that a requested scope admits.
pub open spec fn admitted(items: Seq<ItemView>, scope: UninstallScope) -> Seq<ItemView>
    decreases items.len(),
{
    if items.len() == 0 {
        Seq::empty()
    } else {
        let before = admitted(items.drop_last(), scope);
        if admits(scope, items.last().scope) {
            before.push(items.last())
        } else {
            before
        }
    }
}

/// The group of the admitted items, if there are any.
pub open spec fn group_of(
    title: Seq<char>,
    items: Seq<ItemView>,
    scope: UninstallScope,
) -> Seq<GroupView> {
    let kept = admitted(items, scope);
    if kept.len() == 0 {
        Seq::empty()
    } else {
        seq![GroupView { title, items: kept }]
    }
}

/// The groups without the items that a requested scope does not admit, and without the groups that
/// this leaves empty.
pub open spec fn admitted_groups(groups: Seq<GroupView>, scope: UninstallScope) -> Seq<GroupView>
    decreases groups.len(),
{
    if groups.len() == 0 {
        Seq::empty()
    } else {
        admitted_groups(groups.drop_last(), scope) + group_of(
            groups.last().title,
            groups.last().items,
            scope,
        )
    }
}

fn push_group(
    groups: &mut Vec<PlanGroup>,
    title: &'static str,
    items: Vec<PlanItem>,
    scope: UninstallScope,
)
    ensures
        group_views(final(groups)@) == group_views(old(groups)@) + group_of(
            title@,
            item_views(items@),
            scope,
        ),
{
    let ghost all = items@;
    let ghost views = item_views(items@);
    let mut kept: Vec<PlanItem> = Vec::new();
    assert(item_views(kept@) =~= Seq::empty());
    for item in it: items
        invariant
            it.seq() == all,
            views == item_views(all),
            item_views(kept@) == admitted(views.take(it.index() as int), scope),
    {
        let ghost k = it.index() as int;
        let ghost view = item@;
        proof {
            assert(views.take(k + 1).drop_last() =~= views.take(k));
            assert(views.take(k + 1).last() == view);
        }
        if scope_admits(scope, item.scope) {
            let ghost before = item_views(kept@);
            kept.push(item);
            assert(item_views(kept@) =~= before.push(view));
        }
    }
    assert(views.take(all.len() as int) =~= views);
    let ghost before = group_views(groups@);
    assert(item_views(kept@).len() == kept@.len());
    if kept.len() > 0 {
        let ghost held = item_views(kept@);
        groups.push(PlanGroup { title, items: kept });
        assert(group_views(groups@) =~= before + seq![GroupView { title: title@, items: held }]);
    } else {
        assert(group_views(groups@) =~= before + Seq::<GroupView>::empty());
    }
}

/// The plan: the tools, which stay usable until here; the PATH entries; the shutdown; the data that
/// the daemon had open; and the runtime executables, which were locked until the shutdown.
pub open spec fn planned(
    platform: Platform,
    report: DetectionReport,
    inventory: Inventory,
    args: UninstallArgs,
    removable: Seq<String>,
) -> Seq<GroupView> {
    group_of(
        TOOLS_GROUP_TITLE@,
        root_items(platform, report.roots@, StemSet::Tools),
        args.scope,
    ) + (if args.no_path {
        Seq::empty()
    } else {
        group_of(PATH_GROUP_TITLE@, path_items(report.roots@, removable), args.scope)
    }) + group_of(
        SHUTDOWN_GROUP_TITLE@,
        shutdown_items(report.running@, inventory.broker_service),
        args.scope,
    ) + group_of(
        DATA_GROUP_TITLE@,
        dir_items(inventory.dirs@, args.keep_config),
        args.scope,
    ) + group_of(
        RUNTIME_GROUP_TITLE@,
        root_items(platform, report.roots@, StemSet::Runtime),
        args.scope,
    )
}

/// The hints that take the place of the removal of PATH entries where PATH is not to be edited: one
/// for each directory whose entry would have been removed.
pub open spec fn path_hints_text(
    report: DetectionReport,
    args: UninstallArgs,
    removable: Seq<String>,
) -> Seq<Seq<char>> {
    if args.no_path {
        admitted(path_items(report.roots@, removable), args.scope).map_values(
            |item: ItemView| effects::path_hint_text(path_dir(item.target)),
        )
    } else {
        Seq::empty()
    }
}

/// The directory whose PATH entry a target removes.
pub open spec fn path_dir(target: TargetView) -> Seq<char> {
    match target {
        TargetView::RemovePathEntry(dir) => dir,
        _ => Seq::empty(),
    }
}

/// The hints that take the place of the removal of PATH entries where PATH is not to be edited.
pub fn path_hints(report: &DetectionReport, args: &UninstallArgs, removable_path_dirs: &[String]) -> (
    res: Vec<String>)
    ensures
        text::texts(res@) == path_hints_text(*report, *args, removable_path_dirs@),
{
    let mut res: Vec<String> = Vec::new();
    assert(text::texts(res@) =~= Seq::empty());
    if !args.no_path {
        return res;
    }
    let items = path_entry_items(&report.roots, removable_path_dirs);
    let ghost views = item_views(items@);
    let ghost hint = |item: ItemView| effects::path_hint_text(path_dir(item.target));
    let mut i: usize = 0;
    proof {
        assert(views.take(0) =~= Seq::empty());
        assert(text::texts(res@) =~= admitted(views.take(0), args.scope).map_values(hint));
    }
    while i < items.len()
        invariant
            i <= items@.len(),
            views == item_views(items@),
            hint == |item: ItemView| effects::path_hint_text(path_dir(item.target)),
            text::texts(res@) == admitted(views.take(i as int), args.scope).map_values(hint),
        decreases items@.len() - i,
    {
        let ghost before = text::texts(res@);
        let ghost view = items@[i as int]@;
        proof {
            assert(views.take(i + 1).drop_last() =~= views.take(i as int));
            assert(views.take(i + 1).last() == view);
        }
        if scope_admits(args.scope, items[i].scope) {
            let line = match &items[i].target {
                PlanTarget::RemovePathEntry { dir } => effects::path_hint(dir),
                _ => effects::path_hint(""),
            };
            proof {
                reveal_strlit("");
                assert(""@ =~= Seq::<char>::empty());
                assert(line@ == hint(view));
            }
            push_line(&mut res, line);
            assert(text::texts(res@) =~= admitted(views.take(i + 1), args.scope).map_values(hint));
        }
        i += 1;
    }
    assert(views.take(i as int) =~= views);
    res
}

/// Build the removal plan from the analysis and the options.  `removable_path_dirs` are the
/// directories that may leave PATH, because nothing but the product is in them.
pub fn build_plan(
    platform: Platform,
    report: &DetectionReport,
    inventory: &Inventory,
    args: &UninstallArgs,
    removable_path_dirs: &[String],
) -> (plan: RemovalPlan)
    ensures
        plan@ == planned(platform, *report, *inventory, *args, removable_path_dirs@),
{
    let mut groups: Vec<PlanGroup> = Vec::new();
    assert(group_views(groups@) =~= Seq::empty());
    let tools = binary_items(platform, &report.roots, StemSet::Tools);
    push_group(&mut groups, TOOLS_GROUP_TITLE, tools, args.scope);
    assert(group_views(groups@) =~= group_of(
        TOOLS_GROUP_TITLE@,
        root_items(platform, report.roots@, StemSet::Tools),
        args.scope,
    ));
    let ghost before = group_views(groups@);
    if !args.no_path {
        let entries = path_entry_items(&report.roots, removable_path_dirs);
        push_group(&mut groups, PATH_GROUP_TITLE, entries, args.scope);
    } else {
        assert(before + Seq::<GroupView>::empty() =~= before);
    }
    let shutdown = shutdown_plan_items(&report.running, inventory.broker_service);
    push_group(&mut groups, SHUTDOWN_GROUP_TITLE, shutdown, args.scope);
    let data = data_items(&inventory.dirs, args.keep_config);
    push_group(&mut groups, DATA_GROUP_TITLE, data, args.scope);
    let runtime = binary_items(platform, &report.roots, StemSet::Runtime);
    push_group(&mut groups, RUNTIME_GROUP_TITLE, runtime, args.scope);
    RemovalPlan { groups }
}

// ---- stray files ----

/// The items that delete stray files.
pub open spec fn stray_items(strays: Seq<StrayHit>) -> Seq<ItemView> {
    strays.map_values(
        |stray: StrayHit|
            ItemView {
                target: TargetView::DeleteFile(stray.path@, crate::error::shown(stray.version)),
                needs_elevation: false,
                scope: ItemScope::Any,
                bytes: 0,
            },
    )
}

/// Build a plan of one group for stray files.  It is shown and confirmed apart from the main plan:
/// one of them may be a copy that the user placed.
pub fn build_stray_plan(strays: &[StrayHit]) -> (plan: RemovalPlan)
    ensures
        plan@ == (if strays@.len() == 0 {
            Seq::<GroupView>::empty()
        } else {
            seq![GroupView { title: STRAY_GROUP_TITLE@, items: stray_items(strays@) }]
        }),
{
    if strays.len() == 0 {
        return RemovalPlan::default();
    }
    let mut items: Vec<PlanItem> = Vec::new();
    let mut i: usize = 0;
    while i < strays.len()
        invariant
            i <= strays@.len(),
            item_views(items@) == stray_items(strays@.take(i as int)),
        decreases strays@.len() - i,
    {
        let stray = &strays[i];
        let version = match &stray.version {
            Some(version) => Some(version.clone()),
            None => None,
        };
        let item = PlanItem {
            target: PlanTarget::DeleteFile { path: stray.path.clone(), version },
            needs_elevation: false,
            scope: ItemScope::Any,
            bytes: 0,
        };
        let ghost before = item_views(items@);
        let ghost view = item@;
        items.push(item);
        proof {
            assert(item_views(items@) =~= before.push(view));
            assert(stray_items(strays@.take(i + 1)) =~= before.push(view));
        }
        i += 1;
    }
    assert(strays@.take(i as int) =~= strays@);
    let mut groups: Vec<PlanGroup> = Vec::new();
    groups.push(PlanGroup { title: STRAY_GROUP_TITLE, items });
    let plan = RemovalPlan { groups };
    assert(plan@ =~= seq![
        GroupView { title: STRAY_GROUP_TITLE@, items: stray_items(strays@) },
    ]);
    plan
}

// ---- laws ----

/// When an item comes: tools, PATH entries, the shutdown, data, runtime executables, stray files.
pub open spec fn rank(item: ItemView) -> int {
    match item.target {
        TargetView::DeleteBinaries(_, stems) => if stems.len() > 0 && is_runtime_name(stems[0]) {
            4
        } else {
            0
        },
        TargetView::RemovePathEntry(_) => 1,
        TargetView::StopProcess(_, _) => 2,
        TargetView::RemoveService(_) => 2,
        TargetView::DeleteDir(_, _) => 3,
        TargetView::DelegateWinget(_, _, _) => 4,
        TargetView::DeleteFile(_, _) => 5,
    }
}

/// When a group comes, by its heading.
pub open spec fn title_rank(title: Seq<char>) -> int {
    if title == TOOLS_GROUP_TITLE@ {
        0
    } else if title == PATH_GROUP_TITLE@ {
        1
    } else if title == SHUTDOWN_GROUP_TITLE@ {
        2
    } else if title == DATA_GROUP_TITLE@ {
        3
    } else if title == RUNTIME_GROUP_TITLE@ {
        4
    } else {
        -1
    }
}

/// Whether groups are in the safe order: none is empty, each holds what its heading says, and the
/// headings come in order, each once.
pub open spec fn in_order(groups: Seq<GroupView>) -> bool {
    &&& forall|g: int|
        0 <= g < groups.len() ==> {
            &&& 0 <= title_rank((#[trigger] groups[g]).title)
            &&& groups[g].items.len() > 0
            &&& forall|k: int|
                0 <= k < groups[g].items.len() ==> rank(#[trigger] groups[g].items[k])
                    == title_rank(groups[g].title)
        }
    &&& forall|g: int, h: int|
        0 <= g < h < groups.len() ==> title_rank((#[trigger] groups[g]).title) < title_rank(
            (#[trigger] groups[h]).title,
        )
}

proof fn lemma_titles()
    ensures
        title_rank(TOOLS_GROUP_TITLE@) == 0,
        title_rank(PATH_GROUP_TITLE@) == 1,
        title_rank(SHUTDOWN_GROUP_TITLE@) == 2,
        title_rank(DATA_GROUP_TITLE@) == 3,
        title_rank(RUNTIME_GROUP_TITLE@) == 4,
{
    reveal_strlit("Binaries");
    reveal_strlit("PATH");
    reveal_strlit("Shutdown (stopped last)");
    reveal_strlit("Data / cache / config");
    reveal_strlit("Runtime binaries (after shutdown)");
    assert(TOOLS_GROUP_TITLE@.len() == 8);
    assert(PATH_GROUP_TITLE@.len() == 4);
    assert(SHUTDOWN_GROUP_TITLE@.len() == 23);
    assert(DATA_GROUP_TITLE@.len() == 21);
    assert(RUNTIME_GROUP_TITLE@.len() == 33);
}

proof fn lemma_in_order_before(groups: Seq<GroupView>)
    requires
        in_order(groups),
        groups.len() > 0,
    ensures
        in_order(groups.drop_last()),
{
    let before = groups.drop_last();
    assert forall|g: int| 0 <= g < before.len() implies {
        &&& 0 <= title_rank((#[trigger] before[g]).title)
        &&& before[g].items.len() > 0
        &&& forall|k: int|
            0 <= k < before[g].items.len() ==> rank(#[trigger] before[g].items[k])
                == title_rank(before[g].title)
    } by {
        assert(before[g] == groups[g]);
    }
    assert forall|g: int, h: int| 0 <= g < h < before.len() implies title_rank(
        (#[trigger] before[g]).title,
    ) < title_rank((#[trigger] before[h]).title) by {
        assert(before[g] == groups[g] && before[h] == groups[h]);
    }
}

/// In a plan that is in order, no item comes before one of an earlier rank.  So nothing that a
/// running part may hold open or locked is removed before that part was stopped, and the tools stay
/// until everything before them is done.
pub proof fn law_order_of_items(groups: Seq<GroupView>, i: int, j: int)
    requires
        in_order(groups),
        0 <= i <= j < all_items(groups).len(),
    ensures
        rank(all_items(groups)[i]) <= rank(all_items(groups)[j]),
    decreases groups.len(),
{
    let before = groups.drop_last();
    let last = groups.last();
    lemma_in_order_before(groups);
    let n = all_items(before).len() as int;
    assert(last == groups[groups.len() - 1]);
    if j < n {
        law_order_of_items(before, i, j);
    } else if i < n {
        lemma_ranks_below(before, title_rank(last.title), i);
        assert(all_items(groups)[j] == last.items[j - n]);
    } else {
        assert(all_items(groups)[i] == last.items[i - n]);
        assert(all_items(groups)[j] == last.items[j - n]);
    }
}

proof fn lemma_ranks_below(groups: Seq<GroupView>, bound: int, i: int)
    requires
        in_order(groups),
        forall|g: int| 0 <= g < groups.len() ==> title_rank((#[trigger] groups[g]).title) < bound,
        0 <= i < all_items(groups).len(),
    ensures
        rank(all_items(groups)[i]) < bound,
    decreases groups.len(),
{
    let before = groups.drop_last();
    let n = all_items(before).len() as int;
    assert(groups.last() == groups[groups.len() - 1]);
    if i < n {
        assert forall|g: int| 0 <= g < before.len() implies title_rank(
            (#[trigger] before[g]).title,
        ) < bound by {
            assert(before[g] == groups[g]);
        }
        lemma_in_order_before(groups);
        lemma_ranks_below(before, bound, i);
    } else {
        assert(all_items(groups)[i] == groups.last().items[i - n]);
    }
}

/// Whether every item has a rank.
pub open spec fn ranked(items: Seq<ItemView>, r: int) -> bool {
    forall|k: int| 0 <= k < items.len() ==> rank(#[trigger] items[k]) == r
}

proof fn lemma_admitted(items: Seq<ItemView>, scope: UninstallScope, r: int)
    requires
        ranked(items, r),
    ensures
        ranked(admitted(items, scope), r),
        forall|k: int|
            0 <= k < admitted(items, scope).len() ==> admits(
                scope,
                (#[trigger] admitted(items, scope)[k]).scope,
            ),
    decreases items.len(),
{
    if items.len() > 0 {
        assert(ranked(items.drop_last(), r)) by {
            assert forall|k: int| 0 <= k < items.drop_last().len() implies rank(
                #[trigger] items.drop_last()[k],
            ) == r by {
                assert(items.drop_last()[k] == items[k]);
            }
        }
        lemma_admitted(items.drop_last(), scope, r);
        assert(items.last() == items[items.len() - 1]);
    }
}

proof fn lemma_admitted_concat(a: Seq<ItemView>, b: Seq<ItemView>, scope: UninstallScope)
    ensures
        admitted(a + b, scope) == admitted(a, scope) + admitted(b, scope),
    decreases b.len(),
{
    if b.len() == 0 {
        assert(a + b =~= a);
        assert(admitted(a, scope) + admitted(b, scope) =~= admitted(a, scope));
    } else {
        lemma_admitted_concat(a, b.drop_last(), scope);
        assert((a + b).drop_last() =~= a + b.drop_last());
        assert((a + b).last() == b.last());
        assert(admitted(a + b, scope) =~= admitted(a, scope) + admitted(b, scope));
    }
}

proof fn lemma_all_admitted(items: Seq<ItemView>)
    ensures
        admitted(items, UninstallScope::All) == items,
    decreases items.len(),
{
    if items.len() > 0 {
        lemma_all_admitted(items.drop_last());
    }
    assert(admitted(items, UninstallScope::All) =~= items);
}

proof fn lemma_admitted_groups_concat(
    a: Seq<GroupView>,
    b: Seq<GroupView>,
    scope: UninstallScope,
)
    ensures
        admitted_groups(a + b, scope) == admitted_groups(a, scope) + admitted_groups(b, scope),
    decreases b.len(),
{
    if b.len() == 0 {
        assert(a + b =~= a);
        assert(admitted_groups(a, scope) + admitted_groups(b, scope) =~= admitted_groups(a, scope));
    } else {
        lemma_admitted_groups_concat(a, b.drop_last(), scope);
        assert((a + b).drop_last() =~= a + b.drop_last());
        assert((a + b).last() == b.last());
        assert(admitted_groups(a + b, scope) =~= admitted_groups(a, scope) + admitted_groups(
            b,
            scope,
        ));
    }
}

proof fn lemma_narrowed_group(title: Seq<char>, items: Seq<ItemView>, scope: UninstallScope)
    ensures
        admitted_groups(group_of(title, items, UninstallScope::All), scope) == group_of(
            title,
            items,
            scope,
        ),
{
    lemma_all_admitted(items);
    let full = group_of(title, items, UninstallScope::All);
    reveal_with_fuel(admitted_groups, 2);
    if items.len() > 0 {
        assert(full.drop_last() =~= Seq::empty());
    }
    assert(admitted_groups(full, scope) =~= group_of(title, items, scope));
}

proof fn lemma_admitted_groups_items(groups: Seq<GroupView>, scope: UninstallScope)
    ensures
        all_items(admitted_groups(groups, scope)) == admitted(all_items(groups), scope),
    decreases groups.len(),
{
    if groups.len() > 0 {
        let before = groups.drop_last();
        let last = groups.last();
        let kept = admitted(last.items, scope);
        lemma_admitted_groups_items(before, scope);
        lemma_admitted_concat(all_items(before), last.items, scope);
        let group = GroupView { title: last.title, items: kept };
        if kept.len() > 0 {
            assert(admitted_groups(groups, scope) =~= admitted_groups(before, scope).push(group));
            lemma_all_items_push(admitted_groups(before, scope), group);
        } else {
            assert(admitted_groups(groups, scope) =~= admitted_groups(before, scope));
            assert(admitted(all_items(before), scope) + kept =~= admitted(all_items(before), scope));
        }
    }
}

/// A narrower scope only filters the full plan: it keeps exactly the items that the scope admits,
/// each in its group and in the same order, and adds none.
pub proof fn law_narrower_scope_only_filters(
    platform: Platform,
    report: DetectionReport,
    inventory: Inventory,
    args: UninstallArgs,
    removable: Seq<String>,
)
    ensures
        ({
            let full = planned(
                platform,
                report,
                inventory,
                UninstallArgs { scope: UninstallScope::All, ..args },
                removable,
            );
            let narrowed = planned(platform, report, inventory, args, removable);
            &&& narrowed == admitted_groups(full, args.scope)
            &&& all_items(narrowed) == admitted(all_items(full), args.scope)
        }),
{
    let scope = args.scope;
    let all = UninstallScope::All;
    let tools = root_items(platform, report.roots@, StemSet::Tools);
    let entries = path_items(report.roots@, removable);
    let shutdown = shutdown_items(report.running@, inventory.broker_service);
    let data = dir_items(inventory.dirs@, args.keep_config);
    let runtime = root_items(platform, report.roots@, StemSet::Runtime);
    lemma_narrowed_group(TOOLS_GROUP_TITLE@, tools, scope);
    lemma_narrowed_group(PATH_GROUP_TITLE@, entries, scope);
    lemma_narrowed_group(SHUTDOWN_GROUP_TITLE@, shutdown, scope);
    lemma_narrowed_group(DATA_GROUP_TITLE@, data, scope);
    lemma_narrowed_group(RUNTIME_GROUP_TITLE@, runtime, scope);
    let g1 = group_of(TOOLS_GROUP_TITLE@, tools, all);
    let g2 = if args.no_path {
        Seq::empty()
    } else {
        group_of(PATH_GROUP_TITLE@, entries, all)
    };
    let g3 = group_of(SHUTDOWN_GROUP_TITLE@, shutdown, all);
    let g4 = group_of(DATA_GROUP_TITLE@, data, all);
    let g5 = group_of(RUNTIME_GROUP_TITLE@, runtime, all);
    lemma_admitted_groups_concat(g1, g2, scope);
    lemma_admitted_groups_concat(g1 + g2, g3, scope);
    lemma_admitted_groups_concat(g1 + g2 + g3, g4, scope);
    lemma_admitted_groups_concat(g1 + g2 + g3 + g4, g5, scope);
    lemma_admitted_groups_items(g1 + g2 + g3 + g4 + g5, scope);
}

proof fn lemma_stems(binaries: Seq<crate::model::BinaryInfo>, set: StemSet)
    ensures
        forall|k: int|
            0 <= k < stems_in(binaries, set).len() ==> is_runtime_name(
                #[trigger] stems_in(binaries, set)[k],
            ) == (set == StemSet::Runtime),
    decreases binaries.len(),
{
    if binaries.len() > 0 {
        lemma_stems(binaries.drop_last(), set);
        let before = stems_in(binaries.drop_last(), set);
        let stems = stems_in(binaries, set);
        assert forall|k: int| 0 <= k < stems.len() implies is_runtime_name(#[trigger] stems[k]) == (
        set == StemSet::Runtime) by {
            if k < before.len() {
                assert(stems[k] == before[k]);
            }
        }
    }
}

proof fn lemma_root_items_ranked(platform: Platform, roots: Seq<InstallRoot>, set: StemSet)
    ensures
        ranked(
            root_items(platform, roots, set),
            if set == StemSet::Tools {
                0
            } else {
                4
            },
        ),
    decreases roots.len(),
{
    if roots.len() > 0 {
        lemma_root_items_ranked(platform, roots.drop_last(), set);
        lemma_stems(roots.last().binaries@, set);
    }
}

proof fn lemma_other_items_ranked(
    roots: Seq<InstallRoot>,
    removable: Seq<String>,
    running: Seq<RunningProcess>,
    broker: BrokerServiceState,
    dirs: Seq<super::inventory::ArtifactDir>,
    keep_config: bool,
)
    ensures
        ranked(path_items(roots, removable), 1),
        ranked(stop_items(running), 2),
        ranked(shutdown_items(running, broker), 2),
        ranked(dir_items(dirs, keep_config), 3),
    decreases roots.len() + running.len() + dirs.len(),
{
    if roots.len() > 0 {
        lemma_other_items_ranked(
            roots.drop_last(),
            removable,
            running,
            broker,
            dirs,
            keep_config,
        );
    }
    if running.len() > 0 {
        lemma_other_items_ranked(
            roots,
            removable,
            running.drop_last(),
            broker,
            dirs,
            keep_config,
        );
    }
    if dirs.len() > 0 {
        lemma_other_items_ranked(roots, removable, running, broker, dirs.drop_last(), keep_config);
    }
}

proof fn lemma_in_order_push(groups: Seq<GroupView>, title: Seq<char>, items: Seq<ItemView>, scope: UninstallScope)
    requires
        in_order(groups),
        0 <= title_rank(title),
        forall|g: int|
            0 <= g < groups.len() ==> title_rank((#[trigger] groups[g]).title) < title_rank(title),
        ranked(items, title_rank(title)),
    ensures
        in_order(groups + group_of(title, items, scope)),
        forall|g: int|
            0 <= g < (groups + group_of(title, items, scope)).len() ==> title_rank(
                (#[trigger] (groups + group_of(title, items, scope))[g]).title,
            ) <= title_rank(title),
{
    lemma_admitted(items, scope, title_rank(title));
    let after = groups + group_of(title, items, scope);
    assert forall|g: int| 0 <= g < after.len() implies {
        &&& 0 <= title_rank((#[trigger] after[g]).title)
        &&& after[g].items.len() > 0
        &&& forall|k: int|
            0 <= k < after[g].items.len() ==> rank(#[trigger] after[g].items[k]) == title_rank(
                after[g].title,
            )
    } by {
        if g < groups.len() {
            assert(after[g] == groups[g]);
        }
    }
    assert forall|g: int, h: int| 0 <= g < h < after.len() implies title_rank(
        (#[trigger] after[g]).title,
    ) < title_rank((#[trigger] after[h]).title) by {
        assert(after[g] == groups[g]);
        if h < groups.len() {
            assert(after[h] == groups[h]);
        }
    }
}

/// A plan that is built from an analysis is in order.
pub proof fn law_built_plan_is_in_order(
    platform: Platform,
    report: DetectionReport,
    inventory: Inventory,
    args: UninstallArgs,
    removable: Seq<String>,
)
    ensures
        in_order(planned(platform, report, inventory, args, removable)),
{
    lemma_titles();
    let roots = report.roots@;
    lemma_root_items_ranked(platform, roots, StemSet::Tools);
    lemma_root_items_ranked(platform, roots, StemSet::Runtime);
    lemma_other_items_ranked(
        roots,
        removable,
        report.running@,
        inventory.broker_service,
        inventory.dirs@,
        args.keep_config,
    );
    let none = Seq::<GroupView>::empty();
    let tools = root_items(platform, roots, StemSet::Tools);
    lemma_in_order_push(none, TOOLS_GROUP_TITLE@, tools, args.scope);
    let g1 = group_of(TOOLS_GROUP_TITLE@, tools, args.scope);
    assert(none + g1 =~= g1);
    let entries = path_items(roots, removable);
    lemma_in_order_push(g1, PATH_GROUP_TITLE@, entries, args.scope);
    let g2 = g1 + (if args.no_path {
        none
    } else {
        group_of(PATH_GROUP_TITLE@, entries, args.scope)
    });
    assert(g1 + none =~= g1);
    let shutdown = shutdown_items(report.running@, inventory.broker_service);
    lemma_in_order_push(g2, SHUTDOWN_GROUP_TITLE@, shutdown, args.scope);
    let g3 = g2 + group_of(SHUTDOWN_GROUP_TITLE@, shutdown, args.scope);
    let data = dir_items(inventory.dirs@, args.keep_config);
    lemma_in_order_push(g3, DATA_GROUP_TITLE@, data, args.scope);
    let g4 = g3 + group_of(DATA_GROUP_TITLE@, data, args.scope);
    let runtime = root_items(platform, roots, StemSet::Runtime);
    lemma_in_order_push(g4, RUNTIME_GROUP_TITLE@, runtime, args.scope);
}

proof fn lemma_shutdown_place(groups: Seq<GroupView>, from: int)
    requires
        0 <= from <= groups.len(),
    ensures
        from <= shutdown_place(groups, from) <= groups.len(),
        forall|g: int|
            from <= g < shutdown_place(groups, from) ==> (#[trigger] groups[g]).title
                != DATA_GROUP_TITLE@ && groups[g].title != RUNTIME_GROUP_TITLE@,
        shutdown_place(groups, from) < groups.len() ==> {
            let title = groups[shutdown_place(groups, from)].title;
            title == DATA_GROUP_TITLE@ || title == RUNTIME_GROUP_TITLE@
        },
        shutdown_group(groups, from) is None ==> forall|g: int|
            from <= g < groups.len() ==> (#[trigger] groups[g]).title != SHUTDOWN_GROUP_TITLE@,
    decreases groups.len() - from,
{
    if from < groups.len() {
        lemma_shutdown_place(groups, from + 1);
    }
}

proof fn lemma_all_items_index(groups: Seq<GroupView>, g: int, k: int)
    requires
        0 <= g < groups.len(),
        0 <= k < groups[g].items.len(),
    ensures
        exists|i: int|
            0 <= i < all_items(groups).len() && #[trigger] all_items(groups)[i]
                == groups[g].items[k],
    decreases groups.len(),
{
    let before = groups.drop_last();
    let n = all_items(before).len() as int;
    if g == groups.len() - 1 {
        assert(all_items(groups)[n + k] == groups[g].items[k]);
    } else {
        lemma_all_items_index(before, g, k);
        let i = choose|i: int|
            0 <= i < all_items(before).len() && #[trigger] all_items(before)[i]
                == before[g].items[k];
        assert(all_items(groups)[i] == groups[g].items[k]);
    }
}

/// After making sure that the daemon is stopped, the plan stops it, and a plan that was in order
/// still is: so the stop comes before the data and the runtime executables.  Making sure again, of
/// the same daemon or of another one, changes nothing.
pub proof fn law_daemon_is_stopped_in_order(groups: Seq<GroupView>, pid: u32, other: u32)
    requires
        in_order(groups),
    ensures
        any_daemon_stop(all_items(with_daemon_stop(groups, pid))),
        in_order(with_daemon_stop(groups, pid)),
        with_daemon_stop(with_daemon_stop(groups, pid), other) == with_daemon_stop(groups, pid),
{
    lemma_titles();
    let after = with_daemon_stop(groups, pid);
    if !any_daemon_stop(all_items(groups)) {
        lemma_shutdown_group_bounds(groups, 0);
        lemma_shutdown_place(groups, 0);
        match shutdown_group(groups, 0) {
            Some(g) => {
                lemma_shutdown_title(groups, 0);
                assert forall|h: int| 0 <= h < after.len() implies {
                    &&& 0 <= title_rank((#[trigger] after[h]).title)
                    &&& after[h].items.len() > 0
                    &&& forall|k: int|
                        0 <= k < after[h].items.len() ==> rank(#[trigger] after[h].items[k])
                            == title_rank(after[h].title)
                } by {
                    if h != g {
                        assert(after[h] == groups[h]);
                    } else {
                        assert(groups[g].title == SHUTDOWN_GROUP_TITLE@);
                        assert forall|k: int| 0 <= k < after[g].items.len() implies rank(
                            #[trigger] after[g].items[k],
                        ) == title_rank(after[g].title) by {
                            if k > 0 {
                                assert(after[g].items[k] == groups[g].items[k - 1]);
                            }
                        }
                    }
                }
                assert(in_order(after));
                assert(after[g].items[0] == daemon_stop(pid));
                lemma_all_items_index(after, g, 0);
            },
            None => {
                let p = shutdown_place(groups, 0);
                let group = GroupView {
                    title: SHUTDOWN_GROUP_TITLE@,
                    items: seq![daemon_stop(pid)],
                };
                assert forall|h: int| 0 <= h < after.len() implies {
                    &&& 0 <= title_rank((#[trigger] after[h]).title)
                    &&& after[h].items.len() > 0
                    &&& forall|k: int|
                        0 <= k < after[h].items.len() ==> rank(#[trigger] after[h].items[k])
                            == title_rank(after[h].title)
                } by {
                    if h < p {
                        assert(after[h] == groups[h]);
                    } else if h > p {
                        assert(after[h] == groups[h - 1]);
                    } else {
                        assert(after[h] == group);
                    }
                }
                assert forall|g: int, h: int| 0 <= g < h < after.len() implies title_rank(
                    (#[trigger] after[g]).title,
                ) < title_rank((#[trigger] after[h]).title) by {
                    let a = if g < p {
                        g
                    } else {
                        g - 1
                    };
                    let b = if h < p {
                        h
                    } else {
                        h - 1
                    };
                    if g != p {
                        assert(after[g] == groups[a]);
                    }
                    if h != p {
                        assert(after[h] == groups[b]);
                    }
                    if g == p {
                        assert(title_rank(groups[p].title) >= 3);
                        if b > p {
                            assert(title_rank(groups[p].title) < title_rank(groups[b].title));
                        }
                    }
                }
                assert(after[p] == group);
                assert(after[p].items[0] == daemon_stop(pid));
                lemma_all_items_index(after, p, 0);
            },
        }
    }
}

proof fn lemma_all_items_concat(a: Seq<GroupView>, b: Seq<GroupView>)
    ensures
        all_items(a + b) == all_items(a) + all_items(b),
    decreases b.len(),
{
    if b.len() == 0 {
        assert(a + b =~= a);
    } else {
        lemma_all_items_concat(a, b.drop_last());
        assert((a + b).drop_last() =~= a + b.drop_last());
        assert((a + b).last() == b.last());
    }
    assert(all_items(a + b) =~= all_items(a) + all_items(b));
}

proof fn lemma_all_items_between(a: Seq<GroupView>, group: GroupView, b: Seq<GroupView>)
    ensures
        all_items(a + seq![group] + b) == all_items(a) + group.items + all_items(b),
{
    lemma_all_items_concat(a + seq![group], b);
    assert(a + seq![group] =~= a.push(group));
    lemma_all_items_push(a, group);
}

/// Making sure that the daemon is stopped adds the stop and nothing else: where the plan stops it
/// already it stays as it is, and else one item is added and every other one keeps its order.
pub proof fn law_only_the_stop_is_added(groups: Seq<GroupView>, pid: u32)
    ensures
        any_daemon_stop(all_items(groups)) ==> with_daemon_stop(groups, pid) == groups,
        !any_daemon_stop(all_items(groups)) ==> exists|place: int|
            0 <= place <= all_items(groups).len() && all_items(with_daemon_stop(groups, pid))
                == #[trigger] all_items(groups).insert(place, daemon_stop(pid)),
{
    if !any_daemon_stop(all_items(groups)) {
        let after = with_daemon_stop(groups, pid);
        let stop = daemon_stop(pid);
        lemma_shutdown_group_bounds(groups, 0);
        match shutdown_group(groups, 0) {
            Some(g) => {
                let a = groups.take(g);
                let b = groups.skip(g + 1);
                assert(groups =~= a + seq![groups[g]] + b);
                assert(after =~= a + seq![after[g]] + b);
                lemma_all_items_between(a, groups[g], b);
                lemma_all_items_between(a, after[g], b);
                assert(all_items(after) =~= all_items(groups).insert(
                    all_items(a).len() as int,
                    stop,
                ));
            },
            None => {
                let p = shutdown_place(groups, 0);
                let a = groups.take(p);
                let b = groups.skip(p);
                assert(groups =~= a + b);
                assert(after =~= a + seq![after[p]] + b);
                lemma_all_items_concat(a, b);
                lemma_all_items_between(a, after[p], b);
                assert(all_items(after) =~= all_items(groups).insert(
                    all_items(a).len() as int,
                    stop,
                ));
            },
        }
    }
}

proof fn lemma_shutdown_title(groups: Seq<GroupView>, from: int)
    requires
        0 <= from,
    ensures
        shutdown_group(groups, from) is Some ==> groups[shutdown_group(groups, from)->Some_0].title
            == SHUTDOWN_GROUP_TITLE@,
    decreases groups.len() - from,
{
    if from < groups.len() {
        lemma_shutdown_title(groups, from + 1);
    }
}

proof fn lemma_unprivileged_concat(a: Seq<ItemView>, b: Seq<ItemView>)
    ensures
        unprivileged(a + b) == unprivileged(a) + unprivileged(b),
    decreases b.len(),
{
    if b.len() == 0 {
        assert(a + b =~= a);
        assert(unprivileged(a) + unprivileged(b) =~= unprivileged(a));
    } else {
        assert((a + b).drop_last() =~= a + b.drop_last());
        assert((a + b).last() == b.last());
        lemma_unprivileged_concat(a, b.drop_last());
        if !b.last().needs_elevation {
            assert((unprivileged(a) + unprivileged(b.drop_last())).push(b.last()) =~= unprivileged(
                a,
            ) + unprivileged(b.drop_last()).push(b.last()));
        }
    }
}

proof fn lemma_unprivileged(items: Seq<ItemView>, r: int)
    ensures
        !any_elevated(unprivileged(items)),
        ranked(items, r) ==> ranked(unprivileged(items), r),
    decreases items.len(),
{
    if items.len() > 0 {
        lemma_unprivileged(items.drop_last(), r);
        assert(items.last() == items[items.len() - 1]);
        if ranked(items, r) {
            assert forall|k: int| 0 <= k < items.drop_last().len() implies rank(
                #[trigger] items.drop_last()[k],
            ) == r by {
                assert(items.drop_last()[k] == items[k]);
            }
        }
        let kept = unprivileged(items);
        assert forall|i: int| 0 <= i < kept.len() implies !(#[trigger] kept[i]).needs_elevation by {
            if !items.last().needs_elevation && i < kept.len() - 1 {
                assert(kept[i] == unprivileged(items.drop_last())[i]);
            }
        }
    }
}

/// What items are described as.
pub open spec fn descriptions(items: Seq<ItemView>) -> Seq<Seq<char>> {
    items.map_values(|item: ItemView| described(item.target))
}

proof fn lemma_dropped_and_kept(items: Seq<ItemView>)
    ensures
        privileged_descriptions(items).len() + unprivileged(items).len() == items.len(),
        descriptions(items).to_multiset() == descriptions(unprivileged(items)).to_multiset().add(
            privileged_descriptions(items).to_multiset(),
        ),
    decreases items.len(),
{
    broadcast use vstd::seq_lib::group_to_multiset_ensures;

    if items.len() > 0 {
        let before = items.drop_last();
        let text = described(items.last().target);
        lemma_dropped_and_kept(before);
        assert(descriptions(items) =~= descriptions(before).push(text));
        if !items.last().needs_elevation {
            assert(descriptions(unprivileged(items)) =~= descriptions(unprivileged(before)).push(
                text,
            ));
        }
    }
    assert(descriptions(items).to_multiset() =~= descriptions(
        unprivileged(items),
    ).to_multiset().add(privileged_descriptions(items).to_multiset()));
}

/// Dropping what takes Administrator rights leaves exactly the other items, in their order and with
/// none of them changed, and nothing that takes such rights.  Every item is either kept or among the
/// descriptions of what was dropped, and none is in both.
pub proof fn law_dropping_elevation_keeps_the_rest(groups: Seq<GroupView>)
    ensures
        all_items(unprivileged_groups(groups)) == unprivileged(all_items(groups)),
        !any_elevated(all_items(unprivileged_groups(groups))),
        privileged_descriptions(all_items(groups)).len() + all_items(
            unprivileged_groups(groups),
        ).len() == all_items(groups).len(),
        descriptions(all_items(groups)).to_multiset() == descriptions(
            all_items(unprivileged_groups(groups)),
        ).to_multiset().add(privileged_descriptions(all_items(groups)).to_multiset()),
    decreases groups.len(),
{
    if groups.len() > 0 {
        law_dropping_elevation_keeps_the_rest(groups.drop_last());
        let before = unprivileged_groups(groups.drop_last());
        let kept = unprivileged(groups.last().items);
        lemma_unprivileged_concat(all_items(groups.drop_last()), groups.last().items);
        if kept.len() == 0 {
            assert(unprivileged(all_items(groups.drop_last())) + kept =~= unprivileged(
                all_items(groups.drop_last()),
            ));
        } else {
            lemma_all_items_push(before, GroupView { title: groups.last().title, items: kept });
        }
    }
    lemma_unprivileged(all_items(groups), 0);
    lemma_dropped_and_kept(all_items(groups));
}

/// Dropping what takes Administrator rights leaves a plan that was in order in order.
pub proof fn law_dropping_elevation_keeps_the_order(groups: Seq<GroupView>)
    requires
        in_order(groups),
    ensures
        in_order(unprivileged_groups(groups)),
        forall|h: int|
            0 <= h < unprivileged_groups(groups).len() ==> exists|g: int|
                0 <= g < groups.len() && (#[trigger] groups[g]).title == (
                #[trigger] unprivileged_groups(groups)[h]).title,
    decreases groups.len(),
{
    if groups.len() > 0 {
        let before = groups.drop_last();
        lemma_in_order_before(groups);
        law_dropping_elevation_keeps_the_order(before);
        let kept_before = unprivileged_groups(before);
        let last = groups.last();
        assert(last == groups[groups.len() - 1]);
        lemma_unprivileged(last.items, title_rank(last.title));
        let after = unprivileged_groups(groups);
        assert forall|h: int| 0 <= h < kept_before.len() implies title_rank(
            (#[trigger] kept_before[h]).title,
        ) < title_rank(last.title) && exists|g: int|
            0 <= g < groups.len() && (#[trigger] groups[g]).title == kept_before[h].title by {
            let g = choose|g: int|
                0 <= g < before.len() && (#[trigger] before[g]).title == kept_before[h].title;
            assert(before[g] == groups[g]);
        }
        if unprivileged(last.items).len() > 0 {
            assert forall|h: int| 0 <= h < after.len() implies {
                &&& 0 <= title_rank((#[trigger] after[h]).title)
                &&& after[h].items.len() > 0
                &&& forall|k: int|
                    0 <= k < after[h].items.len() ==> rank(#[trigger] after[h].items[k])
                        == title_rank(after[h].title)
            } by {
                if h < kept_before.len() {
                    assert(after[h] == kept_before[h]);
                }
            }
            assert forall|g: int, h: int| 0 <= g < h < after.len() implies title_rank(
                (#[trigger] after[g]).title,
            ) < title_rank((#[trigger] after[h]).title) by {
                assert(after[g] == kept_before[g]);
                if h < kept_before.len() {
                    assert(after[h] == kept_before[h]);
                }
            }
            assert forall|h: int| 0 <= h < after.len() implies exists|g: int|
                0 <= g < groups.len() && (#[trigger] groups[g]).title == (
                #[trigger] after[h]).title by {
                if h < kept_before.len() {
                    assert(after[h] == kept_before[h]);
                } else {
                    assert(groups[groups.len() - 1].title == after[h].title);
                }
            }
        }
    }
}

/// A plan for a root holds a deletion of executables only if WinGet does not manage the root, and a
/// delegation to WinGet only if it does.
pub proof fn law_managed_roots_are_delegated(platform: Platform, root: InstallRoot, set: StemSet)
    ensures
        match root_item(platform, root, set) {
            Some(item) => {
                &&& item.target is DelegateWinget <==> root.channel == Channel::WinGet
                &&& item.target is DeleteBinaries <==> root.channel != Channel::WinGet
            },
            None => true,
        },
{
}

/// The names of executables.
pub open spec fn names_of(binaries: Seq<crate::model::BinaryInfo>) -> Seq<Seq<char>> {
    binaries.map_values(|binary: crate::model::BinaryInfo| binary.name@)
}

/// The tools and the runtime executables of a root together are all of its executables, each as
/// often as it is there, and none is in both sets: the runtime executables are those with a runtime
/// name, the tools are the others.
pub proof fn law_stem_sets_split_a_root(binaries: Seq<crate::model::BinaryInfo>)
    ensures
        stems_in(binaries, StemSet::Tools) == names_of(binaries).filter(
            |name: Seq<char>| !is_runtime_name(name),
        ),
        stems_in(binaries, StemSet::Runtime) == names_of(binaries).filter(
            |name: Seq<char>| is_runtime_name(name),
        ),
        names_of(binaries).to_multiset() == stems_in(binaries, StemSet::Tools).to_multiset().add(
            stems_in(binaries, StemSet::Runtime).to_multiset(),
        ),
    decreases binaries.len(),
{
    broadcast use vstd::seq_lib::group_to_multiset_ensures;

    let names = names_of(binaries);
    let tool = |name: Seq<char>| !is_runtime_name(name);
    let runtime = |name: Seq<char>| is_runtime_name(name);
    reveal(Seq::filter);
    if binaries.len() > 0 {
        let before = binaries.drop_last();
        law_stem_sets_split_a_root(before);
        assert(names.drop_last() =~= names_of(before));
        assert(names =~= names_of(before).push(binaries.last().name@));
    }
    assert(stems_in(binaries, StemSet::Tools) =~= names.filter(tool));
    assert(stems_in(binaries, StemSet::Runtime) =~= names.filter(runtime));
    assert(names.to_multiset() =~= stems_in(binaries, StemSet::Tools).to_multiset().add(
        stems_in(binaries, StemSet::Runtime).to_multiset(),
    ));
}

// ---- what a built plan holds ----

/// Whether a plan holds an item.
pub open spec fn holds(plan: RemovalPlan, item: ItemView) -> bool {
    exists|g: int, k: int|
        0 <= g < plan.groups@.len() && 0 <= k < plan.groups@[g].items@.len() && (
        #[trigger] plan.groups@[g].items@[k])@ == item
}

proof fn lemma_holds(plan: RemovalPlan, item: ItemView)
    ensures
        holds(plan, item) <==> all_items(plan@).contains(item),
{
    let groups = plan@;
    if holds(plan, item) {
        let (g, k) = choose|g: int, k: int|
            0 <= g < plan.groups@.len() && 0 <= k < plan.groups@[g].items@.len() && (
            #[trigger] plan.groups@[g].items@[k])@ == item;
        assert(groups[g].items[k] == item);
        lemma_all_items_index(groups, g, k);
    }
    if all_items(groups).contains(item) {
        lemma_item_place(groups, item);
        let (g, k) = choose|g: int, k: int|
            0 <= g < groups.len() && 0 <= k < groups[g].items.len() && (
            #[trigger] groups[g].items[k]) == item;
        assert(plan.groups@[g].items@[k]@ == item);
    }
}

proof fn lemma_item_place(groups: Seq<GroupView>, item: ItemView)
    requires
        all_items(groups).contains(item),
    ensures
        exists|g: int, k: int|
            0 <= g < groups.len() && 0 <= k < groups[g].items.len() && (
            #[trigger] groups[g].items[k]) == item,
    decreases groups.len(),
{
    let before = groups.drop_last();
    let n = all_items(before).len();
    let i = choose|i: int| 0 <= i < all_items(groups).len() && all_items(groups)[i] == item;
    if i < n {
        assert(all_items(before)[i] == item);
        lemma_item_place(before, item);
        let (g, k) = choose|g: int, k: int|
            0 <= g < before.len() && 0 <= k < before[g].items.len() && (
            #[trigger] before[g].items[k]) == item;
        assert(groups[g].items[k] == item);
    } else {
        assert(groups[groups.len() - 1].items[i - n] == item);
    }
}

proof fn lemma_contains_concat<A>(a: Seq<A>, b: Seq<A>, x: A)
    ensures
        (a + b).contains(x) <==> a.contains(x) || b.contains(x),
{
    if a.contains(x) {
        let i = choose|i: int| 0 <= i < a.len() && a[i] == x;
        assert((a + b)[i] == x);
    }
    if b.contains(x) {
        let i = choose|i: int| 0 <= i < b.len() && b[i] == x;
        assert((a + b)[a.len() + i] == x);
    }
}

proof fn lemma_contains_push<A>(a: Seq<A>, y: A, x: A)
    ensures
        a.push(y).contains(x) <==> a.contains(x) || x == y,
{
    assert(a.push(y) =~= a + seq![y]);
    lemma_contains_concat(a, seq![y], x);
    assert(seq![y][0] == y);
}

proof fn lemma_contains_admitted(items: Seq<ItemView>, scope: UninstallScope, item: ItemView)
    ensures
        admitted(items, scope).contains(item) <==> items.contains(item) && admits(scope, item.scope),
    decreases items.len(),
{
    if items.len() > 0 {
        lemma_contains_admitted(items.drop_last(), scope, item);
        lemma_contains_push(admitted(items.drop_last(), scope), items.last(), item);
        assert(items =~= items.drop_last().push(items.last()));
        lemma_contains_push(items.drop_last(), items.last(), item);
    }
}

proof fn lemma_group_items(title: Seq<char>, items: Seq<ItemView>, scope: UninstallScope)
    ensures
        all_items(group_of(title, items, scope)) == admitted(items, scope),
{
    let groups = group_of(title, items, scope);
    reveal_with_fuel(all_items, 2);
    if admitted(items, scope).len() > 0 {
        assert(groups.drop_last() =~= Seq::empty());
    }
    assert(all_items(groups) =~= admitted(items, scope));
}

proof fn lemma_planned_holds(
    platform: Platform,
    report: DetectionReport,
    inventory: Inventory,
    args: UninstallArgs,
    removable: Seq<String>,
    item: ItemView,
)
    ensures
        all_items(planned(platform, report, inventory, args, removable)).contains(item) <==> admits(
            args.scope,
            item.scope,
        ) && {
            ||| root_items(platform, report.roots@, StemSet::Tools).contains(item)
            ||| !args.no_path && path_items(report.roots@, removable).contains(item)
            ||| shutdown_items(report.running@, inventory.broker_service).contains(item)
            ||| dir_items(inventory.dirs@, args.keep_config).contains(item)
            ||| root_items(platform, report.roots@, StemSet::Runtime).contains(item)
        },
{
    let scope = args.scope;
    let tools = root_items(platform, report.roots@, StemSet::Tools);
    let entries = path_items(report.roots@, removable);
    let shutdown = shutdown_items(report.running@, inventory.broker_service);
    let data = dir_items(inventory.dirs@, args.keep_config);
    let runtime = root_items(platform, report.roots@, StemSet::Runtime);
    let g1 = group_of(TOOLS_GROUP_TITLE@, tools, scope);
    let g2 = if args.no_path {
        Seq::empty()
    } else {
        group_of(PATH_GROUP_TITLE@, entries, scope)
    };
    let g3 = group_of(SHUTDOWN_GROUP_TITLE@, shutdown, scope);
    let g4 = group_of(DATA_GROUP_TITLE@, data, scope);
    let g5 = group_of(RUNTIME_GROUP_TITLE@, runtime, scope);
    lemma_all_items_concat(g1, g2);
    lemma_all_items_concat(g1 + g2, g3);
    lemma_all_items_concat(g1 + g2 + g3, g4);
    lemma_all_items_concat(g1 + g2 + g3 + g4, g5);
    lemma_group_items(TOOLS_GROUP_TITLE@, tools, scope);
    lemma_group_items(PATH_GROUP_TITLE@, entries, scope);
    lemma_group_items(SHUTDOWN_GROUP_TITLE@, shutdown, scope);
    lemma_group_items(DATA_GROUP_TITLE@, data, scope);
    lemma_group_items(RUNTIME_GROUP_TITLE@, runtime, scope);
    let i1 = all_items(g1);
    let i2 = all_items(g2);
    let i3 = all_items(g3);
    let i4 = all_items(g4);
    let i5 = all_items(g5);
    lemma_contains_concat(i1, i2, item);
    lemma_contains_concat(i1 + i2, i3, item);
    lemma_contains_concat(i1 + i2 + i3, i4, item);
    lemma_contains_concat(i1 + i2 + i3 + i4, i5, item);
    lemma_contains_admitted(tools, scope, item);
    lemma_contains_admitted(entries, scope, item);
    lemma_contains_admitted(shutdown, scope, item);
    lemma_contains_admitted(data, scope, item);
    lemma_contains_admitted(runtime, scope, item);
}

proof fn lemma_root_items_contain(
    platform: Platform,
    roots: Seq<InstallRoot>,
    set: StemSet,
    item: ItemView,
)
    ensures
        root_items(platform, roots, set).contains(item) <==> exists|i: int|
            0 <= i < roots.len() && #[trigger] root_item(platform, roots[i], set) == Some(item),
    decreases roots.len(),
{
    if roots.len() > 0 {
        let before = roots.drop_last();
        lemma_root_items_contain(platform, before, set, item);
        if let Some(last) = root_item(platform, roots.last(), set) {
            lemma_contains_push(root_items(platform, before, set), last, item);
        }
        if root_items(platform, before, set).contains(item) {
            let i = choose|i: int|
                0 <= i < before.len() && #[trigger] root_item(platform, before[i], set) == Some(
                    item,
                );
            assert(root_item(platform, roots[i], set) == Some(item));
        }
        if exists|i: int|
            0 <= i < roots.len() && #[trigger] root_item(platform, roots[i], set) == Some(item) {
            let i = choose|i: int|
                0 <= i < roots.len() && #[trigger] root_item(platform, roots[i], set) == Some(item);
            if i < before.len() {
                assert(root_item(platform, before[i], set) == Some(item));
            }
        }
        assert(root_item(platform, roots[roots.len() - 1], set) == root_item(
            platform,
            roots.last(),
            set,
        ));
    }
}

proof fn lemma_path_items_contain(roots: Seq<InstallRoot>, removable: Seq<String>, item: ItemView)
    ensures
        path_items(roots, removable).contains(item) <==> exists|i: int|
            0 <= i < roots.len() && #[trigger] path_item(roots[i], removable) == Some(item),
    decreases roots.len(),
{
    if roots.len() > 0 {
        let before = roots.drop_last();
        lemma_path_items_contain(before, removable, item);
        if let Some(last) = path_item(roots.last(), removable) {
            lemma_contains_push(path_items(before, removable), last, item);
        }
        if path_items(before, removable).contains(item) {
            let i = choose|i: int|
                0 <= i < before.len() && #[trigger] path_item(before[i], removable) == Some(item);
            assert(path_item(roots[i], removable) == Some(item));
        }
        if exists|i: int|
            0 <= i < roots.len() && #[trigger] path_item(roots[i], removable) == Some(item) {
            let i = choose|i: int|
                0 <= i < roots.len() && #[trigger] path_item(roots[i], removable) == Some(item);
            if i < before.len() {
                assert(path_item(before[i], removable) == Some(item));
            }
        }
        assert(path_item(roots[roots.len() - 1], removable) == path_item(roots.last(), removable));
    }
}

/// The item that deletes a directory.
pub open spec fn deletes_dir(dir: super::inventory::ArtifactDir) -> ItemView {
    ItemView {
        target: TargetView::DeleteDir(
            dir.path@,
            match dir.kind {
                ArtifactKind::Data => "data"@,
                ArtifactKind::Cache => "cache"@,
                ArtifactKind::Config => "config"@,
                ArtifactKind::Legacy => "legacy"@,
            },
        ),
        needs_elevation: false,
        scope: ItemScope::User,
        bytes: dir.size_bytes,
    }
}

/// The item that stops a process.
pub open spec fn stops(process: RunningProcess) -> ItemView {
    ItemView {
        target: TargetView::StopProcess(
            match process.component {
                Component::Daemon => "daemon"@,
                Component::Broker => "broker"@,
                Component::Mcp => "mcp"@,
            },
            process.pid,
        ),
        needs_elevation: false,
        scope: ItemScope::Any,
        bytes: 0,
    }
}

proof fn lemma_dir_items_contain(
    dirs: Seq<super::inventory::ArtifactDir>,
    keep_config: bool,
    item: ItemView,
)
    ensures
        dir_items(dirs, keep_config).contains(item) <==> exists|i: int|
            0 <= i < dirs.len() && (#[trigger] dirs[i]).exists && !(keep_config && dirs[i].kind
                == ArtifactKind::Config) && item == deletes_dir(dirs[i]),
    decreases dirs.len(),
{
    if dirs.len() > 0 {
        let before = dirs.drop_last();
        lemma_dir_items_contain(before, keep_config, item);
        lemma_contains_push(dir_items(before, keep_config), deletes_dir(dirs.last()), item);
        if dir_items(before, keep_config).contains(item) {
            let i = choose|i: int|
                0 <= i < before.len() && (#[trigger] before[i]).exists && !(keep_config
                    && before[i].kind == ArtifactKind::Config) && item == deletes_dir(before[i]);
            assert(dirs[i] == before[i]);
        }
        if exists|i: int|
            0 <= i < dirs.len() && (#[trigger] dirs[i]).exists && !(keep_config && dirs[i].kind
                == ArtifactKind::Config) && item == deletes_dir(dirs[i]) {
            let i = choose|i: int|
                0 <= i < dirs.len() && (#[trigger] dirs[i]).exists && !(keep_config && dirs[i].kind
                    == ArtifactKind::Config) && item == deletes_dir(dirs[i]);
            if i < before.len() {
                assert(before[i] == dirs[i]);
            }
        }
        assert(dirs[dirs.len() - 1] == dirs.last());
    }
}

proof fn lemma_stop_items_contain(running: Seq<RunningProcess>, item: ItemView)
    ensures
        stop_items(running).contains(item) <==> exists|i: int|
            0 <= i < running.len() && (#[trigger] running[i]).component != Component::Broker && item
                == stops(running[i]),
    decreases running.len(),
{
    if running.len() > 0 {
        let before = running.drop_last();
        lemma_stop_items_contain(before, item);
        lemma_contains_push(stop_items(before), stops(running.last()), item);
        if stop_items(before).contains(item) {
            let i = choose|i: int|
                0 <= i < before.len() && (#[trigger] before[i]).component != Component::Broker
                    && item == stops(before[i]);
            assert(running[i] == before[i]);
        }
        if exists|i: int|
            0 <= i < running.len() && (#[trigger] running[i]).component != Component::Broker && item
                == stops(running[i]) {
            let i = choose|i: int|
                0 <= i < running.len() && (#[trigger] running[i]).component != Component::Broker
                    && item == stops(running[i]);
            if i < before.len() {
                assert(before[i] == running[i]);
            }
        }
        assert(running[running.len() - 1] == running.last());
    }
}

proof fn lemma_item_kinds(
    platform: Platform,
    report: DetectionReport,
    inventory: Inventory,
    args: UninstallArgs,
    removable: Seq<String>,
    item: ItemView,
)
    ensures
        root_items(platform, report.roots@, StemSet::Tools).contains(item) ==> item.target
            is DeleteBinaries,
        root_items(platform, report.roots@, StemSet::Runtime).contains(item) ==> item.target
            is DeleteBinaries || item.target is DelegateWinget,
        path_items(report.roots@, removable).contains(item) ==> item.target is RemovePathEntry,
        shutdown_items(report.running@, inventory.broker_service).contains(item) ==> (item.target
            is StopProcess && stop_items(report.running@).contains(item)) || (item
            == service_item() && inventory.broker_service == BrokerServiceState::Installed),
        dir_items(inventory.dirs@, args.keep_config).contains(item) ==> item.target is DeleteDir,
{
    lemma_root_items_contain(platform, report.roots@, StemSet::Tools, item);
    lemma_root_items_contain(platform, report.roots@, StemSet::Runtime, item);
    lemma_path_items_contain(report.roots@, removable, item);
    lemma_stop_items_contain(report.running@, item);
    lemma_contains_push(stop_items(report.running@), service_item(), item);
    lemma_dir_items_contain(inventory.dirs@, args.keep_config, item);
}

/// What a plan does to the directories of the product: each that exists is deleted, with its size
/// told, but for the settings where these are to be kept, and for all of them where only what is for
/// the whole machine is removed; and the plan deletes no other directory.
pub proof fn law_directories_of_a_plan(
    platform: Platform,
    report: &DetectionReport,
    inventory: &Inventory,
    args: &UninstallArgs,
    removable: &[String],
    plan: RemovalPlan,
    i: int,
    item: ItemView,
)
    requires
        call_ensures(build_plan, (platform, report, inventory, args, removable), plan),
        item.target is DeleteDir,
    ensures
        0 <= i < inventory.dirs@.len() && inventory.dirs@[i].exists && !(args.keep_config && inventory.dirs@[i].kind
            == ArtifactKind::Config) && args.scope != UninstallScope::Machine ==> holds(
            plan,
            deletes_dir(inventory.dirs@[i]),
        ),
        holds(plan, item) ==> args.scope != UninstallScope::Machine && exists|k: int| {
            &&& 0 <= k < inventory.dirs@.len()
            &&& (#[trigger] inventory.dirs@[k]).exists
            &&& item == deletes_dir(inventory.dirs@[k])
            &&& args.keep_config ==> inventory.dirs@[k].kind != ArtifactKind::Config
        },
{
    let wanted = deletes_dir(inventory.dirs@[i]);
    lemma_holds(plan, wanted);
    lemma_holds(plan, item);
    lemma_planned_holds(platform, *report, *inventory, *args, removable@, wanted);
    lemma_planned_holds(platform, *report, *inventory, *args, removable@, item);
    lemma_item_kinds(platform, *report, *inventory, *args, removable@, item);
    lemma_dir_items_contain(inventory.dirs@, args.keep_config, wanted);
    lemma_dir_items_contain(inventory.dirs@, args.keep_config, item);
}

/// What a plan does to what runs: every process but the broker is stopped, under its own id and
/// without more rights; the broker service is removed, with more rights, exactly where it is
/// registered and not only what is for one user is removed; and nothing else is stopped.
pub proof fn law_shutdown_of_a_plan(
    platform: Platform,
    report: &DetectionReport,
    inventory: &Inventory,
    args: &UninstallArgs,
    removable: &[String],
    plan: RemovalPlan,
    i: int,
    item: ItemView,
)
    requires
        call_ensures(build_plan, (platform, report, inventory, args, removable), plan),
    ensures
        0 <= i < report.running@.len() && report.running@[i].component != Component::Broker ==> holds(plan, stops(report.running@[i])),
        holds(plan, item) && item.target is StopProcess ==> exists|k: int|
            0 <= k < report.running@.len() && (#[trigger] report.running@[k]).component
                != Component::Broker && item == stops(report.running@[k]),
        holds(plan, item) && item.target is RemoveService ==> inventory.broker_service
            == BrokerServiceState::Installed && args.scope != UninstallScope::User
            && item.needs_elevation && item.target == TargetView::RemoveService(
            "UffsAccessBroker"@,
        ),
        inventory.broker_service == BrokerServiceState::Installed && args.scope
            != UninstallScope::User ==> holds(
            plan,
            ItemView {
                target: TargetView::RemoveService("UffsAccessBroker"@),
                needs_elevation: true,
                scope: ItemScope::Machine,
                bytes: 0,
            },
        ),
{
    let wanted = stops(report.running@[i]);
    let service = service_item();
    lemma_holds(plan, wanted);
    lemma_holds(plan, item);
    lemma_holds(plan, service);
    lemma_planned_holds(platform, *report, *inventory, *args, removable@, wanted);
    lemma_planned_holds(platform, *report, *inventory, *args, removable@, item);
    lemma_planned_holds(platform, *report, *inventory, *args, removable@, service);
    lemma_item_kinds(platform, *report, *inventory, *args, removable@, item);
    lemma_stop_items_contain(report.running@, wanted);
    lemma_stop_items_contain(report.running@, item);
    lemma_contains_push(stop_items(report.running@), service, wanted);
    lemma_contains_push(stop_items(report.running@), service, service);
}

/// What a plan does to PATH: a root leaves it exactly where PATH may be edited, the root has
/// executables and is not managed by WinGet, it is among the directories that may leave, whatever the
/// case of its letters, and the scope admits it; and nothing else leaves PATH.
pub proof fn law_path_entries_of_a_plan(
    platform: Platform,
    report: &DetectionReport,
    inventory: &Inventory,
    args: &UninstallArgs,
    removable: &[String],
    plan: RemovalPlan,
    i: int,
    r: int,
    item: ItemView,
)
    requires
        call_ensures(build_plan, (platform, report, inventory, args, removable), plan),
        item.target is RemovePathEntry,
    ensures
        ({
            let root = report.roots@[i];
            let machine = root.scope == Scope::Machine;
            0 <= i < report.roots@.len() && 0 <= r < removable@.len() && !args.no_path
                && root.binaries@.len() > 0 && root.channel != Channel::WinGet
                && removable@[r]@ == root.dir@ && args.scope != (if machine {
                UninstallScope::User
            } else {
                UninstallScope::Machine
            }) ==> holds(
                plan,
                ItemView {
                    target: TargetView::RemovePathEntry(root.dir@),
                    needs_elevation: machine,
                    scope: if machine {
                        ItemScope::Machine
                    } else {
                        ItemScope::User
                    },
                    bytes: 0,
                },
            )
        }),
        holds(plan, item) ==> !args.no_path && exists|k: int, q: int|
            {
                &&& 0 <= k < report.roots@.len()
                &&& 0 <= q < removable@.len()
                &&& (#[trigger] report.roots@[k]).binaries@.len() > 0
                &&& report.roots@[k].channel != Channel::WinGet
                &&& item.target == TargetView::RemovePathEntry(report.roots@[k].dir@)
                &&& item.needs_elevation == (report.roots@[k].scope == Scope::Machine)
                &&& (#[trigger] removable@[q])@.len() == report.roots@[k].dir@.len()
                &&& text::lowered(removable@[q]@) == text::lowered(report.roots@[k].dir@)
                &&& args.scope != (if item.needs_elevation {
                    UninstallScope::User
                } else {
                    UninstallScope::Machine
                })
            },
{
    let root = report.roots@[i];
    let machine = root.scope == Scope::Machine;
    let wanted = ItemView {
        target: TargetView::RemovePathEntry(root.dir@),
        needs_elevation: machine,
        scope: if machine {
            ItemScope::Machine
        } else {
            ItemScope::User
        },
        bytes: 0,
    };
    lemma_holds(plan, wanted);
    lemma_holds(plan, item);
    lemma_planned_holds(platform, *report, *inventory, *args, removable@, wanted);
    lemma_planned_holds(platform, *report, *inventory, *args, removable@, item);
    lemma_item_kinds(platform, *report, *inventory, *args, removable@, item);
    lemma_path_items_contain(report.roots@, removable@, wanted);
    lemma_path_items_contain(report.roots@, removable@, item);
    if 0 <= i < report.roots@.len() && 0 <= r < removable@.len() && removable@[r]@ == root.dir@ {
        assert(dir_listed(removable@, root.dir@));
        assert(root.binaries@.len() > 0 && root.channel != Channel::WinGet ==> path_item(
            report.roots@[i],
            removable@,
        ) == Some(wanted));
    }
    if holds(plan, item) {
        let k = choose|k: int|
            0 <= k < report.roots@.len() && #[trigger] path_item(report.roots@[k], removable@)
                == Some(item);
        let dir = report.roots@[k].dir@;
        let q = choose|q: int|
            0 <= q < removable@.len() && text::lowered((#[trigger] removable@[q])@)
                == text::lowered(dir);
        assert(text::lowered(removable@[q]@).len() == removable@[q]@.len());
        assert(text::lowered(dir).len() == dir.len());
    }
}

/// Whether removing the executables of a root takes Administrator rights.
pub open spec fn root_needs_rights(platform: Platform, root: InstallRoot) -> bool {
    if platform == Platform::Windows {
        root.scope == Scope::Machine
    } else {
        platform != Platform::Other && !root.user_writable
    }
}

/// What a plan does to the executables of a root that WinGet does not manage: each of them, wherever
/// it stands among the others, is deleted from that root by an item that takes more rights exactly
/// where the root does, if the scope admits that.
pub proof fn law_executables_of_a_plan(
    platform: Platform,
    report: &DetectionReport,
    inventory: &Inventory,
    args: &UninstallArgs,
    removable: &[String],
    plan: RemovalPlan,
    i: int,
    j: int,
)
    requires
        call_ensures(build_plan, (platform, report, inventory, args, removable), plan),
        0 <= i < report.roots@.len(),
        0 <= j < report.roots@[i].binaries@.len(),
        report.roots@[i].channel != Channel::WinGet,
        args.scope != (if root_needs_rights(platform, report.roots@[i]) {
            UninstallScope::User
        } else {
            UninstallScope::Machine
        }),
    ensures
        exists|item: ItemView| {
            &&& #[trigger] holds(plan, item)
            &&& item.target matches TargetView::DeleteBinaries(dir, stems)
            &&& dir == report.roots@[i].dir@
            &&& stems.contains(report.roots@[i].binaries@[j].name@)
            &&& item.needs_elevation == root_needs_rights(platform, report.roots@[i])
        },
{
    let root = report.roots@[i];
    let name = root.binaries@[j].name@;
    let set = if is_runtime_name(name) {
        StemSet::Runtime
    } else {
        StemSet::Tools
    };
    lemma_stem_is_there(root.binaries@, set, j);
    let item = root_item(platform, root, set)->Some_0;
    assert(root_item(platform, report.roots@[i], set) == Some(item));
    lemma_holds(plan, item);
    lemma_planned_holds(platform, *report, *inventory, *args, removable@, item);
    lemma_root_items_contain(platform, report.roots@, set, item);
}

proof fn lemma_stem_is_there(binaries: Seq<crate::model::BinaryInfo>, set: StemSet, j: int)
    requires
        0 <= j < binaries.len(),
        (set == StemSet::Runtime) == is_runtime_name(binaries[j].name@),
    ensures
        stems_in(binaries, set).contains(binaries[j].name@),
        stems_in(binaries, set).len() > 0,
    decreases binaries.len(),
{
    let before = binaries.drop_last();
    let name = binaries[j].name@;
    lemma_contains_push(stems_in(before, set), binaries.last().name@, name);
    if j < before.len() {
        assert(before[j] == binaries[j]);
        lemma_stem_is_there(before, set, j);
    }
}

proof fn lemma_stem_comes_from(
    binaries: Seq<crate::model::BinaryInfo>,
    set: StemSet,
    name: Seq<char>,
)
    requires
        stems_in(binaries, set).contains(name),
    ensures
        exists|j: int| 0 <= j < binaries.len() && (#[trigger] binaries[j]).name@ == name,
        (set == StemSet::Runtime) == is_runtime_name(name),
    decreases binaries.len(),
{
    let before = binaries.drop_last();
    lemma_contains_push(stems_in(before, set), binaries.last().name@, name);
    if stems_in(before, set).contains(name) {
        lemma_stem_comes_from(before, set, name);
        let j = choose|j: int| 0 <= j < before.len() && (#[trigger] before[j]).name@ == name;
        assert(binaries[j] == before[j]);
    } else {
        assert(binaries[binaries.len() - 1].name@ == name);
    }
}

/// The names of the executables that run for as long as the product does.
pub open spec fn runs_resident(stem: Seq<char>) -> bool {
    let name = text::lowered(stem);
    name == "uffsd"@ || name == "uffs-broker"@ || name == "uffsmcp"@ || name == "uffs-mcp-http"@
}

proof fn lemma_resident(stem: Seq<char>)
    ensures
        is_runtime_name(stem) == runs_resident(stem),
{
    reveal_strlit("uffsd");
    reveal_strlit("uffs-broker");
    reveal_strlit("uffsmcp");
    reveal_strlit("uffs-mcp-http");
    assert(text::lowered("uffsd"@) =~= "uffsd"@);
    assert(text::lowered("uffs-broker"@) =~= "uffs-broker"@);
    assert(text::lowered("uffsmcp"@) =~= "uffsmcp"@);
    assert(text::lowered("uffs-mcp-http"@) =~= "uffs-mcp-http"@);
}

/// Whether a root has an executable of that name.
pub open spec fn has_executable(root: InstallRoot, name: Seq<char>) -> bool {
    exists|j: int| 0 <= j < root.binaries@.len() && (#[trigger] root.binaries@[j]).name@ == name
}

/// Whether a target stops something that runs.
pub open spec fn shuts_down(target: TargetView) -> bool {
    target is StopProcess || target is RemoveService
}

/// Whether a target can be removed only after the shutdown: a directory of the product, a root that
/// WinGet manages, or an executable that runs resident.
pub open spec fn waits_for_shutdown(target: TargetView) -> bool {
    ||| target is DeleteDir
    ||| target is DelegateWinget
    ||| target is DeleteBinaries && exists|k: int|
        0 <= k < target->DeleteBinaries_1.len() && runs_resident(
            #[trigger] target->DeleteBinaries_1[k],
        )
}

/// In a built plan nothing that a running part may hold open is removed before everything that runs
/// was stopped, and everything else is removed before anything is stopped.
pub proof fn law_what_waits_comes_after_the_shutdown(
    platform: Platform,
    report: &DetectionReport,
    inventory: &Inventory,
    args: &UninstallArgs,
    removable: &[String],
    plan: RemovalPlan,
    i: int,
    j: int,
)
    requires
        call_ensures(build_plan, (platform, report, inventory, args, removable), plan),
        0 <= i < all_items(plan@).len(),
        0 <= j < all_items(plan@).len(),
        shuts_down(all_items(plan@)[i].target),
        !shuts_down(all_items(plan@)[j].target),
    ensures
        i < j <==> waits_for_shutdown(all_items(plan@)[j].target),
{
    let items = all_items(plan@);
    let target = items[j].target;
    law_built_plan_is_in_order(platform, *report, *inventory, *args, removable@);
    if i <= j {
        law_order_of_items(plan@, i, j);
    } else {
        law_order_of_items(plan@, j, i);
    }
    let item = items[j];
    assert(items.contains(item));
    lemma_holds(plan, item);
    lemma_planned_holds(platform, *report, *inventory, *args, removable@, item);
    lemma_item_kinds(platform, *report, *inventory, *args, removable@, item);
    if target is DeleteBinaries {
        let stems = target->DeleteBinaries_1;
        let tools = root_items(platform, report.roots@, StemSet::Tools).contains(item);
        let set = if tools {
            StemSet::Tools
        } else {
            StemSet::Runtime
        };
        lemma_root_items_contain(platform, report.roots@, set, item);
        let k = choose|k: int|
            0 <= k < report.roots@.len() && #[trigger] root_item(platform, report.roots@[k], set)
                == Some(item);
        assert forall|q: int| 0 <= q < stems.len() implies runs_resident(#[trigger] stems[q]) == (set
            == StemSet::Runtime) by {
            assert(stems.contains(stems[q]));
            lemma_stem_comes_from(report.roots@[k].binaries@, set, stems[q]);
            lemma_resident(stems[q]);
        }
        lemma_resident(stems[0]);
        assert(runs_resident(stems[0]) == (set == StemSet::Runtime));
    }
}

/// A plan deletes no other executables than those of the roots that WinGet does not manage, each in
/// its own root, and no item deletes both an executable that runs resident and one that does not.
/// It hands a root to WinGet exactly where WinGet manages it and it has executables.
pub proof fn law_only_executables_of_roots_leave(
    platform: Platform,
    report: &DetectionReport,
    inventory: &Inventory,
    args: &UninstallArgs,
    removable: &[String],
    plan: RemovalPlan,
    item: ItemView,
    i: int,
)
    requires
        call_ensures(build_plan, (platform, report, inventory, args, removable), plan),
    ensures
        holds(plan, item) && item.target is DeleteBinaries ==> exists|k: int|
            {
                let root = #[trigger] report.roots@[k];
                &&& 0 <= k < report.roots@.len()
                &&& root.channel != Channel::WinGet
                &&& item.target->DeleteBinaries_0 == root.dir@
                &&& item.needs_elevation == root_needs_rights(platform, root)
                &&& item.target->DeleteBinaries_1.len() > 0
                &&& forall|name: Seq<char>| #[trigger]
                    item.target->DeleteBinaries_1.contains(name) ==> has_executable(root, name)
            },
        holds(plan, item) && item.target is DeleteBinaries ==> {
            ||| forall|name: Seq<char>|
                #[trigger] item.target->DeleteBinaries_1.contains(name) ==> runs_resident(name)
            ||| forall|name: Seq<char>|
                #[trigger] item.target->DeleteBinaries_1.contains(name) ==> !runs_resident(name)
        },
        holds(plan, item) && item.target is DelegateWinget ==> exists|k: int|
            {
                let root = #[trigger] report.roots@[k];
                &&& 0 <= k < report.roots@.len()
                &&& root.channel == Channel::WinGet
                &&& root.binaries@.len() > 0
                &&& item.needs_elevation == root_needs_rights(platform, root)
                &&& item.target == TargetView::DelegateWinget("SkyLLC.UFFS"@, root.scope, root.dir@)
            },
        0 <= i < report.roots@.len() && report.roots@[i].channel == Channel::WinGet
            && report.roots@[i].binaries@.len() > 0 && args.scope != (if root_needs_rights(platform, report.roots@[i]) {
            UninstallScope::User
        } else {
            UninstallScope::Machine
        }) ==> exists|other: ItemView| {
            &&& #[trigger] holds(plan, other)
            &&& other.target == TargetView::DelegateWinget(
                "SkyLLC.UFFS"@,
                report.roots@[i].scope,
                report.roots@[i].dir@,
            )
        },
{
    lemma_holds(plan, item);
    lemma_planned_holds(platform, *report, *inventory, *args, removable@, item);
    lemma_item_kinds(platform, *report, *inventory, *args, removable@, item);
    lemma_root_items_contain(platform, report.roots@, StemSet::Tools, item);
    lemma_root_items_contain(platform, report.roots@, StemSet::Runtime, item);
    if holds(plan, item) && (item.target is DeleteBinaries || item.target is DelegateWinget) {
        let set = if root_items(platform, report.roots@, StemSet::Tools).contains(item) {
            StemSet::Tools
        } else {
            StemSet::Runtime
        };
        let k = choose|k: int|
            0 <= k < report.roots@.len() && #[trigger] root_item(platform, report.roots@[k], set)
                == Some(item);
        let root = report.roots@[k];
        if item.target is DeleteBinaries {
            let stems = item.target->DeleteBinaries_1;
            assert forall|name: Seq<char>| #[trigger] stems.contains(name) implies has_executable(
                root,
                name,
            ) && (set == StemSet::Runtime) == runs_resident(name) by {
                lemma_stem_comes_from(root.binaries@, set, name);
                lemma_resident(name);
            }
        }
    }
    let root = report.roots@[i];
    if 0 <= i < report.roots@.len() && root.channel == Channel::WinGet && root.binaries@.len() > 0 {
        let other = root_item(platform, root, StemSet::Runtime)->Some_0;
        assert(root_item(platform, report.roots@[i], StemSet::Runtime) == Some(other));
        lemma_holds(plan, other);
        lemma_planned_holds(platform, *report, *inventory, *args, removable@, other);
        lemma_root_items_contain(platform, report.roots@, StemSet::Runtime, other);
    }
}

/// Each kind of target has its own verb, and is told with what it names: a process with its number, a
/// directory with what it holds, executables with their count and their directory.
pub proof fn law_each_target_is_told_in_its_own_words(
    target: &PlanTarget,
    verb: &'static str,
    res: String,
)
    requires
        call_ensures(PlanTarget::action_label, (target,), verb),
        call_ensures(PlanTarget::describe, (target,), res),
    ensures
        match target@ {
            TargetView::StopProcess(component, pid) => verb@ == "stop-process"@ && res@ == component
                + " (pid "@ + text::decimal(pid as nat) + ")"@,
            TargetView::RemoveService(service) => verb@ == "remove-service"@ && res@
                == "Stop + delete service "@ + service,
            TargetView::DeleteBinaries(dir, stems) => verb@ == "delete-binaries"@ && res@
                == text::decimal(stems.len()) + " binaries in "@ + dir,
            TargetView::DelegateWinget(package, scope, dir) => verb@ == "delegate-winget"@ && res@
                == "winget uninstall "@ + package + "  ("@ + scope.text() + " root: "@ + (dir
                + ")"@),
            TargetView::DeleteDir(path, label) => verb@ == "delete-dir"@ && res@ == label + " ("@
                + path + ")"@,
            TargetView::RemovePathEntry(dir) => verb@ == "remove-path-entry"@ && res@
                == "PATH entry "@ + dir,
            TargetView::DeleteFile(path, Some(version)) => verb@ == "delete-file"@ && res@ == path
                + " (v"@ + version + ")"@,
            TargetView::DeleteFile(path, None) => verb@ == "delete-file"@ && res@ == path,
        },
{
}

} // verus!
