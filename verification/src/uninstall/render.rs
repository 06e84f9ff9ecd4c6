//! How an analysis, a plan and its outcome are shown: as lines of text and as a JSON document.

use super::inventory;
use super::inventory::{Inventory, StrayHit};
use super::plan;
use super::plan::{PlanItem, PlanTarget, RemovalPlan};
use super::remove;
use super::remove::{ItemStatus, RemovalOutcome};
use crate::broker_service::SERVICE_NAME;
use crate::json;
use crate::json::Json;
use crate::model::{Channel, Scope};
use crate::platform;
use crate::platform::{same_path, Platform};
use crate::text;
use crate::text::{cat2, cat3, cat4, cat5, cat6, join, pad, push_line, same, show_u64};
use vstd::prelude::*;

verus! {

// ---- sizes ----

/// A count of units with one decimal place, cut off.
pub open spec fn in_units(bytes: nat, unit: nat) -> Seq<char> {
    text::decimal(bytes / unit) + "."@ + text::decimal((bytes % unit) * 10 / unit)
}

/// A byte count in the largest unit that it reaches.
pub open spec fn human(bytes: nat) -> Seq<char> {
    if bytes >= 1073741824 {
        in_units(bytes, 1073741824) + " GB"@
    } else if bytes >= 1048576 {
        in_units(bytes, 1048576) + " MB"@
    } else if bytes >= 1024 {
        in_units(bytes, 1024) + " KB"@
    } else {
        text::decimal(bytes) + " B"@
    }
}

/// A byte count in the largest unit that it reaches, with one decimal place.
pub fn human_bytes(bytes: u64) -> (res: String)
    ensures
        res@ == human(bytes as nat),
{
    if bytes < 1024 {
        return cat2(&show_u64(bytes), " B");
    }
    let unit: u64 = if bytes >= 1073741824 {
        1073741824
    } else if bytes >= 1048576 {
        1048576
    } else {
        1024
    };
    let label = if bytes >= 1073741824 {
        " GB"
    } else if bytes >= 1048576 {
        " MB"
    } else {
        " KB"
    };
    let whole = show_u64(bytes / unit);
    let tenths = show_u64((bytes % unit) * 10 / unit);
    cat4(&whole, ".", &tenths, label)
}

// ---- tables ----

/// How many bytes a text takes.
pub open spec fn byte_len(value: Seq<char>) -> nat {
    vstd::utf8::encode_utf8(value).len()
}

/// How many bytes a text takes.
fn len_in_bytes(value: &str) -> (res: usize)
    ensures
        res == byte_len(value@),
{
    value.as_bytes().len()
}

/// The cells of rows.
pub open spec fn row_views(rows: Seq<Vec<String>>) -> Seq<Seq<Seq<char>>> {
    rows.map_values(|row: Vec<String>| text::texts(row@))
}

/// The width of a column: that of the widest of its heading and its cells, in bytes.
pub open spec fn column_width(heading: Seq<char>, rows: Seq<Seq<Seq<char>>>, column: int) -> nat
    decreases rows.len(),
{
    if rows.len() == 0 {
        byte_len(heading)
    } else {
        let before = column_width(heading, rows.drop_last(), column);
        let cell = byte_len(rows.last()[column]);
        if cell > before {
            cell
        } else {
            before
        }
    }
}

/// The first `count` cells of a row, each behind two spaces and padded to the width of its column,
/// but for the last cell of the row.
pub open spec fn row_text(
    cells: Seq<Seq<char>>,
    headings: Seq<Seq<char>>,
    rows: Seq<Seq<Seq<char>>>,
    count: nat,
) -> Seq<char>
    decreases count,
{
    if count == 0 {
        Seq::empty()
    } else {
        let column = count - 1;
        row_text(cells, headings, rows, (count - 1) as nat) + "  "@ + if count == cells.len() {
            cells[column]
        } else {
            text::padded(cells[column], column_width(headings[column], rows, column))
        }
    }
}

/// A table: the line of its headings, then one for each row.
pub open spec fn table_text(headings: Seq<Seq<char>>, rows: Seq<Seq<Seq<char>>>) -> Seq<Seq<char>> {
    seq![row_text(headings, headings, rows, headings.len())] + Seq::new(
        rows.len(),
        |i: int| row_text(rows[i], headings, rows, headings.len()),
    )
}

fn width_of(heading: &str, rows: &Vec<Vec<String>>, column: usize) -> (res: usize)
    requires
        forall|i: int| 0 <= i < rows@.len() ==> column < (#[trigger] rows@[i])@.len(),
    ensures
        res == column_width(heading@, row_views(rows@), column as int),
{
    let mut width: usize = len_in_bytes(heading);
    let mut i: usize = 0;
    let ghost shown = row_views(rows@);
    while i < rows.len()
        invariant
            i <= rows@.len(),
            shown == row_views(rows@),
            forall|i: int| 0 <= i < rows@.len() ==> column < (#[trigger] rows@[i])@.len(),
            width == column_width(heading@, shown.take(i as int), column as int),
        decreases rows@.len() - i,
    {
        proof {
            assert(shown.take(i + 1).drop_last() =~= shown.take(i as int));
            assert(shown.take(i + 1).last() == text::texts(rows@[i as int]@));
            assert(column < rows@[i as int]@.len());
        }
        let cell: usize = len_in_bytes(&rows[i][column]);
        if cell > width {
            width = cell;
        }
        i += 1;
    }
    assert(shown.take(i as int) =~= shown);
    width
}

fn row_line(cells: &Vec<String>, headings: &Vec<String>, rows: &Vec<Vec<String>>) -> (res: String)
    requires
        cells@.len() == headings@.len(),
        forall|i: int| 0 <= i < rows@.len() ==> headings@.len() == (#[trigger] rows@[i])@.len(),
    ensures
        res@ == row_text(
            text::texts(cells@),
            text::texts(headings@),
            row_views(rows@),
            headings@.len(),
        ),
{
    let mut line = String::new();
    let mut k: usize = 0;
    while k < cells.len()
        invariant
            k <= cells@.len() == headings@.len(),
            forall|i: int|
                0 <= i < rows@.len() ==> headings@.len() == (#[trigger] rows@[i])@.len(),
            line@ == row_text(
                text::texts(cells@),
                text::texts(headings@),
                row_views(rows@),
                k as nat,
            ),
        decreases cells@.len() - k,
    {
        line.append("  ");
        if k + 1 == cells.len() {
            line.append(&cells[k]);
        } else {
            let width: usize = width_of(&headings[k], rows, k);
            line.append(&pad(&cells[k], width));
        }
        k += 1;
    }
    line
}

/// The lines of a table.
pub fn table_lines(headings: &Vec<String>, rows: &Vec<Vec<String>>) -> (res: Vec<String>)
    requires
        forall|i: int| 0 <= i < rows@.len() ==> headings@.len() == (#[trigger] rows@[i])@.len(),
    ensures
        text::texts(res@) == table_text(text::texts(headings@), row_views(rows@)),
{
    let mut res: Vec<String> = Vec::new();
    let ghost wanted = table_text(text::texts(headings@), row_views(rows@));
    push_line(&mut res, row_line(headings, headings, rows));
    let mut i: usize = 0;
    assert(text::texts(res@) =~= wanted.take(1));
    while i < rows.len()
        invariant
            i <= rows@.len(),
            forall|i: int|
                0 <= i < rows@.len() ==> headings@.len() == (#[trigger] rows@[i])@.len(),
            wanted == table_text(text::texts(headings@), row_views(rows@)),
            text::texts(res@) == wanted.take(i + 1),
        decreases rows@.len() - i,
    {
        assert(rows@[i as int]@.len() == headings@.len());
        push_line(&mut res, row_line(&rows[i], headings, rows));
        proof {
            assert(wanted[i + 1] == row_text(
                row_views(rows@)[i as int],
                text::texts(headings@),
                row_views(rows@),
                headings@.len(),
            ));
            assert(text::texts(res@) =~= wanted.take(i + 2));
        }
        i += 1;
    }
    assert(wanted.take(i + 1) =~= wanted);
    res
}

// ---- the table of executables ----

/// Whether a bare command runs a copy of an executable.
#[derive(Debug, Clone, Copy, PartialEq, Eq, Structural)]
pub enum ResolutionState {
    /// It does.
    Active,
    /// Another copy comes first.
    Shadowed,
}

/// One copy of an executable.
#[derive(Debug)]
pub struct ResolvedCopy {
    /// The directory it lies in.
    pub dir: String,
    /// The version it reports.
    pub version: Option<String>,
    /// The channel that placed it.
    pub channel: Channel,
    /// Whom it is for.
    pub scope: Scope,
    /// Whether a bare command runs it.
    pub state: ResolutionState,
    /// Whether its directory is searched for commands.
    pub on_search_path: bool,
}

/// The copies of one executable.
#[derive(Debug)]
pub struct StemResolution {
    /// The name of the executable.
    pub stem: String,
    /// Its copies.
    pub copies: Vec<ResolvedCopy>,
}

/// How the standing of a copy is shown.
pub open spec fn status_text(state: ResolutionState, on_search_path: bool) -> Seq<char> {
    match (state, on_search_path) {
        (ResolutionState::Active, _) => "runs"@,
        (ResolutionState::Shadowed, true) => "shadowed"@,
        (ResolutionState::Shadowed, false) => "off PATH"@,
    }
}

/// How the standing of a copy is shown.
pub fn status_label(state: ResolutionState, on_search_path: bool) -> (res: &'static str)
    ensures
        res@ == status_text(state, on_search_path),
{
    match (state, on_search_path) {
        (ResolutionState::Active, _) => "runs",
        (ResolutionState::Shadowed, true) => "shadowed",
        (ResolutionState::Shadowed, false) => "off PATH",
    }
}

/// How the origin of a copy is shown.  Only WinGet tells apart whom it installs for.
pub open spec fn source_text(channel: Channel, scope: Scope) -> Seq<char> {
    match channel {
        Channel::WinGet => match scope {
            Scope::User => "winget (user)"@,
            Scope::Machine => "winget (machine)"@,
            Scope::Unknown => "winget"@,
        },
        Channel::Unmanaged => "hand-placed"@,
        Channel::DevBuild => "dev build"@,
        Channel::Unknown => "unknown"@,
    }
}

/// How the origin of a copy is shown.
pub fn source_label(channel: Channel, scope: Scope) -> (res: &'static str)
    ensures
        res@ == source_text(channel, scope),
{
    match channel {
        Channel::WinGet => match scope {
            Scope::User => "winget (user)",
            Scope::Machine => "winget (machine)",
            Scope::Unknown => "winget",
        },
        Channel::Unmanaged => "hand-placed",
        Channel::DevBuild => "dev build",
        Channel::Unknown => "unknown",
    }
}

/// A version, or `legacy` where there is none.
pub open spec fn version_or_legacy(version: Option<String>) -> Seq<char> {
    match version {
        Some(version) => version@,
        None => "legacy"@,
    }
}

fn version_text(version: &Option<String>) -> (res: String)
    ensures
        res@ == version_or_legacy(*version),
{
    match version {
        Some(version) => version.clone(),
        None => "legacy".to_owned(),
    }
}

/// The row of a copy.
pub open spec fn copy_row(stem: Seq<char>, copy: ResolvedCopy) -> Seq<Seq<char>> {
    seq![
        stem,
        version_or_legacy(copy.version),
        status_text(copy.state, copy.on_search_path),
        source_text(copy.channel, copy.scope),
        copy.dir@,
    ]
}

/// The rows of all copies.
pub open spec fn copy_rows(stems: Seq<StemResolution>) -> Seq<Seq<Seq<char>>>
    decreases stems.len(),
{
    if stems.len() == 0 {
        Seq::empty()
    } else {
        copy_rows(stems.drop_last()) + stems.last().copies@.map_values(
            |copy: ResolvedCopy| copy_row(stems.last().stem@, copy),
        )
    }
}

/// Appends a row to a table.
fn push_row(rows: &mut Vec<Vec<String>>, row: Vec<String>)
    ensures
        row_views(final(rows)@) == row_views(old(rows)@).push(text::texts(row@)),
        final(rows)@ == old(rows)@.push(row),
{
    let ghost before = row_views(rows@);
    rows.push(row);
    assert(row_views(rows@) =~= before.push(text::texts(row@)));
}

fn rows_of_copies(stems: &Vec<StemResolution>) -> (res: Vec<Vec<String>>)
    ensures
        row_views(res@) == copy_rows(stems@),
        forall|i: int| 0 <= i < res@.len() ==> (#[trigger] res@[i])@.len() == 5,
{
    let mut res: Vec<Vec<String>> = Vec::new();
    let mut s: usize = 0;
    assert(row_views(res@) =~= Seq::empty());
    while s < stems.len()
        invariant
            s <= stems@.len(),
            row_views(res@) == copy_rows(stems@.take(s as int)),
            forall|i: int| 0 <= i < res@.len() ==> (#[trigger] res@[i])@.len() == 5,
        decreases stems@.len() - s,
    {
        let stem = &stems[s];
        let ghost before = row_views(res@);
        let ghost more = stem.copies@.map_values(
            |copy: ResolvedCopy| copy_row(stem.stem@, copy),
        );
        let mut k: usize = 0;
        assert(before + more.take(0) =~= before);
        while k < stem.copies.len()
            invariant
                k <= stem.copies@.len(),
                more == stem.copies@.map_values(|copy: ResolvedCopy| copy_row(stem.stem@, copy)),
                row_views(res@) == before + more.take(k as int),
                forall|i: int| 0 <= i < res@.len() ==> (#[trigger] res@[i])@.len() == 5,
            decreases stem.copies@.len() - k,
        {
            let copy = &stem.copies[k];
            let mut row: Vec<String> = Vec::new();
            row.push(stem.stem.clone());
            row.push(version_text(&copy.version));
            row.push(status_label(copy.state, copy.on_search_path).to_owned());
            row.push(source_label(copy.channel, copy.scope).to_owned());
            row.push(copy.dir.clone());
            proof {
                assert(text::texts(row@) =~= copy_row(stem.stem@, *copy));
                assert(more.take(k + 1) =~= more.take(k as int).push(copy_row(stem.stem@, *copy)));
            }
            push_row(&mut res, row);
            assert(row_views(res@) =~= before + more.take(k + 1));
            k += 1;
        }
        proof {
            assert(more.take(k as int) =~= more);
            assert(stems@.take(s + 1).drop_last() =~= stems@.take(s as int));
        }
        s += 1;
    }
    assert(stems@.take(s as int) =~= stems@);
    res
}

/// What is told above the table of executables.
pub const CORE_INTRO: &'static str =
    "\nCORE \u{2014} the UFFS install (binaries, data, caches). STATUS: 'runs' = the copy a\nbare command executes (first on PATH); 'shadowed' = on PATH but another runs\nfirst; 'off PATH' = present but not on PATH.\n";

/// What is told where no executable was found.
pub const NO_BINARIES: &'static str = "No UFFS binaries found in any install root or on PATH.";

/// The headings of the table of executables.
pub open spec fn core_headings() -> Seq<Seq<char>> {
    seq!["BINARY"@, "VERSION"@, "STATUS"@, "SOURCE"@, "LOCATION"@]
}

/// The table of executables.
pub open spec fn resolution_text(stems: Seq<StemResolution>) -> Seq<Seq<char>> {
    if stems.len() == 0 {
        seq![NO_BINARIES@]
    } else {
        seq![CORE_INTRO@] + table_text(core_headings(), copy_rows(stems))
    }
}

/// The table of executables, one row for each copy.
pub fn resolution_lines(stems: &Vec<StemResolution>) -> (res: Vec<String>)
    ensures
        text::texts(res@) == resolution_text(stems@),
{
    let mut res: Vec<String> = Vec::new();
    assert(text::texts(res@) =~= Seq::empty());
    if stems.len() == 0 {
        push_line(&mut res, NO_BINARIES.to_owned());
        assert(text::texts(res@) =~= resolution_text(stems@));
        return res;
    }
    push_line(&mut res, CORE_INTRO.to_owned());
    assert(text::texts(res@) =~= seq![CORE_INTRO@]);
    let rows = rows_of_copies(stems);
    let headings = text::strings(&["BINARY", "VERSION", "STATUS", "SOURCE", "LOCATION"]);
    assert(text::texts(headings@) =~= core_headings());
    let table = table_lines(&headings, &rows);
    text::push_lines(&mut res, table);
    res
}

// ---- the table of stray files ----

/// What is told above the table of stray files.
pub const EXTRA_INTRO: &'static str =
    "\nEXTRA \u{2014} UFFS files found elsewhere by the deep sweep (removed only with ALL;\none may be a copy you placed yourself):\n";

/// The row of a stray file: its name, its version, its directory.
pub open spec fn stray_row(platform: Platform, stray: StrayHit) -> Seq<Seq<char>> {
    let name = platform::file_name(platform, stray.path@);
    seq![
        if name.len() == 0 {
            stray.path@
        } else {
            name
        },
        version_or_legacy(stray.version),
        match platform::parent(platform, stray.path@) {
            Some(dir) => dir,
            None => Seq::empty(),
        },
    ]
}

/// The headings of the table of stray files.
pub open spec fn extra_headings() -> Seq<Seq<char>> {
    seq!["BINARY"@, "VERSION"@, "LOCATION"@]
}

/// The table of stray files; nothing where there are none.
pub open spec fn extra_text(platform: Platform, strays: Seq<StrayHit>) -> Seq<Seq<char>> {
    if strays.len() == 0 {
        Seq::empty()
    } else {
        seq![EXTRA_INTRO@] + table_text(
            extra_headings(),
            strays.map_values(|stray: StrayHit| stray_row(platform, stray)),
        )
    }
}

/// The table of stray files; nothing where there are none.
pub fn extra_lines(platform: Platform, strays: &Vec<StrayHit>) -> (res: Vec<String>)
    ensures
        text::texts(res@) == extra_text(platform, strays@),
{
    let mut res: Vec<String> = Vec::new();
    assert(text::texts(res@) =~= Seq::empty());
    if strays.len() == 0 {
        return res;
    }
    push_line(&mut res, EXTRA_INTRO.to_owned());
    assert(text::texts(res@) =~= seq![EXTRA_INTRO@]);
    let ghost wanted = strays@.map_values(|stray: StrayHit| stray_row(platform, stray));
    let mut rows: Vec<Vec<String>> = Vec::new();
    let mut i: usize = 0;
    assert(row_views(rows@) =~= wanted.take(0));
    while i < strays.len()
        invariant
            i <= strays@.len(),
            wanted == strays@.map_values(|stray: StrayHit| stray_row(platform, stray)),
            row_views(rows@) == wanted.take(i as int),
            forall|i: int| 0 <= i < rows@.len() ==> (#[trigger] rows@[i])@.len() == 3,
        decreases strays@.len() - i,
    {
        let stray = &strays[i];
        let name = platform::file_name_of(platform, &stray.path);
        let binary = if same(&name, "") {
            stray.path.clone()
        } else {
            name
        };
        let location = match platform::parent_of(platform, &stray.path) {
            Some(dir) => dir,
            None => String::new(),
        };
        let mut row: Vec<String> = Vec::new();
        row.push(binary);
        row.push(version_text(&stray.version));
        row.push(location);
        proof {
            reveal_strlit("");
            assert(name@.len() == 0 ==> name@ =~= ""@);
            assert(text::texts(row@) =~= stray_row(platform, *stray));
            assert(wanted.take(i + 1) =~= wanted.take(i as int).push(wanted[i as int]));
        }
        push_row(&mut rows, row);
        i += 1;
    }
    assert(wanted.take(i as int) =~= wanted);
    let headings = text::strings(&["BINARY", "VERSION", "LOCATION"]);
    assert(text::texts(headings@) =~= extra_headings());
    let table = table_lines(&headings, &rows);
    text::push_lines(&mut res, table);
    res
}

// ---- the inventory ----

/// The line of a directory.
pub open spec fn dir_text(dir: inventory::ArtifactDir) -> Seq<char> {
    "  "@ + text::padded(dir.kind.text(), 13) + "  "@ + text::padded(
        if dir.exists {
            human(dir.size_bytes as nat)
        } else {
            "absent"@
        },
        10,
    ) + "  "@ + dir.path@
}

/// The inventory of what is no executable.
pub open spec fn inventory_text(inventory: Inventory) -> Seq<Seq<char>> {
    seq!["\nData / cache / config:"@] + inventory.dirs@.map_values(
        |dir: inventory::ArtifactDir| dir_text(dir),
    ) + seq![
        "\nBroker service ("@ + SERVICE_NAME@ + "): "@ + inventory.broker_service.text(),
    ]
}

/// The inventory of what is no executable.
pub fn inventory_lines(inventory: &Inventory) -> (res: Vec<String>)
    ensures
        text::texts(res@) == inventory_text(*inventory),
{
    let mut res: Vec<String> = Vec::new();
    assert(text::texts(res@) =~= Seq::empty());
    push_line(&mut res, "\nData / cache / config:".to_owned());
    let ghost shown = inventory.dirs@.map_values(|dir: inventory::ArtifactDir| dir_text(dir));
    let ghost wanted = inventory_text(*inventory);
    let mut i: usize = 0;
    assert(text::texts(res@) =~= wanted.take(1));
    while i < inventory.dirs.len()
        invariant
            i <= inventory.dirs@.len(),
            shown == inventory.dirs@.map_values(|dir: inventory::ArtifactDir| dir_text(dir)),
            wanted == inventory_text(*inventory),
            text::texts(res@) == wanted.take(i + 1),
        decreases inventory.dirs@.len() - i,
    {
        let dir = &inventory.dirs[i];
        let size = if dir.exists {
            human_bytes(dir.size_bytes)
        } else {
            "absent".to_owned()
        };
        push_line(
            &mut res,
            cat6("  ", &pad(dir.kind.label(), 13), "  ", &pad(&size, 10), "  ", &dir.path),
        );
        proof {
            assert(wanted[i + 1] == dir_text(*dir));
            assert(text::texts(res@) =~= wanted.take(i + 2));
        }
        i += 1;
    }
    push_line(
        &mut res,
        cat4(
            "\nBroker service (",
            SERVICE_NAME,
            "): ",
            inventory.broker_service.label(),
        ),
    );
    assert(text::texts(res@) =~= wanted);
    res
}

// ---- the plan ----

/// What marks an item that takes Administrator rights.
pub open spec fn admin_text(needs_elevation: bool) -> Seq<char> {
    if needs_elevation {
        "  (needs Administrator)"@
    } else {
        ""@
    }
}

/// What marks an item that takes Administrator rights.
pub fn admin_flag(needs_elevation: bool) -> (res: &'static str)
    ensures
        res@ == admin_text(needs_elevation),
{
    if needs_elevation {
        "  (needs Administrator)"
    } else {
        ""
    }
}

/// Whether an item deletes executables in a directory.
pub open spec fn deletes_in(platform: Platform, item: plan::ItemView, dir: Seq<char>) -> bool {
    match item.target {
        plan::TargetView::DeleteBinaries(of, _) => platform::same_place(platform, of, dir),
        _ => false,
    }
}

/// How many executables items delete in a directory, at most `usize::MAX`, and whether that takes
/// Administrator rights.
pub open spec fn dir_totals(
    platform: Platform,
    items: Seq<plan::ItemView>,
    dir: Seq<char>,
) -> (nat, bool)
    decreases items.len(),
{
    if items.len() == 0 {
        (0, false)
    } else {
        let before = dir_totals(platform, items.drop_last(), dir);
        match items.last().target {
            plan::TargetView::DeleteBinaries(of, stems) => if platform::same_place(
                platform,
                of,
                dir,
            ) {
                let sum = before.0 + stems.len();
                (
                    if sum > usize::MAX {
                        usize::MAX as nat
                    } else {
                        sum
                    },
                    before.1 || items.last().needs_elevation,
                )
            } else {
                before
            },
            _ => before,
        }
    }
}

/// How many executables a plan deletes in a directory, and whether that takes Administrator rights.
pub fn binary_dir_totals(platform: Platform, plan: &RemovalPlan, dir: &str) -> (res: (usize, bool))
    ensures
        (res.0 as nat, res.1) == dir_totals(platform, plan::all_items(plan@), dir@),
{
    let items = plan.items();
    let ghost shown = plan::all_items(plan@);
    let mut count: usize = 0;
    let mut needs_admin = false;
    let mut i: usize = 0;
    assert(shown.take(0) =~= Seq::empty());
    while i < items.len()
        invariant
            i <= items@.len(),
            shown == items@.map_values(|item: &PlanItem| item@),
            (count as nat, needs_admin) == dir_totals(platform, shown.take(i as int), dir@),
        decreases items@.len() - i,
    {
        let item = items[i];
        proof {
            assert(shown.take(i + 1).drop_last() =~= shown.take(i as int));
            assert(shown.take(i + 1).last() == item@);
        }
        if let PlanTarget::DeleteBinaries { dir: of, stems } = &item.target {
            if same_path(platform, of, dir) {
                count = count.saturating_add(stems.len());
                needs_admin = needs_admin || item.needs_elevation;
            }
        }
        i += 1;
    }
    assert(shown.take(i as int) =~= shown);
    (count, needs_admin)
}

/// The number behind a count of lines.
pub open spec fn next_number(count: nat) -> nat {
    if count < usize::MAX {
        count + 1
    } else {
        usize::MAX as nat
    }
}

/// The numbered lines of the first `count` items.  What is deleted in one directory is one line, at
/// its first item.
pub open spec fn numbered(platform: Platform, items: Seq<plan::ItemView>, count: nat) -> Seq<
    Seq<char>,
>
    decreases count,
{
    if count == 0 {
        Seq::empty()
    } else {
        let at = count - 1;
        let before = numbered(platform, items, (count - 1) as nat);
        let number = text::decimal(next_number(before.len()));
        match items[at].target {
            plan::TargetView::DeleteBinaries(dir, _) => if exists|k: int|
                0 <= k < at && deletes_in(platform, #[trigger] items[k], dir) {
                before
            } else {
                let totals = dir_totals(platform, items, dir);
                before.push(
                    "  ["@ + number + "] "@ + text::decimal(totals.0) + " binaries in "@ + (dir
                        + admin_text(totals.1)),
                )
            },
            target => before.push(
                "  ["@ + number + "] "@ + plan::described(target) + admin_text(
                    items[at].needs_elevation,
                ),
            ),
        }
    }
}

/// What is told where there is nothing to remove.
pub const NOTHING_TO_REMOVE: &'static str =
    "\nNothing to remove: no UFFS install or artifacts were found.";

/// What is told above a plan.
pub const PLAN_INTRO: &'static str = "\nThe following will be PERMANENTLY removed (no recovery):\n";

/// A plan, with stray files as a separate choice.
pub open spec fn plan_text(
    platform: Platform,
    core: Seq<plan::GroupView>,
    extra: Seq<plan::GroupView>,
) -> Seq<Seq<char>> {
    let items = plan::all_items(core);
    let strays = plan::all_items(extra).len();
    let lines = numbered(platform, items, items.len());
    let total = human(plan::reclaimed(items) as nat);
    if items.len() == 0 && strays == 0 {
        seq![NOTHING_TO_REMOVE@]
    } else if strays == 0 {
        seq![PLAN_INTRO@] + lines + seq!["\nReclaims ~"@ + total + "."@]
    } else {
        seq![PLAN_INTRO@] + lines + seq![
            "  ["@ + text::decimal(next_number(lines.len())) + "] "@ + text::decimal(strays)
                + " file(s) found elsewhere (removed only with ALL)"@,
            "\nReclaims ~"@ + total + ", plus "@ + text::decimal(strays)
                + " file(s) removed only with ALL."@,
        ]
    }
}

fn numbered_lines(platform: Platform, plan: &RemovalPlan) -> (res: Vec<String>)
    ensures
        text::texts(res@) == numbered(
            platform,
            plan::all_items(plan@),
            plan::all_items(plan@).len(),
        ),
{
    let items = plan.items();
    let ghost shown = plan::all_items(plan@);
    let mut res: Vec<String> = Vec::new();
    let mut i: usize = 0;
    assert(text::texts(res@) =~= Seq::empty());
    while i < items.len()
        invariant
            i <= items@.len(),
            shown == plan::all_items(plan@),
            shown == items@.map_values(|item: &PlanItem| item@),
            text::texts(res@) == numbered(platform, shown, i as nat),
        decreases items@.len() - i,
    {
        let item = items[i];
        let ghost before = numbered(platform, shown, i as nat);
        assert(shown[i as int] == item@);
        assert(res@.len() == before.len());
        let number = show_u64(res.len().saturating_add(1) as u64);
        if let PlanTarget::DeleteBinaries { dir, stems } = &item.target {
            let mut known = false;
            let mut k: usize = 0;
            while k < i
                invariant
                    k <= i < items@.len(),
                    shown == items@.map_values(|item: &PlanItem| item@),
                    known == exists|j: int|
                        0 <= j < k && deletes_in(platform, #[trigger] shown[j], dir@),
                decreases i - k,
            {
                assert(shown[k as int] == items@[k as int]@);
                if let PlanTarget::DeleteBinaries { dir: of, .. } = &items[k].target {
                    if same_path(platform, of, dir) {
                        assert(deletes_in(platform, shown[k as int], dir@));
                        known = true;
                    }
                }
                k += 1;
            }
            if !known {
                let (count, needs_admin) = binary_dir_totals(platform, plan, dir);
                let flag = admin_flag(needs_admin);
                push_line(
                    &mut res,
                    cat6(
                        "  [",
                        &number,
                        "] ",
                        &show_u64(count as u64),
                        " binaries in ",
                        &cat2(dir, flag),
                    ),
                );
            }
        } else {
            let flag = admin_flag(item.needs_elevation);
            push_line(&mut res, cat5("  [", &number, "] ", &item.target.describe(), flag));
        }
        i += 1;
    }
    res
}

/// A plan, with stray files as a separate choice.
pub fn plan_lines(platform: Platform, core: &RemovalPlan, extra: &RemovalPlan) -> (res: Vec<String>)
    ensures
        text::texts(res@) == plan_text(platform, core@, extra@),
{
    let mut res: Vec<String> = Vec::new();
    assert(text::texts(res@) =~= Seq::empty());
    let strays: usize = extra.item_count();
    if core.item_count() == 0 && strays == 0 {
        push_line(&mut res, NOTHING_TO_REMOVE.to_owned());
        assert(text::texts(res@) =~= plan_text(platform, core@, extra@));
        return res;
    }
    push_line(&mut res, PLAN_INTRO.to_owned());
    let items = numbered_lines(platform, core);
    let number: usize = items.len().saturating_add(1);
    let ghost lines = text::texts(items@);
    assert(items@.len() == lines.len());
    text::push_lines(&mut res, items);
    let total = human_bytes(core.total_bytes());
    if strays == 0 {
        push_line(&mut res, cat3("\nReclaims ~", &total, "."));
    } else {
        push_line(
            &mut res,
            cat5(
                "  [",
                &show_u64(number as u64),
                "] ",
                &show_u64(strays as u64),
                " file(s) found elsewhere (removed only with ALL)",
            ),
        );
        push_line(
            &mut res,
            cat5(
                "\nReclaims ~",
                &total,
                ", plus ",
                &show_u64(strays as u64),
                " file(s) removed only with ALL.",
            ),
        );
    }
    assert(text::texts(res@) =~= plan_text(platform, core@, extra@));
    res
}

// ---- notes ----

/// What is told when the rights for some items are asked for at the removal.
pub const UAC_NOTE: &'static str =
    "\nThe item(s) marked (needs Administrator) will show one Windows UAC prompt\nwhen removal starts.";

/// What is told in a dry run where some items take rights that the terminal lacks.
pub const DRY_RUN_ELEVATION_NOTE: &'static str =
    "\nNote: items marked (needs Administrator) require an elevated terminal; a\nnon-elevated run asks up front whether to continue without them.";

/// What is told when stray files were left.
pub const STRAYS_KEPT: &'static str = "Left the EXTRA file(s) (found elsewhere) in place.";

/// The first line of a run: which build it is.
pub fn run_header(version: &str, commit: &str) -> (res: String)
    ensures
        res@ == "uffs "@ + version@ + " ("@ + commit@ + ") \u{2014} uninstall\n"@,
{
    cat5("uffs ", version, " (", commit, ") \u{2014} uninstall\n")
}

/// What is told when an earlier run did not finish.
pub const RESUMED_NOTE: &'static str =
    "A previous uninstall did not finish. Removal is idempotent, so this run will complete it.\n";

/// What is told when the running executable removes itself later.
pub const SELF_DELETE_NOTE: &'static str =
    "\nThe uffs command removes itself once this process exits.";

/// What is told when the marker of a run that is under way could not be written or cleared.
pub fn journal_warning(error: &str) -> (res: String)
    ensures
        res@ == "note: uninstall progress marker could not be updated ("@ + error@ + ")."@,
{
    cat3("note: uninstall progress marker could not be updated (", error, ").")
}

/// What is told when the running executable cannot be removed later.
pub fn self_delete_warning(error: &str) -> (res: String)
    ensures
        res@ == "\nCould not schedule deletion of the running uffs binary ("@ + error@
            + ").\nDelete it manually once this process has exited."@,
{
    cat3(
        "\nCould not schedule deletion of the running uffs binary (",
        error,
        ").\nDelete it manually once this process has exited.",
    )
}

/// A list of texts, each behind a dash.
pub open spec fn dashed(list: Seq<Seq<char>>) -> Seq<Seq<char>> {
    list.map_values(|item: Seq<char>| "  - "@ + item)
}

pub(crate) fn push_dashed(out: &mut Vec<String>, list: &Vec<String>)
    ensures
        text::texts(final(out)@) == text::texts(old(out)@) + dashed(text::texts(list@)),
{
    let ghost before = text::texts(out@);
    let ghost more = dashed(text::texts(list@));
    let mut i: usize = 0;
    assert(before + more.take(0) =~= before);
    while i < list.len()
        invariant
            i <= list@.len(),
            more == dashed(text::texts(list@)),
            text::texts(out@) == before + more.take(i as int),
        decreases list@.len() - i,
    {
        push_line(out, cat2("  - ", &list[i]));
        proof {
            assert(more[i as int] == "  - "@ + list@[i as int]@);
            assert(text::texts(out@) =~= before + more.take(i + 1));
        }
        i += 1;
    }
    assert(more.take(i as int) =~= more);
}

/// What is told of items that are skipped because they take Administrator rights; nothing where
/// there are none.
pub open spec fn skipped_text(skipped: Seq<Seq<char>>) -> Seq<Seq<char>> {
    if skipped.len() == 0 {
        Seq::empty()
    } else {
        seq!["\nNOT removed in this run (needs Administrator):"@] + dashed(skipped) + seq![
            "  Re-run `uffs --uninstall` from an elevated terminal to remove these."@,
        ]
    }
}

/// What is told of items that are skipped because they take Administrator rights.
pub fn skipped_lines(skipped: &Vec<String>) -> (res: Vec<String>)
    ensures
        text::texts(res@) == skipped_text(text::texts(skipped@)),
{
    let mut res: Vec<String> = Vec::new();
    assert(text::texts(res@) =~= Seq::empty());
    if skipped.len() == 0 {
        return res;
    }
    push_line(&mut res, "\nNOT removed in this run (needs Administrator):".to_owned());
    push_dashed(&mut res, skipped);
    push_line(
        &mut res,
        "  Re-run `uffs --uninstall` from an elevated terminal to remove these.".to_owned(),
    );
    assert(text::texts(res@) =~= skipped_text(text::texts(skipped@)));
    res
}

/// What is told when everything is gone.
pub const ALL_GONE: &'static str = "\nVerified: all targeted UFFS locations are gone.";

/// What is told after the places of a plan were looked at again: which are still there, or, after a
/// clean run, that none is.
pub open spec fn verification_text(remaining: Seq<Seq<char>>, clean: bool) -> Seq<Seq<char>> {
    if remaining.len() > 0 {
        seq![
            "\nVerification: "@ + text::decimal(remaining.len())
                + " location(s) still present (a reboot may be pending, or elevation/sudo is needed):"@,
        ] + remaining.map_values(|path: Seq<char>| "  "@ + path)
    } else if clean {
        seq![ALL_GONE@]
    } else {
        Seq::empty()
    }
}

/// What is told after the places of a plan were looked at again.
pub fn verification_lines(remaining: &Vec<String>, clean: bool) -> (res: Vec<String>)
    ensures
        text::texts(res@) == verification_text(text::texts(remaining@), clean),
{
    let mut res: Vec<String> = Vec::new();
    assert(text::texts(res@) =~= Seq::empty());
    if remaining.len() == 0 {
        if clean {
            push_line(&mut res, ALL_GONE.to_owned());
            assert(text::texts(res@) =~= verification_text(text::texts(remaining@), clean));
        }
        return res;
    }
    let ghost wanted = verification_text(text::texts(remaining@), clean);
    push_line(
        &mut res,
        cat3(
            "\nVerification: ",
            &show_u64(remaining.len() as u64),
            " location(s) still present (a reboot may be pending, or elevation/sudo is needed):",
        ),
    );
    let mut i: usize = 0;
    assert(text::texts(res@) =~= wanted.take(1));
    while i < remaining.len()
        invariant
            i <= remaining@.len(),
            remaining@.len() > 0,
            wanted == verification_text(text::texts(remaining@), clean),
            text::texts(res@) == wanted.take(i + 1),
        decreases remaining@.len() - i,
    {
        push_line(&mut res, cat2("  ", &remaining[i]));
        proof {
            assert(wanted[i + 1] == "  "@ + remaining@[i as int]@);
            assert(text::texts(res@) =~= wanted.take(i + 2));
        }
        i += 1;
    }
    assert(wanted.take(i + 1) =~= wanted);
    res
}

/// That everything is gone is told if and only if the run was clean and nothing is left.
pub proof fn law_all_gone_needs_a_clean_run(remaining: Seq<Seq<char>>, clean: bool)
    ensures
        verification_text(remaining, clean) == seq![ALL_GONE@] <==> clean && remaining.len() == 0,
{
    if remaining.len() > 0 {
        assert(verification_text(remaining, clean).len() >= 2);
        assert(seq![ALL_GONE@].len() == 1);
    } else if !clean {
        assert(verification_text(remaining, clean).len() == 0);
        assert(seq![ALL_GONE@].len() == 1);
    }
}

// ---- the outcome ----

/// The lines of what failed and of what was left.
pub open spec fn trouble(entries: Seq<remove::EntryView>) -> Seq<Seq<char>>
    decreases entries.len(),
{
    if entries.len() == 0 {
        Seq::empty()
    } else {
        let before = trouble(entries.drop_last());
        match entries.last().status {
            remove::StatusView::Failed(error) => before.push(
                "  FAILED  "@ + entries.last().description + "  ("@ + error + ")"@,
            ),
            remove::StatusView::Skipped(reason) => before.push(
                "  LEFT    "@ + entries.last().description + "  ("@ + reason + ")"@,
            ),
            remove::StatusView::Done => before,
        }
    }
}

/// The counts of an outcome.
pub open spec fn count_texts(entries: Seq<remove::EntryView>) -> Seq<Seq<char>> {
    seq![text::decimal(remove::done_in(entries)) + " removed"@] + (if remove::failed_in(entries)
        > 0 {
        seq![text::decimal(remove::failed_in(entries)) + " failed"@]
    } else {
        Seq::empty()
    }) + (if remove::skipped_in(entries) > 0 {
        seq![text::decimal(remove::skipped_in(entries)) + " left"@]
    } else {
        Seq::empty()
    })
}

/// What to do about what was left.
pub const LEFT_HINT: &'static str =
    "\nThe Access Broker was left because elevation was declined. Re-run\n`uffs --uninstall` from an Administrator terminal to remove it.";

/// What to do about what failed.
pub const FAILED_HINT: &'static str =
    "\nSome items could not be removed (a file may be in use). Close anything using them and re-run.";

/// An outcome: its counts, what failed or was left, and what to do about it.
pub open spec fn outcome_text(entries: Seq<remove::EntryView>) -> Seq<Seq<char>> {
    seq!["\nRemoval finished: "@ + text::joined(count_texts(entries), ", "@) + "."@] + trouble(
        entries,
    ) + (if remove::skipped_in(entries) > 0 {
        seq![LEFT_HINT@]
    } else {
        Seq::empty()
    }) + (if remove::failed_in(entries) > 0 {
        seq![FAILED_HINT@]
    } else {
        Seq::empty()
    })
}

fn trouble_lines(outcome: &RemovalOutcome) -> (res: Vec<String>)
    ensures
        text::texts(res@) == trouble(outcome.entries()),
{
    let mut res: Vec<String> = Vec::new();
    let ghost entries = outcome.entries();
    let mut i: usize = 0;
    assert(text::texts(res@) =~= Seq::empty());
    while i < outcome.results.len()
        invariant
            i <= outcome.results@.len(),
            entries == outcome.entries(),
            text::texts(res@) == trouble(entries.take(i as int)),
        decreases outcome.results@.len() - i,
    {
        let entry = &outcome.results[i];
        proof {
            assert(entries.take(i + 1).drop_last() =~= entries.take(i as int));
            assert(entries.take(i + 1).last() == entries[i as int]);
        }
        match &entry.1 {
            ItemStatus::Failed(error) => push_line(
                &mut res,
                cat5("  FAILED  ", &entry.0, "  (", error, ")"),
            ),
            ItemStatus::Skipped(reason) => push_line(
                &mut res,
                cat5("  LEFT    ", &entry.0, "  (", reason, ")"),
            ),
            ItemStatus::Done => {},
        }
        i += 1;
    }
    assert(entries.take(i as int) =~= entries);
    res
}

/// An outcome: its counts, what failed or was left, and what to do about it.
pub fn outcome_lines(outcome: &RemovalOutcome) -> (res: Vec<String>)
    ensures
        text::texts(res@) == outcome_text(outcome.entries()),
{
    let failed: usize = outcome.failed_count();
    let skipped: usize = outcome.skipped_count();
    let mut parts: Vec<String> = Vec::new();
    assert(text::texts(parts@) =~= Seq::empty());
    push_line(&mut parts, cat2(&show_u64(outcome.done_count() as u64), " removed"));
    if failed > 0 {
        push_line(&mut parts, cat2(&show_u64(failed as u64), " failed"));
    }
    if skipped > 0 {
        push_line(&mut parts, cat2(&show_u64(skipped as u64), " left"));
    }
    assert(text::texts(parts@) =~= count_texts(outcome.entries()));
    let mut res: Vec<String> = Vec::new();
    assert(text::texts(res@) =~= Seq::empty());
    push_line(&mut res, cat3("\nRemoval finished: ", &join(&parts, ", "), "."));
    let lines = trouble_lines(outcome);
    text::push_lines(&mut res, lines);
    if skipped > 0 {
        push_line(&mut res, LEFT_HINT.to_owned());
    }
    if failed > 0 {
        push_line(&mut res, FAILED_HINT.to_owned());
    }
    assert(text::texts(res@) =~= outcome_text(outcome.entries()));
    res
}

// ---- JSON ----

/// The JSON form of an item.
pub open spec fn item_json(item: plan::ItemView) -> json::JsonView {
    json::JsonView::Object(
        seq![
            ("action"@, json::JsonView::Text(plan::action_text(item.target))),
            ("description"@, json::JsonView::Text(plan::described(item.target))),
            ("needs_elevation"@, json::JsonView::Bool(item.needs_elevation)),
            ("bytes"@, json::JsonView::Number(item.bytes)),
        ],
    )
}

/// The JSON form of a group.
pub open spec fn group_json(group: plan::GroupView) -> json::JsonView {
    json::JsonView::Object(
        seq![
            ("title"@, json::JsonView::Text(group.title)),
            (
                "items"@,
                json::JsonView::List(
                    group.items.map_values(|item: plan::ItemView| item_json(item)),
                ),
            ),
        ],
    )
}

/// The JSON form of a plan.
pub open spec fn plan_document(groups: Seq<plan::GroupView>) -> json::JsonView {
    let items = plan::all_items(groups);
    json::JsonView::Object(
        seq![
            ("total_bytes"@, json::JsonView::Number(plan::reclaimed(items) as u64)),
            ("item_count"@, json::JsonView::Number(items.len() as u64)),
            ("requires_elevation"@, json::JsonView::Bool(plan::any_elevated(items))),
            (
                "groups"@,
                json::JsonView::List(
                    groups.map_values(|group: plan::GroupView| group_json(group)),
                ),
            ),
        ],
    )
}

fn json_of_item(item: &PlanItem) -> (res: Json)
    ensures
        res@ == item_json(item@),
{
    let mut fields = json::no_fields();
    json::push_field(&mut fields, "action", json::string(item.target.action_label()));
    json::push_field(&mut fields, "description", json::string(&item.target.describe()));
    json::push_field(&mut fields, "needs_elevation", Json::Bool(item.needs_elevation));
    json::push_field(&mut fields, "bytes", Json::Number(item.bytes));
    let res = json::object(fields);
    assert(res@->Object_0 =~= item_json(item@)->Object_0);
    res
}

fn json_of_group(group: &plan::PlanGroup) -> (res: Json)
    ensures
        res@ == group_json(group@),
{
    let mut items: Vec<Json> = Vec::new();
    let ghost wanted = group@.items.map_values(|item: plan::ItemView| item_json(item));
    let mut i: usize = 0;
    assert(json::list_view(items@) =~= wanted.take(0));
    while i < group.items.len()
        invariant
            i <= group.items@.len(),
            wanted == group@.items.map_values(|item: plan::ItemView| item_json(item)),
            json::list_view(items@) == wanted.take(i as int),
        decreases group.items@.len() - i,
    {
        assert(group@.items[i as int] == group.items@[i as int]@);
        json::push_item(&mut items, json_of_item(&group.items[i]));
        assert(json::list_view(items@) =~= wanted.take(i + 1));
        i += 1;
    }
    assert(wanted.take(i as int) =~= wanted);
    let mut fields = json::no_fields();
    json::push_field(&mut fields, "title", json::string(group.title));
    json::push_field(&mut fields, "items", json::list(items));
    let res = json::object(fields);
    assert(res@->Object_0 =~= group_json(group@)->Object_0);
    res
}

/// The JSON form of a plan.
pub fn plan_json(plan: &RemovalPlan) -> (res: Json)
    ensures
        res@ == plan_document(plan@),
{
    let mut groups: Vec<Json> = Vec::new();
    let ghost wanted = plan@.map_values(|group: plan::GroupView| group_json(group));
    let mut i: usize = 0;
    assert(json::list_view(groups@) =~= wanted.take(0));
    while i < plan.groups.len()
        invariant
            i <= plan.groups@.len(),
            wanted == plan@.map_values(|group: plan::GroupView| group_json(group)),
            json::list_view(groups@) == wanted.take(i as int),
        decreases plan.groups@.len() - i,
    {
        assert(plan@[i as int] == plan.groups@[i as int]@);
        json::push_item(&mut groups, json_of_group(&plan.groups[i]));
        assert(json::list_view(groups@) =~= wanted.take(i + 1));
        i += 1;
    }
    assert(wanted.take(i as int) =~= wanted);
    let mut fields = json::no_fields();
    json::push_field(&mut fields, "total_bytes", Json::Number(plan.total_bytes()));
    json::push_field(&mut fields, "item_count", Json::Number(plan.item_count() as u64));
    json::push_field(&mut fields, "requires_elevation", Json::Bool(plan.requires_elevation()));
    json::push_field(&mut fields, "groups", json::list(groups));
    let res = json::object(fields);
    assert(res@->Object_0 =~= plan_document(plan@)->Object_0);
    res
}

/// The JSON form of a copy of an executable.
pub open spec fn copy_json(copy: ResolvedCopy) -> json::JsonView {
    json::JsonView::Object(
        seq![
            (
                "state"@,
                json::JsonView::Text(
                    match copy.state {
                        ResolutionState::Active => "active"@,
                        ResolutionState::Shadowed => "shadowed"@,
                    },
                ),
            ),
            ("on_search_path"@, json::JsonView::Bool(copy.on_search_path)),
            ("version"@, json::optional(crate::error::shown(copy.version))),
            ("channel"@, json::JsonView::Text(copy.channel.text())),
            ("scope"@, json::JsonView::Text(copy.scope.text())),
            ("dir"@, json::JsonView::Text(copy.dir@)),
        ],
    )
}

/// The JSON form of the copies of an executable.
pub open spec fn stem_json(stem: StemResolution) -> json::JsonView {
    json::JsonView::Object(
        seq![
            ("stem"@, json::JsonView::Text(stem.stem@)),
            (
                "copies"@,
                json::JsonView::List(
                    stem.copies@.map_values(|copy: ResolvedCopy| copy_json(copy)),
                ),
            ),
        ],
    )
}

/// The JSON form of a directory.
pub open spec fn dir_json(dir: inventory::ArtifactDir) -> json::JsonView {
    json::JsonView::Object(
        seq![
            ("kind"@, json::JsonView::Text(dir.kind.text())),
            ("path"@, json::JsonView::Text(dir.path@)),
            ("exists"@, json::JsonView::Bool(dir.exists)),
            ("size_bytes"@, json::JsonView::Number(dir.size_bytes)),
        ],
    )
}

/// The JSON form of an analysis.
pub open spec fn analysis_document(
    resolution: Seq<StemResolution>,
    inventory: Inventory,
    groups: Seq<plan::GroupView>,
) -> json::JsonView {
    json::JsonView::Object(
        seq![
            (
                "binaries"@,
                json::JsonView::List(
                    resolution.map_values(|stem: StemResolution| stem_json(stem)),
                ),
            ),
            (
                "artifacts"@,
                json::JsonView::List(
                    inventory.dirs@.map_values(|dir: inventory::ArtifactDir| dir_json(dir)),
                ),
            ),
            ("broker_service"@, json::JsonView::Text(inventory.broker_service.text())),
            ("plan"@, plan_document(groups)),
        ],
    )
}

fn json_of_copy(copy: &ResolvedCopy) -> (res: Json)
    ensures
        res@ == copy_json(*copy),
{
    let mut fields = json::no_fields();
    let state = match copy.state {
        ResolutionState::Active => "active",
        ResolutionState::Shadowed => "shadowed",
    };
    json::push_field(&mut fields, "state", json::string(state));
    json::push_field(&mut fields, "on_search_path", Json::Bool(copy.on_search_path));
    json::push_field(&mut fields, "version", json::optional_string(&copy.version));
    json::push_field(&mut fields, "channel", json::string(copy.channel.label()));
    json::push_field(&mut fields, "scope", json::string(copy.scope.label()));
    json::push_field(&mut fields, "dir", json::string(&copy.dir));
    let res = json::object(fields);
    assert(res@->Object_0 =~= copy_json(*copy)->Object_0);
    res
}

fn json_of_stem(stem: &StemResolution) -> (res: Json)
    ensures
        res@ == stem_json(*stem),
{
    let mut copies: Vec<Json> = Vec::new();
    let ghost wanted = stem.copies@.map_values(|copy: ResolvedCopy| copy_json(copy));
    let mut i: usize = 0;
    assert(json::list_view(copies@) =~= wanted.take(0));
    while i < stem.copies.len()
        invariant
            i <= stem.copies@.len(),
            wanted == stem.copies@.map_values(|copy: ResolvedCopy| copy_json(copy)),
            json::list_view(copies@) == wanted.take(i as int),
        decreases stem.copies@.len() - i,
    {
        json::push_item(&mut copies, json_of_copy(&stem.copies[i]));
        assert(json::list_view(copies@) =~= wanted.take(i + 1));
        i += 1;
    }
    assert(wanted.take(i as int) =~= wanted);
    let mut fields = json::no_fields();
    json::push_field(&mut fields, "stem", json::string(&stem.stem));
    json::push_field(&mut fields, "copies", json::list(copies));
    let res = json::object(fields);
    assert(res@->Object_0 =~= stem_json(*stem)->Object_0);
    res
}

fn json_of_dir(dir: &inventory::ArtifactDir) -> (res: Json)
    ensures
        res@ == dir_json(*dir),
{
    let mut fields = json::no_fields();
    json::push_field(&mut fields, "kind", json::string(dir.kind.label()));
    json::push_field(&mut fields, "path", json::string(&dir.path));
    json::push_field(&mut fields, "exists", Json::Bool(dir.exists));
    json::push_field(&mut fields, "size_bytes", Json::Number(dir.size_bytes));
    let res = json::object(fields);
    assert(res@->Object_0 =~= dir_json(*dir)->Object_0);
    res
}

/// The JSON form of an analysis: executables, directories, the broker service and the plan.
pub fn analysis_json(
    resolution: &Vec<StemResolution>,
    inventory: &Inventory,
    plan: &RemovalPlan,
) -> (res: Json)
    ensures
        res@ == analysis_document(resolution@, *inventory, plan@),
{
    let mut binaries: Vec<Json> = Vec::new();
    let ghost stems = resolution@.map_values(|stem: StemResolution| stem_json(stem));
    let mut i: usize = 0;
    assert(json::list_view(binaries@) =~= stems.take(0));
    while i < resolution.len()
        invariant
            i <= resolution@.len(),
            stems == resolution@.map_values(|stem: StemResolution| stem_json(stem)),
            json::list_view(binaries@) == stems.take(i as int),
        decreases resolution@.len() - i,
    {
        json::push_item(&mut binaries, json_of_stem(&resolution[i]));
        assert(json::list_view(binaries@) =~= stems.take(i + 1));
        i += 1;
    }
    assert(stems.take(i as int) =~= stems);
    let mut artifacts: Vec<Json> = Vec::new();
    let ghost dirs = inventory.dirs@.map_values(|dir: inventory::ArtifactDir| dir_json(dir));
    let mut k: usize = 0;
    assert(json::list_view(artifacts@) =~= dirs.take(0));
    while k < inventory.dirs.len()
        invariant
            k <= inventory.dirs@.len(),
            dirs == inventory.dirs@.map_values(|dir: inventory::ArtifactDir| dir_json(dir)),
            json::list_view(artifacts@) == dirs.take(k as int),
        decreases inventory.dirs@.len() - k,
    {
        json::push_item(&mut artifacts, json_of_dir(&inventory.dirs[k]));
        assert(json::list_view(artifacts@) =~= dirs.take(k + 1));
        k += 1;
    }
    assert(dirs.take(k as int) =~= dirs);
    let mut fields = json::no_fields();
    json::push_field(&mut fields, "binaries", json::list(binaries));
    json::push_field(&mut fields, "artifacts", json::list(artifacts));
    json::push_field(
        &mut fields,
        "broker_service",
        json::string(inventory.broker_service.label()),
    );
    json::push_field(&mut fields, "plan", plan_json(plan));
    let res = json::object(fields);
    assert(res@->Object_0 =~= analysis_document(resolution@, *inventory, plan@)->Object_0);
    res
}

/// A size is told in the largest unit that it fills, with one digit behind the point that is cut off
/// and not rounded.
pub proof fn law_sizes_are_told_in_the_largest_unit(bytes: u64, res: String)
    requires
        call_ensures(human_bytes, (bytes,), res),
    ensures
        bytes < 1024 ==> res@ == text::decimal(bytes as nat) + " B"@,
        1024 <= bytes < 1024 * 1024 ==> res@ == text::decimal((bytes / 1024) as nat) + "."@
            + text::decimal(((bytes % 1024) * 10 / 1024) as nat) + " KB"@,
        1024 * 1024 <= bytes < 1024 * 1024 * 1024 ==> res@ == text::decimal(
            (bytes / 1048576) as nat,
        ) + "."@ + text::decimal(((bytes % 1048576) * 10 / 1048576) as nat) + " MB"@,
        1024 * 1024 * 1024 <= bytes ==> res@ == text::decimal((bytes / 1073741824) as nat) + "."@
            + text::decimal(((bytes % 1073741824) * 10 / 1073741824) as nat) + " GB"@,
{
}

/// A column is as wide as its widest cell or its heading, and no wider.
pub proof fn law_a_column_holds_its_widest_cell(
    heading: Seq<char>,
    rows: Seq<Seq<Seq<char>>>,
    column: int,
    i: int,
)
    ensures
        byte_len(heading) <= column_width(heading, rows, column),
        0 <= i < rows.len() ==> byte_len(rows[i][column]) <= column_width(heading, rows, column),
        column_width(heading, rows, column) == byte_len(heading) || exists|k: int|
            0 <= k < rows.len() && byte_len(#[trigger] rows[k][column]) == column_width(
                heading,
                rows,
                column,
            ),
    decreases rows.len(),
{
    if rows.len() > 0 {
        let rest = rows.drop_last();
        law_a_column_holds_its_widest_cell(heading, rest, column, i);
        let width = column_width(heading, rows, column);
        if byte_len(rows.last()[column]) == width {
            assert(byte_len(rows[rows.len() - 1][column]) == width);
        } else if column_width(heading, rest, column) != byte_len(heading) {
            let k = choose|k: int|
                0 <= k < rest.len() && byte_len(#[trigger] rest[k][column]) == column_width(
                    heading,
                    rest,
                    column,
                );
            assert(rows[k][column] == rest[k][column]);
        }
    }
}

/// A table has a line for its headings and one for each row, in order.  A line holds its cells in
/// order, each behind two blanks and filled up to its column, but for the last.
pub proof fn law_the_lines_of_a_table(headings: &Vec<String>, rows: &Vec<Vec<String>>, res: Vec<String>)
    requires
        forall|i: int| 0 <= i < rows@.len() ==> headings@.len() == (#[trigger] rows@[i])@.len(),
        call_ensures(table_lines, (headings, rows), res),
    ensures
        res@.len() == rows@.len() + 1,
        headings@.len() == 1 ==> res@[0]@ == "  "@ + headings@[0]@,
        forall|i: int|
            0 <= i < rows@.len() && headings@.len() == 1 ==> (#[trigger] res@[i + 1])@ == "  "@
                + rows@[i]@[0]@,
        headings@.len() == 2 ==> res@[0]@ == "  "@ + text::padded(
            headings@[0]@,
            column_width(headings@[0]@, row_views(rows@), 0),
        ) + "  "@ + headings@[1]@,
        forall|i: int|
            0 <= i < rows@.len() && headings@.len() == 2 ==> (#[trigger] res@[i + 1])@ == "  "@
                + text::padded(
                rows@[i]@[0]@,
                column_width(headings@[0]@, row_views(rows@), 0),
            ) + "  "@ + rows@[i]@[1]@,
{
    let told = text::texts(res@);
    let names = text::texts(headings@);
    let views = row_views(rows@);
    assert(told.len() == res@.len());
    assert(told[0] == res@[0]@);
    reveal_with_fuel(row_text, 3);
    let none = Seq::<char>::empty();
    assert(none + "  "@ =~= "  "@);
    if headings@.len() >= 1 {
        assert(names[0] == headings@[0]@);
    }
    if headings@.len() >= 2 {
        assert(names[1] == headings@[1]@);
    }
    assert forall|i: int| 0 <= i < rows@.len() implies (#[trigger] res@[i + 1])@ == row_text(
        text::texts(rows@[i]@),
        names,
        views,
        names.len(),
    ) by {
        assert(told[i + 1] == res@[i + 1]@);
        assert(views[i] == text::texts(rows@[i]@));
    }
    assert forall|i: int| 0 <= i < rows@.len() && headings@.len() == 1 implies (
    #[trigger] res@[i + 1])@ == "  "@ + rows@[i]@[0]@ by {
        assert(text::texts(rows@[i]@)[0] == rows@[i]@[0]@);
    }
    assert forall|i: int| 0 <= i < rows@.len() && headings@.len() == 2 implies (
    #[trigger] res@[i + 1])@ == "  "@ + text::padded(
        rows@[i]@[0]@,
        column_width(headings@[0]@, row_views(rows@), 0),
    ) + "  "@ + rows@[i]@[1]@ by {
        assert(text::texts(rows@[i]@)[0] == rows@[i]@[0]@);
        assert(text::texts(rows@[i]@)[1] == rows@[i]@[1]@);
    }
}

/// Each cell adds itself to its line, whatever the cells before it: two blanks and the cell, filled up
/// where another follows.
pub proof fn law_each_cell_adds_itself(
    cells: Seq<Seq<char>>,
    headings: Seq<Seq<char>>,
    rows: Seq<Seq<Seq<char>>>,
    k: nat,
)
    requires
        k < cells.len(),
    ensures
        row_text(cells, headings, rows, 0).len() == 0,
        k + 1 < cells.len() ==> row_text(cells, headings, rows, k + 1) == row_text(
            cells,
            headings,
            rows,
            k,
        ) + "  "@ + text::padded(
            cells[k as int],
            column_width(headings[k as int], rows, k as int),
        ),
        k + 1 == cells.len() ==> row_text(cells, headings, rows, k + 1) == row_text(
            cells,
            headings,
            rows,
            k,
        ) + "  "@ + cells[k as int],
{
}

/// Which words tell where a copy stands and where it came from.
pub proof fn law_each_copy_has_its_words(
    state: ResolutionState,
    on_path: bool,
    res: &'static str,
    channel: Channel,
    scope: Scope,
    source: &'static str,
)
    requires
        call_ensures(status_label, (state, on_path), res),
        call_ensures(source_label, (channel, scope), source),
    ensures
        state == ResolutionState::Active ==> res@ == "runs"@,
        state == ResolutionState::Shadowed && on_path ==> res@ == "shadowed"@,
        state == ResolutionState::Shadowed && !on_path ==> res@ == "off PATH"@,
        channel == Channel::WinGet && scope == Scope::User ==> source@ == "winget (user)"@,
        channel == Channel::WinGet && scope == Scope::Machine ==> source@ == "winget (machine)"@,
        channel == Channel::WinGet && scope == Scope::Unknown ==> source@ == "winget"@,
        channel == Channel::Unmanaged ==> source@ == "hand-placed"@,
        channel == Channel::DevBuild ==> source@ == "dev build"@,
        channel == Channel::Unknown ==> source@ == "unknown"@,
{
}

/// Every copy has its row, those of one program after those of the programs before it; and a row holds
/// the program, its version, where it stands, where it came from and its directory.
pub proof fn law_every_copy_has_its_row(
    stems: Seq<StemResolution>,
    more: Seq<StemResolution>,
    one: StemResolution,
    k: int,
    standing: &'static str,
    source: &'static str,
)
    requires
        0 <= k < one.copies@.len(),
        call_ensures(
            status_label,
            (one.copies@[k].state, one.copies@[k].on_search_path),
            standing,
        ),
        call_ensures(source_label, (one.copies@[k].channel, one.copies@[k].scope), source),
    ensures
        copy_rows(stems + more) == copy_rows(stems) + copy_rows(more),
        copy_rows(seq![one]).len() == one.copies@.len(),
        one.copies@[k].version is Some ==> copy_rows(seq![one])[k] == seq![
            one.stem@,
            one.copies@[k].version->Some_0@,
            standing@,
            source@,
            one.copies@[k].dir@,
        ],
        one.copies@[k].version is None ==> copy_rows(seq![one])[k] == seq![
            one.stem@,
            "legacy"@,
            standing@,
            source@,
            one.copies@[k].dir@,
        ],
{
    lemma_copy_rows(stems, more);
    reveal_with_fuel(copy_rows, 2);
    let single = seq![one];
    assert(single.drop_last() =~= Seq::<StemResolution>::empty());
    assert(single.last() == one);
    assert(copy_rows(single)[k] == copy_row(one.stem@, one.copies@[k]));
}

proof fn lemma_copy_rows(stems: Seq<StemResolution>, more: Seq<StemResolution>)
    ensures
        copy_rows(stems + more) == copy_rows(stems) + copy_rows(more),
    decreases more.len(),
{
    if more.len() == 0 {
        assert(stems + more =~= stems);
        assert(copy_rows(stems) + copy_rows(more) =~= copy_rows(stems));
    } else {
        lemma_copy_rows(stems, more.drop_last());
        assert((stems + more).drop_last() =~= stems + more.drop_last());
        assert((stems + more).last() == more.last());
        assert(copy_rows(stems + more) =~= copy_rows(stems) + copy_rows(more));
    }
}

/// The overview of the programs has a line for each copy, under its headings; and where there is none,
/// it says so.
pub proof fn law_the_overview_of_the_programs(
    stems: &Vec<StemResolution>,
    res: Vec<String>,
    strays: &Vec<StrayHit>,
    platform: Platform,
    others: Vec<String>,
)
    requires
        call_ensures(resolution_lines, (stems,), res),
        call_ensures(extra_lines, (platform, strays), others),
    ensures
        stems@.len() == 0 ==> res@.len() == 1 && res@[0]@
            == "No UFFS binaries found in any install root or on PATH."@,
        stems@.len() > 0 ==> res@.len() == copy_rows(stems@).len() + 2,
        strays@.len() == 0 ==> others@.len() == 0,
        strays@.len() > 0 ==> others@.len() == strays@.len() + 2,
{
    assert(text::texts(res@).len() == res@.len());
    assert(text::texts(others@).len() == others@.len());
    assert(text::texts(res@)[0] == res@[0]@);
}

/// A stray file is listed by its name, its version and its directory.
pub proof fn law_a_stray_file_is_listed_by_its_name(platform: Platform, stray: StrayHit)
    ensures
        ({
            let name = platform::file_name(platform, stray.path@);
            let row = stray_row(platform, stray);
            &&& row.len() == 3
            &&& name.len() > 0 ==> row[0] == name
            &&& name.len() == 0 ==> row[0] == stray.path@
            &&& stray.version matches Some(version) ==> row[1] == version@
            &&& stray.version is None ==> row[1] == "legacy"@
            &&& platform::parent(platform, stray.path@) matches Some(dir) ==> row[2] == dir
            &&& platform::parent(platform, stray.path@) is None ==> row[2].len() == 0
        }),
{
}

/// The inventory has a line for each directory, in order, with its kind, its size or that it is
/// absent, and its path; and a last one on the service.
pub proof fn law_the_inventory_lists_every_directory(
    inventory: &Inventory,
    res: Vec<String>,
    i: int,
    kind: &'static str,
    size: String,
    state: &'static str,
)
    requires
        call_ensures(inventory_lines, (inventory,), res),
        0 <= i < inventory.dirs@.len(),
        call_ensures(inventory::ArtifactKind::label, (inventory.dirs@[i].kind,), kind),
        call_ensures(human_bytes, (inventory.dirs@[i].size_bytes,), size),
        call_ensures(
            inventory::BrokerServiceState::label,
            (inventory.broker_service,),
            state,
        ),
    ensures
        res@.len() == inventory.dirs@.len() + 2,
        res@[0]@ == "\nData / cache / config:"@,
        inventory.dirs@[i].exists ==> res@[i + 1]@ == "  "@ + text::padded(kind@, 13) + "  "@
            + text::padded(size@, 10) + "  "@ + inventory.dirs@[i].path@,
        !inventory.dirs@[i].exists ==> res@[i + 1]@ == "  "@ + text::padded(kind@, 13) + "  "@
            + text::padded("absent"@, 10) + "  "@ + inventory.dirs@[i].path@,
        res@.last()@ == "\nBroker service ("@ + SERVICE_NAME@ + "): "@ + state@,
{
    let told = text::texts(res@);
    assert(told.len() == res@.len());
    assert(told[0] == res@[0]@ && told[i + 1] == res@[i + 1]@);
    assert(told[told.len() - 1] == res@[res@.len() - 1]@);
}

/// The executables of a directory are counted over all items that delete some there, and rights are
/// needed where one of these needs them.
pub proof fn law_executables_of_a_directory_are_counted(
    platform: Platform,
    items: Seq<plan::ItemView>,
    item: plan::ItemView,
    dir: Seq<char>,
)
    ensures
        ({
            let before = dir_totals(platform, items, dir);
            let after = dir_totals(platform, items.push(item), dir);
            &&& dir_totals(platform, Seq::empty(), dir) == (0nat, false)
            &&& match item.target {
                plan::TargetView::DeleteBinaries(of, stems) => if platform::same_place(
                    platform,
                    of,
                    dir,
                ) {
                    &&& before.0 + stems.len() <= usize::MAX ==> after.0 == before.0 + stems.len()
                    &&& before.0 + stems.len() > usize::MAX ==> after.0 == usize::MAX
                    &&& after.1 <==> before.1 || item.needs_elevation
                } else {
                    after == before
                },
                _ => after == before,
            }
        }),
{
    assert(items.push(item).drop_last() =~= items);
}

/// The lines of a plan are numbered from one on.  Executables of one directory share the line of the
/// first of them, and every other item has a line of its own, with its mark where it needs rights.
pub proof fn law_every_item_has_a_numbered_line(
    platform: Platform,
    items: Seq<plan::ItemView>,
    at: int,
    mark: &'static str,
)
    requires
        0 <= at < items.len(),
        items.len() < usize::MAX,
        call_ensures(admin_flag, (items[at].needs_elevation,), mark),
    ensures
        ({
            let before = numbered(platform, items, at as nat);
            let after = numbered(platform, items, (at + 1) as nat);
            let start = "  ["@ + text::decimal(before.len() + 1) + "] "@;
            let shared = exists|k: int|
                0 <= k < at && (#[trigger] items[k]).target is DeleteBinaries
                    && items[at].target is DeleteBinaries && platform::same_place(
                    platform,
                    items[k].target->DeleteBinaries_0,
                    items[at].target->DeleteBinaries_0,
                );
            &&& before.len() <= at
            &&& !(items[at].target is DeleteBinaries) ==> after == before.push(
                start + plan::described(items[at].target) + mark@,
            )
            &&& items[at].target is DeleteBinaries && shared ==> after == before
            &&& items[at].target is DeleteBinaries && !shared ==> {
                let dir = items[at].target->DeleteBinaries_0;
                let totals = dir_totals(platform, items, dir);
                after == before.push(
                    start + text::decimal(totals.0) + " binaries in "@ + (dir + (if totals.1 {
                        "  (needs Administrator)"@
                    } else {
                        ""@
                    })),
                )
            }
        }),
        items[at].needs_elevation ==> mark@ == "  (needs Administrator)"@,
        !items[at].needs_elevation ==> mark@ == ""@,
{
    lemma_numbered_len(platform, items, at as nat);
    if items[at].target is DeleteBinaries {
        let dir = items[at].target->DeleteBinaries_0;
        if exists|k: int| 0 <= k < at && deletes_in(platform, #[trigger] items[k], dir) {
            let k = choose|k: int| 0 <= k < at && deletes_in(platform, #[trigger] items[k], dir);
            assert(items[k].target is DeleteBinaries);
        }
        if exists|k: int|
            0 <= k < at && (#[trigger] items[k]).target is DeleteBinaries && platform::same_place(
                platform,
                items[k].target->DeleteBinaries_0,
                dir,
            ) {
            let k = choose|k: int|
                0 <= k < at && (#[trigger] items[k]).target is DeleteBinaries
                    && platform::same_place(platform, items[k].target->DeleteBinaries_0, dir);
            assert(deletes_in(platform, items[k], dir));
        }
    }
}

proof fn lemma_numbered_len(platform: Platform, items: Seq<plan::ItemView>, count: nat)
    ensures
        numbered(platform, items, count).len() <= count,
    decreases count,
{
    if count > 0 {
        lemma_numbered_len(platform, items, (count - 1) as nat);
    }
}

/// What is shown of a plan: its heading, its numbered lines, and how much it frees; what was found
/// elsewhere has a line of its own with its number and its count.  An empty plan says so.
pub proof fn law_what_is_shown_of_a_plan(
    platform: Platform,
    core: &RemovalPlan,
    extra: &RemovalPlan,
    res: Vec<String>,
    i: int,
)
    requires
        call_ensures(plan_lines, (platform, core, extra), res),
        plan::all_items(core@).len() < usize::MAX,
    ensures
        ({
            let items = plan::all_items(core@);
            let strays = plan::all_items(extra@).len();
            let lines = numbered(platform, items, items.len());
            let total = human(plan::reclaimed(items) as nat);
            &&& items.len() == 0 && strays == 0 ==> res@.len() == 1 && res@[0]@
                == "\nNothing to remove: no UFFS install or artifacts were found."@
            &&& items.len() > 0 || strays > 0 ==> {
                &&& res@[0]@ == "\nThe following will be PERMANENTLY removed (no recovery):\n"@
                &&& 0 <= i < lines.len() ==> res@[i + 1]@ == lines[i]
                &&& strays == 0 ==> res@.len() == lines.len() + 2 && res@.last()@ == "\nReclaims ~"@
                    + total + "."@
                &&& strays > 0 ==> {
                    &&& res@.len() == lines.len() + 3
                    &&& res@[lines.len() as int + 1]@ == "  ["@ + text::decimal(lines.len() + 1)
                        + "] "@ + text::decimal(strays)
                        + " file(s) found elsewhere (removed only with ALL)"@
                    &&& res@.last()@ == "\nReclaims ~"@ + total + ", plus "@ + text::decimal(strays)
                        + " file(s) removed only with ALL."@
                }
            }
        }),
{
    let items = plan::all_items(core@);
    let strays = plan::all_items(extra@).len();
    let lines = numbered(platform, items, items.len());
    lemma_numbered_len(platform, items, items.len());
    let told = text::texts(res@);
    assert(told.len() == res@.len());
    assert(told[0] == res@[0]@);
    assert(told[told.len() - 1] == res@[res@.len() - 1]@);
    if items.len() > 0 || strays > 0 {
        if 0 <= i < lines.len() {
            assert(told[i + 1] == res@[i + 1]@);
            assert(told[i + 1] == lines[i]);
        }
        if strays > 0 {
            assert(told[lines.len() as int + 1] == res@[lines.len() as int + 1]@);
        }
    }
}

/// What was left for want of rights is listed, one line for each in order, between its heading and a
/// hint; and nothing where nothing was left.
pub proof fn law_what_was_left_is_listed(skipped: &Vec<String>, res: Vec<String>, i: int)
    requires
        call_ensures(skipped_lines, (skipped,), res),
    ensures
        skipped@.len() == 0 ==> res@.len() == 0,
        skipped@.len() > 0 ==> {
            &&& res@.len() == skipped@.len() + 2
            &&& res@[0]@ == "\nNOT removed in this run (needs Administrator):"@
            &&& 0 <= i < skipped@.len() ==> res@[i + 1]@ == "  - "@ + skipped@[i]@
            &&& res@.last()@
                == "  Re-run `uffs --uninstall` from an elevated terminal to remove these."@
        },
{
    let told = text::texts(res@);
    assert(told.len() == res@.len());
    assert(text::texts(skipped@).len() == skipped@.len());
    if skipped@.len() > 0 {
        assert(told[0] == res@[0]@);
        assert(told[told.len() - 1] == res@[res@.len() - 1]@);
        if 0 <= i < skipped@.len() {
            assert(told[i + 1] == res@[i + 1]@);
            assert(text::texts(skipped@)[i] == skipped@[i]@);
        }
    }
}

/// What is still there after a run is listed in order and counted; that all is gone is told exactly
/// after a clean run that left nothing.
pub proof fn law_what_is_still_there_is_listed(
    remaining: &Vec<String>,
    clean: bool,
    res: Vec<String>,
    i: int,
)
    requires
        call_ensures(verification_lines, (remaining, clean), res),
    ensures
        remaining@.len() == 0 && clean ==> res@.len() == 1 && res@[0]@
            == "\nVerified: all targeted UFFS locations are gone."@,
        remaining@.len() == 0 && !clean ==> res@.len() == 0,
        remaining@.len() > 0 ==> {
            &&& res@.len() == remaining@.len() + 1
            &&& res@[0]@ == "\nVerification: "@ + text::decimal(remaining@.len())
                + " location(s) still present (a reboot may be pending, or elevation/sudo is needed):"@
            &&& 0 <= i < remaining@.len() ==> res@[i + 1]@ == "  "@ + remaining@[i]@
        },
{
    let told = text::texts(res@);
    assert(told.len() == res@.len());
    assert(text::texts(remaining@).len() == remaining@.len());
    if told.len() > 0 {
        assert(told[0] == res@[0]@);
    }
    if 0 <= i < remaining@.len() {
        assert(told[i + 1] == res@[i + 1]@);
        assert(text::texts(remaining@)[i] == remaining@[i]@);
    }
}

/// Each entry that failed or was left has its line, with its description and its reason, in order; one
/// that was done has none.
pub proof fn law_each_trouble_has_its_line(
    entries: Seq<remove::EntryView>,
    last: remove::EntryView,
)
    ensures
        trouble(Seq::empty()).len() == 0,
        match last.status {
            remove::StatusView::Done => trouble(entries.push(last)) == trouble(entries),
            remove::StatusView::Failed(error) => trouble(entries.push(last)) == trouble(
                entries,
            ).push("  FAILED  "@ + last.description + "  ("@ + error + ")"@),
            remove::StatusView::Skipped(reason) => trouble(entries.push(last)) == trouble(
                entries,
            ).push("  LEFT    "@ + last.description + "  ("@ + reason + ")"@),
        },
        trouble(entries).len() == remove::failed_in(entries) + remove::skipped_in(entries),
{
    assert(entries.push(last).drop_last() =~= entries);
    lemma_trouble_len(entries);
}

proof fn lemma_trouble_len(entries: Seq<remove::EntryView>)
    ensures
        trouble(entries).len() == remove::failed_in(entries) + remove::skipped_in(entries),
    decreases entries.len(),
{
    if entries.len() > 0 {
        lemma_trouble_len(entries.drop_last());
    }
}

/// The end of a run tells how much was removed, failed and was left, each of the latter two only where
/// there is some, then the troubles, and a hint for each kind of trouble.
pub proof fn law_what_the_outcome_tells(outcome: &RemovalOutcome, res: Vec<String>, i: int)
    requires
        call_ensures(outcome_lines, (outcome,), res),
    ensures
        ({
            let entries = outcome.entries();
            let done = text::decimal(remove::done_in(entries)) + " removed"@;
            let failed = remove::failed_in(entries);
            let left = remove::skipped_in(entries);
            let lines = trouble(entries);
            let hints = (if left > 0 {
                1int
            } else {
                0
            }) + (if failed > 0 {
                1int
            } else {
                0
            });
            &&& res@.len() == 1 + lines.len() + hints
            &&& failed == 0 && left == 0 ==> res@.len() == 1 && res@[0]@ == "\nRemoval finished: "@
                + done + "."@
            &&& failed > 0 && left == 0 ==> res@[0]@ == "\nRemoval finished: "@ + (done + ", "@ + (
            text::decimal(failed) + " failed"@)) + "."@
            &&& failed == 0 && left > 0 ==> res@[0]@ == "\nRemoval finished: "@ + (done + ", "@ + (
            text::decimal(left) + " left"@)) + "."@
            &&& failed > 0 && left > 0 ==> res@[0]@ == "\nRemoval finished: "@ + (done + ", "@ + (
            text::decimal(failed) + " failed"@) + ", "@ + (text::decimal(left) + " left"@)) + "."@
            &&& 0 <= i < lines.len() ==> res@[i + 1]@ == lines[i]
            &&& left > 0 ==> res@[lines.len() as int + 1]@ == LEFT_HINT@
            &&& failed > 0 ==> res@.last()@ == FAILED_HINT@
        }),
{
    let entries = outcome.entries();
    let done = text::decimal(remove::done_in(entries)) + " removed"@;
    let failed = remove::failed_in(entries);
    let left = remove::skipped_in(entries);
    let lines = trouble(entries);
    let told = text::texts(res@);
    lemma_trouble_len(entries);
    assert(told.len() == res@.len());
    assert(told[0] == res@[0]@);
    assert(told[told.len() - 1] == res@[res@.len() - 1]@);
    if 0 <= i < lines.len() {
        assert(told[i + 1] == res@[i + 1]@);
    }
    if left > 0 {
        assert(told[lines.len() as int + 1] == res@[lines.len() as int + 1]@);
    }
    let counts = count_texts(entries);
    let of_failed = text::decimal(failed) + " failed"@;
    let of_left = text::decimal(left) + " left"@;
    reveal_with_fuel(text::joined, 4);
    if failed == 0 && left == 0 {
        assert(counts =~= seq![done]);
    } else if left == 0 {
        assert(counts =~= seq![done, of_failed]);
        assert(counts.drop_last() =~= seq![done]);
    } else if failed == 0 {
        assert(counts =~= seq![done, of_left]);
        assert(counts.drop_last() =~= seq![done]);
    } else {
        assert(counts =~= seq![done, of_failed, of_left]);
        assert(counts.drop_last() =~= seq![done, of_failed]);
        assert(counts.drop_last().drop_last() =~= seq![done]);
    }
}

/// The document of a plan tells how much it frees, how many items it has, whether it needs rights, and
/// each group with its items in order: what is done, to what, with which rights and for how much.
pub proof fn law_the_document_of_a_plan(plan: &RemovalPlan, res: Json, g: int, i: int)
    requires
        call_ensures(plan_json, (plan,), res),
        0 <= g < plan@.len(),
        0 <= i < plan@[g].items.len(),
    ensures
        ({
            let items = plan::all_items(plan@);
            let item = plan@[g].items[i];
            &&& res@ is Object && res@->Object_0.len() == 4
            &&& res@->Object_0[0] == (
                "total_bytes"@,
                json::JsonView::Number(plan::reclaimed(items) as u64),
            )
            &&& res@->Object_0[1] == ("item_count"@, json::JsonView::Number(items.len() as u64))
            &&& res@->Object_0[2].0 == "requires_elevation"@
            &&& items.contains(item) && item.needs_elevation ==> res@->Object_0[2].1
                == json::JsonView::Bool(true)
            &&& (forall|k: int| 0 <= k < items.len() ==> !(#[trigger] items[k]).needs_elevation)
                ==> res@->Object_0[2].1 == json::JsonView::Bool(false)
            &&& res@->Object_0[3].0 == "groups"@ && res@->Object_0[3].1 is List
            &&& res@->Object_0[3].1->List_0.len() == plan@.len()
            &&& res@->Object_0[3].1->List_0[g] is Object
            &&& {
                let group = res@->Object_0[3].1->List_0[g]->Object_0;
                &&& group.len() == 2
                &&& group[0] == ("title"@, json::JsonView::Text(plan@[g].title))
                &&& group[1].0 == "items"@ && group[1].1 is List
                &&& group[1].1->List_0.len() == plan@[g].items.len()
                &&& group[1].1->List_0[i] == json::JsonView::Object(
                    seq![
                        ("action"@, json::JsonView::Text(plan::action_text(item.target))),
                        ("description"@, json::JsonView::Text(plan::described(item.target))),
                        ("needs_elevation"@, json::JsonView::Bool(item.needs_elevation)),
                        ("bytes"@, json::JsonView::Number(item.bytes)),
                    ],
                )
            }
        }),
{
    let items = plan::all_items(plan@);
    let item = plan@[g].items[i];
    if items.contains(item) && item.needs_elevation {
        let k = choose|k: int| 0 <= k < items.len() && items[k] == item;
        assert(items[k].needs_elevation);
    }
}

/// The document of an analysis lists every program with its copies and every directory, in order, and
/// holds the state of the service and the document of the plan.
pub proof fn law_the_document_of_an_analysis(
    resolution: &Vec<StemResolution>,
    inventory: &Inventory,
    plan: &RemovalPlan,
    res: Json,
    of_plan: Json,
    state: &'static str,
    s: int,
    c: int,
    d: int,
)
    requires
        call_ensures(analysis_json, (resolution, inventory, plan), res),
        call_ensures(plan_json, (plan,), of_plan),
        call_ensures(
            inventory::BrokerServiceState::label,
            (inventory.broker_service,),
            state,
        ),
    ensures
        res@ is Object && res@->Object_0.len() == 4,
        res@->Object_0[0].0 == "binaries"@ && res@->Object_0[1].0 == "artifacts"@,
        res@->Object_0[2] == ("broker_service"@, json::JsonView::Text(state@)),
        res@->Object_0[3] == ("plan"@, of_plan@),
        res@->Object_0[0].1 is List && res@->Object_0[1].1 is List,
        res@->Object_0[0].1->List_0.len() == resolution@.len(),
        res@->Object_0[1].1->List_0.len() == inventory.dirs@.len(),
        0 <= d < inventory.dirs@.len() ==> res@->Object_0[1].1->List_0[d] == json::JsonView::Object(
            seq![
                ("kind"@, json::JsonView::Text(inventory.dirs@[d].kind.text())),
                ("path"@, json::JsonView::Text(inventory.dirs@[d].path@)),
                ("exists"@, json::JsonView::Bool(inventory.dirs@[d].exists)),
                ("size_bytes"@, json::JsonView::Number(inventory.dirs@[d].size_bytes)),
            ],
        ),
        0 <= s < resolution@.len() ==> {
            let stem = resolution@[s];
            let shown = res@->Object_0[0].1->List_0[s];
            &&& shown is Object && shown->Object_0.len() == 2
            &&& shown->Object_0[0] == ("stem"@, json::JsonView::Text(stem.stem@))
            &&& shown->Object_0[1].0 == "copies"@ && shown->Object_0[1].1 is List
            &&& shown->Object_0[1].1->List_0.len() == stem.copies@.len()
            &&& 0 <= c < stem.copies@.len() ==> {
                let copy = stem.copies@[c];
                let of = shown->Object_0[1].1->List_0[c];
                &&& of is Object && of->Object_0.len() == 6
                &&& copy.state == ResolutionState::Active ==> of->Object_0[0] == (
                    "state"@,
                    json::JsonView::Text("active"@),
                )
                &&& copy.state == ResolutionState::Shadowed ==> of->Object_0[0] == (
                    "state"@,
                    json::JsonView::Text("shadowed"@),
                )
                &&& of->Object_0[1] == ("on_search_path"@, json::JsonView::Bool(copy.on_search_path))
                &&& copy.version matches Some(version) ==> of->Object_0[2] == (
                    "version"@,
                    json::JsonView::Text(version@),
                )
                &&& copy.version is None ==> of->Object_0[2] == ("version"@, json::JsonView::Null)
                &&& of->Object_0[3] == ("channel"@, json::JsonView::Text(copy.channel.text()))
                &&& of->Object_0[4] == ("scope"@, json::JsonView::Text(copy.scope.text()))
                &&& of->Object_0[5] == ("dir"@, json::JsonView::Text(copy.dir@))
            }
        },
{
}

} // verus!
