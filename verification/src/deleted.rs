//! The listing of recently deleted files.
//!
//! A file record outlives the deletion of its file until the slot is used again.  The path of a
//! deleted file is put together by walking up the records of its parents, as far as they are still
//! there.

use crate::args;
use crate::drive;
use crate::drive::{drive_argument, DriveLetter};
use crate::error;
use crate::error::{fail, CliError};
use crate::json;
use crate::json::Json;
use crate::text;
use crate::text::{cat2, cat3, cat4, cat6, join, parse_u32, push_line, same, show_u64};
use std::collections::HashMap;
use vstd::prelude::*;

verus! {

/// The number of the record of the root directory of a volume.
pub const ROOT_FRS: u64 = 5;

// ---- arguments ----

/// What a listing is asked for.
#[derive(Debug)]
pub struct DeletedArgs {
    /// A capture to read; without one the drive itself is read.
    pub mft_file: Option<String>,
    /// The drive to read, or that the paths are shown with.
    pub drive: Option<DriveLetter>,
    /// How many files to list at most; zero for all.
    pub limit: u32,
    /// Whether the listing is JSON.
    pub json: bool,
}

/// The contents of a [`DeletedArgs`].
#[verifier::ext_equal]
pub struct DeletedView {
    /// A capture to read.
    pub mft_file: Option<Seq<char>>,
    /// The drive.
    pub drive: Option<DriveLetter>,
    /// How many files to list at most.
    pub limit: u32,
    /// Whether the listing is JSON.
    pub json: bool,
}

impl View for DeletedArgs {
    type V = DeletedView;

    open spec fn view(&self) -> DeletedView {
        DeletedView {
            mft_file: error::shown(self.mft_file),
            drive: self.drive,
            limit: self.limit,
            json: self.json,
        }
    }
}

/// The limit that a text stands for, or the error it is answered with.
pub open spec fn limit_of(value: Seq<char>) -> Result<u32, error::ErrorView> {
    match text::number(value, 0, u32::MAX as nat) {
        Ok(n) => Ok(n as u32),
        Err(err) => Err(
            error::ErrorView {
                message: "invalid --limit value '"@ + value + "'"@,
                cause: Some(err.text()),
            },
        ),
    }
}

/// Parse a limit.
pub fn parse_limit(value: &str) -> (res: Result<u32, CliError>)
    ensures
        match (res, limit_of(value@)) {
            (Ok(limit), Ok(wanted)) => limit == wanted,
            (Err(err), Err(wanted)) => err@ == wanted,
            _ => false,
        },
{
    match parse_u32(value) {
        Ok(limit) => Ok(limit),
        Err(err) => Err(
            CliError {
                message: cat3("invalid --limit value '", value, "'"),
                cause: Some(err.message().to_owned()),
            },
        ),
    }
}

/// What has been read once the arguments from `i` on have been.
pub open spec fn deleted_from(acc: DeletedView, args: Seq<Seq<char>>, i: int) -> Result<
    DeletedView,
    error::ErrorView,
>
    decreases args.len() - i,
{
    if i < 0 || i >= args.len() {
        Ok(acc)
    } else if args[i] == "--mft-file"@ {
        if i + 1 >= args.len() {
            Err(error::plain("`--mft-file` requires a path"@))
        } else {
            deleted_from(DeletedView { mft_file: Some(args[i + 1]), ..acc }, args, i + 2)
        }
    } else if args[i] == "--drive"@ || args[i] == "-d"@ {
        if i + 1 >= args.len() {
            Err(error::plain("`--drive` requires a drive letter (e.g. C)"@))
        } else {
            match drive::drive_of(args[i + 1]) {
                Some(drive) => deleted_from(
                    DeletedView { drive: Some(drive), ..acc },
                    args,
                    i + 2,
                ),
                None => Err(drive::drive_error(args[i + 1])),
            }
        }
    } else if args[i] == "--limit"@ || args[i] == "-n"@ {
        if i + 1 >= args.len() {
            Err(error::plain("`--limit` requires a number"@))
        } else {
            match limit_of(args[i + 1]) {
                Ok(limit) => deleted_from(DeletedView { limit, ..acc }, args, i + 2),
                Err(err) => Err(err),
            }
        }
    } else if args[i] == "--json"@ {
        deleted_from(DeletedView { json: true, ..acc }, args, i + 1)
    } else {
        Err(
            error::plain(
                "unknown argument '"@ + args[i] + "'; see `uffs --deleted --help`"@,
            ),
        )
    }
}

/// What is asked for before any argument.
pub open spec fn deleted_default() -> DeletedView {
    DeletedView { mft_file: None, drive: None, limit: 0, json: false }
}

/// What arguments ask for.
pub open spec fn deleted_args(args: Seq<Seq<char>>) -> Result<DeletedView, error::ErrorView> {
    match deleted_from(deleted_default(), args, 0) {
        Ok(parsed) => if parsed.mft_file is None && parsed.drive is None {
            Err(
                error::plain(
                    "missing a source: pass `--mft-file <PATH>` (offline capture) or `--drive <D>` (live volume, Windows)"@,
                ),
            )
        } else {
            Ok(parsed)
        },
        Err(err) => Err(err),
    }
}

/// Parse the arguments.
pub fn parse_deleted_args(args: &[String]) -> (res: Result<DeletedArgs, CliError>)
    ensures
        match (res, deleted_args(text::texts(args@))) {
            (Ok(parsed), Ok(wanted)) => parsed@ == wanted,
            (Err(err), Err(wanted)) => err@ == wanted,
            _ => false,
        },
{
    let ghost list = text::texts(args@);
    let mut parsed = DeletedArgs { mft_file: None, drive: None, limit: 0, json: false };
    let mut i: usize = 0;
    while i < args.len()
        invariant
            i <= args@.len(),
            list == text::texts(args@),
            deleted_from(parsed@, list, i as int) == deleted_from(deleted_default(), list, 0),
        decreases args@.len() - i,
    {
        let arg = &args[i];
        assert(list[i as int] == arg@);
        if same(arg, "--mft-file") {
            if i + 1 >= args.len() {
                return Err(fail("`--mft-file` requires a path".to_owned()));
            }
            assert(list[i + 1] == args@[i + 1]@);
            parsed.mft_file = Some(args[i + 1].clone());
            i += 2;
        } else if same(arg, "--drive") || same(arg, "-d") {
            if i + 1 >= args.len() {
                return Err(fail("`--drive` requires a drive letter (e.g. C)".to_owned()));
            }
            assert(list[i + 1] == args@[i + 1]@);
            match drive_argument(&args[i + 1]) {
                Ok(drive) => {
                    parsed.drive = Some(drive);
                },
                Err(err) => {
                    return Err(err);
                },
            }
            i += 2;
        } else if same(arg, "--limit") || same(arg, "-n") {
            if i + 1 >= args.len() {
                return Err(fail("`--limit` requires a number".to_owned()));
            }
            assert(list[i + 1] == args@[i + 1]@);
            match parse_limit(&args[i + 1]) {
                Ok(limit) => {
                    parsed.limit = limit;
                },
                Err(err) => {
                    return Err(err);
                },
            }
            i += 2;
        } else if same(arg, "--json") {
            parsed.json = true;
            i += 1;
        } else {
            return Err(
                fail(cat3("unknown argument '", arg, "'; see `uffs --deleted --help`")),
            );
        }
    }
    if parsed.mft_file.is_none() && parsed.drive.is_none() {
        return Err(
            fail(
                "missing a source: pass `--mft-file <PATH>` (offline capture) or `--drive <D>` (live volume, Windows)".to_owned(),
            ),
        );
    }
    Ok(parsed)
}

/// What a listing does.
#[derive(Debug)]
pub enum DeletedAction {
    /// Show the help.
    ShowHelp,
    /// Read the records and list those of deleted files.
    List(DeletedArgs),
}

/// What arguments of a listing lead to: the help, wherever it is asked for, a listing, or an error.
pub fn run_deleted(args: &[String]) -> (res: Result<DeletedAction, CliError>)
    ensures
        if args::any_of(args@, "--help"@, "-h"@) {
            res == Ok::<DeletedAction, CliError>(DeletedAction::ShowHelp)
        } else {
            match deleted_args(text::texts(args@)) {
                Ok(wanted) => res matches Ok(DeletedAction::List(parsed)) && parsed@ == wanted,
                Err(wanted) => res matches Err(err) && err@ == wanted,
            }
        },
{
    if text::has(args, "--help") || text::has(args, "-h") {
        return Ok(DeletedAction::ShowHelp);
    }
    match parse_deleted_args(args) {
        Ok(parsed) => Ok(DeletedAction::List(parsed)),
        Err(err) => Err(err),
    }
}

// ---- paths ----

/// A name and the number of the record that it lies in.
pub open spec fn name_view(found: Option<(String, u64)>) -> Option<(Seq<char>, u64)> {
    match found {
        Some((name, parent)) => Some((name@, parent)),
        None => None,
    }
}

/// Whether a lookup answers as a function says.
pub open spec fn answers_as<F: Fn(u64) -> Option<(String, u64)>>(
    lookup: F,
    records: spec_fn(u64) -> Option<(Seq<char>, u64)>,
) -> bool {
    forall|frs: u64, found: Option<(String, u64)>| #[trigger]
        lookup.ensures((frs,), found) ==> name_view(found) == records(frs)
}

/// The names of the directories above a record, the nearest first, up to the root, up to a record
/// that is gone, or up to `steps` of them.
pub open spec fn above(
    records: spec_fn(u64) -> Option<(Seq<char>, u64)>,
    current: u64,
    steps: nat,
) -> Seq<Seq<char>>
    decreases steps,
{
    if steps == 0 || current == ROOT_FRS {
        Seq::empty()
    } else {
        match records(current) {
            Some((name, parent)) => seq![name] + above(records, parent, (steps - 1) as nat),
            None => Seq::empty(),
        }
    }
}

/// Whether the root is reached from a record within `steps` directories.
pub open spec fn reaches_root(
    records: spec_fn(u64) -> Option<(Seq<char>, u64)>,
    current: u64,
    steps: nat,
) -> bool
    decreases steps,
{
    if current == ROOT_FRS {
        true
    } else if steps == 0 {
        false
    } else {
        match records(current) {
            Some((_, parent)) => reaches_root(records, parent, (steps - 1) as nat),
            None => false,
        }
    }
}

/// The path of a name on a drive: the names from the outermost on.  Where the root was not reached,
/// a mark stands for what is missing.
pub open spec fn path_text(drive: DriveLetter, names: Seq<Seq<char>>, complete: bool) -> Seq<char> {
    let path = text::joined(names.reverse(), "\\"@);
    if complete {
        seq![drive.letter()] + ":\\"@ + path
    } else {
        seq![drive.letter()] + ":\\\u{2026}\\"@ + path
    }
}

/// The path of a deleted name, and whether it is complete.
pub open spec fn resolved(
    name: Seq<char>,
    parent: u64,
    drive: DriveLetter,
    records: spec_fn(u64) -> Option<(Seq<char>, u64)>,
) -> (Seq<char>, bool) {
    let complete = reaches_root(records, parent, 256);
    (path_text(drive, seq![name] + above(records, parent, 256), complete), complete)
}

/// The answers of a lookup that were already given.
pub struct ParentCache {
    /// Answers by the number of the record.
    pub known: HashMap<u64, Option<(String, u64)>>,
}

impl ParentCache {
    /// Whether the answers are as a function says.
    pub open spec fn agrees(self, records: spec_fn(u64) -> Option<(Seq<char>, u64)>) -> bool {
        forall|frs: u64| #[trigger]
            self.known@.contains_key(frs) ==> name_view(self.known@[frs]) == records(frs)
    }

    /// No answers.
    pub fn new() -> (res: Self)
        ensures
            res.known@ == Map::<u64, Option<(String, u64)>>::empty(),
    {
        ParentCache { known: HashMap::new() }
    }
}

fn copied(found: &Option<(String, u64)>) -> (res: Option<(String, u64)>)
    ensures
        name_view(res) == name_view(*found),
{
    match found {
        Some((name, parent)) => Some((name.clone(), *parent)),
        None => None,
    }
}

/// Looks a record up, once: a later lookup of the same record gives the same answer without asking
/// again.
pub fn lookup_parent<F: Fn(u64) -> Option<(String, u64)>>(
    frs: u64,
    cache: &mut ParentCache,
    read: &F,
) -> (res: Option<(String, u64)>)
    requires
        read.requires((frs,)),
    ensures
        old(cache).known@.contains_key(frs) ==> {
            &&& name_view(res) == name_view(old(cache).known@[frs])
            &&& final(cache).known@ == old(cache).known@
        },
        !old(cache).known@.contains_key(frs) ==> exists|found: Option<(String, u64)>| {
            &&& #[trigger] read.ensures((frs,), found)
            &&& name_view(res) == name_view(found)
            &&& final(cache).known@ == old(cache).known@.insert(frs, found)
        },
{
    broadcast use vstd::std_specs::hash::group_hash_axioms;

    if let Some(found) = cache.known.get(&frs) {
        return copied(found);
    }
    let found = read(frs);
    let res = copied(&found);
    cache.known.insert(frs, found);
    res
}

fn reversed(list: Vec<String>) -> (res: Vec<String>)
    ensures
        text::texts(res@) == text::texts(list@).reverse(),
{
    let mut res: Vec<String> = Vec::new();
    let ghost wanted = text::texts(list@).reverse();
    let mut i: usize = list.len();
    assert(text::texts(res@) =~= wanted.take(0));
    while i > 0
        invariant
            i <= list@.len(),
            wanted == text::texts(list@).reverse(),
            text::texts(res@) == wanted.take(list@.len() - i),
        decreases i,
    {
        i -= 1;
        push_line(&mut res, list[i].clone());
        assert(text::texts(res@) =~= wanted.take(list@.len() - i));
    }
    assert(wanted.take(list@.len() - i) =~= wanted);
    res
}

/// The path of a deleted name, and whether it is complete; answers are kept in the cache.
pub fn resolve_cached<F: Fn(u64) -> Option<(String, u64)>>(
    name: &str,
    parent: u64,
    drive: DriveLetter,
    cache: &mut ParentCache,
    read: &F,
) -> (res: (String, bool))
    requires
        forall|frs: u64| read.requires((frs,)),
    ensures
        forall|records: spec_fn(u64) -> Option<(Seq<char>, u64)>| #[trigger]
            answers_as(*read, records) && old(cache).agrees(records) ==> {
                &&& (res.0@, res.1) == resolved(name@, parent, drive, records)
                &&& final(cache).agrees(records)
            },
{
    let mut parts: Vec<String> = Vec::new();
    assert(text::texts(parts@) =~= Seq::empty());
    push_line(&mut parts, name.to_owned());
    let mut current: u64 = parent;
    let mut steps: u32 = 0;
    let mut gone = false;
    assert(text::texts(parts@) =~= seq![name@]);
    while steps < 256 && current != ROOT_FRS && !gone
        invariant
            steps <= 256,
            forall|frs: u64| read.requires((frs,)),
            gone ==> current != ROOT_FRS,
            forall|records: spec_fn(u64) -> Option<(Seq<char>, u64)>| #[trigger]
                answers_as(*read, records) && old(cache).agrees(records) ==> {
                    &&& cache.agrees(records)
                    &&& gone ==> records(current) is None
                    &&& text::texts(parts@) + above(records, current, (256 - steps) as nat)
                        == seq![name@] + above(records, parent, 256)
                    &&& reaches_root(records, current, (256 - steps) as nat) == reaches_root(
                        records,
                        parent,
                        256,
                    )
                },
        decreases 256 - steps, if gone { 0int } else { 1int },
    {
        let ghost before = text::texts(parts@);
        let ghost at = current;
        let ghost left = (256 - steps) as nat;
        let ghost cache_before = *cache;
        match lookup_parent(current, cache, read) {
            Some((parent_name, grandparent)) => {
                let ghost shown = parent_name@;
                push_line(&mut parts, parent_name);
                current = grandparent;
                steps += 1;
                proof {
                    assert forall|records: spec_fn(u64) -> Option<(Seq<char>, u64)>| #[trigger]
                        answers_as(*read, records) && old(cache).agrees(records) implies {
                        &&& cache.agrees(records)
                        &&& text::texts(parts@) + above(records, current, (256 - steps) as nat)
                            == seq![name@] + above(records, parent, 256)
                        &&& reaches_root(records, current, (256 - steps) as nat) == reaches_root(
                            records,
                            parent,
                            256,
                        )
                    } by {
                        assert(records(at) == Some((shown, grandparent)));
                        assert(text::texts(parts@) + above(records, current, (256 - steps) as nat)
                            =~= before + above(records, at, left));
                    }
                }
            },
            None => {
                gone = true;
            },
        }
    }
    let complete = current == ROOT_FRS;
    let ghost names = text::texts(parts@);
    let path = join(&reversed(parts), "\\");
    let letter = drive.show();
    proof {
        assert forall|records: spec_fn(u64) -> Option<(Seq<char>, u64)>| #[trigger]
            answers_as(*read, records) && old(cache).agrees(records) implies {
            &&& names == seq![name@] + above(records, parent, 256)
            &&& complete == reaches_root(records, parent, 256)
        } by {
            assert(above(records, current, (256 - steps) as nat) =~= Seq::empty());
            assert(names =~= names + above(records, current, (256 - steps) as nat));
        }
    }
    let res = if complete {
        cat3(&letter, ":\\", &path)
    } else {
        cat3(&letter, ":\\\u{2026}\\", &path)
    };
    (res, complete)
}

/// The path of a deleted name, and whether it is complete.
pub fn resolve_path<F: Fn(u64) -> Option<(String, u64)>>(
    name: &str,
    parent: u64,
    drive: DriveLetter,
    lookup: F,
) -> (res: (String, bool))
    requires
        forall|frs: u64| lookup.requires((frs,)),
    ensures
        forall|records: spec_fn(u64) -> Option<(Seq<char>, u64)>| #[trigger]
            answers_as(lookup, records) ==> (res.0@, res.1) == resolved(
                name@,
                parent,
                drive,
                records,
            ),
{
    let mut cache = ParentCache::new();
    resolve_cached(name, parent, drive, &mut cache, &lookup)
}

// ---- tombstones ----

/// A deleted record as it was read.
#[derive(Debug)]
pub struct DeletedEntry {
    /// The record of the directory it lay in.
    pub parent: u64,
    /// Its name.
    pub name: String,
    /// Its size in bytes.
    pub size: u64,
    /// When it was last written to.
    pub modified: i64,
    /// Whether it is a directory.
    pub is_dir: bool,
}

/// A deleted record with its path.
#[derive(Debug, Clone, PartialEq, Eq)]
pub struct Tombstone {
    /// Its path.
    pub path: String,
    /// Its size in bytes.
    pub size: u64,
    /// When it was last written to.
    pub modified: i64,
    /// Whether it is a directory.
    pub is_dir: bool,
    /// Whether the path goes up to the root.
    pub path_complete: bool,
}

/// The contents of a [`Tombstone`].
#[verifier::ext_equal]
pub struct TombstoneView {
    /// Its path.
    pub path: Seq<char>,
    /// Its size in bytes.
    pub size: u64,
    /// When it was last written to.
    pub modified: i64,
    /// Whether it is a directory.
    pub is_dir: bool,
    /// Whether the path goes up to the root.
    pub path_complete: bool,
}

impl View for Tombstone {
    type V = TombstoneView;

    open spec fn view(&self) -> TombstoneView {
        TombstoneView {
            path: self.path@,
            size: self.size,
            modified: self.modified,
            is_dir: self.is_dir,
            path_complete: self.path_complete,
        }
    }
}

/// The contents of tombstones.
pub open spec fn tombstone_views(tombstones: Seq<Tombstone>) -> Seq<TombstoneView> {
    tombstones.map_values(|tomb: Tombstone| tomb@)
}

/// The tombstone of an entry.
pub open spec fn tombstone_of(
    entry: DeletedEntry,
    drive: DriveLetter,
    records: spec_fn(u64) -> Option<(Seq<char>, u64)>,
) -> TombstoneView {
    let path = resolved(entry.name@, entry.parent, drive, records);
    TombstoneView {
        path: path.0,
        size: entry.size,
        modified: entry.modified,
        is_dir: entry.is_dir,
        path_complete: path.1,
    }
}

/// The tombstones of entries.
pub open spec fn tombstones_of(
    entries: Seq<DeletedEntry>,
    drive: DriveLetter,
    records: spec_fn(u64) -> Option<(Seq<char>, u64)>,
) -> Seq<TombstoneView> {
    entries.map_values(|entry: DeletedEntry| tombstone_of(entry, drive, records))
}

/// Whether a limit cuts a listing short.
pub open spec fn is_truncated(total: nat, limit: u32) -> bool {
    limit > 0 && total > limit
}

/// How many entries are listed.
pub open spec fn listed_count(total: nat, limit: u32) -> nat {
    if is_truncated(total, limit) {
        limit as nat
    } else {
        total
    }
}

/// The tombstones of the entries that are listed, and whether the limit cut them short.
pub fn tombstones<F: Fn(u64) -> Option<(String, u64)>>(
    entries: &Vec<DeletedEntry>,
    drive: DriveLetter,
    limit: u32,
    read: &F,
) -> (res: (Vec<Tombstone>, bool))
    requires
        forall|frs: u64| read.requires((frs,)),
    ensures
        res.1 == is_truncated(entries@.len(), limit),
        res.0@.len() == listed_count(entries@.len(), limit),
        forall|records: spec_fn(u64) -> Option<(Seq<char>, u64)>| #[trigger]
            answers_as(*read, records) ==> tombstone_views(res.0@) == tombstones_of(
                entries@.take(listed_count(entries@.len(), limit) as int),
                drive,
                records,
            ),
{
    let total: usize = entries.len();
    let truncated = limit > 0 && total as u64 > limit as u64;
    let count: usize = if truncated {
        limit as usize
    } else {
        total
    };
    let mut cache = ParentCache::new();
    let mut res: Vec<Tombstone> = Vec::new();
    let mut i: usize = 0;
    proof {
        assert forall|records: spec_fn(u64) -> Option<(Seq<char>, u64)>| #[trigger]
            answers_as(*read, records) implies tombstone_views(res@) == tombstones_of(
            entries@.take(0),
            drive,
            records,
        ) by {
            assert(tombstone_views(res@) =~= tombstones_of(entries@.take(0), drive, records));
        }
    }
    while i < count
        invariant
            i <= count <= entries@.len(),
            res@.len() == i,
            forall|frs: u64| read.requires((frs,)),
            forall|records: spec_fn(u64) -> Option<(Seq<char>, u64)>| #[trigger]
                answers_as(*read, records) ==> {
                    &&& cache.agrees(records)
                    &&& tombstone_views(res@) == tombstones_of(
                        entries@.take(i as int),
                        drive,
                        records,
                    )
                },
        decreases count - i,
    {
        let entry = &entries[i];
        let ghost before = tombstone_views(res@);
        let (path, path_complete) = resolve_cached(
            &entry.name,
            entry.parent,
            drive,
            &mut cache,
            read,
        );
        let tomb = Tombstone {
            path,
            size: entry.size,
            modified: entry.modified,
            is_dir: entry.is_dir,
            path_complete,
        };
        let ghost shown = tomb@;
        res.push(tomb);
        proof {
            assert(tombstone_views(res@) =~= before.push(shown));
            assert forall|records: spec_fn(u64) -> Option<(Seq<char>, u64)>| #[trigger]
                answers_as(*read, records) implies tombstone_views(res@) == tombstones_of(
                entries@.take(i + 1),
                drive,
                records,
            ) by {
                assert(shown == tombstone_of(*entry, drive, records));
                assert(entries@.take(i + 1) =~= entries@.take(i as int).push(*entry));
                assert(tombstone_views(res@) =~= tombstones_of(entries@.take(i + 1), drive, records));
            }
        }
        i += 1;
    }
    (res, truncated)
}

/// A record as a scan of the whole table finds it.
#[derive(Debug)]
pub struct ScannedRecord {
    /// Whether its slot is free.
    pub is_deleted: bool,
    /// What it holds.
    pub entry: DeletedEntry,
}

/// What a scan keeps of a record: only deleted ones.
pub fn keep_deleted(record: ScannedRecord) -> (res: Option<DeletedEntry>)
    ensures
        res == if record.is_deleted {
            Some(record.entry)
        } else {
            None
        },
{
    if record.is_deleted {
        Some(record.entry)
    } else {
        None
    }
}

/// How many records a table of some bytes holds.
pub fn record_count(data_len: u64, record_size: u32) -> (res: u64)
    ensures
        res == if record_size == 0 {
            0
        } else {
            data_len as int / record_size as int
        },
{
    if record_size == 0 {
        0
    } else {
        data_len / record_size as u64
    }
}

/// The drive that paths are shown with where none was given.
pub fn shown_drive(args: &DeletedArgs) -> (res: DriveLetter)
    ensures
        res == match args.drive {
            Some(drive) => drive,
            None => DriveLetter::X,
        },
{
    match args.drive {
        Some(drive) => drive,
        None => DriveLetter::X,
    }
}

/// What is told when the source of a listing cannot be read.
pub fn read_failure(args: &DeletedArgs) -> (res: String)
    ensures
        res@ == match args@.mft_file {
            Some(path) => "failed to read MFT capture '"@ + path + "'"@,
            None => "failed to read the live MFT of drive "@ + seq![
                (match args.drive {
                    Some(drive) => drive,
                    None => DriveLetter::X,
                }).letter(),
            ],
        },
{
    match &args.mft_file {
        Some(path) => cat3("failed to read MFT capture '", path, "'"),
        None => cat2("failed to read the live MFT of drive ", &shown_drive(args).show()),
    }
}

/// Why a drive cannot be read off Windows.
pub fn live_read_refusal(drive: DriveLetter) -> (res: String)
    ensures
        res@ == "a live `--drive "@ + seq![drive.letter()]
            + "` scan reads the NTFS volume directly and requires Windows (elevated); on other platforms use `--mft-file <CAPTURE>`"@,
{
    cat3(
        "a live `--drive ",
        &drive.show(),
        "` scan reads the NTFS volume directly and requires Windows (elevated); on other platforms use `--mft-file <CAPTURE>`",
    )
}

// ---- sizes ----

/// A number below a hundred with two digits.
pub open spec fn two_digits(n: nat) -> Seq<char> {
    if n < 10 {
        "0"@ + text::decimal(n)
    } else {
        text::decimal(n)
    }
}

/// A byte count in the largest binary unit that it reaches.
pub open spec fn human(bytes: nat) -> Seq<char> {
    if bytes >= 1073741824 {
        text::decimal(bytes / 1073741824) + "."@ + two_digits(
            (bytes % 1073741824) * 100 / 1073741824,
        ) + " GiB"@
    } else if bytes >= 1048576 {
        text::decimal(bytes / 1048576) + " MiB"@
    } else if bytes >= 1024 {
        text::decimal(bytes / 1024) + " KiB"@
    } else {
        text::decimal(bytes) + " B"@
    }
}

/// A byte count in the largest binary unit that it reaches.
pub fn human_bytes(bytes: u64) -> (res: String)
    ensures
        res@ == human(bytes as nat),
{
    if bytes >= 1073741824 {
        let hundredths: u64 = (bytes % 1073741824) * 100 / 1073741824;
        let shown = if hundredths < 10 {
            cat2("0", &show_u64(hundredths))
        } else {
            show_u64(hundredths)
        };
        cat4(&show_u64(bytes / 1073741824), ".", &shown, " GiB")
    } else if bytes >= 1048576 {
        cat2(&show_u64(bytes / 1048576), " MiB")
    } else if bytes >= 1024 {
        cat2(&show_u64(bytes / 1024), " KiB")
    } else {
        cat2(&show_u64(bytes), " B")
    }
}

// ---- the listing ----

/// How many tombstones have a complete path.
pub open spec fn complete_count(tombstones: Seq<TombstoneView>) -> nat
    decreases tombstones.len(),
{
    if tombstones.len() == 0 {
        0
    } else {
        complete_count(tombstones.drop_last()) + if tombstones.last().path_complete {
            1nat
        } else {
            0
        }
    }
}

/// The line of a tombstone; `time` is when it was last written to, as it is shown.
pub open spec fn tombstone_text(tomb: TombstoneView, time: Seq<char>) -> Seq<char> {
    "  "@ + tomb.path + "  ("@ + human(tomb.size as nat) + ", modified "@ + (time + if tomb.is_dir {
        ")  [dir]"@
    } else {
        ")"@
    })
}

/// The listing of tombstones; `times` are when they were last written to, as it is shown.
pub open spec fn listing_text(
    tombstones: Seq<TombstoneView>,
    times: Seq<Seq<char>>,
    total: nat,
    truncated: bool,
    drive: DriveLetter,
) -> Seq<Seq<char>> {
    let intro = seq![
        "Deleted (tombstone) records on "@ + seq![drive.letter()]
            + " \u{2014} best-effort; recoverable until the MFT slot is reused:"@,
        "  "@ + text::decimal(total) + (if truncated {
            " tombstone(s) (showing the first --limit); "@
        } else {
            " tombstone(s); "@
        }) + text::decimal(complete_count(tombstones)) + " of the shown "@ + (text::decimal(
            tombstones.len(),
        ) + " have a fully-resolved path"@),
    ];
    if tombstones.len() == 0 {
        intro
    } else {
        intro + seq![""@] + Seq::new(
            tombstones.len(),
            |i: int| tombstone_text(tombstones[i], times[i]),
        ) + seq![
            "\nNote: the timestamp is the file's last-write time, not when it was deleted; a `\u{2026}`-prefixed path had a parent whose MFT slot was already reused."@,
        ]
    }
}

fn count_complete(tombstones: &Vec<Tombstone>) -> (res: usize)
    ensures
        res == complete_count(tombstone_views(tombstones@)),
{
    let ghost shown = tombstone_views(tombstones@);
    let mut count: usize = 0;
    let mut i: usize = 0;
    while i < tombstones.len()
        invariant
            i <= tombstones@.len(),
            shown == tombstone_views(tombstones@),
            count == complete_count(shown.take(i as int)),
            count <= i,
        decreases tombstones@.len() - i,
    {
        assert(shown.take(i + 1).drop_last() =~= shown.take(i as int));
        assert(shown.take(i + 1).last() == tombstones@[i as int]@);
        if tombstones[i].path_complete {
            count += 1;
        }
        i += 1;
    }
    assert(shown.take(i as int) =~= shown);
    count
}

/// The listing of tombstones.
pub fn listing_lines(
    tombstones: &Vec<Tombstone>,
    times: &Vec<String>,
    total: usize,
    truncated: bool,
    drive: DriveLetter,
) -> (res: Vec<String>)
    requires
        times@.len() == tombstones@.len(),
    ensures
        text::texts(res@) == listing_text(
            tombstone_views(tombstones@),
            text::texts(times@),
            total as nat,
            truncated,
            drive,
        ),
{
    let ghost wanted = listing_text(
        tombstone_views(tombstones@),
        text::texts(times@),
        total as nat,
        truncated,
        drive,
    );
    let mut res: Vec<String> = Vec::new();
    assert(text::texts(res@) =~= Seq::empty());
    push_line(
        &mut res,
        cat3(
            "Deleted (tombstone) records on ",
            &drive.show(),
            " \u{2014} best-effort; recoverable until the MFT slot is reused:",
        ),
    );
    let middle = if truncated {
        " tombstone(s) (showing the first --limit); "
    } else {
        " tombstone(s); "
    };
    push_line(
        &mut res,
        cat6(
            "  ",
            &show_u64(total as u64),
            middle,
            &show_u64(count_complete(tombstones) as u64),
            " of the shown ",
            &cat2(&show_u64(tombstones.len() as u64), " have a fully-resolved path"),
        ),
    );
    if tombstones.len() == 0 {
        assert(text::texts(res@) =~= wanted);
        return res;
    }
    push_line(&mut res, "".to_owned());
    let mut i: usize = 0;
    assert(text::texts(res@) =~= wanted.take(3));
    while i < tombstones.len()
        invariant
            i <= tombstones@.len() == times@.len(),
            tombstones@.len() > 0,
            wanted == listing_text(
                tombstone_views(tombstones@),
                text::texts(times@),
                total as nat,
                truncated,
                drive,
            ),
            text::texts(res@) == wanted.take(i + 3),
        decreases tombstones@.len() - i,
    {
        let tomb = &tombstones[i];
        let end = if tomb.is_dir {
            ")  [dir]"
        } else {
            ")"
        };
        push_line(
            &mut res,
            cat6(
                "  ",
                &tomb.path,
                "  (",
                &human_bytes(tomb.size),
                ", modified ",
                &cat2(&times[i], end),
            ),
        );
        proof {
            assert(wanted[i + 3] == tombstone_text(
                tombstone_views(tombstones@)[i as int],
                text::texts(times@)[i as int],
            ));
            assert(text::texts(res@) =~= wanted.take(i + 4));
        }
        i += 1;
    }
    push_line(
        &mut res,
        "\nNote: the timestamp is the file's last-write time, not when it was deleted; a `\u{2026}`-prefixed path had a parent whose MFT slot was already reused.".to_owned(),
    );
    assert(text::texts(res@) =~= wanted);
    res
}

/// The JSON form of a tombstone.
pub open spec fn tombstone_json(tomb: TombstoneView) -> json::JsonView {
    json::JsonView::Object(
        seq![
            ("path"@, json::JsonView::Text(tomb.path)),
            ("size"@, json::JsonView::Number(tomb.size)),
            ("modified"@, json::JsonView::Integer(tomb.modified)),
            ("is_dir"@, json::JsonView::Bool(tomb.is_dir)),
            ("path_complete"@, json::JsonView::Bool(tomb.path_complete)),
        ],
    )
}

/// The JSON form of a listing.
pub open spec fn listing_document(
    tombstones: Seq<TombstoneView>,
    total: u64,
    truncated: bool,
) -> json::JsonView {
    json::JsonView::Object(
        seq![
            ("total_deleted"@, json::JsonView::Number(total)),
            ("truncated"@, json::JsonView::Bool(truncated)),
            (
                "tombstones"@,
                json::JsonView::List(
                    tombstones.map_values(|tomb: TombstoneView| tombstone_json(tomb)),
                ),
            ),
        ],
    )
}

/// The JSON form of a listing.
pub fn listing_json(tombstones: &Vec<Tombstone>, total: usize, truncated: bool) -> (res: Json)
    ensures
        res@ == listing_document(tombstone_views(tombstones@), total as u64, truncated),
{
    let ghost wanted = tombstone_views(tombstones@).map_values(
        |tomb: TombstoneView| tombstone_json(tomb),
    );
    let mut rows: Vec<Json> = Vec::new();
    let mut i: usize = 0;
    assert(json::list_view(rows@) =~= wanted.take(0));
    while i < tombstones.len()
        invariant
            i <= tombstones@.len(),
            wanted == tombstone_views(tombstones@).map_values(
                |tomb: TombstoneView| tombstone_json(tomb),
            ),
            json::list_view(rows@) == wanted.take(i as int),
        decreases tombstones@.len() - i,
    {
        let tomb = &tombstones[i];
        let mut fields = json::no_fields();
        json::push_field(&mut fields, "path", json::string(&tomb.path));
        json::push_field(&mut fields, "size", Json::Number(tomb.size));
        json::push_field(&mut fields, "modified", Json::Integer(tomb.modified));
        json::push_field(&mut fields, "is_dir", Json::Bool(tomb.is_dir));
        json::push_field(&mut fields, "path_complete", Json::Bool(tomb.path_complete));
        let row = json::object(fields);
        assert(row@->Object_0 =~= tombstone_json(tomb@)->Object_0);
        json::push_item(&mut rows, row);
        assert(json::list_view(rows@) =~= wanted.take(i + 1));
        i += 1;
    }
    assert(wanted.take(i as int) =~= wanted);
    let mut fields = json::no_fields();
    json::push_field(&mut fields, "total_deleted", Json::Number(total as u64));
    json::push_field(&mut fields, "truncated", Json::Bool(truncated));
    json::push_field(&mut fields, "tombstones", json::list(rows));
    let res = json::object(fields);
    assert(res@->Object_0 =~= listing_document(
        tombstone_views(tombstones@),
        total as u64,
        truncated,
    )->Object_0);
    res
}

// ---- laws ----

/// A file in the root directory is found without any lookup.
pub proof fn law_root_needs_no_lookup(
    name: Seq<char>,
    drive: DriveLetter,
    records: spec_fn(u64) -> Option<(Seq<char>, u64)>,
)
    ensures
        resolved(name, ROOT_FRS, drive, records) == (
            seq![drive.letter()] + ":\\"@ + name,
            true,
        ),
{
    let names = seq![name] + above(records, ROOT_FRS, 256);
    assert(names.reverse() =~= seq![name]);
}

/// A file of which a directory above is gone is never told to be complete, nor is one of which the
/// directories above run in a circle.
pub proof fn law_lost_parents_are_told(
    name: Seq<char>,
    parent: u64,
    drive: DriveLetter,
    records: spec_fn(u64) -> Option<(Seq<char>, u64)>,
    frss: Set<u64>,
)
    requires
        frss.contains(parent),
        !frss.contains(ROOT_FRS),
        forall|frs: u64| #[trigger]
            frss.contains(frs) ==> match records(frs) {
                Some((_, above)) => frss.contains(above),
                None => true,
            },
    ensures
        !resolved(name, parent, drive, records).1,
{
    lemma_stays_below(parent, records, frss, 256);
}

proof fn lemma_stays_below(
    current: u64,
    records: spec_fn(u64) -> Option<(Seq<char>, u64)>,
    frss: Set<u64>,
    steps: nat,
)
    requires
        frss.contains(current),
        !frss.contains(ROOT_FRS),
        forall|frs: u64| #[trigger]
            frss.contains(frs) ==> match records(frs) {
                Some((_, above)) => frss.contains(above),
                None => true,
            },
    ensures
        !reaches_root(records, current, steps),
    decreases steps,
{
    if steps > 0 {
        match records(current) {
            Some((_, parent)) => {
                lemma_stays_below(parent, records, frss, (steps - 1) as nat);
            },
            None => {},
        }
    }
}

proof fn lemma_joined_last(names: Seq<Seq<char>>, separator: Seq<char>)
    requires
        names.len() > 1,
    ensures
        text::joined(names, separator) == text::joined(names.drop_last(), separator) + separator
            + names.last(),
{
}

proof fn lemma_more_steps(
    records: spec_fn(u64) -> Option<(Seq<char>, u64)>,
    current: u64,
    steps: nat,
)
    requires
        reaches_root(records, current, steps),
    ensures
        reaches_root(records, current, steps + 1),
        above(records, current, steps + 1) == above(records, current, steps),
    decreases steps,
{
    if current != ROOT_FRS {
        if let Some((_, parent)) = records(current) {
            lemma_more_steps(records, parent, (steps - 1) as nat);
        }
    }
}

/// The path of a name that lies in a directory whose record is known is the path of that directory,
/// a backslash and the name, and the one is complete if the other is.
pub proof fn law_a_name_lies_behind_its_directory(
    name: Seq<char>,
    parent: u64,
    drive: DriveLetter,
    records: spec_fn(u64) -> Option<(Seq<char>, u64)>,
)
    requires
        parent != 5,
        records(parent) is Some,
        resolved(name, parent, drive, records).1,
    ensures
        ({
            let (dir, grandparent) = records(parent)->Some_0;
            let outer = resolved(dir, grandparent, drive, records);
            &&& outer.1
            &&& resolved(name, parent, drive, records).0 == outer.0 + "\\"@ + name
        }),
{
    let (dir, grandparent) = records(parent)->Some_0;
    lemma_more_steps(records, grandparent, 255);
    let outer = seq![dir] + above(records, grandparent, 256);
    let inner = seq![name] + above(records, parent, 256);
    assert(above(records, parent, 256) =~= outer);
    assert(inner.reverse() =~= outer.reverse().push(name));
    assert(inner.reverse().drop_last() =~= outer.reverse());
    lemma_joined_last(inner.reverse(), "\\"@);
    let start = seq![drive.letter()] + ":\\"@;
    assert(resolved(name, parent, drive, records).0 =~= resolved(
        dir,
        grandparent,
        drive,
        records,
    ).0 + "\\"@ + name);
}

/// A name whose directory is gone is shown behind a mark, and told to be incomplete; one in the
/// root directory stands directly behind the drive.
pub proof fn law_a_lost_directory_is_marked(
    name: Seq<char>,
    parent: u64,
    drive: DriveLetter,
    records: spec_fn(u64) -> Option<(Seq<char>, u64)>,
)
    requires
        parent == 5 || records(parent) is None,
    ensures
        resolved(name, parent, drive, records) == (if parent == 5 {
            (seq![drive.letter()] + ":\\"@ + name, true)
        } else {
            (seq![drive.letter()] + ":\\\u{2026}\\"@ + name, false)
        }),
{
    let names = seq![name] + above(records, parent, 256);
    assert(names.reverse() =~= seq![name]);
    reveal_with_fuel(text::joined, 2);
    assert(text::joined(names.reverse(), "\\"@) =~= name);
}

/// A name from which the directories lead to the root, at most 256 of them, has a complete path:
/// `frss` are the records on the way, from the one that holds the name to the root.
pub proof fn law_a_whole_chain_is_complete(
    name: Seq<char>,
    frss: Seq<u64>,
    drive: DriveLetter,
    records: spec_fn(u64) -> Option<(Seq<char>, u64)>,
)
    requires
        1 <= frss.len() <= 257,
        frss.last() == 5,
        forall|k: int|
            0 <= k < frss.len() - 1 ==> {
                &&& #[trigger] records(frss[k]) is Some
                &&& records(frss[k])->Some_0.1 == frss[k + 1]
            },
    ensures
        resolved(name, frss[0], drive, records).1,
{
    lemma_chain_reaches(frss, records, 256);
}

proof fn lemma_chain_reaches(
    frss: Seq<u64>,
    records: spec_fn(u64) -> Option<(Seq<char>, u64)>,
    steps: nat,
)
    requires
        1 <= frss.len() <= steps + 1,
        frss.last() == 5,
        forall|k: int|
            0 <= k < frss.len() - 1 ==> {
                &&& #[trigger] records(frss[k]) is Some
                &&& records(frss[k])->Some_0.1 == frss[k + 1]
            },
    ensures
        reaches_root(records, frss[0], steps),
    decreases frss.len(),
{
    if frss.len() > 1 && frss[0] != 5 {
        let rest = frss.drop_first();
        assert(records(frss[0]) is Some);
        assert forall|k: int| 0 <= k < rest.len() - 1 implies {
            &&& #[trigger] records(rest[k]) is Some
            &&& records(rest[k])->Some_0.1 == rest[k + 1]
        } by {
            assert(records(frss[k + 1]) is Some);
        }
        lemma_chain_reaches(rest, records, (steps - 1) as nat);
    }
}

// ---- laws of the arguments ----

proof fn lemma_option_words()
    ensures
        "--mft-file"@.len() == 10,
        "--drive"@.len() == 7,
        "-d"@.len() == 2,
        "--limit"@.len() == 7,
        "-n"@.len() == 2,
        "--json"@.len() == 6,
        "--drive"@ != "--limit"@,
        "-d"@ != "-n"@,
{
    reveal_strlit("--mft-file");
    reveal_strlit("--drive");
    reveal_strlit("-d");
    reveal_strlit("--limit");
    reveal_strlit("-n");
    reveal_strlit("--json");
    assert("--drive"@[2] != "--limit"@[2]);
    assert("-d"@[1] != "-n"@[1]);
}

proof fn lemma_shift(acc: DeletedView, head: Seq<Seq<char>>, tail: Seq<Seq<char>>, i: int)
    requires
        0 <= i,
    ensures
        deleted_from(acc, head + tail, head.len() + i) == deleted_from(acc, tail, i),
    decreases tail.len() - i,
{
    let args = head + tail;
    let n = head.len() as int;
    if i < tail.len() {
        assert(args[n + i] == tail[i]);
        if i + 1 < tail.len() {
            let v = tail[i + 1];
            assert(args[n + i + 1] == v);
            lemma_shift(DeletedView { mft_file: Some(v), ..acc }, head, tail, i + 2);
            if let Some(found) = drive::drive_of(v) {
                lemma_shift(DeletedView { drive: Some(found), ..acc }, head, tail, i + 2);
            }
            if let Ok(found) = limit_of(v) {
                lemma_shift(DeletedView { limit: found, ..acc }, head, tail, i + 2);
            }
        }
        lemma_shift(DeletedView { json: true, ..acc }, head, tail, i + 1);
    }
}

proof fn lemma_merge(acc: DeletedView, args: Seq<Seq<char>>, i: int)
    requires
        0 <= i,
    ensures
        match (deleted_from(acc, args, i), deleted_from(deleted_default(), args, i)) {
            (Ok(w), Ok(l)) => {
                &&& w.mft_file == (if l.mft_file is Some { l.mft_file } else { acc.mft_file })
                &&& w.drive == (if l.drive is Some { l.drive } else { acc.drive })
                &&& w.json == (acc.json || l.json)
                &&& w.limit == l.limit || w.limit == acc.limit
                &&& acc.limit == 0 ==> w.limit == l.limit
                &&& l.limit != 0 ==> w.limit == l.limit
                &&& (forall|k: int| i <= k < args.len() ==> #[trigger] args[k] != "--limit"@ && args[k] != "-n"@) ==> w.limit == acc.limit
            },
            (Err(one), Err(other)) => one == other,
            _ => false,
        },
    decreases args.len() - i,
{
    lemma_option_words();
    let base = deleted_default();
    if i < args.len() {
        if i + 1 < args.len() {
            let v = args[i + 1];
            lemma_merge(DeletedView { mft_file: Some(v), ..acc }, args, i + 2);
            if let Some(found) = drive::drive_of(v) {
                lemma_merge(DeletedView { drive: Some(found), ..acc }, args, i + 2);
            }
            if let Ok(found) = limit_of(v) {
                lemma_merge(DeletedView { limit: found, ..acc }, args, i + 2);
            }
            lemma_merge(DeletedView { mft_file: Some(v), ..base }, args, i + 2);
            if let Some(found) = drive::drive_of(v) {
                lemma_merge(DeletedView { drive: Some(found), ..base }, args, i + 2);
            }
            if let Ok(found) = limit_of(v) {
                lemma_merge(DeletedView { limit: found, ..base }, args, i + 2);
            }
            if let Ok(found) = limit_of(v) {
                lemma_same_limit(DeletedView { limit: found, ..acc }, DeletedView { limit: found, ..base }, args, i + 2);
            }
        }
        lemma_merge(DeletedView { json: true, ..acc }, args, i + 1);
        lemma_merge(DeletedView { json: true, ..base }, args, i + 1);
    }
}

proof fn lemma_same_limit(one: DeletedView, other: DeletedView, args: Seq<Seq<char>>, i: int)
    requires
        0 <= i,
        one.limit == other.limit,
    ensures
        match (deleted_from(one, args, i), deleted_from(other, args, i)) {
            (Ok(a), Ok(b)) => a.limit == b.limit,
            (Err(a), Err(b)) => a == b,
            _ => false,
        },
    decreases args.len() - i,
{
    if i < args.len() {
        if i + 1 < args.len() {
            let v = args[i + 1];
            lemma_same_limit(DeletedView { mft_file: Some(v), ..one }, DeletedView { mft_file: Some(v), ..other }, args, i + 2);
            if let Some(found) = drive::drive_of(v) {
                lemma_same_limit(DeletedView { drive: Some(found), ..one }, DeletedView { drive: Some(found), ..other }, args, i + 2);
            }
            if let Ok(found) = limit_of(v) {
                lemma_same_limit(DeletedView { limit: found, ..one }, DeletedView { limit: found, ..other }, args, i + 2);
            }
        }
        lemma_same_limit(DeletedView { json: true, ..one }, DeletedView { json: true, ..other }, args, i + 1);
    }
}

/// An option before other arguments of a listing that are accepted sets what it names, where these
/// do not set it again, and nothing else; it is refused where its value is.
pub proof fn law_options_set_what_they_name(
    option: Seq<char>,
    value: Seq<char>,
    n: u32,
    tail: &[String],
    rest: &[String],
    one: Result<DeletedArgs, CliError>,
    both: Result<DeletedArgs, CliError>,
)
    requires
        call_ensures(parse_deleted_args, (tail,), one),
        call_ensures(parse_deleted_args, (rest,), both),
        text::texts(rest@) == seq![option, value] + text::texts(tail@),
        option == "--mft-file"@ || option == "--drive"@ || option == "-d"@ || option == "--limit"@ || option == "-n"@,
        one is Ok,
    ensures
        both is Ok <==> ((option == "--drive"@ || option == "-d"@) ==> drive::drive_of(value) is Some) && ((option == "--limit"@ || option == "-n"@) ==> limit_of(value) is Ok),
        both is Ok ==> {
            let a = one->Ok_0@;
            let b = both->Ok_0@;
            &&& b.mft_file == (if (option == "--mft-file"@) && a.mft_file is None { Some(value) } else { a.mft_file })
            &&& b.drive == (if (option == "--drive"@ || option == "-d"@) && a.drive is None { drive::drive_of(value) } else { a.drive })
            &&& b.json == a.json
            &&& !(option == "--limit"@ || option == "-n"@) ==> b.limit == a.limit
            &&& (option == "--limit"@ || option == "-n"@) && value == text::decimal(n as nat) && (forall|k: int| 0 <= k < tail@.len() ==> #[trigger] tail@[k]@ != "--limit"@ && tail@[k]@ != "-n"@) ==> b.limit == n
        },
{
    lemma_option_words();
    let base = deleted_default();
    let more = text::texts(tail@);
    let args = text::texts(rest@);
    assert(args[0] == option && args[1] == value);
    let acc = if (option == "--mft-file"@) {
        DeletedView { mft_file: Some(value), ..base }
    } else if (option == "--drive"@ || option == "-d"@) {
        DeletedView { drive: drive::drive_of(value), ..base }
    } else {
        DeletedView { limit: limit_of(value)->Ok_0, ..base }
    };
    lemma_shift(acc, seq![option, value], more, 0);
    lemma_merge(acc, more, 0);
    if value == text::decimal(n as nat) {
        text::lemma_digits(n as nat, 0, u32::MAX as nat, false);
        assert(text::is_digit(value[0]));
    }
    assert forall|k: int| 0 <= k < more.len() && (forall|q: int| 0 <= q < tail@.len() ==> #[trigger] tail@[q]@ != "--limit"@ && tail@[q]@ != "-n"@) implies #[trigger] more[k] != "--limit"@ && more[k] != "-n"@ by {
        assert(more[k] == tail@[k]@);
    }
}

/// A flag before other arguments of a listing that are accepted sets what it names and nothing else; what
/// is no option at all is refused.
pub proof fn law_flags_set_what_they_name(
    word: Seq<char>,
    tail: &[String],
    rest: &[String],
    one: Result<DeletedArgs, CliError>,
    both: Result<DeletedArgs, CliError>,
)
    requires
        call_ensures(parse_deleted_args, (tail,), one),
        call_ensures(parse_deleted_args, (rest,), both),
        text::texts(rest@) == seq![word] + text::texts(tail@),
        one is Ok,
    ensures
        word == "--json"@ ==> (both matches Ok(b) && b@ == (DeletedView { json: true, ..one->Ok_0@ })),
        word != "--mft-file"@ && word != "--drive"@ && word != "-d"@ && word != "--limit"@ && word != "-n"@ && word != "--json"@ ==> both is Err,
        one->Ok_0@.mft_file is Some || one->Ok_0@.drive is Some,
        tail@.len() > 0,
{
    lemma_option_words();
    let base = deleted_default();
    let more = text::texts(tail@);
    let args = text::texts(rest@);
    assert(args[0] == word);
    assert(args.len() == more.len() + 1);
    lemma_shift(DeletedView { json: true, ..base }, seq![word], more, 0);
    lemma_merge(DeletedView { json: true, ..base }, more, 0);
}

/// A capture alone, or a drive alone, is enough for a listing: it has no limit then and is not JSON.
/// Without either it is refused.
pub proof fn law_a_source_is_needed(
    value: Seq<char>,
    args: &[String],
    res: Result<DeletedArgs, CliError>,
)
    requires
        call_ensures(parse_deleted_args, (args,), res),
    ensures
        ({
            let list = text::texts(args@);
            &&& list == seq!["--mft-file"@, value] ==> (res matches Ok(parsed) && parsed@ == (
            DeletedView { mft_file: Some(value), drive: None, limit: 0, json: false }))
            &&& list == seq!["--drive"@, value] && drive::drive_of(value) is Some ==> (
            res matches Ok(parsed) && parsed@ == (DeletedView {
                mft_file: None,
                drive: drive::drive_of(value),
                limit: 0,
                json: false,
            }))
            &&& list == seq!["--json"@] || list.len() == 0 ==> res is Err
            &&& list == seq!["--limit"@, value] ==> res is Err
        }),
{
    lemma_option_words();
    reveal_with_fuel(deleted_from, 4);
}

/// The help is shown wherever it is asked for among the arguments, and else what they ask for.
pub proof fn law_help_comes_first(
    args: &[String],
    res: Result<DeletedAction, CliError>,
    parsed: Result<DeletedArgs, CliError>,
    i: int,
)
    requires
        call_ensures(run_deleted, (args,), res),
        call_ensures(parse_deleted_args, (args,), parsed),
    ensures
        0 <= i < args@.len() && (args@[i]@ == "--help"@ || args@[i]@ == "-h"@) ==> (res matches Ok(
            action,
        ) && action is ShowHelp),
        (forall|k: int|
            0 <= k < args@.len() ==> #[trigger] args@[k]@ != "--help"@ && args@[k]@ != "-h"@) ==> {
            &&& res is Ok <==> parsed is Ok
            &&& res matches Ok(action) ==> action is List && action->List_0@ == parsed->Ok_0@
            &&& res matches Err(err) ==> err@ == parsed->Err_0@
        },
{
}

/// A listing shows the first entries, as many as the limit allows, or all where there is no limit,
/// each with its own size, time and kind, and with the path that its name and its directory give; it
/// is told to be cut short exactly where entries are left out.
pub proof fn law_a_listing_keeps_the_order(
    entries: Seq<DeletedEntry>,
    drive: DriveLetter,
    limit: u32,
    records: spec_fn(u64) -> Option<(Seq<char>, u64)>,
    k: int,
)
    ensures
        ({
            let count = listed_count(entries.len(), limit);
            let shown = tombstones_of(entries.take(count as int), drive, records);
            &&& shown.len() == count <= entries.len()
            &&& limit == 0 ==> count == entries.len()
            &&& limit > 0 ==> count == (if entries.len() <= limit {
                entries.len()
            } else {
                limit as nat
            })
            &&& is_truncated(entries.len(), limit) <==> count < entries.len()
            &&& 0 <= k < count ==> {
                &&& shown[k].size == entries[k].size
                &&& shown[k].modified == entries[k].modified
                &&& shown[k].is_dir == entries[k].is_dir
                &&& (shown[k].path, shown[k].path_complete) == resolved(
                    entries[k].name@,
                    entries[k].parent,
                    drive,
                    records,
                )
            }
        }),
{
}

/// A size is told in the largest unit of which it holds at least one, rounded down: as it is, in
/// units of 1024, in units of those, or in units of those again with two decimal places.
pub proof fn law_sizes_are_told_in_the_largest_unit(bytes: u64, res: String, n: nat, r: nat)
    requires
        call_ensures(human_bytes, (bytes,), res),
    ensures
        bytes < 0x400 ==> res@ == text::decimal(bytes as nat) + " B"@,
        bytes == n * 0x400 + r && 1 <= n < 0x400 && r < 0x400 ==> res@ == text::decimal(n)
            + " KiB"@,
        bytes == n * 0x10_0000 + r && 1 <= n < 0x400 && r < 0x10_0000 ==> res@ == text::decimal(n)
            + " MiB"@,
        bytes == n * 0x4000_0000 + r && 1 <= n && r < 0x4000_0000 ==> {
            let hundredths = r * 100 / 0x4000_0000;
            &&& hundredths < 10 ==> res@ == text::decimal(n) + "."@ + ("0"@ + text::decimal(
                hundredths,
            )) + " GiB"@
            &&& hundredths >= 10 ==> res@ == text::decimal(n) + "."@ + text::decimal(hundredths)
                + " GiB"@
        },
{
    if bytes == n * 0x4000_0000 + r && r < 0x4000_0000 {
        assert(bytes as nat / 0x4000_0000 == n);
        assert(bytes as nat % 0x4000_0000 == r);
    }
}

/// How many paths are complete: as many as in a part and in the rest together, and one of a single
/// tombstone exactly where its path is.
pub proof fn law_complete_paths_are_counted(
    a: Seq<TombstoneView>,
    b: Seq<TombstoneView>,
    one: TombstoneView,
)
    ensures
        complete_count(a + b) == complete_count(a) + complete_count(b),
        complete_count(seq![one]) == (if one.path_complete {
            1nat
        } else {
            0
        }),
    decreases b.len(),
{
    reveal_with_fuel(complete_count, 2);
    assert(seq![one].drop_last() =~= Seq::empty());
    if b.len() == 0 {
        assert(a + b =~= a);
    } else {
        law_complete_paths_are_counted(a, b.drop_last(), one);
        assert((a + b).drop_last() =~= a + b.drop_last());
        assert((a + b).last() == b.last());
    }
}

/// A listing names the drive, then how many there are, how many of the shown have a complete path
/// and how many are shown; then each has one line, in order, with its own path, size, time and, for a
/// directory only, a mark.
pub proof fn law_each_tombstone_has_its_line(
    tombstones: &Vec<Tombstone>,
    times: &Vec<String>,
    total: usize,
    truncated: bool,
    drive: DriveLetter,
    res: Vec<String>,
    k: int,
)
    requires
        times@.len() == tombstones@.len(),
        call_ensures(listing_lines, (tombstones, times, total, truncated, drive), res),
    ensures
        res@.len() == (if tombstones@.len() == 0 {
            2
        } else {
            tombstones@.len() + 4
        }),
        res@[0]@ == "Deleted (tombstone) records on "@ + seq![drive.letter()]
            + " \u{2014} best-effort; recoverable until the MFT slot is reused:"@,
        res@[1]@ == "  "@ + text::decimal(total as nat) + (if truncated {
            " tombstone(s) (showing the first --limit); "@
        } else {
            " tombstone(s); "@
        }) + text::decimal(complete_count(tombstone_views(tombstones@))) + " of the shown "@ + (
        text::decimal(tombstones@.len()) + " have a fully-resolved path"@),
        0 <= k < tombstones@.len() ==> res@[3 + k]@ == "  "@ + tombstones@[k].path@ + "  ("@
            + human(tombstones@[k].size as nat) + ", modified "@ + (times@[k]@
            + if tombstones@[k].is_dir {
            ")  [dir]"@
        } else {
            ")"@
        }),
{
    let lines = text::texts(res@);
    assert(res@.len() == lines.len());
    assert(lines[0] == res@[0]@);
    assert(lines[1] == res@[1]@);
    assert(tombstone_views(tombstones@).len() == tombstones@.len());
    if 0 <= k < tombstones@.len() {
        assert(lines[3 + k] == res@[3 + k]@);
        assert(tombstone_views(tombstones@)[k] == tombstones@[k]@);
        assert(text::texts(times@)[k] == times@[k]@);
    }
}

/// A listing as JSON holds the whole number, whether it was cut short, and each tombstone in order
/// with its own path, size, time, kind and whether the path is complete.
pub proof fn law_each_tombstone_has_its_object(
    tombstones: &Vec<Tombstone>,
    total: usize,
    truncated: bool,
    res: Json,
    k: int,
)
    requires
        call_ensures(listing_json, (tombstones, total, truncated), res),
        0 <= k < tombstones@.len(),
    ensures
        ({
            let fields = res@->Object_0;
            let tomb = tombstones@[k];
            let rows = fields[2].1->List_0;
            &&& res@ is Object && fields.len() == 3
            &&& fields[0] == ("total_deleted"@, json::JsonView::Number(total as u64))
            &&& fields[1] == ("truncated"@, json::JsonView::Bool(truncated))
            &&& fields[2].0 == "tombstones"@ && fields[2].1 is List && rows.len()
                == tombstones@.len()
            &&& rows[k] is Object
            &&& rows[k]->Object_0 == seq![
                ("path"@, json::JsonView::Text(tomb.path@)),
                ("size"@, json::JsonView::Number(tomb.size)),
                ("modified"@, json::JsonView::Integer(tomb.modified)),
                ("is_dir"@, json::JsonView::Bool(tomb.is_dir)),
                ("path_complete"@, json::JsonView::Bool(tomb.path_complete)),
            ]
        }),
{
    assert(tombstone_views(tombstones@).len() == tombstones@.len());
    assert(tombstone_views(tombstones@)[k] == tombstones@[k]@);
}

/// Only a record whose slot is free is a deleted one, and it is taken as it is.  A table holds as many
/// whole records as fit in its bytes.  Where no drive is named the listing is for drive X.
pub proof fn law_what_is_scanned(
    record: ScannedRecord,
    kept: Option<DeletedEntry>,
    data_len: u64,
    record_size: u32,
    count: u64,
    args: &DeletedArgs,
    drive: DriveLetter,
)
    requires
        call_ensures(keep_deleted, (record,), kept),
        call_ensures(record_count, (data_len, record_size), count),
        call_ensures(shown_drive, (args,), drive),
    ensures
        kept is Some <==> record.is_deleted,
        kept matches Some(entry) ==> entry == record.entry,
        record_size > 0 ==> count * record_size <= data_len < (count + 1) * record_size,
        record_size == 0 ==> count == 0,
        args.drive matches Some(named) ==> drive == named,
        args.drive is None ==> drive == DriveLetter::X,
{
    if record_size > 0 {
        let (n, d) = (data_len as int, record_size as int);
        assert(n / d * d <= n < (n / d + 1) * d) by (nonlinear_arith)
            requires
                n >= 0,
                d > 0,
        ;
    }
}

} // verus!
