//! Finding an installation that WinGet manages while nothing runs from it.
//!
//! A portable package lies in a directory of a known name below the packages of WinGet, with its
//! executables in it or one level deeper.

use crate::platform;
use crate::platform::{join_path, Platform};
use crate::text;
use crate::text::{cat2, push_line, push_lines, starts_with, to_ascii_lowercase};
use crate::uninstall::plan::WINGET_PACKAGE_ID;
use vstd::prelude::*;

verus! {

/// Whether a name is that of a directory of the package: the id, an underscore and whatever follows,
/// but for the case of ASCII letters.
pub open spec fn names_package(folder: Seq<char>) -> bool {
    text::begins(text::lowered(folder), text::lowered(WINGET_PACKAGE_ID@ + "_"@))
}

/// Whether a name is that of a directory of the package.
pub fn is_uffs_package_folder(folder_name: &str) -> (res: bool)
    ensures
        res == names_package(folder_name@),
{
    let prefix = to_ascii_lowercase(&cat2(WINGET_PACKAGE_ID, "_"));
    starts_with(&to_ascii_lowercase(folder_name), &prefix)
}

/// Which of the program's names lie in a directory.
#[derive(Debug, Clone, Copy, PartialEq, Eq, Structural)]
pub struct Programs {
    /// `uffs.exe`.
    pub uffs_exe: bool,
    /// `uffs`.
    pub uffs: bool,
}

/// Whether the program lies in a directory, under either name.
pub open spec fn has_uffs(programs: Programs) -> bool {
    programs.uffs_exe || programs.uffs
}

/// Whether the program lies in a directory, under either name.
pub fn dir_has_uffs(programs: Programs) -> (res: bool)
    ensures
        res == has_uffs(programs),
{
    programs.uffs_exe || programs.uffs
}

/// What lies in a directory of the package.
#[derive(Debug)]
pub struct SubFolder {
    /// Its path.
    pub path: String,
    /// Whether it is a directory.
    pub is_dir: bool,
    /// Which of the program's names lie in it.
    pub programs: Programs,
}

/// What lies among the packages of WinGet.
#[derive(Debug)]
pub struct PackageFolder {
    /// Its name, if it is text.
    pub name: Option<String>,
    /// Its path.
    pub path: String,
    /// Whether it is a directory.
    pub is_dir: bool,
    /// Which of the program's names lie in it.
    pub programs: Programs,
    /// What lies in it.
    pub entries: Vec<SubFolder>,
}

/// The first directory in a directory that holds the program.
pub open spec fn first_with_uffs(entries: Seq<SubFolder>, from: int) -> Option<Seq<char>>
    decreases entries.len() - from,
{
    if from < 0 || from >= entries.len() {
        None
    } else if entries[from].is_dir && has_uffs(entries[from].programs) {
        Some(entries[from].path@)
    } else {
        first_with_uffs(entries, from + 1)
    }
}

/// The directory of a package that holds the program: itself, or the first one in it that does.
pub open spec fn dir_with_uffs(folder: PackageFolder) -> Option<Seq<char>> {
    if has_uffs(folder.programs) {
        Some(folder.path@)
    } else {
        first_with_uffs(folder.entries@, 0)
    }
}

/// The directory of a package that holds the program.
pub fn find_dir_with_uffs(folder: &PackageFolder) -> (res: Option<String>)
    ensures
        crate::error::shown(res) == dir_with_uffs(*folder),
{
    if dir_has_uffs(folder.programs) {
        return Some(folder.path.clone());
    }
    let mut i: usize = 0;
    while i < folder.entries.len()
        invariant
            i <= folder.entries@.len(),
            !has_uffs(folder.programs),
            first_with_uffs(folder.entries@, i as int) == first_with_uffs(folder.entries@, 0),
        decreases folder.entries@.len() - i,
    {
        if folder.entries[i].is_dir && dir_has_uffs(folder.entries[i].programs) {
            return Some(folder.entries[i].path.clone());
        }
        i += 1;
    }
    None
}

/// Where the program lies in a package, if what it is given is a package and holds it.
pub open spec fn root_in(folder: PackageFolder) -> Option<Seq<char>> {
    match folder.name {
        Some(name) => if folder.is_dir && names_package(name@) {
            dir_with_uffs(folder)
        } else {
            None
        },
        None => None,
    }
}

/// Where the program lies in packages.
pub open spec fn roots_in(folders: Seq<PackageFolder>) -> Seq<Seq<char>>
    decreases folders.len(),
{
    if folders.len() == 0 {
        Seq::empty()
    } else {
        match root_in(folders.last()) {
            Some(root) => roots_in(folders.drop_last()).push(root),
            None => roots_in(folders.drop_last()),
        }
    }
}

/// Where the program lies among the packages of WinGet; nowhere where these cannot be read.
pub fn roots_under_packages_base(folders: &Option<Vec<PackageFolder>>) -> (res: Vec<String>)
    ensures
        text::texts(res@) == match *folders {
            Some(folders) => roots_in(folders@),
            None => Seq::empty(),
        },
{
    let mut res: Vec<String> = Vec::new();
    assert(text::texts(res@) =~= Seq::empty());
    if let Some(folders) = folders {
        let mut i: usize = 0;
        assert(folders@.take(0) =~= Seq::empty());
        while i < folders.len()
            invariant
                i <= folders@.len(),
                text::texts(res@) == roots_in(folders@.take(i as int)),
            decreases folders@.len() - i,
        {
            let folder = &folders[i];
            assert(folders@.take(i + 1).drop_last() =~= folders@.take(i as int));
            if folder.is_dir {
                if let Some(name) = &folder.name {
                    if is_uffs_package_folder(name) {
                        if let Some(dir) = find_dir_with_uffs(folder) {
                            push_line(&mut res, dir);
                        }
                    }
                }
            }
            i += 1;
        }
        assert(folders@.take(i as int) =~= folders@);
    }
    res
}

/// Where the program lies among the packages of WinGet, one directory of packages after the other.
pub open spec fn roots_of_bases(bases: Seq<Option<Vec<PackageFolder>>>) -> Seq<Seq<char>>
    decreases bases.len(),
{
    if bases.len() == 0 {
        Seq::empty()
    } else {
        roots_of_bases(bases.drop_last()) + match bases.last() {
            Some(folders) => roots_in(folders@),
            None => Seq::empty(),
        }
    }
}

/// Where the program lies among the packages of WinGet, one directory of packages after the other.
pub fn discover(bases: &Vec<Option<Vec<PackageFolder>>>) -> (res: Vec<String>)
    ensures
        text::texts(res@) == roots_of_bases(bases@),
{
    let mut res: Vec<String> = Vec::new();
    let mut i: usize = 0;
    assert(text::texts(res@) =~= roots_of_bases(bases@.take(0)));
    while i < bases.len()
        invariant
            i <= bases@.len(),
            text::texts(res@) == roots_of_bases(bases@.take(i as int)),
        decreases bases@.len() - i,
    {
        let found = roots_under_packages_base(&bases[i]);
        push_lines(&mut res, found);
        assert(bases@.take(i + 1).drop_last() =~= bases@.take(i as int));
        i += 1;
    }
    assert(bases@.take(i as int) =~= bases@);
    res
}

/// The files by one of which a directory is known to hold the program.
pub fn program_files(platform: Platform, dir: &str) -> (res: (String, String))
    ensures
        res.0@ == platform::joined(platform, dir@, "uffs.exe"@),
        res.1@ == platform::joined(platform, dir@, "uffs"@),
{
    (join_path(platform, dir, "uffs.exe"), join_path(platform, dir, "uffs"))
}

/// The directories of the packages of WinGet: those of the user and those of the machine.
pub open spec fn bases_text(
    platform: Platform,
    local_app_data: Option<Seq<char>>,
    program_files: Option<Seq<char>>,
) -> Seq<Seq<char>> {
    if platform != Platform::Windows {
        Seq::empty()
    } else {
        (match local_app_data {
            Some(dir) => seq![platform::joined(platform, dir, "Microsoft\\WinGet\\Packages"@)],
            None => Seq::empty(),
        }) + (match program_files {
            Some(dir) => seq![platform::joined(platform, dir, "WinGet\\Packages"@)],
            None => Seq::empty(),
        })
    }
}

/// The directories of the packages of WinGet, which there is on Windows only.
pub fn winget_packages_bases(
    platform: Platform,
    local_app_data: &Option<String>,
    program_files: &Option<String>,
) -> (res: Vec<String>)
    ensures
        text::texts(res@) == bases_text(
            platform,
            crate::error::shown(*local_app_data),
            crate::error::shown(*program_files),
        ),
{
    let mut res: Vec<String> = Vec::new();
    assert(text::texts(res@) =~= Seq::empty());
    if platform != Platform::Windows {
        return res;
    }
    if let Some(dir) = local_app_data {
        push_line(&mut res, join_path(platform, dir, "Microsoft\\WinGet\\Packages"));
    }
    if let Some(dir) = program_files {
        push_line(&mut res, join_path(platform, dir, "WinGet\\Packages"));
    }
    assert(text::texts(res@) =~= bases_text(
        platform,
        crate::error::shown(*local_app_data),
        crate::error::shown(*program_files),
    ));
    res
}

/// Every directory that was found holds the program: it is a package with the program in it, or lies
/// in a package and has the program in it.
pub proof fn law_found_roots_hold_the_program(folders: Seq<PackageFolder>, k: int)
    requires
        0 <= k < roots_in(folders).len(),
    ensures
        exists|i: int|
            0 <= i < folders.len() && #[trigger] root_in(folders[i]) == Some(roots_in(folders)[k])
                && folders[i].is_dir && (has_uffs(folders[i].programs) || exists|j: int|
                0 <= j < folders[i].entries@.len() && has_uffs(
                    (#[trigger] folders[i].entries@[j]).programs,
                ) && folders[i].entries@[j].path@ == roots_in(folders)[k]),
    decreases folders.len(),
{
    let before = roots_in(folders.drop_last());
    if k < before.len() {
        law_found_roots_hold_the_program(folders.drop_last(), k);
        let i = choose|i: int|
            0 <= i < folders.drop_last().len() && #[trigger] root_in(folders.drop_last()[i])
                == Some(before[k]) && folders.drop_last()[i].is_dir && (has_uffs(
                folders.drop_last()[i].programs,
            ) || exists|j: int|
                0 <= j < folders.drop_last()[i].entries@.len() && has_uffs(
                    (#[trigger] folders.drop_last()[i].entries@[j]).programs,
                ) && folders.drop_last()[i].entries@[j].path@ == before[k]);
        assert(folders.drop_last()[i] == folders[i]);
        assert(root_in(folders[i]) == Some(roots_in(folders)[k]));
    } else {
        let last = folders.last();
        assert(root_in(folders[folders.len() - 1]) == Some(roots_in(folders)[k]));
        if !has_uffs(last.programs) {
            lemma_first_with_uffs(last.entries@, 0);
        }
    }
}

/// No package that holds the program is missed: where the program lies in it is found.
pub proof fn law_no_package_is_missed(folders: Seq<PackageFolder>, i: int)
    requires
        0 <= i < folders.len(),
    ensures
        root_in(folders[i]) matches Some(root) ==> roots_in(folders).contains(root),
    decreases folders.len(),
{
    if let Some(root) = root_in(folders[i]) {
        let earlier = folders.drop_last();
        let found = roots_in(folders);
        if i < earlier.len() {
            assert(earlier[i] == folders[i]);
            law_no_package_is_missed(earlier, i);
            let k = choose|k: int|
                0 <= k < roots_in(earlier).len() && roots_in(earlier)[k] == root;
            assert(found[k] == root);
        } else {
            assert(found[found.len() - 1] == root);
        }
    }
}

proof fn lemma_first_with_uffs(entries: Seq<SubFolder>, from: int)
    requires
        0 <= from,
        first_with_uffs(entries, from) is Some,
    ensures
        exists|j: int|
            0 <= j < entries.len() && has_uffs((#[trigger] entries[j]).programs)
                && entries[j].path@ == first_with_uffs(entries, from)->Some_0,
    decreases entries.len() - from,
{
    if !(entries[from].is_dir && has_uffs(entries[from].programs)) {
        lemma_first_with_uffs(entries, from + 1);
    }
}

/// A folder is of the package where its name is the package's id, an underscore and anything, in
/// whatever case; and a directory holds the program where either of its files is there.
pub proof fn law_which_folders_are_of_the_package(
    name: &str,
    res: bool,
    programs: Programs,
    has: bool,
    rest: Seq<char>,
)
    requires
        call_ensures(is_uffs_package_folder, (name,), res),
        call_ensures(dir_has_uffs, (programs,), has),
    ensures
        name@ == "SkyLLC.UFFS_"@ + rest ==> res,
        res ==> name@.len() >= 12 && text::lowered(name@.take(12)) == text::lowered("SkyLLC.UFFS_"@),
        has <==> programs.uffs_exe || programs.uffs,
{
    reveal_strlit("SkyLLC.UFFS_");
    reveal_strlit("SkyLLC.UFFS");
    reveal_strlit("_");
    assert("SkyLLC.UFFS"@ + "_"@ =~= "SkyLLC.UFFS_"@);
    let id = "SkyLLC.UFFS_"@;
    assert(id.len() == 12);
    if name@ == id + rest {
        assert(text::lowered(name@).subrange(0, 12) =~= text::lowered(id));
    }
    if res {
        assert(text::lowered(name@.take(12)) =~= text::lowered(name@).subrange(0, 12));
    }
}

/// The program of a package stands in the package's folder, or else in the first directory in it that
/// holds the program.
pub proof fn law_where_the_program_of_a_package_stands(
    folder: &PackageFolder,
    res: Option<String>,
    i: int,
)
    requires
        call_ensures(find_dir_with_uffs, (folder,), res),
        0 <= i <= folder.entries@.len(),
        forall|j: int|
            0 <= j < i ==> !((#[trigger] folder.entries@[j]).is_dir && (
            folder.entries@[j].programs.uffs_exe || folder.entries@[j].programs.uffs)),
    ensures
        folder.programs.uffs_exe || folder.programs.uffs ==> res is Some && res->Some_0@
            == folder.path@,
        !folder.programs.uffs_exe && !folder.programs.uffs && i == folder.entries@.len() ==> res is None,
        !folder.programs.uffs_exe && !folder.programs.uffs && i < folder.entries@.len()
            && folder.entries@[i].is_dir && (folder.entries@[i].programs.uffs_exe
            || folder.entries@[i].programs.uffs) ==> res is Some && res->Some_0@
            == folder.entries@[i].path@,
{
    lemma_skipped(folder.entries@, 0, i);
}

proof fn lemma_skipped(entries: Seq<SubFolder>, from: int, to: int)
    requires
        0 <= from <= to <= entries.len(),
        forall|j: int|
            from <= j < to ==> !((#[trigger] entries[j]).is_dir && (entries[j].programs.uffs_exe
                || entries[j].programs.uffs)),
    ensures
        first_with_uffs(entries, from) == first_with_uffs(entries, to),
    decreases to - from,
{
    if from < to {
        lemma_skipped(entries, from + 1, to);
    }
}

/// The roots of a list of folders are those of its parts, in order; a folder that is none of the
/// package, has no name or is no directory has none.
pub proof fn law_roots_come_in_order(
    folders: &Option<Vec<PackageFolder>>,
    more: &Option<Vec<PackageFolder>>,
    last: PackageFolder,
    before: Vec<String>,
    after: Vec<String>,
    name: &str,
    of_package: bool,
    root: Option<String>,
)
    requires
        call_ensures(roots_under_packages_base, (folders,), before),
        call_ensures(roots_under_packages_base, (more,), after),
        *folders is Some && *more is Some,
        more->Some_0@ == folders->Some_0@.push(last),
        last.name is Some ==> last.name->Some_0@ == name@,
        call_ensures(is_uffs_package_folder, (name,), of_package),
        call_ensures(find_dir_with_uffs, (&last,), root),
    ensures
        folders->Some_0@.len() == 0 ==> before@.len() == 0,
        text::texts(after@) == text::texts(before@) + (if last.name is Some && last.is_dir
            && of_package && root is Some {
            seq![root->Some_0@]
        } else {
            Seq::empty()
        }),
{
    assert(more->Some_0@.drop_last() =~= folders->Some_0@);
    assert(text::texts(before@).len() == before@.len());
    let roots = roots_in(folders->Some_0@);
    assert(roots + Seq::<Seq<char>>::empty() =~= roots);
    if let Some(dir) = root {
        assert(roots.push(dir@) =~= roots + seq![dir@]);
    }
}

/// What is found under several places are the roots of each, in order, and nothing under a place that
/// cannot be read.
pub proof fn law_every_place_is_looked_at(
    bases: &Vec<Option<Vec<PackageFolder>>>,
    more: &Vec<Option<Vec<PackageFolder>>>,
    last: Option<Vec<PackageFolder>>,
    before: Vec<String>,
    after: Vec<String>,
    roots: Vec<String>,
)
    requires
        call_ensures(discover, (bases,), before),
        call_ensures(discover, (more,), after),
        more@ == bases@.push(last),
        call_ensures(roots_under_packages_base, (&last,), roots),
    ensures
        bases@.len() == 0 ==> before@.len() == 0,
        last is None ==> roots@.len() == 0,
        text::texts(after@) == text::texts(before@) + text::texts(roots@),
{
    assert(more@.drop_last() =~= bases@);
    assert(text::texts(before@).len() == before@.len());
    assert(text::texts(roots@).len() == roots@.len());
}

/// Packages are looked for on Windows alone: among those of the user and then among those of the
/// machine, each where its directory is known.
pub proof fn law_where_packages_stand(
    platform: Platform,
    local_app_data: &Option<String>,
    program_files: &Option<String>,
    res: Vec<String>,
)
    requires
        call_ensures(winget_packages_bases, (platform, local_app_data, program_files), res),
    ensures
        platform != Platform::Windows ==> res@.len() == 0,
        platform == Platform::Windows && *local_app_data is None && *program_files is None
            ==> res@.len() == 0,
        platform == Platform::Windows && *local_app_data is Some ==> res@.len() > 0 && res@[0]@
            == platform::joined(
            platform,
            local_app_data->Some_0@,
            "Microsoft\\WinGet\\Packages"@,
        ),
        platform == Platform::Windows && *program_files is Some ==> res@.len() > 0 && res@.last()@
            == platform::joined(platform, program_files->Some_0@, "WinGet\\Packages"@),
        res@.len() == 2 <==> platform == Platform::Windows && *local_app_data is Some
            && *program_files is Some,
{
    let told = text::texts(res@);
    assert(told.len() == res@.len());
    assert(forall|i: int| 0 <= i < res@.len() ==> #[trigger] told[i] == res@[i]@);
    if told.len() > 0 {
        assert(told[0] == res@[0]@ && told[told.len() - 1] == res@[res@.len() - 1]@);
    }
}

} // verus!
