//! The platforms that the program runs on, and how their file paths are read.

use crate::text;
use crate::text::{cat2, cat3, push_char, same};
use vstd::prelude::*;

verus! {

/// The platform that the program runs on.
#[derive(Debug, Clone, Copy, PartialEq, Eq, Structural)]
pub enum Platform {
    /// Windows.
    Windows,
    /// macOS.
    MacOs,
    /// Linux and the other Unix systems.
    Unix,
    /// Anything else.
    Other,
}

// ---- prefixes and roots ----

/// Whether a character is a slash.
pub open spec fn is_slash(platform: Platform, c: char) -> bool {
    c == '/' || (platform == Platform::Windows && c == '\\')
}

/// Whether a path is verbatim: it begins with `\\?\`.  In such a path only backslashes separate
/// components, and `.` is a component.
pub open spec fn is_verbatim(platform: Platform, path: Seq<char>) -> bool {
    platform == Platform::Windows && path.len() >= 4 && path[0] == '\\' && path[1] == '\\'
        && path[2] == '?' && path[3] == '\\'
}

/// Whether a character separates components, in a verbatim path or another one.
pub open spec fn separates(platform: Platform, verbatim: bool, c: char) -> bool {
    is_slash(platform, c) && !(verbatim && c == '/')
}

/// Where the component that `from` lies in ends.
pub open spec fn component_end(
    platform: Platform,
    verbatim: bool,
    path: Seq<char>,
    from: int,
) -> int
    decreases path.len() - from,
{
    if from >= path.len() {
        path.len() as int
    } else if separates(platform, verbatim, path[from]) {
        from
    } else {
        component_end(platform, verbatim, path, from + 1)
    }
}

/// Whether a drive stands at `at`: an ASCII letter and a colon.
pub open spec fn drive_at(path: Seq<char>, at: int) -> bool {
    path.len() >= at + 2 && (('a' <= path[at] && path[at] <= 'z') || ('A' <= path[at] && path[at]
        <= 'Z')) && path[at + 1] == ':'
}

/// How many characters name a server and a share, the server from `from` on; a share is named only
/// behind a server.
pub open spec fn share_end(platform: Platform, verbatim: bool, path: Seq<char>, from: int) -> int {
    let server = component_end(platform, verbatim, path, from);
    let share = component_end(platform, verbatim, path, server + 1);
    if share > server + 1 {
        share
    } else {
        server
    }
}

/// How many characters of a path are its prefix, which only a path on Windows has: a drive (`C:`); a
/// server and a share (`\\server\share`); a device (`\\.\NAME`); or, in a verbatim path, what stands
/// behind `\\?\`: `UNC` with a server and a share, a drive, or any other component.
pub open spec fn prefix_len(platform: Platform, path: Seq<char>) -> int {
    if platform != Platform::Windows {
        0
    } else if is_verbatim(platform, path) {
        if path.len() >= 8 && path[4] == 'U' && path[5] == 'N' && path[6] == 'C' && path[7]
            == '\\' {
            share_end(platform, true, path, 8)
        } else if drive_at(path, 4) && (path.len() == 6 || is_slash(platform, path[6])) {
            6
        } else {
            component_end(platform, true, path, 4)
        }
    } else if path.len() >= 2 && is_slash(platform, path[0]) && is_slash(platform, path[1]) {
        if path.len() >= 4 && path[2] == '.' && is_slash(platform, path[3]) {
            component_end(platform, false, path, 4)
        } else {
            let server = component_end(platform, false, path, 2);
            let share = share_end(platform, false, path, 2);
            if server > 2 && share > server {
                share
            } else {
                0
            }
        }
    } else if drive_at(path, 0) {
        2
    } else {
        0
    }
}

/// How many characters of a path stand before its components: its prefix, and a slash behind it.
pub open spec fn root_len(platform: Platform, path: Seq<char>) -> int {
    let prefix = prefix_len(platform, path);
    if prefix < path.len() && is_slash(platform, path[prefix]) {
        prefix + 1
    } else {
        prefix
    }
}

/// Whether a path has a root directory: a slash stands behind its prefix, or the prefix is a share
/// or a device of a path that is not verbatim, which has one without it.
pub open spec fn is_rooted(platform: Platform, path: Seq<char>) -> bool {
    let prefix = prefix_len(platform, path);
    root_len(platform, path) > prefix || (prefix > 0 && is_slash(platform, path[0]) && !is_verbatim(
        platform,
        path,
    ))
}

/// The prefix of a path as it is compared: the letter of a drive is made small, and where the path is
/// not verbatim every slash is the same.
pub open spec fn prefix_key(platform: Platform, path: Seq<char>) -> Seq<char> {
    let prefix = prefix_len(platform, path);
    let verbatim = is_verbatim(platform, path);
    Seq::new(
        prefix as nat,
        |i: int|
            if (i == 0 && prefix == 2) || (i == 4 && verbatim && prefix == 6 && path[5] == ':') {
                text::lower_char(path[i])
            } else if is_slash(platform, path[i]) && !verbatim {
                '/'
            } else {
                path[i]
            },
    )
}

fn slash(platform: Platform, c: char) -> (res: bool)
    ensures
        res == is_slash(platform, c),
{
    c == '/' || (platform == Platform::Windows && c == '\\')
}

fn separator(platform: Platform, verbatim: bool, c: char) -> (res: bool)
    ensures
        res == separates(platform, verbatim, c),
{
    slash(platform, c) && !(verbatim && c == '/')
}

fn has_verbatim_prefix(platform: Platform, chars: &[char]) -> (res: bool)
    ensures
        res == is_verbatim(platform, chars@),
{
    platform == Platform::Windows && chars.len() >= 4 && chars[0] == '\\' && chars[1] == '\\'
        && chars[2] == '?' && chars[3] == '\\'
}

fn find_component_end(platform: Platform, verbatim: bool, chars: &[char], from: usize) -> (res:
    usize)
    ensures
        res == component_end(platform, verbatim, chars@, from as int),
        res <= chars@.len(),
        from <= chars@.len() ==> from <= res,
{
    let mut i: usize = from;
    while i < chars.len() && !separator(platform, verbatim, chars[i])
        invariant
            from <= i,
            from <= chars@.len() ==> i <= chars@.len(),
            component_end(platform, verbatim, chars@, i as int) == component_end(
                platform,
                verbatim,
                chars@,
                from as int,
            ),
        decreases chars@.len() - i,
    {
        i += 1;
    }
    if i < chars.len() {
        i
    } else {
        chars.len()
    }
}

fn is_drive_at(chars: &[char], at: usize) -> (res: bool)
    requires
        at <= 4,
    ensures
        res == drive_at(chars@, at as int),
{
    chars.len() >= at + 2 && (('a' <= chars[at] && chars[at] <= 'z') || ('A' <= chars[at]
        && chars[at] <= 'Z')) && chars[at + 1] == ':'
}

fn find_share_end(platform: Platform, verbatim: bool, chars: &[char], from: usize) -> (res: usize)
    requires
        from <= chars@.len(),
    ensures
        res == share_end(platform, verbatim, chars@, from as int),
        from <= res <= chars@.len(),
{
    let server: usize = find_component_end(platform, verbatim, chars, from);
    if server >= chars.len() {
        return server;
    }
    let share: usize = find_component_end(platform, verbatim, chars, server + 1);
    if share > server + 1 {
        share
    } else {
        server
    }
}

fn prefix_length(platform: Platform, chars: &[char]) -> (res: usize)
    ensures
        res == prefix_len(platform, chars@),
        res <= chars@.len(),
{
    let len: usize = chars.len();
    if platform != Platform::Windows {
        0
    } else if has_verbatim_prefix(platform, chars) {
        if len >= 8 && chars[4] == 'U' && chars[5] == 'N' && chars[6] == 'C' && chars[7] == '\\' {
            find_share_end(platform, true, chars, 8)
        } else if is_drive_at(chars, 4) && (len == 6 || slash(platform, chars[6])) {
            6
        } else {
            find_component_end(platform, true, chars, 4)
        }
    } else if len >= 2 && slash(platform, chars[0]) && slash(platform, chars[1]) {
        if len >= 4 && chars[2] == '.' && slash(platform, chars[3]) {
            find_component_end(platform, false, chars, 4)
        } else {
            let server: usize = find_component_end(platform, false, chars, 2);
            let share: usize = find_share_end(platform, false, chars, 2);
            if server > 2 && share > server {
                share
            } else {
                0
            }
        }
    } else if is_drive_at(chars, 0) {
        2
    } else {
        0
    }
}

fn root_length(platform: Platform, chars: &[char]) -> (res: usize)
    ensures
        res == root_len(platform, chars@),
        prefix_len(platform, chars@) <= res <= chars@.len(),
{
    let prefix: usize = prefix_length(platform, chars);
    if prefix < chars.len() && slash(platform, chars[prefix]) {
        prefix + 1
    } else {
        prefix
    }
}

fn has_root(platform: Platform, chars: &[char]) -> (res: bool)
    ensures
        res == is_rooted(platform, chars@),
{
    let prefix: usize = prefix_length(platform, chars);
    root_length(platform, chars) > prefix || (prefix > 0 && slash(platform, chars[0])
        && !has_verbatim_prefix(platform, chars))
}

fn prefix_key_of(platform: Platform, chars: &[char]) -> (res: String)
    ensures
        res@ == prefix_key(platform, chars@),
{
    let prefix: usize = prefix_length(platform, chars);
    let verbatim = has_verbatim_prefix(platform, chars);
    let mut key = String::new();
    let mut i: usize = 0;
    let ghost wanted = prefix_key(platform, chars@);
    while i < prefix
        invariant
            i <= prefix <= chars@.len(),
            prefix == prefix_len(platform, chars@),
            verbatim == is_verbatim(platform, chars@),
            wanted == prefix_key(platform, chars@),
            key@ == wanted.take(i as int),
        decreases prefix - i,
    {
        let c = chars[i];
        if (i == 0 && prefix == 2) || (i == 4 && verbatim && prefix == 6 && chars[5] == ':') {
            push_char(&mut key, text::to_lower_char(c));
        } else if slash(platform, c) && !verbatim {
            push_char(&mut key, '/');
        } else {
            push_char(&mut key, c);
        }
        i += 1;
        assert(key@ =~= wanted.take(i as int));
    }
    assert(key@ =~= wanted);
    key
}

// ---- parents ----

/// Where the component before `end` begins: behind the last separator, or behind the root.
pub open spec fn name_start(
    platform: Platform,
    verbatim: bool,
    root: int,
    path: Seq<char>,
    end: int,
) -> int
    decreases end - root,
{
    if end <= root {
        root
    } else if separates(platform, verbatim, path[end - 1]) {
        end
    } else {
        name_start(platform, verbatim, root, path, end - 1)
    }
}

/// Whether the character before `end` is a `.` that is no component: it stands alone between
/// separators or behind the root, and the path is not verbatim.
pub open spec fn idle_dot(
    platform: Platform,
    verbatim: bool,
    root: int,
    path: Seq<char>,
    end: int,
) -> bool {
    !verbatim && path[end - 1] == '.' && if end - 1 == root {
        root > 0
    } else {
        separates(platform, verbatim, path[end - 2])
    }
}

/// Where the last component before `end` ends: before separators and before every `.` that is no
/// component.
pub open spec fn name_end(
    platform: Platform,
    verbatim: bool,
    root: int,
    path: Seq<char>,
    end: int,
) -> int
    decreases end - root,
{
    if end <= root {
        root
    } else if separates(platform, verbatim, path[end - 1]) || idle_dot(
        platform,
        verbatim,
        root,
        path,
        end,
    ) {
        name_end(platform, verbatim, root, path, end - 1)
    } else {
        end
    }
}

/// The path without its last component, if it has one behind its root.
pub open spec fn parent(platform: Platform, path: Seq<char>) -> Option<Seq<char>> {
    let verbatim = is_verbatim(platform, path);
    let root = root_len(platform, path);
    let end = name_end(platform, verbatim, root, path, path.len() as int);
    if end <= root {
        None
    } else {
        let start = name_start(platform, verbatim, root, path, end);
        Some(path.take(name_end(platform, verbatim, root, path, start)))
    }
}

fn find_name_end(platform: Platform, verbatim: bool, root: usize, chars: &[char], from: usize) -> (
    res: usize)
    requires
        root <= from <= chars@.len(),
    ensures
        res == name_end(platform, verbatim, root as int, chars@, from as int),
        root <= res <= from,
{
    let mut end: usize = from;
    while end > root && (separator(platform, verbatim, chars[end - 1]) || (!verbatim && chars[end
        - 1] == '.' && ((end - 1 == root && root > 0) || (end - 1 > root && separator(
        platform,
        verbatim,
        chars[end - 2],
    )))))
        invariant
            root <= end <= from <= chars@.len(),
            name_end(platform, verbatim, root as int, chars@, end as int) == name_end(
                platform,
                verbatim,
                root as int,
                chars@,
                from as int,
            ),
        decreases end,
    {
        end -= 1;
    }
    end
}

fn find_name_start(platform: Platform, verbatim: bool, root: usize, chars: &[char], end: usize) -> (
    res: usize)
    requires
        root <= end <= chars@.len(),
    ensures
        res == name_start(platform, verbatim, root as int, chars@, end as int),
        root <= res <= end,
{
    let mut start: usize = end;
    while start > root && !separator(platform, verbatim, chars[start - 1])
        invariant
            root <= start <= end <= chars@.len(),
            name_start(platform, verbatim, root as int, chars@, start as int) == name_start(
                platform,
                verbatim,
                root as int,
                chars@,
                end as int,
            ),
        decreases start,
    {
        start -= 1;
    }
    start
}

/// The path without its last component, if it has one behind its root.
pub fn parent_of(platform: Platform, path: &str) -> (res: Option<String>)
    ensures
        crate::error::shown(res) == parent(platform, path@),
{
    let chars = text::chars_of(path);
    let verbatim = has_verbatim_prefix(platform, &chars);
    let root: usize = root_length(platform, &chars);
    let end: usize = find_name_end(platform, verbatim, root, &chars, chars.len());
    if end <= root {
        return None;
    }
    let start: usize = find_name_start(platform, verbatim, root, &chars, end);
    let len: usize = find_name_end(platform, verbatim, root, &chars, start);
    assert(chars@.subrange(0, len as int) =~= path@.take(len as int));
    Some(text::from_chars(&chars, 0, len))
}

// ---- components ----

/// A text cut at every separator.
pub open spec fn pieces(platform: Platform, verbatim: bool, value: Seq<char>) -> Seq<Seq<char>>
    decreases value.len(),
{
    if value.len() == 0 {
        seq![Seq::empty()]
    } else {
        let before = pieces(platform, verbatim, value.drop_last());
        if separates(platform, verbatim, value.last()) {
            before.push(Seq::empty())
        } else {
            before.drop_last().push(before.last().push(value.last()))
        }
    }
}

/// The pieces that are components: not empty; and `.` only in a verbatim path, or at the start of one
/// that has neither prefix nor root.
pub open spec fn kept(pieces: Seq<Seq<char>>, verbatim: bool, bare: bool) -> Seq<Seq<char>>
    decreases pieces.len(),
{
    if pieces.len() == 0 {
        Seq::empty()
    } else {
        let before = kept(pieces.drop_last(), verbatim, bare);
        if pieces.last().len() == 0 || (pieces.last() == "."@ && !verbatim && !(bare && pieces.len()
            == 1)) {
            before
        } else {
            before.push(pieces.last())
        }
    }
}

/// The components of a path behind its prefix and its root.
pub open spec fn body(platform: Platform, path: Seq<char>) -> Seq<Seq<char>> {
    let verbatim = is_verbatim(platform, path);
    let root = root_len(platform, path);
    kept(pieces(platform, verbatim, path.skip(root)), verbatim, root == 0)
}

/// The components of a path as they are compared: its prefix, its root, and the others.
pub open spec fn components(platform: Platform, path: Seq<char>) -> Seq<Seq<char>> {
    (if prefix_len(platform, path) > 0 {
        seq![prefix_key(platform, path)]
    } else {
        Seq::empty()
    }) + (if is_rooted(platform, path) {
        seq!["/"@]
    } else {
        Seq::empty()
    }) + body(platform, path)
}

/// The name of the file that a path leads to: its last component, behind the root.  It is empty
/// where there is none, and where the last component is `.` or `..`.
pub open spec fn file_name(platform: Platform, path: Seq<char>) -> Seq<char> {
    let parts = body(platform, path);
    if parts.len() == 0 || parts.last() == "."@ || parts.last() == ".."@ {
        Seq::empty()
    } else {
        parts.last()
    }
}

/// Whether a path lies in a directory, or is it.
pub open spec fn lies_in(platform: Platform, path: Seq<char>, dir: Seq<char>) -> bool {
    components(platform, dir).is_prefix_of(components(platform, path))
}

/// The components of a path behind its prefix and its root.
fn body_of(platform: Platform, chars: &[char]) -> (res: Vec<String>)
    ensures
        text::texts(res@) == body(platform, chars@),
{
    let verbatim = has_verbatim_prefix(platform, chars);
    let start: usize = root_length(platform, chars);
    let mut res: Vec<String> = Vec::new();
    let mut piece = String::new();
    let mut count: usize = 0;
    let mut i: usize = start;
    let ghost rest = chars@.skip(start as int);
    let ghost mut done: Seq<Seq<char>> = Seq::empty();
    proof {
        assert(rest.take(0) =~= Seq::empty());
        assert(done.push(piece@) =~= seq![Seq::<char>::empty()]);
        assert(text::texts(res@) =~= Seq::empty());
    }
    while i < chars.len()
        invariant
            start <= i <= chars@.len(),
            rest == chars@.skip(start as int),
            count == done.len(),
            count <= i - start,
            done.push(piece@) == pieces(platform, verbatim, rest.take(i - start)),
            text::texts(res@) == kept(done, verbatim, start == 0),
        decreases chars@.len() - i,
    {
        let c = chars[i];
        let ghost before = done.push(piece@);
        proof {
            assert(rest.take(i - start + 1).drop_last() =~= rest.take(i - start));
            assert(rest.take(i - start + 1).last() == c);
            assert(before.drop_last() =~= done);
        }
        if separator(platform, verbatim, c) {
            let skipped = same(&piece, "") || (same(&piece, ".") && !verbatim && !(start == 0
                && count == 0));
            proof {
                reveal_strlit("");
                assert(piece@.len() == 0 ==> piece@ =~= ""@);
                done = before;
            }
            if !skipped {
                text::push_line(&mut res, piece);
            }
            piece = String::new();
            count += 1;
            assert(done.push(piece@) =~= before.push(Seq::empty()));
        } else {
            push_char(&mut piece, c);
        }
        i += 1;
    }
    let skipped = same(&piece, "") || (same(&piece, ".") && !verbatim && !(start == 0 && count
        == 0));
    proof {
        reveal_strlit("");
        assert(piece@.len() == 0 ==> piece@ =~= ""@);
        assert(rest.take(i - start) =~= rest);
        assert(done.push(piece@).drop_last() =~= done);
    }
    if !skipped {
        text::push_line(&mut res, piece);
    }
    res
}

/// The components of a path as they are compared: its prefix, its root, and the others.
pub fn components_of(platform: Platform, path: &str) -> (res: Vec<String>)
    ensures
        text::texts(res@) == components(platform, path@),
{
    let chars = text::chars_of(path);
    let mut res: Vec<String> = Vec::new();
    assert(text::texts(res@) =~= Seq::empty());
    if prefix_length(platform, &chars) > 0 {
        text::push_line(&mut res, prefix_key_of(platform, &chars));
        assert(text::texts(res@) =~= seq![prefix_key(platform, path@)]);
    }
    let ghost prefix = text::texts(res@);
    if has_root(platform, &chars) {
        text::push_line(&mut res, "/".to_owned());
        assert(text::texts(res@) =~= prefix + seq!["/"@]);
    } else {
        assert(prefix + Seq::<Seq<char>>::empty() =~= prefix);
    }
    let body = body_of(platform, &chars);
    text::push_lines(&mut res, body);
    res
}

/// The name of the file that a path leads to: its last component, behind the root.  It is empty
/// where there is none, and where the last component is `.` or `..`.
pub fn file_name_of(platform: Platform, path: &str) -> (res: String)
    ensures
        res@ == file_name(platform, path@),
{
    let chars = text::chars_of(path);
    let mut parts = body_of(platform, &chars);
    let ghost all = text::texts(parts@);
    match parts.pop() {
        None => String::new(),
        Some(last) => {
            assert(last@ == all.last());
            if same(&last, ".") || same(&last, "..") {
                String::new()
            } else {
                last
            }
        },
    }
}

/// Whether a path lies in a directory, or is it.
pub fn is_in(platform: Platform, path: &str, dir: &str) -> (res: bool)
    ensures
        res == lies_in(platform, path@, dir@),
{
    let inner = components_of(platform, path);
    let outer = components_of(platform, dir);
    if outer.len() > inner.len() {
        return false;
    }
    let mut i: usize = 0;
    while i < outer.len()
        invariant
            i <= outer@.len() <= inner@.len(),
            text::texts(inner@) == components(platform, path@),
            text::texts(outer@) == components(platform, dir@),
            forall|k: int| 0 <= k < i ==> text::texts(outer@)[k] == text::texts(inner@)[k],
        decreases outer@.len() - i,
    {
        if !same(&outer[i], &inner[i]) {
            proof {
                let part = text::texts(inner@).subrange(0, outer@.len() as int);
                assert(part[i as int] == inner@[i as int]@);
                assert(text::texts(outer@)[i as int] == outer@[i as int]@);
            }
            return false;
        }
        i += 1;
    }
    assert(text::texts(inner@).subrange(0, outer@.len() as int) =~= text::texts(outer@));
    true
}

/// Whether two paths are the same, component by component.
pub open spec fn same_place(platform: Platform, left: Seq<char>, right: Seq<char>) -> bool {
    components(platform, left) == components(platform, right)
}

/// Whether two paths are the same, component by component.
pub fn same_path(platform: Platform, left: &str, right: &str) -> (res: bool)
    ensures
        res == same_place(platform, left@, right@),
{
    let a = components_of(platform, left);
    let b = components_of(platform, right);
    let ghost one = components(platform, left@);
    let ghost other = components(platform, right@);
    if a.len() != b.len() {
        assert(one.len() != other.len());
        return false;
    }
    let mut i: usize = 0;
    while i < a.len()
        invariant
            i <= a@.len() == b@.len(),
            one == text::texts(a@),
            other == text::texts(b@),
            one == components(platform, left@),
            other == components(platform, right@),
            forall|k: int| 0 <= k < i ==> one[k] == other[k],
        decreases a@.len() - i,
    {
        if !same(&a[i], &b[i]) {
            assert(one[i as int] != other[i as int]);
            return false;
        }
        i += 1;
    }
    assert(one =~= other);
    true
}

// ---- joining ----

/// The components that are reached from a directory by following those of a name: `.` stays where
/// it is, and `..` leaves the last one, if that is a name.
pub open spec fn followed(dir: Seq<Seq<char>>, name: Seq<Seq<char>>) -> Seq<Seq<char>>
    decreases name.len(),
{
    if name.len() == 0 {
        dir
    } else {
        let before = followed(dir, name.drop_last());
        if name.last() == "."@ {
            before
        } else if name.last() == ".."@ {
            if before.len() == 0 || before.last() == "."@ || before.last() == ".."@ {
                before
            } else {
                before.drop_last()
            }
        } else {
            before.push(name.last())
        }
    }
}

/// A name without prefix in a verbatim directory.  Nothing takes `.` and `..` out of a verbatim path
/// later, so they are followed here.
pub open spec fn joined_verbatim(platform: Platform, dir: Seq<char>, name: Seq<char>) -> Seq<char> {
    let rooted = is_rooted(platform, name);
    let parts = followed(
        if rooted {
            Seq::empty()
        } else {
            body(platform, dir)
        },
        body(platform, name),
    );
    dir.take(prefix_len(platform, dir)) + (if rooted || is_rooted(platform, dir) || parts.len()
        > 0 {
        "\\"@
    } else {
        ""@
    }) + text::joined(parts, "\\"@)
}

/// A name in a directory.  A name with a prefix stands for itself, and one that only begins with a
/// slash takes the prefix of the directory.
pub open spec fn joined(platform: Platform, dir: Seq<char>, name: Seq<char>) -> Seq<char> {
    if dir.len() == 0 || prefix_len(platform, name) > 0 {
        name
    } else if is_verbatim(platform, dir) && name.len() > 0 {
        joined_verbatim(platform, dir, name)
    } else if is_rooted(platform, name) {
        dir.take(prefix_len(platform, dir)) + name
    } else if is_slash(platform, dir.last()) || (dir.len() == 2 && prefix_len(platform, dir) == 2) {
        dir + name
    } else if platform == Platform::Windows {
        dir + "\\"@ + name
    } else {
        dir + "/"@ + name
    }
}

fn follow(dir: Vec<String>, name: &[String]) -> (res: Vec<String>)
    ensures
        text::texts(res@) == followed(text::texts(dir@), text::texts(name@)),
{
    let ghost from = text::texts(dir@);
    let ghost steps = text::texts(name@);
    let mut res = dir;
    let mut i: usize = 0;
    assert(steps.take(0) =~= Seq::empty());
    while i < name.len()
        invariant
            i <= name@.len(),
            steps == text::texts(name@),
            text::texts(res@) == followed(from, steps.take(i as int)),
        decreases name@.len() - i,
    {
        let ghost before = text::texts(res@);
        proof {
            assert(steps.take(i + 1).drop_last() =~= steps.take(i as int));
            assert(steps.take(i + 1).last() == name@[i as int]@);
            reveal_strlit(".");
            reveal_strlit("..");
            assert("."@ != ".."@) by {
                assert("."@.len() != ".."@.len());
            }
        }
        if same(&name[i], "..") {
            let n: usize = res.len();
            if n > 0 && !same(&res[n - 1], ".") && !same(&res[n - 1], "..") {
                assert(before.last() == res@[n - 1]@);
                res.pop();
                assert(text::texts(res@) =~= before.drop_last());
            } else {
                assert(n > 0 ==> before.last() == res@[n - 1]@);
            }
        } else if !same(&name[i], ".") {
            text::push_line(&mut res, name[i].clone());
        }
        i += 1;
    }
    assert(steps.take(i as int) =~= steps);
    res
}

fn join_verbatim(platform: Platform, dir: &str, name: &str) -> (res: String)
    ensures
        res@ == joined_verbatim(platform, dir@, name@),
{
    let outer = text::chars_of(dir);
    let inner = text::chars_of(name);
    let rooted = has_root(platform, &inner);
    let from = if rooted {
        Vec::new()
    } else {
        body_of(platform, &outer)
    };
    assert(rooted ==> text::texts(from@) =~= Seq::empty());
    let parts = follow(from, &body_of(platform, &inner));
    let prefix: usize = prefix_length(platform, &outer);
    let slash = if rooted || has_root(platform, &outer) || parts.len() > 0 {
        "\\"
    } else {
        ""
    };
    assert(outer@.subrange(0, prefix as int) =~= dir@.take(prefix as int));
    cat3(&text::from_chars(&outer, 0, prefix), slash, &text::join(&parts, "\\"))
}

/// A name in a directory.  A name with a prefix stands for itself, and one that only begins with a
/// slash takes the prefix of the directory.
pub fn join_path(platform: Platform, dir: &str, name: &str) -> (res: String)
    ensures
        res@ == joined(platform, dir@, name@),
{
    let outer = text::chars_of(dir);
    let inner = text::chars_of(name);
    if outer.len() == 0 || prefix_length(platform, &inner) > 0 {
        return name.to_owned();
    }
    if has_verbatim_prefix(platform, &outer) && inner.len() > 0 {
        return join_verbatim(platform, dir, name);
    }
    let prefix: usize = prefix_length(platform, &outer);
    if has_root(platform, &inner) {
        assert(outer@.subrange(0, prefix as int) =~= dir@.take(prefix as int));
        return cat2(&text::from_chars(&outer, 0, prefix), name);
    }
    if slash(platform, outer[outer.len() - 1]) || (outer.len() == 2 && prefix == 2) {
        cat2(dir, name)
    } else if platform == Platform::Windows {
        cat3(dir, "\\", name)
    } else {
        cat3(dir, "/", name)
    }
}

/// Lying in a directory is an order: every path lies in itself, two paths that lie in each other are
/// the same place, and a path lies in whatever a directory that it lies in lies in.
pub proof fn law_lying_in_is_an_order(
    platform: Platform,
    path: Seq<char>,
    dir: Seq<char>,
    outer: Seq<char>,
)
    ensures
        lies_in(platform, path, path),
        lies_in(platform, path, dir) && lies_in(platform, dir, path) ==> same_place(
            platform,
            path,
            dir,
        ),
        lies_in(platform, path, dir) && lies_in(platform, dir, outer) ==> lies_in(
            platform,
            path,
            outer,
        ),
{
    let p = components(platform, path);
    let d = components(platform, dir);
    let o = components(platform, outer);
    assert(p.subrange(0, p.len() as int) =~= p);
    if lies_in(platform, path, dir) && lies_in(platform, dir, path) {
        assert(p =~= d);
    }
    if lies_in(platform, path, dir) && lies_in(platform, dir, outer) {
        assert(p.subrange(0, o.len() as int) =~= p.subrange(0, d.len() as int).subrange(
            0,
            o.len() as int,
        ));
    }
}

proof fn lemma_pieces(platform: Platform, a: Seq<char>, c: char, name: Seq<char>)
    requires
        separates(platform, false, c),
        forall|k: int| 0 <= k < name.len() ==> !is_slash(platform, #[trigger] name[k]),
    ensures
        pieces(platform, false, a + seq![c] + name) == pieces(platform, false, a).push(name),
        pieces(platform, false, a).len() > 0,
    decreases name.len(),
{
    let whole = a + seq![c] + name;
    lemma_pieces_some(platform, a);
    if name.len() == 0 {
        assert(whole.drop_last() =~= a);
        assert(name =~= Seq::empty());
    } else {
        let rest = name.drop_last();
        assert forall|k: int| 0 <= k < rest.len() implies !is_slash(platform, #[trigger] rest[k]) by {
            assert(rest[k] == name[k]);
        }
        lemma_pieces(platform, a, c, rest);
        assert(whole.drop_last() =~= a + seq![c] + rest);
        assert(whole.last() == name.last());
        assert(name.last() == name[name.len() - 1]);
        assert(rest.push(name.last()) =~= name);
        assert(pieces(platform, false, whole) =~= pieces(platform, false, a).push(name));
    }
}

proof fn lemma_pieces_some(platform: Platform, a: Seq<char>)
    ensures
        pieces(platform, false, a).len() > 0,
    decreases a.len(),
{
    if a.len() > 0 {
        lemma_pieces_some(platform, a.drop_last());
    }
}

/// Whether a text is the name of a file: it is not empty, it holds no slash, and it is neither `.`
/// nor `..`.
pub open spec fn is_name(platform: Platform, name: Seq<char>) -> bool {
    &&& name.len() > 0
    &&& name != "."@
    &&& name != ".."@
    &&& forall|k: int| 0 <= k < name.len() ==> !is_slash(platform, #[trigger] name[k])
}

/// Whether a path is given from the root of a drive, or is not one of Windows.
pub open spec fn is_plain(platform: Platform, path: Seq<char>) -> bool {
    path.len() > 0 && (platform == Platform::Windows ==> path.len() >= 3 && drive_at(path, 0)
        && is_slash(platform, path[2]))
}

/// A name behind a directory and a slash is one more component: it is the name of the file, what is
/// left without it is the directory, and it lies in the directory, and in whatever the directory lies
/// in.  Two such paths are the same place only if the names are the same.
pub proof fn law_a_name_in_a_directory(
    platform: Platform,
    dir: Seq<char>,
    c: char,
    name: Seq<char>,
    other: Seq<char>,
    outer: Seq<char>,
)
    requires
        c == '/' || (platform == Platform::Windows && c == '\\'),
        is_plain(platform, dir),
        !is_slash(platform, dir.last()),
        is_name(platform, name),
        is_name(platform, other),
    ensures
        file_name(platform, dir + seq![c] + name) == name,
        lies_in(platform, dir + seq![c] + name, dir),
        !lies_in(platform, dir, dir + seq![c] + name),
        lies_in(platform, dir, outer) ==> lies_in(platform, dir + seq![c] + name, outer),
        same_place(platform, dir + seq![c] + name, dir + seq![c] + other) <==> name == other,
        components(platform, dir + seq![c] + name) == components(platform, dir).push(name),
{
    lemma_one_more(platform, dir, c, name);
    lemma_one_more(platform, dir, c, other);
    let d = components(platform, dir);
    let p = components(platform, dir + seq![c] + name);
    assert(p.subrange(0, d.len() as int) =~= d);
    if lies_in(platform, dir, outer) {
        let o = components(platform, outer);
        assert(p.subrange(0, o.len() as int) =~= d.subrange(0, o.len() as int));
    }
    assert(d.push(name)[d.len() as int] == name);
    assert(d.push(other)[d.len() as int] == other);
}

proof fn lemma_one_more(platform: Platform, dir: Seq<char>, c: char, name: Seq<char>)
    requires
        c == '/' || (platform == Platform::Windows && c == '\\'),
        is_plain(platform, dir),
        !is_slash(platform, dir.last()),
        is_name(platform, name),
    ensures
        components(platform, dir + seq![c] + name) == components(platform, dir).push(name),
        body(platform, dir + seq![c] + name) == body(platform, dir).push(name),
{
    let path = dir + seq![c] + name;
    let root = root_len(platform, dir);
    assert(prefix_len(platform, path) == prefix_len(platform, dir));
    assert(root_len(platform, path) == root);
    assert(!is_verbatim(platform, dir) && !is_verbatim(platform, path));
    assert(path.skip(root) =~= dir.skip(root) + seq![c] + name);
    lemma_pieces(platform, dir.skip(root), c, name);
    let before = pieces(platform, false, dir.skip(root));
    assert(before.push(name).drop_last() =~= before);
    assert(body(platform, path) =~= body(platform, dir).push(name));
    assert(prefix_key(platform, path) =~= prefix_key(platform, dir));
    assert(components(platform, path) =~= components(platform, dir).push(name));
}

/// What joins a name to a directory: the slash of the platform, where none stands there yet.
pub proof fn law_joining_a_name(platform: Platform, dir: &str, name: &str, res: String)
    requires
        call_ensures(join_path, (platform, dir, name), res),
        is_plain(platform, dir@),
        is_name(platform, name@),
        prefix_len(platform, name@) == 0,
    ensures
        res@ == (if is_slash(platform, dir@.last()) {
            dir@ + name@
        } else if platform == Platform::Windows {
            dir@ + seq!['\\'] + name@
        } else {
            dir@ + seq!['/'] + name@
        }),
        !is_slash(platform, dir@.last()) ==> file_name(platform, res@) == name@ && lies_in(
            platform,
            res@,
            dir@,
        ),
{
    reveal_strlit("\\");
    reveal_strlit("/");
    assert("\\"@ =~= seq!['\\']);
    assert("/"@ =~= seq!['/']);
    if !is_slash(platform, dir@.last()) {
        let c = if platform == Platform::Windows {
            '\\'
        } else {
            '/'
        };
        law_a_name_in_a_directory(platform, dir@, c, name@, name@, dir@);
    }
}

proof fn lemma_start_of_name(platform: Platform, root: int, path: Seq<char>, start: int, end: int)
    requires
        root <= start <= end <= path.len(),
        start > root,
        is_slash(platform, path[start - 1]),
        forall|k: int| start <= k < end ==> !is_slash(platform, #[trigger] path[k]),
    ensures
        name_start(platform, false, root, path, end) == start,
    decreases end - start,
{
    if end > start {
        lemma_start_of_name(platform, root, path, start, end - 1);
    }
}

/// The path without its last component is the directory that the component stands in.
pub proof fn law_the_parent_is_the_directory(
    platform: Platform,
    dir: Seq<char>,
    c: char,
    name: Seq<char>,
    path: &str,
    res: Option<String>,
)
    requires
        call_ensures(parent_of, (platform, path), res),
        path@ == dir + seq![c] + name,
        c == '/' || (platform == Platform::Windows && c == '\\'),
        is_plain(platform, dir),
        !is_slash(platform, dir.last()),
        dir.last() != '.',
        is_name(platform, name),
        name.last() != '.',
    ensures
        res matches Some(found) && found@ == dir,
{
    let root = root_len(platform, dir);
    let whole = path@;
    let start = dir.len() as int + 1;
    assert(prefix_len(platform, whole) == prefix_len(platform, dir));
    assert(root_len(platform, whole) == root);
    assert(whole.last() == name.last());
    assert(name.last() == name[name.len() - 1]);
    assert(whole[whole.len() - 1] == name[name.len() - 1]);
    assert(name_end(platform, false, root, whole, whole.len() as int) == whole.len());
    assert forall|k: int| start <= k < whole.len() implies !is_slash(platform, #[trigger] whole[k]) by {
        assert(whole[k] == name[k - start]);
    }
    assert(whole[start - 1] == c);
    lemma_start_of_name(platform, root, whole, start, whole.len() as int);
    assert(whole[dir.len() - 1] == dir.last());
    assert(name_end(platform, false, root, whole, start - 1) == dir.len());
    assert(name_end(platform, false, root, whole, start) == dir.len());
    assert(whole.take(dir.len() as int) =~= dir);
}

/// A path names its drive by the letter, in either case.
pub proof fn law_the_case_of_a_drive_does_not_matter(one: char, other: char, rest: Seq<char>)
    requires
        rest.len() > 0,
        rest[0] == ':',
        'A' <= one && one <= 'Z',
        other == one || other as u32 == one as u32 + 0x20,
    ensures
        same_place(Platform::Windows, seq![one] + rest, seq![other] + rest),
{
    let a = seq![one] + rest;
    let b = seq![other] + rest;
    assert('a' <= other && other <= 'z' || other == one) by {
        assert(one as u32 >= 0x41 && one as u32 <= 0x5A);
    }
    assert(drive_at(a, 0));
    assert(drive_at(b, 0));
    assert(prefix_len(Platform::Windows, a) == 2);
    assert(prefix_len(Platform::Windows, b) == 2);
    assert(text::lower_char(one) == text::lower_char(other));
    assert(prefix_key(Platform::Windows, a) =~= prefix_key(Platform::Windows, b));
    let root = root_len(Platform::Windows, a);
    assert(root_len(Platform::Windows, b) == root);
    assert(a.skip(root) =~= b.skip(root));
}

} // verus!
