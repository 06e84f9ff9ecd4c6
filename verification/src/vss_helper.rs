//! The broker's side of the snapshot helper process: its command line, its control pipe and what
//! its events mean.
//!
//! One helper process is spawned per snapshot and kept for the lifetime of the lease.  It reports
//! its events one per line; the broker spawns it, reads the lines and asks here what they come to.

use crate::snapshot_lease::{SnapshotHandle, VssError};
use crate::text;
use crate::text::{cat2, cat6, chars_of, push_char, show_hex, show_i64, show_u64};
use vstd::prelude::*;
use vstd::string::*;

verus! {

// ---- quoting ----

/// An argument as it stands between its quotes.  A run of backslashes is literal unless a quote
/// follows it, so a run before an embedded quote, or before the closing one, is doubled; an
/// embedded quote gets one backslash more.
pub open spec fn escaped(arg: Seq<char>) -> Seq<char>
    decreases arg.len(),
{
    escaped_after(0, arg)
}

/// As [`escaped`], with `pending` backslashes before `arg`.
pub open spec fn escaped_after(pending: nat, arg: Seq<char>) -> Seq<char>
    decreases arg.len(),
{
    if arg.len() == 0 {
        text::repeated('\\', pending * 2)
    } else if arg[0] == '\\' {
        escaped_after(pending + 1, arg.drop_first())
    } else if arg[0] == '"' {
        text::repeated('\\', pending * 2 + 1) + seq!['"'] + escaped_after(0, arg.drop_first())
    } else {
        text::repeated('\\', pending) + seq![arg[0]] + escaped_after(0, arg.drop_first())
    }
}

/// An argument in quotes, as a command line holds it.
pub open spec fn quoted(arg: Seq<char>) -> Seq<char> {
    seq!['"'] + escaped(arg) + seq!['"']
}

/// Quote `arg` for a Windows command line, by the rules that the program at the other end takes it
/// apart with.
pub fn quote_windows_arg(arg: &str) -> (res: String)
    ensures
        res@ == quoted(arg@),
{
    let chars = chars_of(arg);
    let mut res = String::new();
    push_char(&mut res, '"');
    let mut pending: usize = 0;
    let mut i: usize = 0;
    proof {
        assert(arg@.skip(0) =~= arg@);
        assert(res@ + escaped_after(0, arg@) =~= seq!['"'] + escaped(arg@));
    }
    while i < chars.len()
        invariant
            i <= chars@.len(),
            pending <= i,
            chars@ == arg@,
            res@ + escaped_after(pending as nat, arg@.skip(i as int)) == seq!['"'] + escaped(arg@),
        decreases chars@.len() - i,
    {
        let ghost before = res@;
        let ghost rest = arg@.skip(i as int);
        proof {
            assert(rest.drop_first() =~= arg@.skip(i + 1));
        }
        let c = chars[i];
        if c == '\\' {
            pending += 1;
        } else if c == '"' {
            text::push_repeated(&mut res, '\\', pending);
            text::push_repeated(&mut res, '\\', pending);
            push_char(&mut res, '\\');
            push_char(&mut res, '"');
            proof {
                let tail = escaped_after(0, rest.drop_first());
                assert(res@ + tail =~= before + (text::repeated('\\', (pending * 2 + 1) as nat)
                    + seq!['"'] + tail));
            }
            pending = 0;
        } else {
            text::push_repeated(&mut res, '\\', pending);
            push_char(&mut res, c);
            proof {
                let tail = escaped_after(0, rest.drop_first());
                assert(res@ + tail =~= before + (text::repeated('\\', pending as nat) + seq![c]
                    + tail));
            }
            pending = 0;
        }
        i += 1;
    }
    assert(arg@.skip(i as int) =~= Seq::empty());
    let ghost before = res@;
    text::push_repeated(&mut res, '\\', pending);
    text::push_repeated(&mut res, '\\', pending);
    assert(res@ =~= before + text::repeated('\\', (pending * 2) as nat));
    push_char(&mut res, '"');
    assert(res@ =~= quoted(arg@));
    res
}

/// Whether an argument that was closed before `rest` ends there: nothing follows, or white space.
pub open spec fn ends_argument(rest: Seq<char>) -> bool {
    rest.len() == 0 || rest[0] == ' ' || rest[0] == '\t'
}

/// How the program at the other end reads a quoted argument, behind its opening quote: the argument
/// and what follows its closing quote.  `pending` is the run of backslashes just read.  Before a
/// quote, two backslashes stand for one, and a single one left over makes the quote literal.  It is
/// `None` if the quote is never closed, and also where the argument goes on directly behind the
/// closing quote, with another quote or any other character.
pub open spec fn read_quoted(pending: nat, input: Seq<char>) -> Option<(Seq<char>, Seq<char>)>
    decreases input.len(),
{
    if input.len() == 0 {
        None
    } else if input[0] == '\\' {
        read_quoted(pending + 1, input.drop_first())
    } else if input[0] == '"' {
        if pending % 2 == 0 {
            if ends_argument(input.drop_first()) {
                Some((text::repeated('\\', pending / 2), input.drop_first()))
            } else {
                None
            }
        } else {
            match read_quoted(0, input.drop_first()) {
                Some((arg, rest)) => Some(
                    (text::repeated('\\', pending / 2) + seq!['"'] + arg, rest),
                ),
                None => None,
            }
        }
    } else {
        match read_quoted(0, input.drop_first()) {
            Some((arg, rest)) => Some((text::repeated('\\', pending) + seq![input[0]] + arg, rest)),
            None => None,
        }
    }
}

proof fn lemma_read_run(pending: nat, count: nat, input: Seq<char>)
    ensures
        read_quoted(pending, text::repeated('\\', count) + input) == read_quoted(
            pending + count,
            input,
        ),
    decreases count,
{
    let run = text::repeated('\\', count) + input;
    if count == 0 {
        assert(run =~= input);
    } else {
        assert(run.drop_first() =~= text::repeated('\\', (count - 1) as nat) + input);
        lemma_read_run(pending + 1, (count - 1) as nat, input);
    }
}

proof fn lemma_read_escaped(pending: nat, arg: Seq<char>, tail: Seq<char>)
    requires
        ends_argument(tail),
    ensures
        read_quoted(0, escaped_after(pending, arg) + (seq!['"'] + tail)) == Some(
            (text::repeated('\\', pending) + arg, tail),
        ),
    decreases arg.len(),
{
    let close = seq!['"'] + tail;
    assert(close.drop_first() =~= tail);
    if arg.len() == 0 {
        lemma_read_run(0, pending * 2, close);
        assert(text::repeated('\\', pending) + arg =~= text::repeated('\\', pending));
    } else {
        let rest = escaped_after(0, arg.drop_first());
        lemma_read_escaped(0, arg.drop_first(), tail);
        assert(text::repeated('\\', 0) + arg.drop_first() =~= arg.drop_first());
        if arg[0] == '\\' {
            lemma_read_escaped(pending + 1, arg.drop_first(), tail);
            assert(text::repeated('\\', pending + 1) + arg.drop_first() =~= text::repeated(
                '\\',
                pending,
            ) + arg);
        } else if arg[0] == '"' {
            let head = seq!['"'] + (rest + close);
            assert(escaped_after(pending, arg) + close =~= text::repeated('\\', pending * 2 + 1)
                + head);
            lemma_read_run(0, pending * 2 + 1, head);
            assert(head.drop_first() =~= rest + close);
            assert((pending * 2 + 1) / 2 == pending);
            assert(text::repeated('\\', pending) + seq!['"'] + arg.drop_first() =~= text::repeated(
                '\\',
                pending,
            ) + arg);
        } else {
            let head = seq![arg[0]] + (rest + close);
            assert(escaped_after(pending, arg) + close =~= text::repeated('\\', pending) + head);
            lemma_read_run(0, pending, head);
            assert(head.drop_first() =~= rest + close);
            assert(text::repeated('\\', pending) + seq![arg[0]] + arg.drop_first()
                =~= text::repeated('\\', pending) + arg);
        }
    }
}

/// A quoted argument that stands last on a command line or before white space is read back as it
/// was, and what follows it stays outside of it.
pub proof fn law_quoted_argument_is_read_back(arg: Seq<char>, tail: Seq<char>)
    requires
        ends_argument(tail),
    ensures
        (quoted(arg) + tail)[0] == '"',
        read_quoted(0, (quoted(arg) + tail).drop_first()) == Some((arg, tail)),
{
    assert((quoted(arg) + tail).drop_first() =~= escaped(arg) + (seq!['"'] + tail));
    lemma_read_escaped(0, arg, tail);
    assert(text::repeated('\\', 0) + arg =~= arg);
}

// ---- UTF-16 ----

/// The UTF-16 units of a character.
pub open spec fn utf16_units(c: char) -> Seq<u16> {
    let n = c as u32 as int;
    if n < 0x1_0000 {
        seq![n as u16]
    } else {
        seq![
            (0xD800 + (n - 0x1_0000) / 0x400) as u16,
            (0xDC00 + (n - 0x1_0000) % 0x400) as u16,
        ]
    }
}

/// A text in UTF-16.
pub open spec fn utf16(value: Seq<char>) -> Seq<u16>
    decreases value.len(),
{
    if value.len() == 0 {
        Seq::empty()
    } else {
        utf16(value.drop_last()) + utf16_units(value.last())
    }
}

/// The UTF-16 units of a text.
pub fn encode_utf16(value: &str) -> (res: Vec<u16>)
    ensures
        res@ == utf16(value@),
{
    let chars = chars_of(value);
    let mut res: Vec<u16> = Vec::new();
    let mut i: usize = 0;
    while i < chars.len()
        invariant
            i <= chars@.len(),
            chars@ == value@,
            res@ == utf16(value@.take(i as int)),
        decreases chars@.len() - i,
    {
        let ghost before = res@;
        let n: u32 = chars[i] as u32;
        if n < 0x1_0000 {
            res.push(n as u16);
        } else {
            res.push((0xD800 + (n - 0x1_0000) / 0x400) as u16);
            res.push((0xDC00 + (n - 0x1_0000) % 0x400) as u16);
        }
        proof {
            assert(value@.take(i + 1).drop_last() =~= value@.take(i as int));
            assert(res@ =~= before + utf16_units(chars@[i as int]));
        }
        i += 1;
    }
    assert(value@.take(i as int) =~= value@);
    res
}

/// The little-endian bytes of UTF-16 units.
pub open spec fn unit_bytes(units: Seq<u16>) -> Seq<u8>
    decreases units.len(),
{
    if units.len() == 0 {
        Seq::empty()
    } else {
        unit_bytes(units.drop_last()) + seq![
            (units.last() % 256) as u8,
            (units.last() / 256) as u8,
        ]
    }
}

/// Encode `path` as lossless UTF-16LE, the form in which a requested root travels.
pub fn utf16le_bytes(path: &str) -> (res: Vec<u8>)
    ensures
        res@ == unit_bytes(utf16(path@)),
{
    let units = encode_utf16(path);
    let mut res: Vec<u8> = Vec::new();
    let mut i: usize = 0;
    while i < units.len()
        invariant
            i <= units@.len(),
            res@ == unit_bytes(units@.take(i as int)),
        decreases units@.len() - i,
    {
        let ghost before = res@;
        res.push((units[i] % 256) as u8);
        res.push((units[i] / 256) as u8);
        proof {
            assert(units@.take(i + 1).drop_last() =~= units@.take(i as int));
            assert(res@ =~= before + seq![
                (units@[i as int] % 256) as u8,
                (units@[i as int] / 256) as u8,
            ]);
        }
        i += 1;
    }
    assert(units@.take(i as int) =~= units@);
    res
}

/// The text that UTF-16 units stand for, or `None` where a surrogate has no partner.
pub open spec fn text_of_units(units: Seq<u16>) -> Option<Seq<char>>
    decreases units.len(),
{
    if units.len() == 0 {
        Some(Seq::empty())
    } else {
        let first = units[0] as int;
        if first < 0xD800 || first > 0xDFFF {
            match text_of_units(units.drop_first()) {
                Some(rest) => Some(seq![first as char] + rest),
                None => None,
            }
        } else if first <= 0xDBFF && units.len() >= 2 && 0xDC00 <= units[1] <= 0xDFFF {
            match text_of_units(units.skip(2)) {
                Some(rest) => Some(
                    seq![(0x1_0000 + (first - 0xD800) * 0x400 + (units[1] - 0xDC00)) as char] + rest,
                ),
                None => None,
            }
        } else {
            None
        }
    }
}

/// The units that some bytes hold, low byte first.
pub open spec fn units_of_bytes(bytes: Seq<u8>) -> Seq<u16> {
    Seq::new(
        (bytes.len() / 2) as nat,
        |i: int| (bytes[2 * i] as int + 256 * bytes[2 * i + 1] as int) as u16,
    )
}

/// The text that some bytes stand for in UTF-16LE.
pub open spec fn utf16le_text(bytes: Seq<u8>) -> Option<Seq<char>> {
    if bytes.len() % 2 != 0 {
        None
    } else {
        text_of_units(units_of_bytes(bytes))
    }
}

/// The character with a code point, by `char::from_u32`: there is one exactly for the code points
/// up to `0x10FFFF` that are no surrogates, and it has that code point.
#[verifier::external_body]
fn char_from_u32(code: u32) -> (res: Option<char>)
    ensures
        res is Some == (code < 0xD800 || (0xE000 <= code && code <= 0x10_FFFF)),
        res is Some ==> res->Some_0 as u32 == code,
{
    char::from_u32(code)
}

proof fn lemma_text_of_units_step(units: Seq<u16>, done: Seq<char>, i: int, c: char, used: int)
    requires
        0 <= i < i + used <= units.len(),
        match text_of_units(units.skip(i)) {
            Some(rest) => match text_of_units(units.skip(i + used)) {
                Some(behind) => rest == seq![c] + behind,
                None => false,
            },
            None => text_of_units(units.skip(i + used)) is None,
        },
        match text_of_units(units) {
            Some(all) => text_of_units(units.skip(i)) is Some && all == done + text_of_units(
                units.skip(i),
            )->Some_0,
            None => text_of_units(units.skip(i)) is None,
        },
    ensures
        match text_of_units(units) {
            Some(all) => text_of_units(units.skip(i + used)) is Some && all == done.push(c)
                + text_of_units(units.skip(i + used))->Some_0,
            None => text_of_units(units.skip(i + used)) is None,
        },
{
    if let Some(all) = text_of_units(units) {
        let behind = text_of_units(units.skip(i + used))->Some_0;
        assert(done + (seq![c] + behind) =~= done.push(c) + behind);
    }
}

/// Decode `bytes` as UTF-16LE, or `None` if the length is odd or a surrogate has no partner.
pub fn decode_utf16le(bytes: &[u8]) -> (res: Option<String>)
    ensures
        match utf16le_text(bytes@) {
            Some(chars) => res is Some && res->Some_0@ == chars,
            None => res is None,
        },
{
    if bytes.len() % 2 != 0 {
        return None;
    }
    let count: usize = bytes.len() / 2;
    let mut units: Vec<u16> = Vec::new();
    let mut k: usize = 0;
    while k < count
        invariant
            k <= count,
            2 * count == bytes.len(),
            units@ == units_of_bytes(bytes@).take(k as int),
        decreases count - k,
    {
        let unit: u16 = bytes[2 * k] as u16 + 256 * (bytes[2 * k + 1] as u16);
        units.push(unit);
        k += 1;
        assert(units@ =~= units_of_bytes(bytes@).take(k as int));
    }
    assert(units@ =~= units_of_bytes(bytes@));
    let mut res = String::new();
    let mut i: usize = 0;
    proof {
        assert(units@.skip(0) =~= units@);
        if let Some(all) = text_of_units(units@) {
            assert(Seq::<char>::empty() + all =~= all);
        }
    }
    while i < units.len()
        invariant
            i <= units@.len(),
            units@ == units_of_bytes(bytes@),
            bytes@.len() % 2 == 0,
            match text_of_units(units@) {
                Some(all) => text_of_units(units@.skip(i as int)) is Some && all == res@
                    + text_of_units(units@.skip(i as int))->Some_0,
                None => text_of_units(units@.skip(i as int)) is None,
            },
        decreases units@.len() - i,
    {
        let ghost done = res@;
        let first: u32 = units[i] as u32;
        assert(units@.skip(i as int).drop_first() =~= units@.skip(i + 1));
        if first < 0xD800 || first > 0xDFFF {
            match char_from_u32(first) {
                Some(c) => {
                    push_char(&mut res, c);
                    proof {
                        assert(units@.skip(i as int)[0] as int == first);
                        vstd::utf8::char_u32_cast(c, first);
                        assert(first as int as char == c);
                        lemma_text_of_units_step(units@, done, i as int, c, 1);
                    }
                },
                None => {
                    return None;
                },
            }
            i += 1;
        } else if first <= 0xDBFF && units.len() - i >= 2 && 0xDC00 <= units[i + 1] && units[i + 1]
            <= 0xDFFF {
            let low: u32 = units[i + 1] as u32;
            assert(units@.skip(i as int).skip(2) =~= units@.skip(i + 2));
            match char_from_u32(0x1_0000 + (first - 0xD800) * 0x400 + (low - 0xDC00)) {
                Some(c) => {
                    push_char(&mut res, c);
                    proof {
                        assert(units@.skip(i as int)[0] as int == first);
                        assert(units@.skip(i as int)[1] as int == low);
                        vstd::utf8::char_u32_cast(c, c as u32);
                        assert((0x1_0000 + (first - 0xD800) * 0x400 + (low - 0xDC00)) as char == c);
                        lemma_text_of_units_step(units@, done, i as int, c, 2);
                    }
                },
                None => {
                    return None;
                },
            }
            i += 2;
        } else {
            return None;
        }
    }
    proof {
        assert(units@.skip(i as int) =~= Seq::empty());
        assert(res@ + Seq::<char>::empty() =~= res@);
    }
    Some(res)
}

proof fn lemma_units_append(a: Seq<char>, c: char, units: Seq<u16>)
    ensures
        text_of_units(utf16_units(c) + units) == match text_of_units(units) {
            Some(rest) => Some(seq![c] + rest),
            None => None,
        },
{
    let n = c as u32 as int;
    let all = utf16_units(c) + units;
    if n < 0x1_0000 {
        assert(all.drop_first() =~= units);
        assert(n as char == c);
    } else {
        let high = (n - 0x1_0000) / 0x400;
        let low = (n - 0x1_0000) % 0x400;
        assert(0 <= high < 0x400);
        assert(all.skip(2) =~= units);
        assert(0x1_0000 + high * 0x400 + low == n);
        assert(n as char == c);
    }
}

proof fn lemma_utf16_first(value: Seq<char>)
    requires
        value.len() > 0,
    ensures
        utf16(value) == utf16_units(value[0]) + utf16(value.drop_first()),
    decreases value.len(),
{
    if value.len() == 1 {
        assert(value.drop_last() =~= Seq::empty());
        assert(value.drop_first() =~= Seq::empty());
        assert(utf16(value) =~= utf16_units(value[0]) + utf16(value.drop_first()));
    } else {
        lemma_utf16_first(value.drop_last());
        assert(value.drop_last().drop_first() =~= value.drop_first().drop_last());
        assert(utf16(value) =~= utf16_units(value[0]) + utf16(value.drop_first()));
    }
}

proof fn lemma_units_round_trip(value: Seq<char>)
    ensures
        text_of_units(utf16(value)) == Some(value),
    decreases value.len(),
{
    if value.len() > 0 {
        lemma_utf16_first(value);
        lemma_units_round_trip(value.drop_first());
        lemma_units_append(value, value[0], utf16(value.drop_first()));
        assert(seq![value[0]] + value.drop_first() =~= value);
    } else {
        assert(value =~= Seq::empty());
    }
}

proof fn lemma_unit_bytes(units: Seq<u16>)
    ensures
        unit_bytes(units).len() == 2 * units.len(),
        units_of_bytes(unit_bytes(units)) == units,
    decreases units.len(),
{
    if units.len() > 0 {
        lemma_unit_bytes(units.drop_last());
        let before = unit_bytes(units.drop_last());
        let all = unit_bytes(units);
        assert forall|i: int| 0 <= i < units.len() implies #[trigger] units_of_bytes(all)[i]
            == units[i] by {
            if i < units.len() - 1 {
                assert(units_of_bytes(before)[i] == units.drop_last()[i]);
                assert(all[2 * i] == before[2 * i]);
                assert(all[2 * i + 1] == before[2 * i + 1]);
            }
        }
        assert(units_of_bytes(all) =~= units);
    } else {
        assert(units_of_bytes(unit_bytes(units)) =~= units);
    }
}

/// A path that was encoded as UTF-16LE is decoded to the same path.
pub proof fn law_utf16le_round_trip(path: Seq<char>)
    ensures
        utf16le_text(unit_bytes(utf16(path))) == Some(path),
{
    lemma_unit_bytes(utf16(path));
    lemma_units_round_trip(path);
}

// ---- spawning ----

/// The helper's command line.
pub open spec fn command_text(
    exe: Seq<char>,
    pipe_name: Seq<char>,
    volume_path: Seq<char>,
    parent_pid: u32,
) -> Seq<char> {
    quoted(exe) + " --pipe-name "@ + quoted(pipe_name) + " --volume-path "@ + quoted(volume_path)
        + (" --parent-pid "@ + text::decimal(parent_pid as nat))
}

/// Build the helper's command line as zero-terminated UTF-16.
pub fn build_command_line(
    exe_path: &str,
    pipe_name: &str,
    volume_path: &str,
    parent_pid: u32,
) -> (res: Vec<u16>)
    ensures
        res@ == utf16(command_text(exe_path@, pipe_name@, volume_path@, parent_pid)).push(0),
{
    let pid = cat2(" --parent-pid ", &show_u64(parent_pid as u64));
    let command = cat6(
        &quote_windows_arg(exe_path),
        " --pipe-name ",
        &quote_windows_arg(pipe_name),
        " --volume-path ",
        &quote_windows_arg(volume_path),
        &pid,
    );
    let mut res = encode_utf16(&command);
    res.push(0);
    res
}

/// A number in hexadecimal with zeros before it up to sixteen digits.
pub open spec fn hex16(n: u64) -> Seq<char> {
    let digits = text::hexadecimal(n as nat);
    if digits.len() >= 16 {
        digits
    } else {
        text::repeated('0', (16 - digits.len()) as nat) + digits
    }
}

/// The name of the control pipe of one helper.
pub fn control_pipe_name(pipe_id: u64) -> (res: String)
    ensures
        res@ == r"\\.\pipe\uffs-vss-requestor-"@ + hex16(pipe_id),
{
    let digits = show_hex(pipe_id);
    let len: usize = chars_of(&digits).len();
    let mut shown = String::new();
    if len < 16 {
        text::push_repeated(&mut shown, '0', 16 - len);
    }
    shown.append(&digits);
    assert(shown@ =~= hex16(pipe_id));
    cat2(r"\\.\pipe\uffs-vss-requestor-", &shown)
}

/// The volume to snapshot, from the requested root as it travelled.
pub fn requested_volume(requested_root: &[u8]) -> (res: Result<String, VssError>)
    ensures
        match utf16le_text(requested_root@) {
            Some(path) => res is Ok && res->Ok_0@ == path,
            None => res matches Err(VssError::InvalidVolume(detail)) && detail@
                == "requested_root is not valid UTF-16LE"@,
        },
{
    match decode_utf16le(requested_root) {
        Some(path) => Ok(path),
        None => Err(VssError::InvalidVolume("requested_root is not valid UTF-16LE".to_owned())),
    }
}

/// Which of the places where the helper's executable may be is taken: the one beside the broker,
/// unless it is not there and the one a directory higher is.
pub fn choose_helper_path(
    beside: String,
    beside_exists: bool,
    above: Option<String>,
    above_exists: bool,
) -> (res: String)
    ensures
        res == (match above {
            Some(path) => if !beside_exists && above_exists {
                path
            } else {
                beside
            },
            None => beside,
        }),
{
    if beside_exists {
        return beside;
    }
    match above {
        Some(path) => if above_exists {
            path
        } else {
            beside
        },
        None => beside,
    }
}

// ---- starting the helper ----

/// A step of starting the helper: it is created suspended, put into a job that kills it when the
/// broker is gone, and let run.
#[derive(Debug, Clone, Copy, PartialEq, Eq, Structural)]
pub enum SpawnStep {
    /// Create the process, suspended.
    CreateProcess,
    /// Create the job.
    CreateJob,
    /// Have the job kill what is in it when it is closed.
    LimitJob,
    /// Put the process into the job.
    AssignJob,
    /// Let the process run, and close its thread.
    ResumeThread,
}

/// What is open while the helper is being started.
#[derive(Debug, Clone, Copy, PartialEq, Eq, Structural)]
pub enum SpawnHandle {
    /// The job.
    Job,
    /// The process.
    Process,
    /// Its thread.
    Thread,
}

/// The step that comes after a step that succeeded.
pub fn next_spawn_step(step: SpawnStep) -> (res: Option<SpawnStep>)
    ensures
        res == match step {
            SpawnStep::CreateProcess => Some(SpawnStep::CreateJob),
            SpawnStep::CreateJob => Some(SpawnStep::LimitJob),
            SpawnStep::LimitJob => Some(SpawnStep::AssignJob),
            SpawnStep::AssignJob => Some(SpawnStep::ResumeThread),
            SpawnStep::ResumeThread => None,
        },
{
    match step {
        SpawnStep::CreateProcess => Some(SpawnStep::CreateJob),
        SpawnStep::CreateJob => Some(SpawnStep::LimitJob),
        SpawnStep::LimitJob => Some(SpawnStep::AssignJob),
        SpawnStep::AssignJob => Some(SpawnStep::ResumeThread),
        SpawnStep::ResumeThread => None,
    }
}

/// What is closed when a step fails.  The thread is closed before it is known whether it runs.
pub open spec fn closed_after(step: SpawnStep) -> Seq<SpawnHandle> {
    match step {
        SpawnStep::CreateProcess => Seq::empty(),
        SpawnStep::CreateJob => Seq::empty(),
        SpawnStep::LimitJob => seq![SpawnHandle::Job, SpawnHandle::Process, SpawnHandle::Thread],
        SpawnStep::AssignJob => seq![SpawnHandle::Job, SpawnHandle::Process, SpawnHandle::Thread],
        SpawnStep::ResumeThread => seq![SpawnHandle::Job, SpawnHandle::Process],
    }
}

/// What is told when a step fails, before the reason.
pub open spec fn spawn_failure_text(step: SpawnStep) -> Seq<char> {
    match step {
        SpawnStep::CreateProcess => "CreateProcessW failed: "@,
        SpawnStep::CreateJob => "CreateJobObjectW failed: "@,
        SpawnStep::LimitJob => "SetInformationJobObject failed: "@,
        SpawnStep::AssignJob => "AssignProcessToJobObject failed: "@,
        SpawnStep::ResumeThread => "ResumeThread failed: "@,
    }
}

/// What is closed, and what is told, when a step fails for a reason.
pub fn spawn_failed(step: SpawnStep, reason: &str) -> (res: (Vec<SpawnHandle>, String))
    ensures
        res.0@ == closed_after(step),
        res.1@ == spawn_failure_text(step) + reason@,
{
    let mut closed: Vec<SpawnHandle> = Vec::new();
    let lead: &'static str = match step {
        SpawnStep::CreateProcess => "CreateProcessW failed: ",
        SpawnStep::CreateJob => "CreateJobObjectW failed: ",
        SpawnStep::LimitJob => "SetInformationJobObject failed: ",
        SpawnStep::AssignJob => "AssignProcessToJobObject failed: ",
        SpawnStep::ResumeThread => "ResumeThread failed: ",
    };
    match step {
        SpawnStep::CreateProcess => {},
        SpawnStep::CreateJob => {},
        SpawnStep::LimitJob => {
            closed.push(SpawnHandle::Job);
            closed.push(SpawnHandle::Process);
            closed.push(SpawnHandle::Thread);
        },
        SpawnStep::AssignJob => {
            closed.push(SpawnHandle::Job);
            closed.push(SpawnHandle::Process);
            closed.push(SpawnHandle::Thread);
        },
        SpawnStep::ResumeThread => {
            closed.push(SpawnHandle::Job);
            closed.push(SpawnHandle::Process);
        },
    }
    assert(closed@ =~= closed_after(step));
    (closed, cat2(lead, reason))
}

/// Once there is a job, a failure closes it, and the process with it.
pub proof fn law_a_failed_start_closes_the_job(step: SpawnStep)
    requires
        step != SpawnStep::CreateProcess,
        step != SpawnStep::CreateJob,
    ensures
        closed_after(step).contains(SpawnHandle::Job),
        closed_after(step).contains(SpawnHandle::Process),
{
    assert(closed_after(step)[0] == SpawnHandle::Job);
    assert(closed_after(step)[1] == SpawnHandle::Process);
}

/// The error by which Windows tells that the helper connected before it was waited for.
pub const ERROR_PIPE_CONNECTED: i32 = 535;

/// Why waiting for the helper failed, if it did: `error` is the code and the text of the error.
pub fn connect_failure(error: Option<(i32, String)>) -> (res: Option<String>)
    ensures
        match (res, error) {
            (None, None) => true,
            (None, Some(error)) => error.0 == ERROR_PIPE_CONNECTED,
            (Some(_), None) => false,
            (Some(told), Some(error)) => error.0 != ERROR_PIPE_CONNECTED && told@
                == "ConnectNamedPipe failed: "@ + error.1@,
        },
{
    match error {
        None => None,
        Some((code, text)) => if code == ERROR_PIPE_CONNECTED {
            None
        } else {
            Some(cat2("ConnectNamedPipe failed: ", &text))
        },
    }
}

// ---- events ----

/// What the helper reports.
#[derive(Debug, Clone)]
pub enum HelperEvent {
    /// The snapshot was created.
    Ready {
        /// The snapshot's GUID in its canonical form.
        snapshot_id: String,
        /// The snapshot's device path, if the helper reported one.
        snapshot_device_object: Option<String>,
    },
    /// The snapshot was deleted.
    Released,
    /// An operation failed.
    Failed {
        /// Which step failed.
        stage: i32,
        /// The failing `HRESULT`.
        hresult: i32,
        /// Human-readable diagnostic message.
        message: String,
    },
    /// Reply to a ping.
    Pong,
}

/// A step of creating a snapshot that may fail before the helper reports anything.
#[derive(Debug, Clone, Copy, PartialEq, Eq, Structural)]
pub enum CreateStep {
    /// Creating the control pipe.
    ControlPipe,
    /// Spawning the helper.
    Spawn,
    /// Waiting for the helper to connect.
    Connect,
    /// Cloning the handle of the pipe.
    ClonePipe,
    /// Reading the helper's event.
    ReadEvent,
}

impl CreateStep {
    /// What is said of a failure of the step, before the reason.
    pub open spec fn text(self) -> Seq<char> {
        match self {
            CreateStep::ControlPipe => "failed to create control pipe: "@,
            CreateStep::Spawn => "failed to spawn uffs-vss-requestor: "@,
            CreateStep::Connect => "helper did not connect to control pipe: "@,
            CreateStep::ClonePipe => "failed to clone pipe handle: "@,
            CreateStep::ReadEvent => "failed to read helper event: "@,
        }
    }
}

/// The error of a failed step of creating a snapshot.
pub fn create_step_failed(step: CreateStep, reason: &str) -> (res: VssError)
    ensures
        res matches VssError::CreateFailed { hresult, message } && hresult == None::<i32>
            && message@ == step.text() + reason@,
{
    let lead: &'static str = match step {
        CreateStep::ControlPipe => "failed to create control pipe: ",
        CreateStep::Spawn => "failed to spawn uffs-vss-requestor: ",
        CreateStep::Connect => "helper did not connect to control pipe: ",
        CreateStep::ClonePipe => "failed to clone pipe handle: ",
        CreateStep::ReadEvent => "failed to read helper event: ",
    };
    VssError::CreateFailed { hresult: None, message: cat2(lead, reason) }
}

/// How a failure that the helper reports is described.
pub open spec fn failure_text(stage: i32, hresult: i32, message: Seq<char>) -> Seq<char> {
    "stage="@ + text::signed_decimal(stage as int) + " hresult=0x"@ + text::hexadecimal(
        (hresult as u32) as nat,
    ) + ": "@ + message
}

fn describe_failure(stage: i32, hresult: i32, message: &str) -> (res: String)
    ensures
        res@ == failure_text(stage, hresult, message@),
{
    cat6(
        "stage=",
        &show_i64(stage as i64),
        " hresult=0x",
        &show_hex((hresult as u32) as u64),
        ": ",
        message,
    )
}

/// What creating a snapshot comes to, given the first event of the helper, or `None` if it closed
/// the pipe.
pub fn created_snapshot(event: Option<HelperEvent>) -> (res: Result<SnapshotHandle, VssError>)
    ensures
        match event {
            Some(HelperEvent::Ready { snapshot_id, snapshot_device_object }) => {
                &&& res is Ok
                &&& res->Ok_0.snapshot_id@ == vstd::utf8::encode_utf8(snapshot_id@)
                &&& res->Ok_0.device_identity@ == match snapshot_device_object {
                    Some(device) => device@,
                    None => Seq::empty(),
                }
            },
            Some(HelperEvent::Failed { stage, hresult, message }) => res matches Err(
                VssError::CreateFailed { hresult: code, message: told },
            ) && code == Some(hresult) && told@ == failure_text(stage, hresult, message@),
            Some(_) => res matches Err(VssError::CreateFailed { hresult: code, message: told })
                && code == None::<i32> && told@ == "unexpected event from helper before Ready"@,
            None => res matches Err(VssError::CreateFailed { hresult: code, message: told })
                && code == None::<i32> && told@
                == "helper closed the control pipe before reporting readiness"@,
        },
{
    match event {
        Some(HelperEvent::Ready { snapshot_id, snapshot_device_object }) => Ok(
            SnapshotHandle {
                snapshot_id: vstd::slice::slice_to_vec(snapshot_id.as_str().as_bytes()),
                device_identity: match snapshot_device_object {
                    Some(device) => device,
                    None => String::new(),
                },
            },
        ),
        Some(HelperEvent::Failed { stage, hresult, message }) => Err(
            VssError::CreateFailed {
                hresult: Some(hresult),
                message: describe_failure(stage, hresult, &message),
            },
        ),
        Some(_) => Err(
            VssError::CreateFailed {
                hresult: None,
                message: "unexpected event from helper before Ready".to_owned(),
            },
        ),
        None => Err(
            VssError::CreateFailed {
                hresult: None,
                message: "helper closed the control pipe before reporting readiness".to_owned(),
            },
        ),
    }
}

/// A step of deleting a snapshot that may fail before the helper answers.
#[derive(Debug, Clone, Copy, PartialEq, Eq, Structural)]
pub enum DeleteStep {
    /// Encoding the command.
    Encode,
    /// Sending the command.
    Send,
    /// Reading the helper's answer.
    ReadAnswer,
}

impl DeleteStep {
    /// What is said of a failure of the step, before the reason.
    pub open spec fn text(self) -> Seq<char> {
        match self {
            DeleteStep::Encode => "failed to encode Release: "@,
            DeleteStep::Send => "failed to send Release: "@,
            DeleteStep::ReadAnswer => "failed to read helper response: "@,
        }
    }
}

/// The error of a failed step of deleting a snapshot.
pub fn delete_step_failed(step: DeleteStep, reason: &str) -> (res: VssError)
    ensures
        res matches VssError::DeleteFailed(message) && message@ == step.text() + reason@,
{
    let lead: &'static str = match step {
        DeleteStep::Encode => "failed to encode Release: ",
        DeleteStep::Send => "failed to send Release: ",
        DeleteStep::ReadAnswer => "failed to read helper response: ",
    };
    VssError::DeleteFailed(cat2(lead, reason))
}

/// The error of deleting a snapshot that no helper holds.
pub fn no_session() -> (res: VssError)
    ensures
        res matches VssError::DeleteFailed(message) && message@
            == "no live session for this snapshot"@,
{
    VssError::DeleteFailed("no live session for this snapshot".to_owned())
}

/// The event in a line that was read from the helper, without what ends the line; nothing where the
/// helper closed the pipe.
pub fn event_line(line: &str) -> (res: Option<String>)
    ensures
        match res {
            None => line@.len() == 0,
            Some(event) => line@.len() > 0 && event@ == text::trimmed_end(line@),
        },
{
    if chars_of(line).len() == 0 {
        None
    } else {
        Some(text::trim_end(line))
    }
}

/// What deleting a snapshot comes to, given the helper's answer, or `None` if it closed the pipe.
pub fn deleted_snapshot(event: Option<HelperEvent>) -> (res: Result<(), VssError>)
    ensures
        match event {
            Some(HelperEvent::Released) => res is Ok,
            None => res is Ok,
            Some(HelperEvent::Failed { stage, hresult, message }) => res matches Err(
                VssError::DeleteFailed(told),
            ) && told@ == failure_text(stage, hresult, message@),
            Some(_) => res matches Err(VssError::DeleteFailed(told)) && told@
                == "unexpected event from helper after Release"@,
        },
{
    match event {
        Some(HelperEvent::Released) => Ok(()),
        None => Ok(()),
        Some(HelperEvent::Failed { stage, hresult, message }) => Err(
            VssError::DeleteFailed(describe_failure(stage, hresult, &message)),
        ),
        Some(_) => Err(
            VssError::DeleteFailed("unexpected event from helper after Release".to_owned()),
        ),
    }
}

// ---- the self test ----

/// What the marker file of the self test holds.
pub const SELF_TEST_MARKER: &'static str = "uffs-broker --self-test-vss marker";

/// Whether the marker file was read back through the snapshot as it was written.
pub fn check_marker(read_back: &[u8]) -> (res: Result<(), String>)
    ensures
        match res {
            Ok(_) => read_back@ == vstd::utf8::encode_utf8(SELF_TEST_MARKER@),
            Err(message) => {
                &&& read_back@ != vstd::utf8::encode_utf8(SELF_TEST_MARKER@)
                &&& message@ == "content mismatch: snapshot read back "@ + text::decimal(
                    read_back@.len(),
                ) + " bytes, expected "@ + text::decimal(
                    vstd::utf8::encode_utf8(SELF_TEST_MARKER@).len(),
                ) + " bytes matching the marker"@
            },
        },
{
    let marker = SELF_TEST_MARKER.as_bytes();
    let mut equal = read_back.len() == marker.len();
    let mut i: usize = 0;
    while equal && i < marker.len()
        invariant
            i <= marker@.len(),
            equal ==> read_back@.len() == marker@.len() && forall|k: int|
                0 <= k < i ==> read_back@[k] == marker@[k],
            !equal ==> read_back@ != marker@,
        decreases marker@.len() - i,
    {
        if read_back[i] != marker[i] {
            equal = false;
        }
        i += 1;
    }
    if equal {
        assert(read_back@ =~= marker@);
        Ok(())
    } else {
        Err(
            text::cat5(
                "content mismatch: snapshot read back ",
                &show_u64(read_back.len() as u64),
                " bytes, expected ",
                &show_u64(marker.len() as u64),
                " bytes matching the marker",
            ),
        )
    }
}

/// Whether the helper reported where the snapshot can be read.
pub fn check_device(device_identity: &str) -> (res: Result<(), String>)
    ensures
        match res {
            Ok(_) => device_identity@.len() > 0,
            Err(message) => device_identity@.len() == 0 && message@
                == "helper reported no snapshot device path"@,
        },
{
    if chars_of(device_identity).len() == 0 {
        Err("helper reported no snapshot device path".to_owned())
    } else {
        Ok(())
    }
}

/// A volume that there is not, by which the self test tries how failures are reported.
pub const SELF_TEST_BOGUS_VOLUME: &'static str = "not-a-real-volume-path";

/// Whether creating a snapshot of a volume that there is not failed, as it must.
pub fn check_bogus_volume(created: bool) -> (res: Result<(), String>)
    ensures
        match res {
            Ok(_) => !created,
            Err(message) => created && message@
                == "expected create_snapshot to fail for an invalid volume path, but it succeeded"@,
        },
{
    if created {
        Err(
            "expected create_snapshot to fail for an invalid volume path, but it succeeded".to_owned(),
        )
    } else {
        Ok(())
    }
}

/// What the self test comes to: the first of the marker check and the ping that failed, else the
/// deletion.
pub fn self_test_result(
    verified: Result<(), String>,
    pinged: Result<(), String>,
    deleted: Result<(), String>,
) -> (res: Result<(), String>)
    ensures
        match (verified, pinged, deleted) {
            (Err(reason), _, _) => res matches Err(told) && told@ == reason@,
            (Ok(_), Err(reason), _) => res matches Err(told) && told@ == reason@,
            (Ok(_), Ok(_), Err(reason)) => res matches Err(told) && told@
                == "delete_snapshot failed: "@ + reason@,
            (Ok(_), Ok(_), Ok(_)) => res is Ok,
        },
{
    match verified {
        Err(reason) => Err(reason),
        Ok(()) => match pinged {
            Err(reason) => Err(reason),
            Ok(()) => match deleted {
                Err(reason) => Err(cat2("delete_snapshot failed: ", &reason)),
                Ok(()) => Ok(()),
            },
        },
    }
}

/// A quoted argument stands between quotes; what holds neither a quote nor a backslash stands there
/// unchanged.
pub proof fn law_plain_arguments_are_quoted_unchanged(arg: &str, res: String)
    requires
        call_ensures(quote_windows_arg, (arg,), res),
    ensures
        res@.len() >= arg@.len() + 2,
        res@[0] == '"' && res@.last() == '"',
        (forall|i: int| 0 <= i < arg@.len() ==> #[trigger] arg@[i] != '"' && arg@[i] != '\\')
            ==> res@ == seq!['"'] + arg@ + seq!['"'],
{
    lemma_escaped_len(0, arg@);
    if forall|i: int| 0 <= i < arg@.len() ==> #[trigger] arg@[i] != '"' && arg@[i] != '\\' {
        lemma_plain_escaped(arg@);
    }
}

proof fn lemma_escaped_len(pending: nat, arg: Seq<char>)
    ensures
        escaped_after(pending, arg).len() >= pending + arg.len(),
    decreases arg.len(),
{
    if arg.len() > 0 {
        let next = if arg[0] == '\\' {
            pending + 1
        } else {
            0
        };
        lemma_escaped_len(next as nat, arg.drop_first());
    }
}

proof fn lemma_plain_escaped(arg: Seq<char>)
    requires
        forall|i: int| 0 <= i < arg.len() ==> #[trigger] arg[i] != '"' && arg[i] != '\\',
    ensures
        escaped_after(0, arg) == arg,
    decreases arg.len(),
{
    if arg.len() > 0 {
        let rest = arg.drop_first();
        assert(arg[0] != '"' && arg[0] != '\\');
        assert forall|i: int| 0 <= i < rest.len() implies #[trigger] rest[i] != '"' && rest[i]
            != '\\' by {
            assert(rest[i] == arg[i + 1]);
        }
        lemma_plain_escaped(rest);
        assert(text::repeated('\\', 0) + seq![arg[0]] + rest =~= arg);
    }
    assert(escaped_after(0, arg) =~= arg);
}

/// The units of a text are those of its characters, in order: a character below 0x10000 is its own
/// unit, and every other is a pair of surrogates, the high one first.
pub proof fn law_each_character_has_its_units(
    value: &str,
    more: &str,
    last: char,
    before: Vec<u16>,
    after: Vec<u16>,
)
    requires
        call_ensures(encode_utf16, (value,), before),
        call_ensures(encode_utf16, (more,), after),
        more@ == value@.push(last),
    ensures
        value@.len() == 0 ==> before@.len() == 0,
        last as u32 <= 0xFFFF ==> after@ == before@.push(last as u16),
        last as u32 > 0xFFFF ==> {
            &&& after@.len() == before@.len() + 2
            &&& after@.take(before@.len() as int) == before@
            &&& 0xD800 <= after@[before@.len() as int] <= 0xDBFF
            &&& 0xDC00 <= after@[before@.len() as int + 1] <= 0xDFFF
            &&& last as u32 == 0x1_0000 + 0x400 * (after@[before@.len() as int] - 0xD800) + (
            after@[before@.len() as int + 1] - 0xDC00)
        },
{
    assert(more@.drop_last() =~= value@);
    let n = last as u32 as int;
    if n <= 0xFFFF {
        assert(before@ + seq![n as u16] =~= before@.push(n as u16));
    } else {
        assert(n <= 0x10_FFFF);
        assert(after@.take(before@.len() as int) =~= before@);
    }
}

/// The bytes of a text are its units, each with its lower byte first.
pub proof fn law_each_unit_has_its_bytes(path: &str, bytes: Vec<u8>, units: Vec<u16>, i: int)
    requires
        call_ensures(utf16le_bytes, (path,), bytes),
        call_ensures(encode_utf16, (path,), units),
    ensures
        bytes@.len() == 2 * units@.len(),
        0 <= i < units@.len() ==> units@[i] == bytes@[2 * i] + 256 * bytes@[2 * i + 1],
{
    lemma_bytes_at(units@, i);
}

proof fn lemma_bytes_at(units: Seq<u16>, i: int)
    ensures
        unit_bytes(units).len() == 2 * units.len(),
        0 <= i < units.len() ==> units[i] == unit_bytes(units)[2 * i] + 256 * unit_bytes(
            units,
        )[2 * i + 1],
    decreases units.len(),
{
    if units.len() > 0 {
        lemma_bytes_at(units.drop_last(), i);
    }
}

/// Bytes are the text whose bytes they are: reading gives back what was written, and a number of
/// bytes that is odd is no text.  A volume that is no text is refused.
pub proof fn law_bytes_are_read_as_written(
    path: &str,
    written: Vec<u8>,
    bytes: &[u8],
    res: Option<String>,
    volume: Result<String, VssError>,
)
    requires
        call_ensures(utf16le_bytes, (path,), written),
        call_ensures(decode_utf16le, (bytes,), res),
        call_ensures(requested_volume, (bytes,), volume),
    ensures
        bytes@ == written@ ==> res is Some && res->Some_0@ == path@,
        bytes@.len() % 2 == 1 ==> res is None,
        volume is Ok <==> res is Some,
        volume matches Ok(found) ==> found@ == res->Some_0@,
        volume matches Err(err) ==> (err matches VssError::InvalidVolume(detail) && detail@
            == "requested_root is not valid UTF-16LE"@),
{
    law_utf16le_round_trip(path@);
}

/// A surrogate that stands alone is no text.
pub proof fn law_a_lone_surrogate_is_no_text(units: Seq<u16>, before: Seq<char>, last: u16)
    requires
        units == utf16(before).push(last),
        0xD800 <= last <= 0xDFFF,
    ensures
        text_of_units(units) is None,
    decreases before.len(),
{
    if before.len() == 0 {
        assert(units =~= seq![last]);
        assert(units[0] == last && units.len() == 1);
    } else {
        let first = before[0];
        let rest = before.drop_first();
        let tail = utf16(rest).push(last);
        lemma_utf16_first(before);
        assert(units =~= utf16_units(first) + tail);
        law_a_lone_surrogate_is_no_text(tail, rest, last);
        lemma_units_append(rest, first, tail);
    }
}

/// The command line of the helper: the program, the pipe and the volume, each quoted, and the process
/// that waits for it, in this order, ended by a zero.
pub proof fn law_the_command_line_of_the_helper(
    exe: &str,
    pipe: &str,
    volume: &str,
    pid: u32,
    res: Vec<u16>,
    program: String,
    name: String,
    place: String,
    line: &str,
    units: Vec<u16>,
)
    requires
        call_ensures(build_command_line, (exe, pipe, volume, pid), res),
        call_ensures(quote_windows_arg, (exe,), program),
        call_ensures(quote_windows_arg, (pipe,), name),
        call_ensures(quote_windows_arg, (volume,), place),
        line@ == program@ + " --pipe-name "@ + name@ + " --volume-path "@ + place@ + (
        " --parent-pid "@ + text::decimal(pid as nat)),
        call_ensures(encode_utf16, (line,), units),
    ensures
        res@ == units@.push(0),
{
}

/// The name of a pipe is its number in 16 hexadecimal digits behind a fixed name; the helper is looked
/// for beside the program, and above it only where it is not there.
pub proof fn law_where_the_helper_is_met(
    id: u64,
    res: String,
    digits: Seq<char>,
    beside: String,
    beside_exists: bool,
    above: Option<String>,
    above_exists: bool,
    path: String,
)
    requires
        call_ensures(control_pipe_name, (id,), res),
        call_ensures(choose_helper_path, (beside, beside_exists, above, above_exists), path),
        digits == text::hexadecimal(id as nat),
        digits.len() <= 16,
    ensures
        res@.len() == 44,
        res@.take(28) == r"\\.\pipe\uffs-vss-requestor-"@,
        res@.skip(44 - digits.len()) == digits,
        forall|i: int| 28 <= i < 44 - digits.len() ==> #[trigger] res@[i] == '0',
        beside_exists || !above_exists || above is None ==> path == beside,
        !beside_exists && above_exists && above is Some ==> path == above->Some_0,
{
    reveal_strlit(r"\\.\pipe\uffs-vss-requestor-");
    let start = r"\\.\pipe\uffs-vss-requestor-"@;
    assert(start.len() == 28);
    assert(hex16(id).len() == 16);
    assert(res@.take(28) =~= start);
    assert(res@.skip(44 - digits.len()) =~= digits);
    assert forall|i: int| 28 <= i < 44 - digits.len() implies #[trigger] res@[i] == '0' by {
        assert(res@[i] == hex16(id)[i - 28]);
    }
}

/// The helper is started suspended, put into a job that ends with this process, and only then let
/// run; where a step fails, the reason is told and what it was is named.
pub proof fn law_the_steps_of_a_start(
    step: SpawnStep,
    next: Option<SpawnStep>,
    reason: &str,
    res: (Vec<SpawnHandle>, String),
)
    requires
        call_ensures(next_spawn_step, (step,), next),
        call_ensures(spawn_failed, (step, reason), res),
    ensures
        step is CreateProcess ==> next == Some(SpawnStep::CreateJob) && res.1@
            == "CreateProcessW failed: "@ + reason@ && res.0@.len() == 0,
        step is CreateJob ==> next == Some(SpawnStep::LimitJob) && res.1@
            == "CreateJobObjectW failed: "@ + reason@ && res.0@.len() == 0,
        step is LimitJob ==> next == Some(SpawnStep::AssignJob) && res.1@
            == "SetInformationJobObject failed: "@ + reason@ && res.0@ == seq![
            SpawnHandle::Job,
            SpawnHandle::Process,
            SpawnHandle::Thread,
        ],
        step is AssignJob ==> next == Some(SpawnStep::ResumeThread) && res.1@
            == "AssignProcessToJobObject failed: "@ + reason@ && res.0@ == seq![
            SpawnHandle::Job,
            SpawnHandle::Process,
            SpawnHandle::Thread,
        ],
        step is ResumeThread ==> next is None && res.1@ == "ResumeThread failed: "@ + reason@
            && res.0@ == seq![SpawnHandle::Job, SpawnHandle::Process],
{
}

/// A helper that connected before it was waited for has connected; every other failure is told.
pub proof fn law_an_early_connection_is_none_the_worse(
    error: Option<(i32, String)>,
    res: Option<String>,
)
    requires
        call_ensures(connect_failure, (error,), res),
    ensures
        res is None <==> error is None || error->Some_0.0 == 535,
        res matches Some(told) ==> told@ == "ConnectNamedPipe failed: "@ + error->Some_0.1@,
{
}

/// A snapshot was created exactly where the helper says that it is ready, and deleted where it says
/// so or has ended; a failure that the helper tells is told with its stage and its result.
pub proof fn law_what_the_helper_tells(
    event: Option<HelperEvent>,
    created: Result<SnapshotHandle, VssError>,
    deleted: Result<(), VssError>,
)
    requires
        call_ensures(created_snapshot, (event,), created),
        call_ensures(deleted_snapshot, (event,), deleted),
    ensures
        created is Ok <==> event is Some && event->Some_0 is Ready,
        deleted is Ok <==> event is None || event->Some_0 is Released,
        event matches Some(HelperEvent::Ready { snapshot_id, snapshot_device_object })
            ==> created->Ok_0.snapshot_id@ == vstd::utf8::encode_utf8(snapshot_id@) && (
        snapshot_device_object is Some ==> created->Ok_0.device_identity@
            == snapshot_device_object->Some_0@) && (snapshot_device_object is None
            ==> created->Ok_0.device_identity@.len() == 0),
        event matches Some(HelperEvent::Failed { stage, hresult, message }) ==> {
            let told = "stage="@ + text::signed_decimal(stage as int) + " hresult=0x"@
                + text::hexadecimal((hresult as u32) as nat) + ": "@ + message@;
            &&& (created matches Err(VssError::CreateFailed { hresult: code, message: why })
                && code == Some(hresult) && why@ == told)
            &&& (deleted matches Err(VssError::DeleteFailed(why)) && why@ == told)
        },
        created matches Err(err) ==> err is CreateFailed,
        deleted matches Err(err) ==> err is DeleteFailed,
        event is None ==> (created matches Err(VssError::CreateFailed {
            hresult: code,
            message: why,
        }) && code == None::<i32> && why@
            == "helper closed the control pipe before reporting readiness"@),
{
}

/// Which step of a creation or a deletion failed is told, with the reason.
pub proof fn law_the_step_that_failed_is_told(
    create: CreateStep,
    delete: DeleteStep,
    reason: &str,
    created: VssError,
    deleted: VssError,
)
    requires
        call_ensures(create_step_failed, (create, reason), created),
        call_ensures(delete_step_failed, (delete, reason), deleted),
    ensures
        created matches VssError::CreateFailed { hresult, message } && hresult == None::<i32>
            && message@ == match create {
            CreateStep::ControlPipe => "failed to create control pipe: "@,
            CreateStep::Spawn => "failed to spawn uffs-vss-requestor: "@,
            CreateStep::Connect => "helper did not connect to control pipe: "@,
            CreateStep::ClonePipe => "failed to clone pipe handle: "@,
            CreateStep::ReadEvent => "failed to read helper event: "@,
        } + reason@,
        deleted matches VssError::DeleteFailed(message) && message@ == match delete {
            DeleteStep::Encode => "failed to encode Release: "@,
            DeleteStep::Send => "failed to send Release: "@,
            DeleteStep::ReadAnswer => "failed to read helper response: "@,
        } + reason@,
{
}

/// The test of the helper passes exactly where everything in it did: what was read is the marker, the
/// device is named, the volume that is none was refused, and every step succeeded.
pub proof fn law_when_the_self_test_passes(
    read_back: &[u8],
    marker: Result<(), String>,
    device: &str,
    named: Result<(), String>,
    created: bool,
    bogus: Result<(), String>,
    verified: Result<(), String>,
    pinged: Result<(), String>,
    deleted: Result<(), String>,
    res: Result<(), String>,
)
    requires
        call_ensures(check_marker, (read_back,), marker),
        call_ensures(check_device, (device,), named),
        call_ensures(check_bogus_volume, (created,), bogus),
        call_ensures(self_test_result, (verified, pinged, deleted), res),
    ensures
        marker is Ok <==> read_back@ == vstd::utf8::encode_utf8(
            "uffs-broker --self-test-vss marker"@,
        ),
        named is Ok <==> device@.len() > 0,
        bogus is Ok <==> !created,
        res is Ok <==> verified is Ok && pinged is Ok && deleted is Ok,
        verified matches Err(reason) ==> res->Err_0@ == reason@,
{
}

} // verus!
