//! Text building blocks: comparison, concatenation, trimming, splitting and numbers.
//!
//! Every function is stated over the characters of its strings.

use vstd::prelude::*;
use vstd::string::*;

verus! {

/// The characters of each string of a list.
pub open spec fn texts(list: Seq<String>) -> Seq<Seq<char>> {
    list.map_values(|item: String| item@)
}

/// A list of the given texts.
pub fn strings(items: &[&str]) -> (res: Vec<String>)
    ensures
        texts(res@) == items@.map_values(|item: &str| item@),
{
    let mut res: Vec<String> = Vec::new();
    let mut i: usize = 0;
    while i < items.len()
        invariant
            i <= items@.len(),
            texts(res@) == items@.take(i as int).map_values(|item: &str| item@),
        decreases items@.len() - i,
    {
        let ghost before = texts(res@);
        let item: &str = items[i];
        res.push(item.to_owned());
        proof {
            assert(texts(res@) =~= before.push(item@));
            assert(items@.take(i + 1) =~= items@.take(i as int).push(item));
            assert(items@.take(i + 1).map_values(|item: &str| item@) =~= before.push(item@));
        }
        i += 1;
    }
    assert(items@.take(i as int) =~= items@);
    res
}

/// Appends a line to a list.
pub fn push_line(out: &mut Vec<String>, line: String)
    ensures
        texts(final(out)@) == texts(old(out)@).push(line@),
{
    let ghost before = texts(out@);
    out.push(line);
    assert(texts(out@) =~= before.push(line@));
}

/// Appends the lines of a list to another.
pub fn push_lines(out: &mut Vec<String>, lines: Vec<String>)
    ensures
        texts(final(out)@) == texts(old(out)@) + texts(lines@),
{
    let mut lines = lines;
    let ghost before = texts(out@);
    let ghost more = texts(lines@);
    out.append(&mut lines);
    assert(texts(out@) =~= before + more);
}

// ---- characters in and out ----

/// Appends one character, by `String::push`: the characters before it stay and it comes last.
#[verifier::external_body]
pub(crate) fn push_char(out: &mut String, c: char)
    ensures
        final(out)@ == old(out)@.push(c),
{
    out.push(c);
}

/// The characters of a string.
pub fn chars_of(value: &str) -> (res: Vec<char>)
    ensures
        res@ == value@,
{
    let mut res: Vec<char> = Vec::new();
    for c in it: value.chars()
        invariant
            res@ == value@.take(it.index() as int),
            it.seq() == value@,
    {
        assert(value@.take(it.index() as int + 1) =~= value@.take(it.index() as int).push(c));
        res.push(c);
    }
    assert(value@.take(value@.len() as int) =~= value@);
    res
}

/// The string of the characters from `start` to before `end`.
pub fn from_chars(chars: &[char], start: usize, end: usize) -> (res: String)
    requires
        start <= end <= chars@.len(),
    ensures
        res@ == chars@.subrange(start as int, end as int),
{
    let mut res = String::new();
    let mut i: usize = start;
    while i < end
        invariant
            start <= i <= end <= chars@.len(),
            res@ == chars@.subrange(start as int, i as int),
        decreases end - i,
    {
        push_char(&mut res, chars[i]);
        i += 1;
        assert(res@ =~= chars@.subrange(start as int, i as int));
    }
    res
}

// ---- comparison ----

/// Whether two strings hold the same characters.
pub fn same(left: &str, right: &str) -> (res: bool)
    ensures
        res == (left@ == right@),
{
    let a = left.as_bytes();
    let b = right.as_bytes();
    proof {
        vstd::utf8::encode_utf8_decode_utf8(left@);
        vstd::utf8::encode_utf8_decode_utf8(right@);
    }
    if a.len() != b.len() {
        return false;
    }
    let mut i: usize = 0;
    while i < a.len()
        invariant
            i <= a.len(),
            a.len() == b.len(),
            a@ == vstd::utf8::encode_utf8(left@),
            b@ == vstd::utf8::encode_utf8(right@),
            forall|k: int| 0 <= k < i ==> a@[k] == b@[k],
        decreases a.len() - i,
    {
        if a[i] != b[i] {
            return false;
        }
        i += 1;
    }
    assert(a@ =~= b@);
    true
}

/// Whether a list holds a string.
pub open spec fn listed(list: Seq<String>, value: Seq<char>) -> bool {
    exists|i: int| 0 <= i < list.len() && #[trigger] list[i]@ == value
}

/// Whether a list holds a string.
pub fn has(list: &[String], value: &str) -> (res: bool)
    ensures
        res == listed(list@, value@),
{
    let mut i: usize = 0;
    while i < list.len()
        invariant
            i <= list@.len(),
            forall|k: int| 0 <= k < i ==> #[trigger] list@[k]@ != value@,
        decreases list@.len() - i,
    {
        if same(&list[i], value) {
            return true;
        }
        i += 1;
    }
    false
}

/// Whether `needle` stands in `value` at `at`.
pub open spec fn stands_at(value: Seq<char>, needle: Seq<char>, at: int) -> bool {
    0 <= at && at + needle.len() <= value.len() && value.subrange(at, at + needle.len()) == needle
}

/// Whether `value` begins with `prefix`.
pub open spec fn begins(value: Seq<char>, prefix: Seq<char>) -> bool {
    stands_at(value, prefix, 0)
}

/// Whether `needle` occurs in `value`.
pub open spec fn occurs(value: Seq<char>, needle: Seq<char>) -> bool {
    exists|at: int| #[trigger] stands_at(value, needle, at)
}

fn matches_at(value: &[char], needle: &[char], at: usize) -> (res: bool)
    requires
        at <= value@.len(),
    ensures
        res == stands_at(value@, needle@, at as int),
{
    if value.len() - at < needle.len() {
        return false;
    }
    let mut i: usize = 0;
    while i < needle.len()
        invariant
            i <= needle@.len(),
            at + needle@.len() <= value@.len(),
            value@.len() == value.len(),
            forall|k: int| 0 <= k < i ==> value@[at + k] == #[trigger] needle@[k],
        decreases needle@.len() - i,
    {
        if value[at + i] != needle[i] {
            assert(value@.subrange(at as int, at + needle@.len())[i as int] != needle@[i as int]);
            return false;
        }
        i += 1;
    }
    assert(value@.subrange(at as int, at + needle@.len()) =~= needle@);
    true
}

/// Whether `value` begins with `prefix`.
pub fn starts_with(value: &str, prefix: &str) -> (res: bool)
    ensures
        res == begins(value@, prefix@),
{
    matches_at(&chars_of(value), &chars_of(prefix), 0)
}

/// Whether `needle` occurs in `value`.
pub fn contains(value: &str, needle: &str) -> (res: bool)
    ensures
        res == occurs(value@, needle@),
{
    let chars = chars_of(value);
    let wanted = chars_of(needle);
    let mut at: usize = 0;
    let len: usize = chars.len();
    loop
        invariant
            at <= len == chars@.len(),
            chars@ == value@,
            wanted@ == needle@,
            forall|k: int| 0 <= k < at ==> !stands_at(value@, needle@, k),
        decreases len - at,
    {
        if matches_at(&chars, &wanted, at) {
            return true;
        }
        if at == len {
            return false;
        }
        at += 1;
    }
}

/// A character with ASCII capitals made small.
pub open spec fn lower_char(c: char) -> char {
    if 'A' <= c && c <= 'Z' {
        (c as u32 + 32) as char
    } else {
        c
    }
}

/// A text with ASCII capitals made small.
pub open spec fn lowered(value: Seq<char>) -> Seq<char> {
    value.map_values(|c: char| lower_char(c))
}

/// A character with ASCII capitals made small.
pub fn to_lower_char(c: char) -> (res: char)
    ensures
        res == lower_char(c),
{
    if 'A' <= c && c <= 'Z' {
        ((c as u8) + 32) as char
    } else {
        c
    }
}

/// The text with ASCII capitals made small.
pub fn to_ascii_lowercase(value: &str) -> (res: String)
    ensures
        res@ == lowered(value@),
{
    let chars = chars_of(value);
    let mut res = String::new();
    let mut i: usize = 0;
    while i < chars.len()
        invariant
            i <= chars@.len(),
            chars@ == value@,
            res@ == lowered(value@.take(i as int)),
        decreases chars@.len() - i,
    {
        push_char(&mut res, to_lower_char(chars[i]));
        i += 1;
        assert(res@ =~= lowered(value@.take(i as int)));
    }
    assert(value@.take(i as int) =~= value@);
    res
}

/// Whether two texts are the same but for the case of ASCII letters.
pub fn eq_ignore_ascii_case(left: &str, right: &str) -> (res: bool)
    ensures
        res == (lowered(left@) == lowered(right@)),
{
    same(&to_ascii_lowercase(left), &to_ascii_lowercase(right))
}

// ---- white space ----

/// The characters that Unicode counts as white space.
pub open spec fn is_space(c: char) -> bool {
    let n = c as u32;
    (0x09 <= n && n <= 0x0D) || n == 0x20 || n == 0x85 || n == 0xA0 || n == 0x1680 || (0x2000 <= n
        && n <= 0x200A) || n == 0x2028 || n == 0x2029 || n == 0x202F || n == 0x205F || n == 0x3000
}

/// Whether a character counts as white space.
pub fn is_whitespace(c: char) -> (res: bool)
    ensures
        res == is_space(c),
{
    let n: u32 = c as u32;
    (0x09 <= n && n <= 0x0D) || n == 0x20 || n == 0x85 || n == 0xA0 || n == 0x1680 || (0x2000 <= n
        && n <= 0x200A) || n == 0x2028 || n == 0x2029 || n == 0x202F || n == 0x205F || n == 0x3000
}

/// A text without the white space at its end.
pub open spec fn trimmed_end(value: Seq<char>) -> Seq<char>
    decreases value.len(),
{
    if value.len() > 0 && is_space(value.last()) {
        trimmed_end(value.drop_last())
    } else {
        value
    }
}

/// A text without the white space at its start.
pub open spec fn trimmed_start(value: Seq<char>) -> Seq<char>
    decreases value.len(),
{
    if value.len() > 0 && is_space(value[0]) {
        trimmed_start(value.drop_first())
    } else {
        value
    }
}

/// A text without the white space around it.
pub open spec fn trimmed(value: Seq<char>) -> Seq<char> {
    trimmed_end(trimmed_start(value))
}

fn end_of_text(chars: &[char], start: usize) -> (end: usize)
    requires
        start <= chars@.len(),
    ensures
        start <= end <= chars@.len(),
        chars@.subrange(start as int, end as int) == trimmed_end(
            chars@.subrange(start as int, chars@.len() as int),
        ),
{
    let mut end: usize = chars.len();
    while end > start && is_whitespace(chars[end - 1])
        invariant
            start <= end <= chars@.len(),
            trimmed_end(chars@.subrange(start as int, end as int)) == trimmed_end(
                chars@.subrange(start as int, chars@.len() as int),
            ),
        decreases end - start,
    {
        proof {
            assert(chars@.subrange(start as int, end as int).drop_last() =~= chars@.subrange(
                start as int,
                end - 1,
            ));
        }
        end -= 1;
    }
    end
}

/// The text without the white space around it.
pub fn trim(value: &str) -> (res: String)
    ensures
        res@ == trimmed(value@),
{
    let chars = chars_of(value);
    let mut start: usize = 0;
    proof {
        assert(chars@.subrange(0, chars@.len() as int) =~= value@);
    }
    while start < chars.len() && is_whitespace(chars[start])
        invariant
            start <= chars@.len(),
            trimmed_start(chars@.subrange(start as int, chars@.len() as int)) == trimmed_start(
                value@,
            ),
        decreases chars@.len() - start,
    {
        proof {
            assert(chars@.subrange(start as int, chars@.len() as int).drop_first()
                =~= chars@.subrange(start + 1, chars@.len() as int));
        }
        start += 1;
    }
    let end: usize = end_of_text(&chars, start);
    from_chars(&chars, start, end)
}

/// The text without the white space at its end.
pub fn trim_end(value: &str) -> (res: String)
    ensures
        res@ == trimmed_end(value@),
{
    let chars = chars_of(value);
    assert(chars@.subrange(0, chars@.len() as int) =~= value@);
    let end: usize = end_of_text(&chars, 0);
    from_chars(&chars, 0, end)
}

/// Whether some character of a text is white space.
pub fn has_whitespace(value: &str) -> (res: bool)
    ensures
        res == exists|i: int| 0 <= i < value@.len() && #[trigger] is_space(value@[i]),
{
    let chars = chars_of(value);
    let mut i: usize = 0;
    while i < chars.len()
        invariant
            i <= chars@.len(),
            chars@ == value@,
            forall|k: int| 0 <= k < i ==> !#[trigger] is_space(value@[k]),
        decreases chars@.len() - i,
    {
        if is_whitespace(chars[i]) {
            return true;
        }
        i += 1;
    }
    false
}

// ---- concatenation ----

/// The two strings in order.
pub fn cat2(a: &str, b: &str) -> (res: String)
    ensures
        res@ == a@ + b@,
{
    let mut out = a.to_owned();
    out.append(b);
    out
}

/// The three strings in order.
pub fn cat3(a: &str, b: &str, c: &str) -> (res: String)
    ensures
        res@ == a@ + b@ + c@,
{
    let mut out = cat2(a, b);
    out.append(c);
    out
}

/// The four strings in order.
pub fn cat4(a: &str, b: &str, c: &str, d: &str) -> (res: String)
    ensures
        res@ == a@ + b@ + c@ + d@,
{
    let mut out = cat3(a, b, c);
    out.append(d);
    out
}

/// The five strings in order.
pub fn cat5(a: &str, b: &str, c: &str, d: &str, e: &str) -> (res: String)
    ensures
        res@ == a@ + b@ + c@ + d@ + e@,
{
    let mut out = cat4(a, b, c, d);
    out.append(e);
    out
}

/// The six strings in order.
pub fn cat6(a: &str, b: &str, c: &str, d: &str, e: &str, f: &str) -> (res: String)
    ensures
        res@ == a@ + b@ + c@ + d@ + e@ + f@,
{
    let mut out = cat5(a, b, c, d, e);
    out.append(f);
    out
}

/// The texts of a list with `separator` between them.
pub open spec fn joined(list: Seq<Seq<char>>, separator: Seq<char>) -> Seq<char>
    decreases list.len(),
{
    if list.len() == 0 {
        Seq::empty()
    } else if list.len() == 1 {
        list[0]
    } else {
        joined(list.drop_last(), separator) + separator + list.last()
    }
}

/// The strings of a list with `separator` between them.
pub fn join(list: &[String], separator: &str) -> (res: String)
    ensures
        res@ == joined(texts(list@), separator@),
{
    let mut res = String::new();
    let mut i: usize = 0;
    while i < list.len()
        invariant
            i <= list@.len(),
            res@ == joined(texts(list@).take(i as int), separator@),
        decreases list@.len() - i,
    {
        let ghost shown = texts(list@);
        proof {
            assert(shown.take(i + 1).drop_last() =~= shown.take(i as int));
            assert(shown.take(i + 1).last() == list@[i as int]@);
        }
        if i > 0 {
            res.append(separator);
        }
        res.append(&list[i]);
        proof {
            if i == 0 {
                assert(res@ =~= list@[0]@);
            }
        }
        i += 1;
    }
    assert(texts(list@).take(i as int) =~= texts(list@));
    res
}

/// `count` times the same character.
pub open spec fn repeated(c: char, count: nat) -> Seq<char> {
    Seq::new(count, |i: int| c)
}

/// Appends a character `count` times.
pub fn push_repeated(out: &mut String, c: char, count: usize)
    ensures
        final(out)@ == old(out)@ + repeated(c, count as nat),
{
    let mut i: usize = 0;
    assert(out@ =~= old(out)@ + repeated(c, 0));
    while i < count
        invariant
            i <= count,
            out@ == old(out)@ + repeated(c, i as nat),
        decreases count - i,
    {
        push_char(out, c);
        i += 1;
        assert(out@ =~= old(out)@ + repeated(c, i as nat));
    }
}

/// A text with spaces behind it up to `width` characters.
pub open spec fn padded(value: Seq<char>, width: nat) -> Seq<char> {
    if value.len() >= width {
        value
    } else {
        value + repeated(' ', (width - value.len()) as nat)
    }
}

/// The text with spaces behind it up to `width` characters.
pub fn pad(value: &str, width: usize) -> (res: String)
    ensures
        res@ == padded(value@, width as nat),
{
    let len: usize = chars_of(value).len();
    let mut res = value.to_owned();
    if len < width {
        push_repeated(&mut res, ' ', width - len);
    }
    res
}

// ---- taking apart ----

/// A text cut at every occurrence of a character.
pub open spec fn split_at_char(value: Seq<char>, separator: char) -> Seq<Seq<char>>
    decreases value.len(),
{
    if value.len() == 0 {
        seq![Seq::empty()]
    } else {
        let before = split_at_char(value.drop_last(), separator);
        if value.last() == separator {
            before.push(Seq::empty())
        } else {
            before.drop_last().push(before.last().push(value.last()))
        }
    }
}

/// The text cut at every occurrence of a character.
pub fn split(value: &str, separator: char) -> (res: Vec<String>)
    ensures
        texts(res@) == split_at_char(value@, separator),
        res@.len() > 0,
{
    let chars = chars_of(value);
    let mut res: Vec<String> = Vec::new();
    let mut piece = String::new();
    let mut i: usize = 0;
    proof {
        assert(value@.take(0) =~= Seq::empty());
        assert(texts(res@).push(piece@) =~= seq![Seq::<char>::empty()]);
    }
    while i < chars.len()
        invariant
            i <= chars@.len(),
            chars@ == value@,
            texts(res@).push(piece@) == split_at_char(value@.take(i as int), separator),
        decreases chars@.len() - i,
    {
        let ghost before = texts(res@).push(piece@);
        proof {
            assert(value@.take(i + 1).drop_last() =~= value@.take(i as int));
            assert(before.drop_last() =~= texts(res@));
        }
        if chars[i] == separator {
            let ghost done = texts(res@);
            res.push(piece);
            assert(texts(res@) =~= done.push(piece@));
            piece = String::new();
            assert(texts(res@).push(piece@) =~= before.push(Seq::empty()));
        } else {
            push_char(&mut piece, chars[i]);
        }
        i += 1;
    }
    assert(value@.take(i as int) =~= value@);
    let ghost done = texts(res@);
    res.push(piece);
    assert(texts(res@) =~= done.push(piece@));
    res
}

/// A text with every occurrence of a character replaced.
pub open spec fn replaced(value: Seq<char>, from: char, to: Seq<char>) -> Seq<char>
    decreases value.len(),
{
    if value.len() == 0 {
        Seq::empty()
    } else {
        replaced(value.drop_last(), from, to) + if value.last() == from {
            to
        } else {
            seq![value.last()]
        }
    }
}

/// The text with every occurrence of a character replaced.
pub fn replace(value: &str, from: char, to: &str) -> (res: String)
    ensures
        res@ == replaced(value@, from, to@),
{
    let chars = chars_of(value);
    let mut res = String::new();
    let mut i: usize = 0;
    while i < chars.len()
        invariant
            i <= chars@.len(),
            chars@ == value@,
            res@ == replaced(value@.take(i as int), from, to@),
        decreases chars@.len() - i,
    {
        let ghost before = res@;
        proof {
            assert(value@.take(i + 1).drop_last() =~= value@.take(i as int));
        }
        if chars[i] == from {
            res.append(to);
        } else {
            push_char(&mut res, chars[i]);
            assert(res@ =~= before + seq![chars@[i as int]]);
        }
        i += 1;
    }
    assert(value@.take(i as int) =~= value@);
    res
}

// ---- numbers ----

/// The character of a digit, in a base up to sixteen.
pub open spec fn digit(d: nat) -> char {
    if d < 10 {
        ('0' as u32 + d) as char
    } else {
        ('a' as u32 + (d - 10)) as char
    }
}

/// A natural number in decimal, without leading zeros.
pub open spec fn decimal(n: nat) -> Seq<char>
    decreases n,
{
    if n < 10 {
        seq![digit(n)]
    } else {
        decimal(n / 10).push(digit(n % 10))
    }
}

/// An integer in decimal, with a minus sign where it is negative.
pub open spec fn signed_decimal(n: int) -> Seq<char> {
    if n < 0 {
        seq!['-'] + decimal((-n) as nat)
    } else {
        decimal(n as nat)
    }
}

/// A natural number in lower-case hexadecimal, without leading zeros.
pub open spec fn hexadecimal(n: nat) -> Seq<char>
    decreases n,
{
    if n < 16 {
        seq![digit(n)]
    } else {
        hexadecimal(n / 16).push(digit(n % 16))
    }
}

fn digit_char(d: u8) -> (res: char)
    requires
        d < 16,
    ensures
        res == digit(d as nat),
{
    if d < 10 {
        (48 + d) as char
    } else {
        (97 + (d - 10)) as char
    }
}

/// The decimal form of `n`.
pub fn show_u64(n: u64) -> (res: String)
    ensures
        res@ == decimal(n as nat),
    decreases n,
{
    if n < 10 {
        let mut out = String::new();
        push_char(&mut out, digit_char(n as u8));
        assert(out@ =~= seq![digit(n as nat)]);
        out
    } else {
        let mut out = show_u64(n / 10);
        push_char(&mut out, digit_char((n % 10) as u8));
        out
    }
}

/// The decimal form of `n`.
pub fn show_i64(n: i64) -> (res: String)
    ensures
        res@ == signed_decimal(n as int),
{
    if n >= 0 {
        show_u64(n as u64)
    } else {
        let mut out = String::new();
        push_char(&mut out, '-');
        let magnitude: u64 = if n == i64::MIN {
            9_223_372_036_854_775_808
        } else {
            (-n) as u64
        };
        out.append(&show_u64(magnitude));
        assert(out@ =~= signed_decimal(n as int));
        out
    }
}

/// The hexadecimal form of `n`.
pub fn show_hex(n: u64) -> (res: String)
    ensures
        res@ == hexadecimal(n as nat),
    decreases n,
{
    if n < 16 {
        let mut out = String::new();
        push_char(&mut out, digit_char(n as u8));
        assert(out@ =~= seq![digit(n as nat)]);
        out
    } else {
        let mut out = show_hex(n / 16);
        push_char(&mut out, digit_char((n % 16) as u8));
        out
    }
}

/// Why a text is not a number.
#[derive(Debug, Clone, Copy, PartialEq, Eq, Structural)]
pub enum NumberError {
    /// The text is empty.
    Empty,
    /// A character is not a digit, or there is only a sign.
    InvalidDigit,
    /// The number is too large.
    TooLarge,
    /// The number is too small.
    TooSmall,
}

impl NumberError {
    /// The diagnostic text of the error.
    pub open spec fn text(self) -> Seq<char> {
        match self {
            NumberError::Empty => "cannot parse integer from empty string"@,
            NumberError::InvalidDigit => "invalid digit found in string"@,
            NumberError::TooLarge => "number too large to fit in target type"@,
            NumberError::TooSmall => "number too small to fit in target type"@,
        }
    }

    /// The diagnostic text of the error.
    pub fn message(&self) -> (res: &'static str)
        ensures
            res@ == self.text(),
    {
        match self {
            NumberError::Empty => "cannot parse integer from empty string",
            NumberError::InvalidDigit => "invalid digit found in string",
            NumberError::TooLarge => "number too large to fit in target type",
            NumberError::TooSmall => "number too small to fit in target type",
        }
    }
}

/// Whether a character is a decimal digit.
pub open spec fn is_digit(c: char) -> bool {
    '0' <= c && c <= '9'
}

/// The value of some digits, read from the left until one is not a digit or the value leaves
/// `-low..=high`; `negative` says on which side of zero the digits count.
pub open spec fn digits_value(digits: Seq<char>, negative: bool, low: nat, high: nat) -> Result<
    nat,
    NumberError,
>
    decreases digits.len(),
{
    if digits.len() == 0 {
        Ok(0)
    } else {
        match digits_value(digits.drop_last(), negative, low, high) {
            Err(err) => Err(err),
            Ok(value) => if !is_digit(digits.last()) {
                Err(NumberError::InvalidDigit)
            } else {
                let next = value * 10 + (digits.last() as nat - '0' as nat) as nat;
                if negative && next > low {
                    Err(NumberError::TooSmall)
                } else if !negative && next > high {
                    Err(NumberError::TooLarge)
                } else {
                    Ok(next)
                }
            },
        }
    }
}

/// The number in `-low..=high` that a text stands for: an optional sign and then digits, where a
/// minus sign is only allowed if there are negative numbers.
pub open spec fn number(value: Seq<char>, low: nat, high: nat) -> Result<int, NumberError> {
    if value.len() == 0 {
        Err(NumberError::Empty)
    } else if value.len() == 1 && (value[0] == '+' || value[0] == '-') {
        Err(NumberError::InvalidDigit)
    } else if value[0] == '+' {
        match digits_value(value.drop_first(), false, low, high) {
            Ok(n) => Ok(n as int),
            Err(err) => Err(err),
        }
    } else if value[0] == '-' && low > 0 {
        match digits_value(value.drop_first(), true, low, high) {
            Ok(n) => Ok(-(n as int)),
            Err(err) => Err(err),
        }
    } else {
        match digits_value(value, false, low, high) {
            Ok(n) => Ok(n as int),
            Err(err) => Err(err),
        }
    }
}

fn read_digits(chars: &[char], start: usize, negative: bool, low: u64, high: u64) -> (res: Result<
    u64,
    NumberError,
>)
    requires
        start <= chars@.len(),
        high <= 0xFFFF_FFFF,
        low <= 0xFFFF_FFFF,
    ensures
        match (
            res,
            digits_value(chars@.skip(start as int), negative, low as nat, high as nat),
        ) {
            (Ok(value), Ok(n)) => value == n && n <= (if negative {
                low
            } else {
                high
            }),
            (Err(err), Err(e)) => err == e,
            _ => false,
        },
{
    let mut value: u64 = 0;
    let mut i: usize = start;
    let ghost digits = chars@.skip(start as int);
    proof {
        assert(digits.take(0) =~= Seq::empty());
    }
    while i < chars.len()
        invariant
            start <= i <= chars@.len(),
            digits == chars@.skip(start as int),
            high <= 0xFFFF_FFFF,
            low <= 0xFFFF_FFFF,
            value <= (if negative {
                low
            } else {
                high
            }),
            digits_value(digits.take(i - start), negative, low as nat, high as nat) == Ok::<
                nat,
                NumberError,
            >(value as nat),
        decreases chars@.len() - i,
    {
        let c = chars[i];
        proof {
            assert(digits.take(i - start + 1).drop_last() =~= digits.take(i - start));
            assert(digits.take(i - start + 1).last() == c);
        }
        if !('0' <= c && c <= '9') {
            proof {
                lemma_digits_error(digits, i - start + 1, negative, low as nat, high as nat);
            }
            return Err(NumberError::InvalidDigit);
        }
        let next: u64 = value * 10 + ((c as u32) - 48) as u64;
        if negative && next > low {
            proof {
                lemma_digits_error(digits, i - start + 1, negative, low as nat, high as nat);
            }
            return Err(NumberError::TooSmall);
        }
        if !negative && next > high {
            proof {
                lemma_digits_error(digits, i - start + 1, negative, low as nat, high as nat);
            }
            return Err(NumberError::TooLarge);
        }
        value = next;
        i += 1;
    }
    assert(digits.take(i - start) =~= digits);
    Ok(value)
}

proof fn lemma_digits_error(digits: Seq<char>, len: int, negative: bool, low: nat, high: nat)
    requires
        0 <= len <= digits.len(),
        digits_value(digits.take(len), negative, low, high) is Err,
    ensures
        digits_value(digits, negative, low, high) == digits_value(
            digits.take(len),
            negative,
            low,
            high,
        ),
    decreases digits.len(),
{
    if len == digits.len() {
        assert(digits.take(len) =~= digits);
    } else {
        assert(digits.drop_last().take(len) =~= digits.take(len));
        lemma_digits_error(digits.drop_last(), len, negative, low, high);
    }
}

fn parse_within(value: &str, low: u64, high: u64) -> (res: Result<i64, NumberError>)
    requires
        high <= 0xFFFF_FFFF,
        low <= 0xFFFF_FFFF,
    ensures
        match (res, number(value@, low as nat, high as nat)) {
            (Ok(found), Ok(n)) => found == n && -low <= n <= high,
            (Err(err), Err(e)) => err == e,
            _ => false,
        },
{
    let chars = chars_of(value);
    if chars.len() == 0 {
        return Err(NumberError::Empty);
    }
    let first = chars[0];
    if chars.len() == 1 && (first == '+' || first == '-') {
        return Err(NumberError::InvalidDigit);
    }
    proof {
        assert(chars@.skip(1) =~= value@.drop_first());
        assert(chars@.skip(0) =~= value@);
    }
    if first == '+' {
        match read_digits(&chars, 1, false, low, high) {
            Ok(n) => Ok(n as i64),
            Err(err) => Err(err),
        }
    } else if first == '-' && low > 0 {
        match read_digits(&chars, 1, true, low, high) {
            Ok(n) => Ok(-(n as i64)),
            Err(err) => Err(err),
        }
    } else {
        match read_digits(&chars, 0, false, low, high) {
            Ok(n) => Ok(n as i64),
            Err(err) => Err(err),
        }
    }
}

/// The `u32` that a text stands for.
pub fn parse_u32(value: &str) -> (res: Result<u32, NumberError>)
    ensures
        match (res, number(value@, 0, u32::MAX as nat)) {
            (Ok(found), Ok(n)) => found == n,
            (Err(err), Err(e)) => err == e,
            _ => false,
        },
{
    match parse_within(value, 0, 0xFFFF_FFFF) {
        Ok(n) => Ok(n as u32),
        Err(err) => Err(err),
    }
}

/// The `i32` that a text stands for.
pub fn parse_i32(value: &str) -> (res: Result<i32, NumberError>)
    ensures
        match (res, number(value@, 0x8000_0000, i32::MAX as nat)) {
            (Ok(found), Ok(n)) => found == n,
            (Err(err), Err(e)) => err == e,
            _ => false,
        },
{
    match parse_within(value, 0x8000_0000, 0x7FFF_FFFF) {
        Ok(n) => Ok(n as i32),
        Err(err) => Err(err),
    }
}

// ---- laws ----

/// A list holds a value exactly where one of its elements is that value, wherever it stands.
pub proof fn law_has_looks_at_every_element(list: &[String], value: &str, res: bool, i: int)
    requires
        call_ensures(has, (list, value), res),
    ensures
        0 <= i < list@.len() && list@[i]@ == value@ ==> res,
        res ==> exists|k: int| 0 <= k < list@.len() && (#[trigger] list@[k])@ == value@,
{
    if listed(list@, value@) {
        let k = choose|k: int| 0 <= k < list@.len() && #[trigger] list@[k]@ == value@;
        assert(list@[k]@ == value@);
    }
}

/// A text begins with another exactly where it is that other one and something behind it, and holds
/// another exactly where something stands before it and something behind it.
pub proof fn law_parts_of_a_text(value: Seq<char>, before: Seq<char>, part: Seq<char>, behind: Seq<char>)
    ensures
        begins(part + behind, part),
        begins(value, part) ==> value == part + value.skip(part.len() as int),
        occurs(before + part + behind, part),
        occurs(value, part) ==> exists|at: int|
            0 <= at <= value.len() && value == #[trigger] value.take(at) + part + value.skip(
                at + part.len(),
            ),
{
    let whole = part + behind;
    assert(whole.subrange(0, part.len() as int) =~= part);
    if begins(value, part) {
        assert(value =~= part + value.skip(part.len() as int));
    }
    let more = before + part + behind;
    assert(more.subrange(before.len() as int, before.len() as int + part.len()) =~= part);
    assert(stands_at(more, part, before.len() as int));
    if occurs(value, part) {
        let at = choose|at: int| #[trigger] stands_at(value, part, at);
        assert(value =~= value.take(at) + part + value.skip(at + part.len()));
    }
}

/// Making letters small changes the ASCII capitals, each to the small letter of its own, and nothing
/// else.
pub proof fn law_small_letters(value: &str, res: String, i: int)
    requires
        call_ensures(to_ascii_lowercase, (value,), res),
        0 <= i < value@.len(),
    ensures
        res@.len() == value@.len(),
        0x41 <= value@[i] as u32 <= 0x5A ==> res@[i] as u32 == value@[i] as u32 + 0x20,
        !(0x41 <= value@[i] as u32 <= 0x5A) ==> res@[i] == value@[i],
{
    let c = value@[i];
    assert(res@[i] == lower_char(c));
}

/// What is left of a text once the white space around it is gone stands in it between white space,
/// and neither begins nor ends with any.
pub proof fn law_only_white_space_is_trimmed(value: &str, res: String)
    requires
        call_ensures(trim, (value,), res),
    ensures
        exists|a: int, b: int|
            {
                &&& 0 <= a <= b <= value@.len()
                &&& res@ == #[trigger] value@.subrange(a, b)
                &&& forall|k: int| 0 <= k < a || b <= k < value@.len() ==> is_space(#[trigger] value@[k])
            },
        res@.len() > 0 ==> !is_space(res@[0]) && !is_space(res@.last()),
{
    lemma_trimmed_start(value@);
    let a = choose|a: int|
        0 <= a <= value@.len() && #[trigger] value@.skip(a) == trimmed_start(value@) && forall|
            k: int,
        |
            0 <= k < a ==> is_space(#[trigger] value@[k]);
    let rest = trimmed_start(value@);
    lemma_trimmed_end(rest);
    let b = choose|b: int|
        0 <= b <= rest.len() && #[trigger] rest.take(b) == trimmed_end(rest) && forall|k: int|
            b <= k < rest.len() ==> is_space(#[trigger] rest[k]);
    assert(value@.subrange(a, a + b) =~= rest.take(b));
    assert forall|k: int| 0 <= k < a || a + b <= k < value@.len() implies is_space(
        #[trigger] value@[k],
    ) by {
        if k >= a + b {
            assert(rest[k - a] == value@[k]);
        }
    }
    if res@.len() > 0 {
        assert(res@[0] == rest[0]);
    }
}

proof fn lemma_trimmed_start(value: Seq<char>)
    ensures
        exists|a: int|
            0 <= a <= value.len() && #[trigger] value.skip(a) == trimmed_start(value) && forall|
                k: int,
            |
                0 <= k < a ==> is_space(#[trigger] value[k]),
        trimmed_start(value).len() > 0 ==> !is_space(trimmed_start(value)[0]),
    decreases value.len(),
{
    if value.len() > 0 && is_space(value[0]) {
        let rest = value.drop_first();
        lemma_trimmed_start(rest);
        let a = choose|a: int|
            0 <= a <= rest.len() && #[trigger] rest.skip(a) == trimmed_start(rest) && forall|k: int|
                0 <= k < a ==> is_space(#[trigger] rest[k]);
        assert(value.skip(a + 1) =~= rest.skip(a));
        assert forall|k: int| 0 <= k < a + 1 implies is_space(#[trigger] value[k]) by {
            if k > 0 {
                assert(rest[k - 1] == value[k]);
            }
        }
    } else {
        assert(value.skip(0) =~= value);
    }
}

proof fn lemma_trimmed_end(value: Seq<char>)
    ensures
        exists|b: int|
            0 <= b <= value.len() && #[trigger] value.take(b) == trimmed_end(value) && forall|k: int|
                b <= k < value.len() ==> is_space(#[trigger] value[k]),
        trimmed_end(value).len() > 0 ==> !is_space(trimmed_end(value).last()),
    decreases value.len(),
{
    if value.len() > 0 && is_space(value.last()) {
        let rest = value.drop_last();
        lemma_trimmed_end(rest);
        let b = choose|b: int|
            0 <= b <= rest.len() && #[trigger] rest.take(b) == trimmed_end(rest) && forall|k: int|
                b <= k < rest.len() ==> is_space(#[trigger] rest[k]);
        assert(value.take(b) =~= rest.take(b));
        assert forall|k: int| b <= k < value.len() implies is_space(#[trigger] value[k]) by {
            if k < rest.len() {
                assert(rest[k] == value[k]);
            }
        }
    } else {
        assert(value.take(value.len() as int) =~= value);
    }
}

/// The blank, the tabulator and the line breaks are white space; no other ASCII character that can
/// be seen is.
pub proof fn law_white_space_cannot_be_seen(c: char, res: bool)
    requires
        call_ensures(is_whitespace, (c,), res),
    ensures
        c == ' ' || c == '\t' || c == '\n' || c == '\r' ==> res,
        0x21 <= c as u32 <= 0x7E ==> !res,
{
}

/// The texts of a list are joined in their order, with the separator between two of them and nowhere
/// else.
pub proof fn law_joining_keeps_the_order(
    a: Seq<Seq<char>>,
    b: Seq<Seq<char>>,
    one: Seq<char>,
    separator: Seq<char>,
)
    ensures
        joined(seq![one], separator) == one,
        a.len() > 0 && b.len() > 0 ==> joined(a + b, separator) == joined(a, separator) + separator
            + joined(b, separator),
    decreases b.len(),
{
    if a.len() > 0 && b.len() > 0 {
        let rest = b.drop_last();
        assert((a + b).drop_last() =~= a + rest);
        assert((a + b).last() == b.last());
        if rest.len() == 0 {
            assert(a + rest =~= a);
            assert(b[0] == b.last());
        } else {
            law_joining_keeps_the_order(a, rest, one, separator);
            assert(joined(a + b, separator) =~= joined(a, separator) + separator + joined(
                b,
                separator,
            ));
        }
    }
}

/// Cutting a text at every separator loses nothing: no part holds the separator, and joined by it
/// the parts are the text again.
pub proof fn law_a_cut_text_is_whole_again(value: &str, separator: char, res: Vec<String>, i: int, k: int)
    requires
        call_ensures(split, (value, separator), res),
    ensures
        res@.len() > 0,
        joined(texts(res@), seq![separator]) == value@,
        0 <= i < res@.len() && 0 <= k < res@[i]@.len() ==> res@[i]@[k] != separator,
{
    lemma_split(value@, separator);
    if 0 <= i < res@.len() {
        assert(texts(res@)[i] == res@[i]@);
        if 0 <= k < res@[i]@.len() {
            assert(split_at_char(value@, separator)[i][k] != separator);
        }
    }
}

pub proof fn lemma_split(value: Seq<char>, separator: char)
    ensures
        split_at_char(value, separator).len() > 0,
        joined(split_at_char(value, separator), seq![separator]) == value,
        forall|i: int, k: int|
            0 <= i < split_at_char(value, separator).len() && 0 <= k < split_at_char(
                value,
                separator,
            )[i].len() ==> (#[trigger] split_at_char(value, separator)[i][k]) != separator,
    decreases value.len(),
{
    let parts = split_at_char(value, separator);
    if value.len() == 0 {
        assert(parts =~= seq![Seq::<char>::empty()]);
    } else {
        let rest = value.drop_last();
        let before = split_at_char(rest, separator);
        lemma_split(rest, separator);
        assert(value =~= rest.push(value.last()));
        if value.last() == separator {
            assert(parts.drop_last() =~= before);
            assert(joined(parts, seq![separator]) =~= value);
        } else {
            assert(parts.drop_last() =~= before.drop_last());
            assert(parts.last() =~= before.last().push(value.last()));
            if before.len() == 1 {
                assert(before[0] == before.last());
                assert(parts[0] == parts.last());
            }
            assert(joined(parts, seq![separator]) =~= value);
        }
        assert forall|i: int, k: int| 0 <= i < parts.len() && 0 <= k < parts[i].len() implies (
        #[trigger] parts[i][k]) != separator by {
            if i < before.len() && k < before[i].len() {
                assert(before[i][k] != separator);
            }
        }
    }
}

/// Replacing a character goes through a text piece by piece, and changes no other character.
pub proof fn law_replacing_goes_by_character(
    a: Seq<char>,
    b: Seq<char>,
    c: char,
    from: char,
    to: Seq<char>,
)
    ensures
        replaced(a + b, from, to) == replaced(a, from, to) + replaced(b, from, to),
        replaced(seq![c], from, to) == (if c == from {
            to
        } else {
            seq![c]
        }),
        replaced(Seq::empty(), from, to) == Seq::<char>::empty(),
    decreases b.len(),
{
    assert(seq![c].drop_last() =~= Seq::empty());
    reveal_with_fuel(replaced, 2);
    assert(replaced(seq![c], from, to) =~= (if c == from {
        to
    } else {
        seq![c]
    }));
    if b.len() == 0 {
        assert(a + b =~= a);
        assert(replaced(a + b, from, to) =~= replaced(a, from, to) + replaced(b, from, to));
    } else {
        law_replacing_goes_by_character(a, b.drop_last(), c, from, to);
        assert((a + b).drop_last() =~= a + b.drop_last());
        assert((a + b).last() == b.last());
        assert(replaced(a + b, from, to) =~= replaced(a, from, to) + replaced(b, from, to));
    }
}

/// A text in a column keeps its characters and is followed by blanks, so that it is at least as wide
/// as the column, and no wider than it must.
pub proof fn law_a_column_is_as_wide_as_it_must(value: &str, width: usize, res: String, k: int)
    requires
        call_ensures(pad, (value, width), res),
    ensures
        res@.len() == (if value@.len() >= width {
            value@.len()
        } else {
            width as nat
        }),
        res@.take(value@.len() as int) == value@,
        value@.len() <= k < res@.len() ==> res@[k] == ' ',
{
    assert(res@.take(value@.len() as int) =~= value@);
}

/// A number is written with the digits of its tenth part and its own last digit behind them.
pub proof fn law_numbers_are_written_in_tens(n: nat, d: nat)
    requires
        d < 10,
    ensures
        decimal(d).len() == 1 && decimal(d)[0] as u32 == 0x30 + d,
        n > 0 ==> decimal(10 * n + d) == decimal(n) + decimal(d),
        decimal(n).len() > 0,
{
    if n > 0 {
        assert((10 * n + d) / 10 == n && (10 * n + d) % 10 == d) by (nonlinear_arith)
            requires
                d < 10,
        ;
        assert(decimal(10 * n + d) =~= decimal(n) + decimal(d));
    }
}

/// A number in the other notation is written with the digits of its sixteenth part and its own last
/// one behind them.
pub proof fn law_numbers_are_written_in_sixteens(n: nat, d: nat)
    requires
        d < 16,
    ensures
        hexadecimal(d).len() == 1,
        hexadecimal(d)[0] as u32 == (if d < 10 {
            0x30 + d
        } else {
            0x57 + d
        }),
        n > 0 ==> hexadecimal(16 * n + d) == hexadecimal(n) + hexadecimal(d),
{
    if n > 0 {
        assert((16 * n + d) / 16 == n && (16 * n + d) % 16 == d) by (nonlinear_arith)
            requires
                d < 16,
        ;
        assert(hexadecimal(16 * n + d) =~= hexadecimal(n) + hexadecimal(d));
    }
}

/// The digits of a number within its bound are read as that number.
pub proof fn lemma_digits(n: nat, low: nat, high: nat, negative: bool)
    requires
        n <= (if negative {
            low
        } else {
            high
        }),
    ensures
        digits_value(decimal(n), negative, low, high) == Ok::<nat, NumberError>(n),
        forall|k: int| 0 <= k < decimal(n).len() ==> is_digit(#[trigger] decimal(n)[k]),
        decimal(n).len() > 0,
    decreases n,
{
    reveal_with_fuel(digits_value, 2);
    let text = decimal(n);
    if n < 10 {
        assert(text.drop_last() =~= Seq::empty());
        assert(is_digit(text[0]));
    } else {
        lemma_digits(n / 10, low, high, negative);
        assert(text.drop_last() =~= decimal(n / 10));
        assert(text.last() == digit(n % 10));
        assert((n / 10) * 10 + n % 10 == n) by (nonlinear_arith);
    }
}

/// A number that was written out is read back, with a sign before it where it has one.
pub proof fn law_written_numbers_are_read_back(n: u32, m: i32, one: &str, other: &str, found: Result<u32, NumberError>, signed: Result<i32, NumberError>)
    requires
        one@ == decimal(n as nat),
        other@ == signed_decimal(m as int),
        call_ensures(parse_u32, (one,), found),
        call_ensures(parse_i32, (other,), signed),
    ensures
        found == Ok::<u32, NumberError>(n),
        signed == Ok::<i32, NumberError>(m),
{
    lemma_digits(n as nat, 0, u32::MAX as nat, false);
    assert(is_digit(one@[0]));
    if m < 0 {
        lemma_digits((-(m as int)) as nat, 0x8000_0000, i32::MAX as nat, true);
        assert(other@.drop_first() =~= decimal((-(m as int)) as nat));
    } else {
        lemma_digits(m as nat, 0x8000_0000, i32::MAX as nat, false);
        assert(is_digit(other@[0]));
    }
}

/// Only digits make a number, with one sign before them at most: any other text is refused.
pub proof fn law_only_digits_make_a_number(value: &str, found: Result<u32, NumberError>, k: int)
    requires
        call_ensures(parse_u32, (value,), found),
        found is Ok,
    ensures
        value@.len() > 0,
        0 < k < value@.len() ==> '0' <= value@[k] && value@[k] <= '9',
        value@[0] == '+' || ('0' <= value@[0] && value@[0] <= '9'),
{
    let digits = if value@[0] == '+' {
        value@.drop_first()
    } else {
        value@
    };
    lemma_all_digits(digits, false, 0, u32::MAX as nat);
    if 0 < k < value@.len() {
        assert(value@[k] == digits[k - (value@.len() - digits.len())]);
    }
    if value@[0] != '+' {
        assert(is_digit(digits[0]));
    }
}

proof fn lemma_all_digits(digits: Seq<char>, negative: bool, low: nat, high: nat)
    requires
        digits_value(digits, negative, low, high) is Ok,
    ensures
        forall|k: int| 0 <= k < digits.len() ==> is_digit(#[trigger] digits[k]),
    decreases digits.len(),
{
    if digits.len() > 0 {
        lemma_all_digits(digits.drop_last(), negative, low, high);
        assert forall|k: int| 0 <= k < digits.len() implies is_digit(#[trigger] digits[k]) by {
            if k < digits.len() - 1 {
                assert(digits.drop_last()[k] == digits[k]);
            }
        }
    }
}

} // verus!
