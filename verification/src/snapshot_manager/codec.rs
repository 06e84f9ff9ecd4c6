//! Bounds-checked little-endian primitives of the snapshot manager wire format.
//!
//! The format is described twice over plain byte sequences: the `*_bytes` spec functions say what
//! a value looks like on the wire, the `get_*` spec functions say what a reader finds at the front
//! of the remaining input, or the error it reports.

use crate::text;
use crate::text::{cat3, cat5, show_u64};
use vstd::prelude::*;
use vstd::slice::{slice_subrange, slice_to_vec};
use vstd::utf8;

verus! {

/// Errors decoding wire bytes.
#[derive(Debug, Clone, Copy, PartialEq, Eq)]
#[non_exhaustive]
pub enum SnapshotProtocolError {
    /// Fewer bytes remained than the field being read requires.
    Truncated {
        /// Bytes required to satisfy the read.
        needed: usize,
        /// Bytes actually remaining in the input.
        available: usize,
    },
    /// A length-prefixed field declared more bytes than the configured maximum allows, checked
    /// before allocation.
    LengthOutOfBounds {
        /// Name of the offending field, for diagnostics.
        field: &'static str,
        /// Length the wire bytes claimed.
        declared: u64,
        /// Maximum length the caller configured.
        max: u64,
    },
    /// A discriminant byte did not match any known enum or message variant.
    UnknownDiscriminant {
        /// Name of the field being decoded, for diagnostics.
        field: &'static str,
        /// The unrecognized value.
        value: u64,
    },
    /// A string field was not valid UTF-8.
    InvalidUtf8(&'static str),
}

impl SnapshotProtocolError {
    /// The diagnostic text of the error.
    pub open spec fn text(self) -> Seq<char> {
        match self {
            SnapshotProtocolError::Truncated { needed, available } => "truncated input: needed "@
                + text::decimal(needed as nat) + " bytes, only "@ + text::decimal(available as nat)
                + " remained"@,
            SnapshotProtocolError::LengthOutOfBounds { field, declared, max } => "field '"@ + field@
                + "' declared length "@ + text::decimal(declared as nat) + " exceeds maximum "@
                + text::decimal(max as nat),
            SnapshotProtocolError::UnknownDiscriminant { field, value } =>
                "unknown discriminant for '"@ + field@ + "': "@ + text::decimal(value as nat),
            SnapshotProtocolError::InvalidUtf8(field) => "field '"@ + field@
                + "' is not valid UTF-8"@,
        }
    }

    /// The diagnostic text of the error.
    pub fn message(&self) -> (res: String)
        ensures
            res@ == self.text(),
    {
        match *self {
            SnapshotProtocolError::Truncated { needed, available } => cat5(
                "truncated input: needed ",
                &show_u64(needed as u64),
                " bytes, only ",
                &show_u64(available as u64),
                " remained",
            ),
            SnapshotProtocolError::LengthOutOfBounds { field, declared, max } => text::cat6(
                "field '",
                field,
                "' declared length ",
                &show_u64(declared),
                " exceeds maximum ",
                &show_u64(max),
            ),
            SnapshotProtocolError::UnknownDiscriminant { field, value } => text::cat4(
                "unknown discriminant for '",
                field,
                "': ",
                &show_u64(value),
            ),
            SnapshotProtocolError::InvalidUtf8(field) => cat3(
                "field '",
                field,
                "' is not valid UTF-8",
            ),
        }
    }
}

/// What reading a value of type `T` at the front of some input gives: the value and the bytes
/// behind it, or an error.
pub type Parsed<T> = Result<(T, Seq<u8>), SnapshotProtocolError>;

// ---- little-endian integers ----

/// The `len` low bytes of `value`, least significant first.
pub open spec fn le_bytes(value: nat, len: nat) -> Seq<u8>
    decreases len,
{
    if len == 0 {
        Seq::empty()
    } else {
        seq![(value % 256) as u8] + le_bytes(value / 256, (len - 1) as nat)
    }
}

/// The number whose little-endian bytes are `bytes`.
pub open spec fn le_value(bytes: Seq<u8>) -> nat
    decreases bytes.len(),
{
    if bytes.len() == 0 {
        0
    } else {
        bytes[0] as nat + 256 * le_value(bytes.drop_first())
    }
}

/// How many numbers `len` bytes can hold.
pub open spec fn byte_range(len: nat) -> nat
    decreases len,
{
    if len == 0 {
        1
    } else {
        256 * byte_range((len - 1) as nat)
    }
}

/// `le_bytes` writes exactly `len` bytes.
pub proof fn lemma_le_bytes_len(value: nat, len: nat)
    ensures
        le_bytes(value, len).len() == len,
    decreases len,
{
    if len > 0 {
        lemma_le_bytes_len(value / 256, (len - 1) as nat);
    }
}

/// Reading back the little-endian bytes of a number that fits gives the number.
pub proof fn lemma_le_round_trip(value: nat, len: nat)
    requires
        value < byte_range(len),
    ensures
        le_value(le_bytes(value, len)) == value,
    decreases len,
{
    if len > 0 {
        lemma_le_round_trip(value / 256, (len - 1) as nat);
        assert(le_bytes(value, len).drop_first() =~= le_bytes(value / 256, (len - 1) as nat));
    }
}

proof fn lemma_le_value_bound(bytes: Seq<u8>)
    ensures
        le_value(bytes) < byte_range(bytes.len()),
    decreases bytes.len(),
{
    if bytes.len() > 0 {
        lemma_le_value_bound(bytes.drop_first());
    }
}

proof fn lemma_byte_ranges()
    ensures
        byte_range(1) == 0x100,
        byte_range(2) == 0x1_0000,
        byte_range(4) == 0x1_0000_0000,
        byte_range(8) == 0x1_0000_0000_0000_0000,
{
    reveal_with_fuel(byte_range, 9);
}

proof fn lemma_byte_range_monotone(a: nat, b: nat)
    requires
        a <= b,
    ensures
        byte_range(a) <= byte_range(b),
        byte_range(a) > 0,
    decreases b,
{
    if a < b {
        lemma_byte_range_monotone(a, (b - 1) as nat);
    } else if a > 0 {
        lemma_byte_range_monotone((a - 1) as nat, (b - 1) as nat);
    }
}

fn write_le(out: &mut Vec<u8>, value: u64, len: usize)
    ensures
        final(out)@ == old(out)@ + le_bytes(value as nat, len as nat),
    decreases len,
{
    if len > 0 {
        out.push((value % 256) as u8);
        write_le(out, value / 256, len - 1);
        assert(out@ =~= old(out)@ + le_bytes(value as nat, len as nat));
    } else {
        assert(out@ =~= old(out)@ + le_bytes(value as nat, len as nat));
    }
}

fn value_of_le(bytes: &[u8]) -> (value: u64)
    requires
        bytes@.len() <= 8,
    ensures
        value == le_value(bytes@),
        value < byte_range(bytes@.len()),
{
    let mut value: u64 = 0;
    let mut i: usize = bytes.len();
    while i > 0
        invariant
            i <= bytes@.len() <= 8,
            value == le_value(bytes@.skip(i as int)),
        decreases i,
    {
        let ghost tail = bytes@.skip(i as int);
        i -= 1;
        proof {
            assert(bytes@.skip(i as int).drop_first() =~= tail);
            lemma_le_value_bound(bytes@.skip(i as int));
            lemma_byte_range_monotone((bytes@.len() - i) as nat, 8);
            lemma_byte_ranges();
        }
        value = bytes[i] as u64 + 256 * value;
    }
    proof {
        assert(bytes@.skip(0) =~= bytes@);
        lemma_le_value_bound(bytes@);
    }
    value
}

/// The number whose little-endian bytes are the four of `bytes`.
pub(crate) fn u32_from_le(bytes: [u8; 4]) -> (value: u32)
    ensures
        value == le_value(bytes@),
{
    proof {
        lemma_byte_ranges();
    }
    value_of_le(&bytes) as u32
}

// ---- the wire form of each primitive ----

/// An optional `i32`: `0` when absent, else `1` and the number.
pub open spec fn optional_i32_bytes(value: Option<i32>) -> Seq<u8> {
    match value {
        None => seq![0u8],
        Some(present) => seq![1u8] + le_bytes((present as u32) as nat, 4),
    }
}

/// A byte string behind its `u32` length, which keeps the low 32 bits of the length.
pub open spec fn prefixed_bytes(bytes: Seq<u8>) -> Seq<u8> {
    le_bytes((bytes.len() as u32) as nat, 4) + bytes
}

/// A UTF-8 string behind its `u16` byte length, which keeps the low 16 bits of the length.
#[verifier::opaque]
pub open spec fn prefixed_string(value: Seq<char>) -> Seq<u8> {
    le_bytes((utf8::encode_utf8(value).len() as u16) as nat, 2) + utf8::encode_utf8(value)
}

/// Append a little-endian `u16` to `out`.
pub(crate) fn write_u16_le(out: &mut Vec<u8>, value: u16)
    ensures
        final(out)@ == old(out)@ + le_bytes(value as nat, 2),
{
    write_le(out, value as u64, 2);
}

/// Append a little-endian `u32` to `out`.
pub(crate) fn write_u32_le(out: &mut Vec<u8>, value: u32)
    ensures
        final(out)@ == old(out)@ + le_bytes(value as nat, 4),
{
    write_le(out, value as u64, 4);
}

/// Append a little-endian `u64` to `out`.
pub(crate) fn write_u64_le(out: &mut Vec<u8>, value: u64)
    ensures
        final(out)@ == old(out)@ + le_bytes(value as nat, 8),
{
    write_le(out, value, 8);
}

/// Append a little-endian `i64` to `out`.
pub(crate) fn write_i64_le(out: &mut Vec<u8>, value: i64)
    ensures
        final(out)@ == old(out)@ + le_bytes((value as u64) as nat, 8),
{
    write_le(out, value as u64, 8);
}

/// Append a little-endian `i32` to `out`.
pub(crate) fn write_i32_le(out: &mut Vec<u8>, value: i32)
    ensures
        final(out)@ == old(out)@ + le_bytes((value as u32) as nat, 4),
{
    write_le(out, (value as u32) as u64, 4);
}

/// Append a presence-byte-prefixed optional `i32` to `out`.
pub(crate) fn write_optional_i32(out: &mut Vec<u8>, value: Option<i32>)
    ensures
        final(out)@ == old(out)@ + optional_i32_bytes(value),
{
    match value {
        None => {
            out.push(0);
        },
        Some(present) => {
            out.push(1);
            write_i32_le(out, present);
        },
    }
    assert(out@ =~= old(out)@ + optional_i32_bytes(value));
}

/// Append `bytes` to `out`.
pub(crate) fn write_all(out: &mut Vec<u8>, bytes: &[u8])
    ensures
        final(out)@ == old(out)@ + bytes@,
{
    out.extend_from_slice(bytes);
    assert(out@ =~= old(out)@ + bytes@);
}

/// Append a `u32`-length-prefixed byte string to `out`.
pub(crate) fn write_bytes_u32_prefixed(out: &mut Vec<u8>, bytes: &[u8])
    ensures
        final(out)@ == old(out)@ + prefixed_bytes(bytes@),
{
    let len: u32 = #[verifier::truncate]
    (bytes.len() as u32);
    write_u32_le(out, len);
    write_all(out, bytes);
    assert(out@ =~= old(out)@ + prefixed_bytes(bytes@));
}

/// Append a `u16`-length-prefixed UTF-8 string to `out`.
pub(crate) fn write_string_u16_prefixed(out: &mut Vec<u8>, value: &str)
    ensures
        final(out)@ == old(out)@ + prefixed_string(value@),
{
    reveal(prefixed_string);
    let bytes = value.as_bytes();
    let len: u16 = #[verifier::truncate]
    (bytes.len() as u16);
    write_u16_le(out, len);
    write_all(out, bytes);
    assert(out@ =~= old(out)@ + prefixed_string(value@));
}

// ---- what a reader finds ----

/// The next `len` bytes.
pub open spec fn get_raw(input: Seq<u8>, len: nat) -> Parsed<Seq<u8>> {
    if input.len() < len {
        Err(
            SnapshotProtocolError::Truncated {
                needed: len as usize,
                available: input.len() as usize,
            },
        )
    } else {
        Ok((input.take(len as int), input.skip(len as int)))
    }
}

/// The little-endian number in the next `len` bytes.
pub open spec fn get_le(input: Seq<u8>, len: nat) -> Parsed<nat> {
    match get_raw(input, len) {
        Ok((bytes, rest)) => Ok((le_value(bytes), rest)),
        Err(err) => Err(err),
    }
}

/// A signed 64-bit number in two's complement.
pub open spec fn get_i64(input: Seq<u8>) -> Parsed<i64> {
    match get_le(input, 8) {
        Ok((value, rest)) => Ok(((value as u64) as i64, rest)),
        Err(err) => Err(err),
    }
}

/// A presence byte, where `0` means absent, and behind any other one a signed 32-bit number in
/// two's complement.
pub open spec fn get_optional_i32(input: Seq<u8>) -> Parsed<Option<i32>> {
    match get_le(input, 1) {
        Err(err) => Err(err),
        Ok((flag, rest)) => if flag == 0 {
            Ok((None, rest))
        } else {
            match get_le(rest, 4) {
                Err(err) => Err(err),
                Ok((value, behind)) => Ok((Some((value as u32) as i32), behind)),
            }
        },
    }
}

/// A byte string behind a length of `width` bytes that is at most `max`.
pub open spec fn get_prefixed(
    input: Seq<u8>,
    width: nat,
    field: &'static str,
    max: nat,
) -> Parsed<Seq<u8>> {
    match get_le(input, width) {
        Err(err) => Err(err),
        Ok((len, rest)) => if len > max {
            Err(
                SnapshotProtocolError::LengthOutOfBounds {
                    field,
                    declared: len as u64,
                    max: max as u64,
                },
            )
        } else {
            get_raw(rest, len)
        },
    }
}

/// A UTF-8 string behind a `u16` byte length that is at most `max`.
#[verifier::opaque]
pub open spec fn get_string(input: Seq<u8>, field: &'static str, max: nat) -> Parsed<Seq<char>> {
    match get_prefixed(input, 2, field, max) {
        Err(err) => Err(err),
        Ok((bytes, rest)) => if utf8::valid_utf8(bytes) {
            Ok((utf8::decode_utf8(bytes), rest))
        } else {
            Err(SnapshotProtocolError::InvalidUtf8(field))
        },
    }
}

/// Whether the outcome of a read is the one that `expected` names.
pub open spec fn read_as<T>(
    expected: Parsed<T>,
    got: Result<T, SnapshotProtocolError>,
    rest: Seq<u8>,
) -> bool {
    match (expected, got) {
        (Ok((value, behind)), Ok(found)) => found == value && rest == behind,
        (Err(err), Err(found)) => found == err,
        _ => false,
    }
}

// ---- reading back what was written ----

/// A number that fits is read back, and what is behind it stays.
pub proof fn lemma_get_le(value: nat, len: nat, tail: Seq<u8>)
    requires
        value < byte_range(len),
    ensures
        get_le(le_bytes(value, len) + tail, len) == Ok::<(nat, Seq<u8>), SnapshotProtocolError>(
            (value, tail),
        ),
{
    let bytes = le_bytes(value, len);
    lemma_le_bytes_len(value, len);
    lemma_le_round_trip(value, len);
    assert((bytes + tail).take(len as int) =~= bytes);
    assert((bytes + tail).skip(len as int) =~= tail);
}

/// A `u32` is read back.
pub proof fn lemma_get_u32(value: u32, tail: Seq<u8>)
    ensures
        get_le(le_bytes(value as nat, 4) + tail, 4) == Ok::<(nat, Seq<u8>), SnapshotProtocolError>(
            (value as nat, tail),
        ),
{
    lemma_byte_ranges();
    lemma_get_le(value as nat, 4, tail);
}

/// A `u64` is read back.
pub proof fn lemma_get_u64(value: u64, tail: Seq<u8>)
    ensures
        get_le(le_bytes(value as nat, 8) + tail, 8) == Ok::<(nat, Seq<u8>), SnapshotProtocolError>(
            (value as nat, tail),
        ),
{
    lemma_byte_ranges();
    lemma_get_le(value as nat, 8, tail);
}

/// An `i64` is read back.
pub proof fn lemma_get_i64(value: i64, tail: Seq<u8>)
    ensures
        get_i64(le_bytes((value as u64) as nat, 8) + tail) == Ok::<
            (i64, Seq<u8>),
            SnapshotProtocolError,
        >((value, tail)),
{
    lemma_get_u64(value as u64, tail);
    assert((value as u64) as i64 == value) by (bit_vector);
}

/// One byte is read back.
pub proof fn lemma_get_byte(value: u8, tail: Seq<u8>)
    ensures
        get_le(seq![value] + tail, 1) == Ok::<(nat, Seq<u8>), SnapshotProtocolError>(
            (value as nat, tail),
        ),
{
    lemma_byte_ranges();
    lemma_get_le(value as nat, 1, tail);
    reveal_with_fuel(le_bytes, 2);
    assert(le_bytes(value as nat, 1) =~= seq![value]);
}

/// An optional `i32` is read back.
pub proof fn lemma_get_optional_i32(value: Option<i32>, tail: Seq<u8>)
    ensures
        get_optional_i32(optional_i32_bytes(value) + tail) == Ok::<
            (Option<i32>, Seq<u8>),
            SnapshotProtocolError,
        >((value, tail)),
{
    match value {
        None => {
            lemma_get_byte(0, tail);
        },
        Some(present) => {
            let number = le_bytes((present as u32) as nat, 4);
            assert(optional_i32_bytes(value) + tail =~= seq![1u8] + (number + tail));
            lemma_get_byte(1, number + tail);
            lemma_get_u32(present as u32, tail);
            assert((present as u32) as i32 == present) by (bit_vector);
        },
    }
}

/// A byte string within its maximum is read back.
pub proof fn lemma_get_prefixed(bytes: Seq<u8>, field: &'static str, max: u32, tail: Seq<u8>)
    requires
        bytes.len() <= max,
    ensures
        get_prefixed(prefixed_bytes(bytes) + tail, 4, field, max as nat) == Ok::<
            (Seq<u8>, Seq<u8>),
            SnapshotProtocolError,
        >((bytes, tail)),
{
    let head = le_bytes(bytes.len(), 4);
    assert(prefixed_bytes(bytes) + tail =~= head + (bytes + tail));
    lemma_get_u32(bytes.len() as u32, bytes + tail);
    assert((bytes + tail).take(bytes.len() as int) =~= bytes);
    assert((bytes + tail).skip(bytes.len() as int) =~= tail);
}

/// A byte string over its maximum is refused by its declared length alone.
pub proof fn lemma_get_prefixed_oversized(
    bytes: Seq<u8>,
    field: &'static str,
    max: u32,
    tail: Seq<u8>,
)
    requires
        max < bytes.len() <= u32::MAX,
    ensures
        get_prefixed(prefixed_bytes(bytes) + tail, 4, field, max as nat) == Err::<
            (Seq<u8>, Seq<u8>),
            SnapshotProtocolError,
        >(
            SnapshotProtocolError::LengthOutOfBounds {
                field,
                declared: bytes.len() as u64,
                max: max as u64,
            },
        ),
{
    let head = le_bytes(bytes.len(), 4);
    assert(prefixed_bytes(bytes) + tail =~= head + (bytes + tail));
    lemma_get_u32(bytes.len() as u32, bytes + tail);
}

/// A string whose UTF-8 form is within its maximum is read back.
pub proof fn lemma_get_string(chars: Seq<char>, field: &'static str, max: u16, tail: Seq<u8>)
    requires
        utf8::encode_utf8(chars).len() <= max,
    ensures
        get_string(prefixed_string(chars) + tail, field, max as nat) == Ok::<
            (Seq<char>, Seq<u8>),
            SnapshotProtocolError,
        >((chars, tail)),
{
    reveal(prefixed_string);
    reveal(get_string);
    let bytes = utf8::encode_utf8(chars);
    let head = le_bytes(bytes.len(), 2);
    assert(prefixed_string(chars) + tail =~= head + (bytes + tail));
    lemma_byte_ranges();
    lemma_get_le(bytes.len(), 2, bytes + tail);
    assert((bytes + tail).take(bytes.len() as int) =~= bytes);
    assert((bytes + tail).skip(bytes.len() as int) =~= tail);
    utf8::encode_utf8_valid_utf8(chars);
    utf8::encode_utf8_decode_utf8(chars);
}

// ---- reading input whose end is missing ----

/// `input` without its last `gone` bytes.
pub open spec fn without_last(input: Seq<u8>, gone: nat) -> Seq<u8> {
    input.take(input.len() - gone)
}

/// Whether an error tells that an input of `len` bytes falls short, where `gone` bytes are missing
/// behind it: more bytes are needed than are left of the input, and not more than would be left if
/// none was missing.
pub open spec fn falls_short(err: SnapshotProtocolError, len: nat, gone: nat) -> bool {
    match err {
        SnapshotProtocolError::Truncated { needed, available } => {
            &&& available <= len
            &&& available < needed <= available + gone
        },
        _ => false,
    }
}

/// How the read `part` of an input without its last `gone` bytes relates to the read `whole` of
/// the whole input: where all the missing bytes stood behind the value, the same value is read,
/// and else the input falls short.
pub open spec fn cut_short<T>(
    input: Seq<u8>,
    whole: Parsed<T>,
    part: Parsed<T>,
    gone: nat,
) -> bool {
    match whole {
        Err(_) => true,
        Ok((value, rest)) => {
            &&& rest.len() <= input.len()
            &&& if gone <= rest.len() {
                part == Ok::<(T, Seq<u8>), SnapshotProtocolError>((value, without_last(rest, gone)))
            } else {
                part matches Err(err) && falls_short(err, (input.len() - gone) as nat, gone)
            }
        },
    }
}

/// [`cut_short`] of raw bytes and of a number.
pub proof fn lemma_cut_le(input: Seq<u8>, len: nat, gone: nat)
    requires
        gone <= input.len() <= u32::MAX,
    ensures
        cut_short(input, get_raw(input, len), get_raw(without_last(input, gone), len), gone),
        cut_short(input, get_le(input, len), get_le(without_last(input, gone), len), gone),
{
    let part = without_last(input, gone);
    if len <= part.len() {
        assert(part.take(len as int) =~= input.take(len as int));
        assert(part.skip(len as int) =~= without_last(input.skip(len as int), gone));
    }
}

/// [`cut_short`] of a signed number.
pub proof fn lemma_cut_i64(input: Seq<u8>, gone: nat)
    requires
        gone <= input.len() <= u32::MAX,
    ensures
        cut_short(input, get_i64(input), get_i64(without_last(input, gone)), gone),
{
    lemma_cut_le(input, 8, gone);
}

/// [`cut_short`] of an optional number.
pub proof fn lemma_cut_optional_i32(input: Seq<u8>, gone: nat)
    requires
        gone <= input.len() <= u32::MAX,
    ensures
        cut_short(input, get_optional_i32(input), get_optional_i32(without_last(input, gone)), gone),
{
    lemma_cut_le(input, 1, gone);
    if let Ok((_, rest)) = get_le(input, 1) {
        if gone <= rest.len() {
            lemma_cut_le(rest, 4, gone);
        }
    }
}

/// [`cut_short`] of a byte string behind its length.
pub proof fn lemma_cut_prefixed(
    input: Seq<u8>,
    width: nat,
    field: &'static str,
    max: nat,
    gone: nat,
)
    requires
        gone <= input.len() <= u32::MAX,
    ensures
        cut_short(
            input,
            get_prefixed(input, width, field, max),
            get_prefixed(without_last(input, gone), width, field, max),
            gone,
        ),
{
    lemma_cut_le(input, width, gone);
    if let Ok((len, rest)) = get_le(input, width) {
        if gone <= rest.len() {
            lemma_cut_le(rest, len, gone);
        }
    }
}

/// [`cut_short`] of a string behind its length.
pub proof fn lemma_cut_string(input: Seq<u8>, field: &'static str, max: nat, gone: nat)
    requires
        gone <= input.len() <= u32::MAX,
    ensures
        cut_short(
            input,
            get_string(input, field, max),
            get_string(without_last(input, gone), field, max),
            gone,
        ),
{
    reveal(get_string);
    lemma_cut_prefixed(input, 2, field, max, gone);
}

/// The string whose UTF-8 form is `bytes`, by `String::from_utf8`: there is one exactly when the
/// bytes are valid UTF-8, and it then holds the characters that they encode.
#[verifier::external_body]
fn string_from_utf8(bytes: Vec<u8>) -> (res: Option<String>)
    ensures
        res is Some == utf8::valid_utf8(bytes@),
        res is Some ==> res->Some_0@ == utf8::decode_utf8(bytes@),
{
    String::from_utf8(bytes).ok()
}

/// Bounds-checked little-endian cursor over a decode input buffer.
#[derive(Debug, Clone, Copy)]
pub(crate) struct Reader<'a> {
    /// Backing bytes being decoded.
    pub(crate) buf: &'a [u8],
    /// Read offset into `buf`.
    pub(crate) pos: usize,
}

impl<'a> Reader<'a> {
    /// The offset lies within the buffer.
    pub(crate) open spec fn wf(&self) -> bool {
        self.pos <= self.buf@.len()
    }

    /// The bytes not yet consumed.
    pub(crate) open spec fn rest(&self) -> Seq<u8> {
        self.buf@.skip(self.pos as int)
    }

    /// Wrap `buf` for bounds-checked reading, starting at offset 0.
    pub(crate) fn new(buf: &'a [u8]) -> (reader: Self)
        ensures
            reader.wf(),
            reader.rest() == buf@,
    {
        let reader = Reader { buf, pos: 0 };
        assert(reader.rest() =~= buf@);
        reader
    }

    /// Bytes not yet consumed.
    pub(crate) fn remaining(&self) -> (len: usize)
        requires
            self.wf(),
        ensures
            len == self.rest().len(),
    {
        self.buf.len() - self.pos
    }

    /// Consume and return exactly `len` bytes.
    pub(crate) fn take(&mut self, len: usize) -> (res: Result<&'a [u8], SnapshotProtocolError>)
        requires
            old(self).wf(),
        ensures
            final(self).wf(),
            match (get_raw(old(self).rest(), len as nat), res) {
                (Ok((bytes, rest)), Ok(found)) => found@ == bytes && final(self).rest() == rest,
                (Err(err), Err(found)) => found == err,
                _ => false,
            },
    {
        let available = self.remaining();
        if available < len {
            return Err(SnapshotProtocolError::Truncated { needed: len, available });
        }
        let start: usize = self.pos;
        assert(start + len <= self.buf.len());
        let slice = slice_subrange(self.buf, start, start + len);
        self.pos = start + len;
        proof {
            let before = self.buf@.skip(start as int);
            assert(slice@ =~= before.take(len as int));
            assert(self.rest() =~= before.skip(len as int));
        }
        Ok(slice)
    }

    fn read_le(&mut self, len: usize) -> (res: Result<u64, SnapshotProtocolError>)
        requires
            old(self).wf(),
            len <= 8,
        ensures
            final(self).wf(),
            res is Ok ==> res->Ok_0 < byte_range(len as nat),
            match (get_le(old(self).rest(), len as nat), res) {
                (Ok((value, rest)), Ok(found)) => found == value && final(self).rest() == rest,
                (Err(err), Err(found)) => found == err,
                _ => false,
            },
    {
        match self.take(len) {
            Ok(bytes) => Ok(value_of_le(bytes)),
            Err(err) => Err(err),
        }
    }

    /// Read a single byte.
    pub(crate) fn read_u8(&mut self) -> (res: Result<u8, SnapshotProtocolError>)
        requires
            old(self).wf(),
        ensures
            final(self).wf(),
            match (get_le(old(self).rest(), 1), res) {
                (Ok((value, rest)), Ok(found)) => found == value && final(self).rest() == rest,
                (Err(err), Err(found)) => found == err,
                _ => false,
            },
    {
        proof {
            lemma_byte_ranges();
        }
        match self.read_le(1) {
            Ok(value) => Ok(value as u8),
            Err(err) => Err(err),
        }
    }

    /// Read a little-endian `u16`.
    pub(crate) fn read_u16_le(&mut self) -> (res: Result<u16, SnapshotProtocolError>)
        requires
            old(self).wf(),
        ensures
            final(self).wf(),
            match (get_le(old(self).rest(), 2), res) {
                (Ok((value, rest)), Ok(found)) => found == value && final(self).rest() == rest,
                (Err(err), Err(found)) => found == err,
                _ => false,
            },
    {
        proof {
            lemma_byte_ranges();
        }
        match self.read_le(2) {
            Ok(value) => Ok(value as u16),
            Err(err) => Err(err),
        }
    }

    /// Read a little-endian `u32`.
    pub(crate) fn read_u32_le(&mut self) -> (res: Result<u32, SnapshotProtocolError>)
        requires
            old(self).wf(),
        ensures
            final(self).wf(),
            match (get_le(old(self).rest(), 4), res) {
                (Ok((value, rest)), Ok(found)) => found == value && final(self).rest() == rest,
                (Err(err), Err(found)) => found == err,
                _ => false,
            },
    {
        proof {
            lemma_byte_ranges();
        }
        match self.read_le(4) {
            Ok(value) => Ok(value as u32),
            Err(err) => Err(err),
        }
    }

    /// Read a little-endian `u64`.
    pub(crate) fn read_u64_le(&mut self) -> (res: Result<u64, SnapshotProtocolError>)
        requires
            old(self).wf(),
        ensures
            final(self).wf(),
            match (get_le(old(self).rest(), 8), res) {
                (Ok((value, rest)), Ok(found)) => found == value && final(self).rest() == rest,
                (Err(err), Err(found)) => found == err,
                _ => false,
            },
    {
        self.read_le(8)
    }

    /// Read a little-endian `i64`.
    pub(crate) fn read_i64_le(&mut self) -> (res: Result<i64, SnapshotProtocolError>)
        requires
            old(self).wf(),
        ensures
            final(self).wf(),
            read_as(get_i64(old(self).rest()), res, final(self).rest()),
    {
        match self.read_u64_le() {
            Ok(value) => Ok(value as i64),
            Err(err) => Err(err),
        }
    }

    /// Read a little-endian `i32`.
    pub(crate) fn read_i32_le(&mut self) -> (res: Result<i32, SnapshotProtocolError>)
        requires
            old(self).wf(),
        ensures
            final(self).wf(),
            match (get_le(old(self).rest(), 4), res) {
                (Ok((value, rest)), Ok(found)) => found == (value as u32) as i32
                    && final(self).rest() == rest,
                (Err(err), Err(found)) => found == err,
                _ => false,
            },
    {
        match self.read_u32_le() {
            Ok(value) => Ok(value as i32),
            Err(err) => Err(err),
        }
    }

    /// Read a presence-byte-prefixed optional `i32`.
    pub(crate) fn read_optional_i32(&mut self) -> (res: Result<Option<i32>, SnapshotProtocolError>)
        requires
            old(self).wf(),
        ensures
            final(self).wf(),
            read_as(get_optional_i32(old(self).rest()), res, final(self).rest()),
    {
        match self.read_u8() {
            Err(err) => Err(err),
            Ok(flag) => if flag == 0 {
                Ok(None)
            } else {
                match self.read_i32_le() {
                    Ok(value) => Ok(Some(value)),
                    Err(err) => Err(err),
                }
            },
        }
    }

    /// Read a `u32`-length-prefixed byte string, rejecting before any allocation a declared
    /// length that exceeds `max_len` or the bytes actually remaining.
    pub(crate) fn read_bytes_u32_prefixed(&mut self, field: &'static str, max_len: u32) -> (res:
        Result<Vec<u8>, SnapshotProtocolError>)
        requires
            old(self).wf(),
        ensures
            final(self).wf(),
            match (get_prefixed(old(self).rest(), 4, field, max_len as nat), res) {
                (Ok((bytes, rest)), Ok(found)) => found@ == bytes && final(self).rest() == rest,
                (Err(err), Err(found)) => found == err,
                _ => false,
            },
    {
        let len: u32 = match self.read_u32_le() {
            Ok(len) => len,
            Err(err) => {
                return Err(err);
            },
        };
        if len > max_len {
            return Err(
                SnapshotProtocolError::LengthOutOfBounds {
                    field,
                    declared: len as u64,
                    max: max_len as u64,
                },
            );
        }
        match self.take(len as usize) {
            Ok(bytes) => Ok(slice_to_vec(bytes)),
            Err(err) => Err(err),
        }
    }

    /// Read a `u16`-length-prefixed UTF-8 string.
    pub(crate) fn read_string_u16_prefixed(&mut self, field: &'static str, max_len: u16) -> (res:
        Result<String, SnapshotProtocolError>)
        requires
            old(self).wf(),
        ensures
            final(self).wf(),
            match (get_string(old(self).rest(), field, max_len as nat), res) {
                (Ok((chars, rest)), Ok(found)) => found@ == chars && final(self).rest() == rest,
                (Err(err), Err(found)) => found == err,
                _ => false,
            },
    {
        reveal(get_string);
        let len: u16 = match self.read_u16_le() {
            Ok(len) => len,
            Err(err) => {
                return Err(err);
            },
        };
        if len > max_len {
            return Err(
                SnapshotProtocolError::LengthOutOfBounds {
                    field,
                    declared: len as u64,
                    max: max_len as u64,
                },
            );
        }
        match self.take(len as usize) {
            Err(err) => Err(err),
            Ok(bytes) => match string_from_utf8(slice_to_vec(bytes)) {
                Some(value) => Ok(value),
                None => Err(SnapshotProtocolError::InvalidUtf8(field)),
            },
        }
    }
}

/// A text that declares more than its limit is refused.
pub proof fn lemma_get_string_oversized(
    chars: Seq<char>,
    field: &'static str,
    max: u16,
    tail: Seq<u8>,
)
    requires
        max < utf8::encode_utf8(chars).len() <= u16::MAX,
    ensures
        get_string(prefixed_string(chars) + tail, field, max as nat) == Err::<
            (Seq<char>, Seq<u8>),
            SnapshotProtocolError,
        >(
            SnapshotProtocolError::LengthOutOfBounds {
                field,
                declared: utf8::encode_utf8(chars).len() as u64,
                max: max as u64,
            },
        ),
{
    reveal(prefixed_string);
    reveal(get_string);
    let bytes = utf8::encode_utf8(chars);
    let head = le_bytes(bytes.len(), 2);
    assert(prefixed_string(chars) + tail =~= head + (bytes + tail));
    lemma_byte_ranges();
    lemma_get_le(bytes.len(), 2, bytes + tail);
}

/// Numbers are written lowest byte first: each byte is that of its power of 256.
pub proof fn law_the_lowest_byte_comes_first(value: nat, len: nat, i: int)
    ensures
        le_bytes(value, len).len() == len,
        0 <= i < len ==> le_bytes(value, len)[i] == (value / byte_power(i as nat)) % 256,
    decreases len,
{
    lemma_le_bytes_len(value, len);
    if len > 0 && i > 0 {
        law_the_lowest_byte_comes_first(value / 256, (len - 1) as nat, i - 1);
        let below = byte_power((i - 1) as nat);
        lemma_byte_power((i - 1) as nat);
        vstd::arithmetic::div_mod::lemma_div_denominator(value as int, 256, below as int);
        vstd::arithmetic::power::lemma_pow1(256);
        vstd::arithmetic::power::lemma_pow_adds(256, 1, (i - 1) as nat);
        assert(byte_power(i as nat) == 256 * below);
    } else if len > 0 {
        vstd::arithmetic::power::lemma_pow0(256);
        vstd::arithmetic::div_mod::lemma_div_basics(value as int);
    }
}

/// The power of 256 at a place.
pub open spec fn byte_power(i: nat) -> nat {
    vstd::arithmetic::power::pow(256, i) as nat
}

proof fn lemma_byte_power(i: nat)
    ensures
        byte_power(i) == vstd::arithmetic::power::pow(256, i),
        byte_power(i) > 0,
{
    vstd::arithmetic::power::lemma_pow_positive(256, i);
}

/// What a failure to read tells: the lengths or the value, and the field.
pub proof fn law_what_is_told_of_a_failure(err: SnapshotProtocolError, res: String)
    requires
        call_ensures(SnapshotProtocolError::message, (&err,), res),
    ensures
        err matches SnapshotProtocolError::Truncated { needed, available } ==> res@
            == "truncated input: needed "@ + text::decimal(needed as nat) + " bytes, only "@
            + text::decimal(available as nat) + " remained"@,
        err matches SnapshotProtocolError::LengthOutOfBounds { field, declared, max } ==> res@
            == "field '"@ + field@ + "' declared length "@ + text::decimal(declared as nat)
            + " exceeds maximum "@ + text::decimal(max as nat),
        err matches SnapshotProtocolError::UnknownDiscriminant { field, value } ==> res@
            == "unknown discriminant for '"@ + field@ + "': "@ + text::decimal(value as nat),
        err matches SnapshotProtocolError::InvalidUtf8(field) ==> res@ == "field '"@ + field@
            + "' is not valid UTF-8"@,
{
}

} // verus!
