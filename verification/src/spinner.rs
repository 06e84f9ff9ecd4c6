//! The line that is drawn while something takes time.

use crate::text;
use crate::text::{cat5, push_repeated};
use vstd::prelude::*;

verus! {

/// How many milliseconds a frame is shown.
pub const FRAME_MILLIS: u64 = 120;

/// The glyphs of the animation, one after the other.
pub open spec fn glyph_text(frame: nat) -> Seq<char> {
    let at = frame % 10;
    if at == 0 {
        "\u{280b}"@
    } else if at == 1 {
        "\u{2819}"@
    } else if at == 2 {
        "\u{2839}"@
    } else if at == 3 {
        "\u{2838}"@
    } else if at == 4 {
        "\u{283c}"@
    } else if at == 5 {
        "\u{2834}"@
    } else if at == 6 {
        "\u{2826}"@
    } else if at == 7 {
        "\u{2827}"@
    } else if at == 8 {
        "\u{2807}"@
    } else {
        "\u{280f}"@
    }
}

/// The glyph of a frame.
pub fn glyph(frame: usize) -> (res: &'static str)
    ensures
        res@ == glyph_text(frame as nat),
{
    match frame % 10 {
        0 => "\u{280b}",
        1 => "\u{2819}",
        2 => "\u{2839}",
        3 => "\u{2838}",
        4 => "\u{283c}",
        5 => "\u{2834}",
        6 => "\u{2826}",
        7 => "\u{2827}",
        8 => "\u{2807}",
        _ => "\u{280f}",
    }
}

/// Every glyph is one character.
pub proof fn lemma_glyph_is_one_char(frame: nat)
    ensures
        glyph_text(frame).len() == 1,
{
    reveal_strlit("\u{280b}");
    reveal_strlit("\u{2819}");
    reveal_strlit("\u{2839}");
    reveal_strlit("\u{2838}");
    reveal_strlit("\u{283c}");
    reveal_strlit("\u{2834}");
    reveal_strlit("\u{2826}");
    reveal_strlit("\u{2827}");
    reveal_strlit("\u{2807}");
    reveal_strlit("\u{280f}");
}

/// The line of a frame.
pub open spec fn frame_text(label: Seq<char>, frame: nat) -> Seq<char> {
    "\r  "@ + glyph_text(frame) + " "@ + label + "\u{2026}      "@
}

/// The line of a frame.
pub fn frame_line(label: &str, frame: usize) -> (res: String)
    ensures
        res@ == frame_text(label@, frame as nat),
{
    cat5("\r  ", glyph(frame), " ", label, "\u{2026}      ")
}

/// What erases the line of every frame: as many spaces as it takes columns.
pub open spec fn erase_text(label: Seq<char>) -> Seq<char> {
    "\r"@ + text::repeated(' ', label.len() + 11) + "\r"@
}

/// What erases the line of every frame.
pub fn erase_line(label: &str) -> (res: String)
    requires
        label@.len() + 11 <= usize::MAX,
    ensures
        res@ == erase_text(label@),
{
    let width: usize = text::chars_of(label).len() + 11;
    let mut res = "\r".to_owned();
    push_repeated(&mut res, ' ', width);
    res.append("\r");
    res
}

/// The erasing covers the line of every frame exactly: it has as many columns.
pub proof fn law_erasing_covers_the_line(label: Seq<char>, frame: nat)
    ensures
        frame_text(label, frame).len() - 1 == erase_text(label).len() - 2,
{
    reveal_strlit("\r  ");
    reveal_strlit("\r");
    reveal_strlit(" ");
    reveal_strlit("\u{2026}      ");
    lemma_glyph_is_one_char(frame);
}

/// The sign turns through ten shapes and begins again; a frame goes back to the start of the line and
/// shows the sign and the label.
pub proof fn law_the_sign_turns(
    label: &str,
    frame: usize,
    later: usize,
    sign: &'static str,
    next: &'static str,
    line: String,
)
    requires
        call_ensures(glyph, (frame,), sign),
        call_ensures(glyph, (later,), next),
        call_ensures(frame_line, (label, frame), line),
    ensures
        sign@.len() == 1,
        sign@ == next@ <==> frame % 10 == later % 10,
        line@ == "\r  "@ + sign@ + " "@ + label@ + "\u{2026}      "@,
        frame % 10 == 0 ==> sign@ == "\u{280b}"@,
{
    lemma_glyph_is_one_char(frame as nat);
    lemma_glyph_is_one_char(later as nat);
    reveal_strlit("\u{280b}");
    reveal_strlit("\u{2819}");
    reveal_strlit("\u{2839}");
    reveal_strlit("\u{2838}");
    reveal_strlit("\u{283c}");
    reveal_strlit("\u{2834}");
    reveal_strlit("\u{2826}");
    reveal_strlit("\u{2827}");
    reveal_strlit("\u{2807}");
    reveal_strlit("\u{280f}");
    assert("\u{280b}"@[0] == '\u{280b}' && "\u{2819}"@[0] == '\u{2819}' && "\u{2839}"@[0]
        == '\u{2839}' && "\u{2838}"@[0] == '\u{2838}' && "\u{283c}"@[0] == '\u{283c}');
    assert("\u{2834}"@[0] == '\u{2834}' && "\u{2826}"@[0] == '\u{2826}' && "\u{2827}"@[0]
        == '\u{2827}' && "\u{2807}"@[0] == '\u{2807}' && "\u{280f}"@[0] == '\u{280f}');
}

} // verus!
