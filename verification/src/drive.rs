//! Drive letters.

use crate::error::CliError;
use crate::error;
use crate::text;
use crate::text::{cat3, chars_of, trim};
use vstd::prelude::*;
use vstd::string::*;

verus! {

/// The letter of a Windows drive.
#[derive(Debug, Clone, Copy, PartialEq, Eq, PartialOrd, Ord, Hash, Structural)]
pub enum DriveLetter {
    /// Drive A.
    A,
    /// Drive B.
    B,
    /// Drive C.
    C,
    /// Drive D.
    D,
    /// Drive E.
    E,
    /// Drive F.
    F,
    /// Drive G.
    G,
    /// Drive H.
    H,
    /// Drive I.
    I,
    /// Drive J.
    J,
    /// Drive K.
    K,
    /// Drive L.
    L,
    /// Drive M.
    M,
    /// Drive N.
    N,
    /// Drive O.
    O,
    /// Drive P.
    P,
    /// Drive Q.
    Q,
    /// Drive R.
    R,
    /// Drive S.
    S,
    /// Drive T.
    T,
    /// Drive U.
    U,
    /// Drive V.
    V,
    /// Drive W.
    W,
    /// Drive X.
    X,
    /// Drive Y.
    Y,
    /// Drive Z.
    Z,
}

impl DriveLetter {
    /// The capital letter of the drive.
    pub open spec fn letter(self) -> char {
        match self {
            DriveLetter::A => 'A',
            DriveLetter::B => 'B',
            DriveLetter::C => 'C',
            DriveLetter::D => 'D',
            DriveLetter::E => 'E',
            DriveLetter::F => 'F',
            DriveLetter::G => 'G',
            DriveLetter::H => 'H',
            DriveLetter::I => 'I',
            DriveLetter::J => 'J',
            DriveLetter::K => 'K',
            DriveLetter::L => 'L',
            DriveLetter::M => 'M',
            DriveLetter::N => 'N',
            DriveLetter::O => 'O',
            DriveLetter::P => 'P',
            DriveLetter::Q => 'Q',
            DriveLetter::R => 'R',
            DriveLetter::S => 'S',
            DriveLetter::T => 'T',
            DriveLetter::U => 'U',
            DriveLetter::V => 'V',
            DriveLetter::W => 'W',
            DriveLetter::X => 'X',
            DriveLetter::Y => 'Y',
            DriveLetter::Z => 'Z',
        }
    }

    /// The drive with a letter, in either case.
    pub open spec fn of(c: char) -> Option<DriveLetter> {
        if c == 'A' || c == 'a' {
            Some(DriveLetter::A)
        } else if c == 'B' || c == 'b' {
            Some(DriveLetter::B)
        } else if c == 'C' || c == 'c' {
            Some(DriveLetter::C)
        } else if c == 'D' || c == 'd' {
            Some(DriveLetter::D)
        } else if c == 'E' || c == 'e' {
            Some(DriveLetter::E)
        } else if c == 'F' || c == 'f' {
            Some(DriveLetter::F)
        } else if c == 'G' || c == 'g' {
            Some(DriveLetter::G)
        } else if c == 'H' || c == 'h' {
            Some(DriveLetter::H)
        } else if c == 'I' || c == 'i' {
            Some(DriveLetter::I)
        } else if c == 'J' || c == 'j' {
            Some(DriveLetter::J)
        } else if c == 'K' || c == 'k' {
            Some(DriveLetter::K)
        } else if c == 'L' || c == 'l' {
            Some(DriveLetter::L)
        } else if c == 'M' || c == 'm' {
            Some(DriveLetter::M)
        } else if c == 'N' || c == 'n' {
            Some(DriveLetter::N)
        } else if c == 'O' || c == 'o' {
            Some(DriveLetter::O)
        } else if c == 'P' || c == 'p' {
            Some(DriveLetter::P)
        } else if c == 'Q' || c == 'q' {
            Some(DriveLetter::Q)
        } else if c == 'R' || c == 'r' {
            Some(DriveLetter::R)
        } else if c == 'S' || c == 's' {
            Some(DriveLetter::S)
        } else if c == 'T' || c == 't' {
            Some(DriveLetter::T)
        } else if c == 'U' || c == 'u' {
            Some(DriveLetter::U)
        } else if c == 'V' || c == 'v' {
            Some(DriveLetter::V)
        } else if c == 'W' || c == 'w' {
            Some(DriveLetter::W)
        } else if c == 'X' || c == 'x' {
            Some(DriveLetter::X)
        } else if c == 'Y' || c == 'y' {
            Some(DriveLetter::Y)
        } else if c == 'Z' || c == 'z' {
            Some(DriveLetter::Z)
        } else {
            None
        }
    }

    /// The capital letter of the drive.
    pub fn as_char(self) -> (res: char)
        ensures
            res == self.letter(),
    {
        match self {
            DriveLetter::A => 'A',
            DriveLetter::B => 'B',
            DriveLetter::C => 'C',
            DriveLetter::D => 'D',
            DriveLetter::E => 'E',
            DriveLetter::F => 'F',
            DriveLetter::G => 'G',
            DriveLetter::H => 'H',
            DriveLetter::I => 'I',
            DriveLetter::J => 'J',
            DriveLetter::K => 'K',
            DriveLetter::L => 'L',
            DriveLetter::M => 'M',
            DriveLetter::N => 'N',
            DriveLetter::O => 'O',
            DriveLetter::P => 'P',
            DriveLetter::Q => 'Q',
            DriveLetter::R => 'R',
            DriveLetter::S => 'S',
            DriveLetter::T => 'T',
            DriveLetter::U => 'U',
            DriveLetter::V => 'V',
            DriveLetter::W => 'W',
            DriveLetter::X => 'X',
            DriveLetter::Y => 'Y',
            DriveLetter::Z => 'Z',
        }
    }

    /// The drive as it is shown: its letter.
    pub fn show(self) -> (res: String)
        ensures
            res@ == seq![self.letter()],
    {
        let mut res = String::new();
        text::push_char(&mut res, self.as_char());
        assert(res@ =~= seq![self.letter()]);
        res
    }

    /// The drive with a letter, in either case.
    pub fn parse(c: char) -> (res: Result<DriveLetter, DriveLetterError>)
        ensures
            match Self::of(c) {
                Some(drive) => res == Ok::<DriveLetter, DriveLetterError>(drive),
                None => res == Err::<DriveLetter, DriveLetterError>(DriveLetterError { raw: c }),
            },
    {
        if c == 'A' || c == 'a' {
            Ok(DriveLetter::A)
        } else if c == 'B' || c == 'b' {
            Ok(DriveLetter::B)
        } else if c == 'C' || c == 'c' {
            Ok(DriveLetter::C)
        } else if c == 'D' || c == 'd' {
            Ok(DriveLetter::D)
        } else if c == 'E' || c == 'e' {
            Ok(DriveLetter::E)
        } else if c == 'F' || c == 'f' {
            Ok(DriveLetter::F)
        } else if c == 'G' || c == 'g' {
            Ok(DriveLetter::G)
        } else if c == 'H' || c == 'h' {
            Ok(DriveLetter::H)
        } else if c == 'I' || c == 'i' {
            Ok(DriveLetter::I)
        } else if c == 'J' || c == 'j' {
            Ok(DriveLetter::J)
        } else if c == 'K' || c == 'k' {
            Ok(DriveLetter::K)
        } else if c == 'L' || c == 'l' {
            Ok(DriveLetter::L)
        } else if c == 'M' || c == 'm' {
            Ok(DriveLetter::M)
        } else if c == 'N' || c == 'n' {
            Ok(DriveLetter::N)
        } else if c == 'O' || c == 'o' {
            Ok(DriveLetter::O)
        } else if c == 'P' || c == 'p' {
            Ok(DriveLetter::P)
        } else if c == 'Q' || c == 'q' {
            Ok(DriveLetter::Q)
        } else if c == 'R' || c == 'r' {
            Ok(DriveLetter::R)
        } else if c == 'S' || c == 's' {
            Ok(DriveLetter::S)
        } else if c == 'T' || c == 't' {
            Ok(DriveLetter::T)
        } else if c == 'U' || c == 'u' {
            Ok(DriveLetter::U)
        } else if c == 'V' || c == 'v' {
            Ok(DriveLetter::V)
        } else if c == 'W' || c == 'w' {
            Ok(DriveLetter::W)
        } else if c == 'X' || c == 'x' {
            Ok(DriveLetter::X)
        } else if c == 'Y' || c == 'y' {
            Ok(DriveLetter::Y)
        } else if c == 'Z' || c == 'z' {
            Ok(DriveLetter::Z)
        } else {
            Err(DriveLetterError { raw: c })
        }
    }
}

/// A character that is no drive letter.
#[derive(Debug, Clone, Copy, PartialEq, Eq, Structural)]
pub struct DriveLetterError {
    /// The character.
    pub raw: char,
}

impl DriveLetterError {
    /// The diagnostic text of the error.
    pub open spec fn text(self) -> Seq<char> {
        "drive letter must be ASCII A..=Z (case insensitive); got '"@ + seq![self.raw] + "'"@
    }

    /// The diagnostic text of the error.
    pub fn message(&self) -> (res: String)
        ensures
            res@ == self.text(),
    {
        let mut raw = String::new();
        text::push_char(&mut raw, self.raw);
        assert(raw@ =~= seq![self.raw]);
        cat3("drive letter must be ASCII A..=Z (case insensitive); got '", &raw, "'")
    }
}

/// Why a text is no drive letter.
#[derive(Debug, Clone, PartialEq, Eq)]
#[non_exhaustive]
pub enum ParseDriveLetterError {
    /// Input was not a single letter, optionally followed by a colon.
    BadShape {
        /// The input as it was given, untrimmed.
        input: String,
    },
    /// The single character was not in `A..=Z`, in either case.
    Inner {
        /// The input as it was given, untrimmed.
        input: String,
        /// The underlying error.
        source: DriveLetterError,
    },
}

impl ParseDriveLetterError {
    /// The diagnostic text of the error.
    pub open spec fn text(self) -> Seq<char> {
        match self {
            ParseDriveLetterError::BadShape { input } => bad_shape_text(input@),
            ParseDriveLetterError::Inner { input, source } => inner_text(input@, source),
        }
    }

    /// The diagnostic text of the error.
    pub fn message(&self) -> (res: String)
        ensures
            res@ == self.text(),
    {
        match self {
            ParseDriveLetterError::BadShape { input } => cat3(
                "Invalid drive letter '",
                input,
                "': expected single letter like 'C' or 'C:'",
            ),
            ParseDriveLetterError::Inner { input, source } => text::cat4(
                "Invalid drive letter '",
                input,
                "': ",
                &source.message(),
            ),
        }
    }

    /// The underlying error, if there is one.
    pub fn source(&self) -> (res: Option<&DriveLetterError>)
        ensures
            match *self {
                ParseDriveLetterError::BadShape { .. } => res is None,
                ParseDriveLetterError::Inner { input: _, source } => res is Some && *res->Some_0
                    == source,
            },
    {
        match self {
            ParseDriveLetterError::BadShape { .. } => None,
            ParseDriveLetterError::Inner { input: _, source } => Some(source),
        }
    }
}

/// What is said of an input that is not a single letter.
pub open spec fn bad_shape_text(input: Seq<char>) -> Seq<char> {
    "Invalid drive letter '"@ + input + "': expected single letter like 'C' or 'C:'"@
}

/// What is said of an input whose single character is no drive letter.
pub open spec fn inner_text(input: Seq<char>, source: DriveLetterError) -> Seq<char> {
    "Invalid drive letter '"@ + input + "': "@ + source.text()
}

/// An input without the white space around it and without one colon behind it.
pub open spec fn bare_drive(input: Seq<char>) -> Seq<char> {
    let trimmed = text::trimmed(input);
    if trimmed.len() > 0 && trimmed.last() == ':' {
        trimmed.drop_last()
    } else {
        trimmed
    }
}

/// Whether an input is a single ASCII character, as far as [`bare_drive`] leaves it.
pub open spec fn single(input: Seq<char>) -> bool {
    bare_drive(input).len() == 1 && (bare_drive(input)[0] as u32) < 128
}

/// The drive that an input stands for.
pub open spec fn drive_of(input: Seq<char>) -> Option<DriveLetter> {
    if single(input) {
        DriveLetter::of(bare_drive(input)[0])
    } else {
        None
    }
}

/// The error that an input which stands for no drive is answered with.
pub open spec fn drive_error(input: Seq<char>) -> error::ErrorView {
    if single(input) {
        let source = DriveLetterError { raw: bare_drive(input)[0] };
        error::ErrorView { message: inner_text(input, source), cause: Some(source.text()) }
    } else {
        error::ErrorView { message: bad_shape_text(input), cause: None }
    }
}

/// Parse a drive letter as it is given on the command line: `C`, `c`, `C:` or `c:`.
pub fn parse_drive_letter(input: &str) -> (res: Result<DriveLetter, ParseDriveLetterError>)
    ensures
        match drive_of(input@) {
            Some(drive) => res == Ok::<DriveLetter, ParseDriveLetterError>(drive),
            None => match res {
                Ok(_) => false,
                Err(ParseDriveLetterError::BadShape { input: told }) => !single(input@) && told@
                    == input@,
                Err(ParseDriveLetterError::Inner { input: told, source }) => single(input@) && told@
                    == input@ && source.raw == bare_drive(input@)[0],
            },
        },
{
    let trimmed = trim(input);
    let chars = chars_of(&trimmed);
    let len: usize = if chars.len() > 0 && chars[chars.len() - 1] == ':' {
        chars.len() - 1
    } else {
        chars.len()
    };
    if len != 1 {
        return Err(ParseDriveLetterError::BadShape { input: input.to_owned() });
    }
    let c = chars[0];
    assert(bare_drive(input@) =~= seq![c]);
    if c as u32 >= 128 {
        return Err(ParseDriveLetterError::BadShape { input: input.to_owned() });
    }
    match DriveLetter::parse(c) {
        Ok(drive) => Ok(drive),
        Err(source) => Err(ParseDriveLetterError::Inner { input: input.to_owned(), source }),
    }
}

/// Parse a drive letter, with the error as a command reports it.
pub fn drive_argument(input: &str) -> (res: Result<DriveLetter, CliError>)
    ensures
        match drive_of(input@) {
            Some(drive) => res == Ok::<DriveLetter, CliError>(drive),
            None => res is Err && res->Err_0@ == drive_error(input@),
        },
{
    match parse_drive_letter(input) {
        Ok(drive) => Ok(drive),
        Err(err) => {
            let message = err.message();
            let cause = match err.source() {
                Some(source) => Some(source.message()),
                None => None,
            };
            let res = CliError { message, cause };
            assert(res@ == drive_error(input@));
            Err(res)
        },
    }
}

/// The drives among some texts, in order; the other texts are skipped.
pub open spec fn drives_among(parts: Seq<Seq<char>>) -> Seq<DriveLetter>
    decreases parts.len(),
{
    if parts.len() == 0 {
        Seq::empty()
    } else {
        let before = drives_among(parts.drop_last());
        match drive_of(parts.last()) {
            Some(drive) => before.push(drive),
            None => before,
        }
    }
}

/// The drives in a comma-separated value.
pub open spec fn csv_drives(value: Seq<char>) -> Seq<DriveLetter> {
    drives_among(text::split_at_char(value, ','))
}

/// Append every drive in a comma-separated value to `drives`; what is no drive is skipped.
pub fn extend_drives_from_csv(drives: &mut Vec<DriveLetter>, value: &str)
    ensures
        final(drives)@ == old(drives)@ + csv_drives(value@),
{
    let parts = text::split(value, ',');
    let ghost shown = text::texts(parts@);
    let mut i: usize = 0;
    proof {
        assert(old(drives)@ + drives_among(shown.take(0)) =~= old(drives)@);
    }
    while i < parts.len()
        invariant
            i <= parts@.len(),
            shown == text::texts(parts@),
            drives@ == old(drives)@ + drives_among(shown.take(i as int)),
        decreases parts@.len() - i,
    {
        proof {
            assert(shown.take(i + 1).drop_last() =~= shown.take(i as int));
            assert(shown.take(i + 1).last() == parts@[i as int]@);
        }
        let ghost before = drives@;
        if let Ok(drive) = parse_drive_letter(&parts[i]) {
            drives.push(drive);
            assert(drives@ =~= old(drives)@ + drives_among(shown.take(i as int)).push(drive));
        }
        i += 1;
    }
    assert(shown.take(i as int) =~= shown);
}

/// The drives that the characters of a value name one by one.
pub open spec fn letter_drives(value: Seq<char>) -> Seq<DriveLetter>
    decreases value.len(),
{
    if value.len() == 0 {
        Seq::empty()
    } else {
        let before = letter_drives(value.drop_last());
        match DriveLetter::of(value.last()) {
            Some(drive) => before.push(drive),
            None => before,
        }
    }
}

/// Append the drive of every character of `value` that is a drive letter to `drives`.
pub fn extend_drives_from_letters(drives: &mut Vec<DriveLetter>, value: &str)
    ensures
        final(drives)@ == old(drives)@ + letter_drives(value@),
{
    let chars = chars_of(value);
    let mut i: usize = 0;
    proof {
        assert(old(drives)@ + letter_drives(value@.take(0)) =~= old(drives)@);
    }
    while i < chars.len()
        invariant
            i <= chars@.len(),
            chars@ == value@,
            drives@ == old(drives)@ + letter_drives(value@.take(i as int)),
        decreases chars@.len() - i,
    {
        proof {
            assert(value@.take(i + 1).drop_last() =~= value@.take(i as int));
        }
        if let Ok(drive) = DriveLetter::parse(chars[i]) {
            drives.push(drive);
            assert(drives@ =~= old(drives)@ + letter_drives(value@.take(i as int)).push(drive));
        }
        i += 1;
    }
    assert(value@.take(i as int) =~= value@);
}

/// The texts of drives.
pub open spec fn drive_texts(drives: Seq<DriveLetter>) -> Seq<Seq<char>> {
    drives.map_values(|drive: DriveLetter| seq![drive.letter()])
}

/// The drives as they are shown.
pub fn show_drives(drives: &[DriveLetter]) -> (res: Vec<String>)
    ensures
        text::texts(res@) == drive_texts(drives@),
{
    let mut res: Vec<String> = Vec::new();
    let mut i: usize = 0;
    while i < drives.len()
        invariant
            i <= drives@.len(),
            text::texts(res@) == drive_texts(drives@.take(i as int)),
        decreases drives@.len() - i,
    {
        let ghost before = text::texts(res@);
        res.push(drives[i].show());
        proof {
            assert(text::texts(res@) =~= before.push(seq![drives@[i as int].letter()]));
            assert(drive_texts(drives@.take(i + 1)) =~= before.push(
                seq![drives@[i as int].letter()],
            ));
        }
        i += 1;
    }
    assert(drives@.take(i as int) =~= drives@);
    res
}

/// A drive letter is found under its own letter in either case, and under no other.
pub proof fn law_drive_letter_round_trip(drive: DriveLetter, c: char)
    ensures
        DriveLetter::of(drive.letter()) == Some(drive),
        DriveLetter::of(text::lower_char(drive.letter())) == Some(drive),
        DriveLetter::of(c) == Some(drive) ==> c == drive.letter() || c == text::lower_char(
            drive.letter(),
        ),
{
}

/// A letter names its own drive, in either case, and no other character names one.
pub proof fn law_a_letter_names_its_drive(c: char, res: Result<DriveLetter, DriveLetterError>)
    requires
        call_ensures(DriveLetter::parse, (c,), res),
    ensures
        c == 'A' || c == 'a' ==> res == Ok::<DriveLetter, DriveLetterError>(DriveLetter::A),
        c == 'B' || c == 'b' ==> res == Ok::<DriveLetter, DriveLetterError>(DriveLetter::B),
        c == 'C' || c == 'c' ==> res == Ok::<DriveLetter, DriveLetterError>(DriveLetter::C),
        c == 'D' || c == 'd' ==> res == Ok::<DriveLetter, DriveLetterError>(DriveLetter::D),
        c == 'E' || c == 'e' ==> res == Ok::<DriveLetter, DriveLetterError>(DriveLetter::E),
        c == 'F' || c == 'f' ==> res == Ok::<DriveLetter, DriveLetterError>(DriveLetter::F),
        c == 'G' || c == 'g' ==> res == Ok::<DriveLetter, DriveLetterError>(DriveLetter::G),
        c == 'H' || c == 'h' ==> res == Ok::<DriveLetter, DriveLetterError>(DriveLetter::H),
        c == 'I' || c == 'i' ==> res == Ok::<DriveLetter, DriveLetterError>(DriveLetter::I),
        c == 'J' || c == 'j' ==> res == Ok::<DriveLetter, DriveLetterError>(DriveLetter::J),
        c == 'K' || c == 'k' ==> res == Ok::<DriveLetter, DriveLetterError>(DriveLetter::K),
        c == 'L' || c == 'l' ==> res == Ok::<DriveLetter, DriveLetterError>(DriveLetter::L),
        c == 'M' || c == 'm' ==> res == Ok::<DriveLetter, DriveLetterError>(DriveLetter::M),
        c == 'N' || c == 'n' ==> res == Ok::<DriveLetter, DriveLetterError>(DriveLetter::N),
        c == 'O' || c == 'o' ==> res == Ok::<DriveLetter, DriveLetterError>(DriveLetter::O),
        c == 'P' || c == 'p' ==> res == Ok::<DriveLetter, DriveLetterError>(DriveLetter::P),
        c == 'Q' || c == 'q' ==> res == Ok::<DriveLetter, DriveLetterError>(DriveLetter::Q),
        c == 'R' || c == 'r' ==> res == Ok::<DriveLetter, DriveLetterError>(DriveLetter::R),
        c == 'S' || c == 's' ==> res == Ok::<DriveLetter, DriveLetterError>(DriveLetter::S),
        c == 'T' || c == 't' ==> res == Ok::<DriveLetter, DriveLetterError>(DriveLetter::T),
        c == 'U' || c == 'u' ==> res == Ok::<DriveLetter, DriveLetterError>(DriveLetter::U),
        c == 'V' || c == 'v' ==> res == Ok::<DriveLetter, DriveLetterError>(DriveLetter::V),
        c == 'W' || c == 'w' ==> res == Ok::<DriveLetter, DriveLetterError>(DriveLetter::W),
        c == 'X' || c == 'x' ==> res == Ok::<DriveLetter, DriveLetterError>(DriveLetter::X),
        c == 'Y' || c == 'y' ==> res == Ok::<DriveLetter, DriveLetterError>(DriveLetter::Y),
        c == 'Z' || c == 'z' ==> res == Ok::<DriveLetter, DriveLetterError>(DriveLetter::Z),
        !(('A' <= c && c <= 'Z') || ('a' <= c && c <= 'z')) ==> res is Err,
{
}

/// A drive is shown as its own letter.
pub proof fn law_a_drive_is_shown_as_its_letter(drive: DriveLetter, shown: String, c: char)
    requires
        call_ensures(DriveLetter::show, (drive,), shown),
        call_ensures(DriveLetter::as_char, (drive,), c),
    ensures
        shown@ == seq![c],
        'A' <= c && c <= 'Z',
        DriveLetter::of(c) == Some(drive),
{
    law_drive_letter_round_trip(drive, c);
}

/// A text names a drive exactly where it is the letter of the drive, in either case, with a colon
/// behind it or not, and with white space around it or not.
pub proof fn law_what_names_a_drive(input: &str, res: Result<DriveLetter, ParseDriveLetterError>)
    requires
        call_ensures(parse_drive_letter, (input,), res),
    ensures
        ({
            let word = text::trimmed(input@);
            match res {
                Ok(drive) => {
                    let c = word[0];
                    &&& word.len() == 1 || (word.len() == 2 && word[1] == ':')
                    &&& c == drive.letter() || c == text::lower_char(drive.letter())
                },
                Err(_) => !((word.len() == 1 || (word.len() == 2 && word[1] == ':')) && (('A'
                    <= word[0] && word[0] <= 'Z') || ('a' <= word[0] && word[0] <= 'z'))),
            }
        }),
{
    if let Ok(drive) = res {
        law_drive_letter_round_trip(drive, bare_drive(input@)[0]);
    }
}

/// A list of drives with commas between them is read part by part, in order; what names no drive is
/// passed over.
pub proof fn law_lists_of_drives_are_read_in_order(a: Seq<char>, b: Seq<char>)
    ensures
        csv_drives(a + seq![','] + b) == csv_drives(a) + csv_drives(b),
        letter_drives(a + b) == letter_drives(a) + letter_drives(b),
        (forall|k: int| 0 <= k < a.len() ==> #[trigger] a[k] != ',') ==> csv_drives(a) == (
        match drive_of(a) {
            Some(drive) => seq![drive],
            None => Seq::empty(),
        }),
    decreases b.len(),
{
    lemma_split_comma(a, b);
    lemma_among_concat(text::split_at_char(a, ','), text::split_at_char(b, ','));
    lemma_letters_concat(a, b);
    if forall|k: int| 0 <= k < a.len() ==> #[trigger] a[k] != ',' {
        lemma_one_part(a);
        reveal_with_fuel(drives_among, 2);
        assert(seq![a].drop_last() =~= Seq::empty());
        assert(csv_drives(a) =~= (match drive_of(a) {
            Some(drive) => seq![drive],
            None => Seq::empty(),
        }));
    }
}

proof fn lemma_one_part(a: Seq<char>)
    requires
        forall|k: int| 0 <= k < a.len() ==> #[trigger] a[k] != ',',
    ensures
        text::split_at_char(a, ',') == seq![a],
    decreases a.len(),
{
    if a.len() > 0 {
        let rest = a.drop_last();
        assert forall|k: int| 0 <= k < rest.len() implies #[trigger] rest[k] != ',' by {
            assert(rest[k] == a[k]);
        }
        lemma_one_part(rest);
        assert(a.last() == a[a.len() - 1]);
        assert(rest.push(a.last()) =~= a);
    } else {
        assert(a =~= Seq::empty());
    }
    assert(text::split_at_char(a, ',') =~= seq![a]);
}

proof fn lemma_split_comma(a: Seq<char>, b: Seq<char>)
    ensures
        text::split_at_char(a + seq![','] + b, ',') == text::split_at_char(a, ',')
            + text::split_at_char(b, ','),
        text::split_at_char(b, ',').len() > 0,
    decreases b.len(),
{
    let whole = a + seq![','] + b;
    if b.len() == 0 {
        assert(whole.drop_last() =~= a);
        assert(text::split_at_char(whole, ',') =~= text::split_at_char(a, ',')
            + text::split_at_char(b, ','));
    } else {
        lemma_split_comma(a, b.drop_last());
        assert(whole.drop_last() =~= a + seq![','] + b.drop_last());
        assert(whole.last() == b.last());
        assert(text::split_at_char(whole, ',') =~= text::split_at_char(a, ',')
            + text::split_at_char(b, ','));
    }
}

proof fn lemma_among_concat(a: Seq<Seq<char>>, b: Seq<Seq<char>>)
    ensures
        drives_among(a + b) == drives_among(a) + drives_among(b),
    decreases b.len(),
{
    if b.len() == 0 {
        assert(a + b =~= a);
    } else {
        lemma_among_concat(a, b.drop_last());
        assert((a + b).drop_last() =~= a + b.drop_last());
        assert((a + b).last() == b.last());
    }
    assert(drives_among(a + b) =~= drives_among(a) + drives_among(b));
}

proof fn lemma_letters_concat(a: Seq<char>, b: Seq<char>)
    ensures
        letter_drives(a + b) == letter_drives(a) + letter_drives(b),
    decreases b.len(),
{
    if b.len() == 0 {
        assert(a + b =~= a);
    } else {
        lemma_letters_concat(a, b.drop_last());
        assert((a + b).drop_last() =~= a + b.drop_last());
        assert((a + b).last() == b.last());
    }
    assert(letter_drives(a + b) =~= letter_drives(a) + letter_drives(b));
}

} // verus!
