//! Classes of characters, and the case folding of ASCII letters.

use vstd::prelude::*;
use crate::text::chars::chars_of;

verus! {

/// A set of characters that the grammars speak of.
#[derive(Debug, Clone, Copy)]
pub enum Class {
    /// Exactly this character.
    One(char),
    /// Unicode `White_Space`.
    Space,
    /// `0` to `9`.
    Digit,
    /// `0` to `9`, `a` to `f`, `A` to `F`.
    HexDigit,
    /// ASCII letters and digits.
    Alnum,
    /// Digits and `-`: the characters of a logcat date.
    DateChar,
    /// ASCII letters and digits, space, `_`, `-`, `.`, `/`: a kernel subsystem name.
    SubsystemChar,
    /// ASCII letters and digits, `.`, `_`: an Android package name.
    PackageChar,
    /// ASCII letters and digits, `.`: an Android release.
    VersionChar,
    /// ASCII lower case letters, digits, `_`: a logcat buffer name.
    BufferChar,
    /// ASCII letters and digits, `.`, `_`, `-`: an exported file's name.
    FileChar,
    /// `.`, `_`, `-`: what an exported file's name may not begin or end with.
    FileEdge,
    /// `.`, `-`, `_`, space: what separates the parts of a kernel release.
    ReleaseSep,
    /// `/` and `\`.
    PathSep,
    /// What a shell word may hold without quotes.
    ShellSafe,
    /// The severity letters of logcat.
    LevelLetter,
    /// The process state letters of `ps`.
    StateLetter,
}

pub open spec fn is_space(c: char) -> bool {
    ||| '\u{9}' <= c <= '\u{d}'
    ||| c == ' '
    ||| c == '\u{85}'
    ||| c == '\u{a0}'
    ||| c == '\u{1680}'
    ||| '\u{2000}' <= c <= '\u{200a}'
    ||| c == '\u{2028}'
    ||| c == '\u{2029}'
    ||| c == '\u{202f}'
    ||| c == '\u{205f}'
    ||| c == '\u{3000}'
}

pub open spec fn is_digit(c: char) -> bool {
    '0' <= c <= '9'
}

pub open spec fn is_lower(c: char) -> bool {
    'a' <= c <= 'z'
}

pub open spec fn is_upper(c: char) -> bool {
    'A' <= c <= 'Z'
}

pub open spec fn is_alnum(c: char) -> bool {
    is_digit(c) || is_lower(c) || is_upper(c)
}

impl Class {
    /// Membership in the class.
    pub open spec fn has(self, c: char) -> bool {
        match self {
            Class::One(x) => c == x,
            Class::Space => is_space(c),
            Class::Digit => is_digit(c),
            Class::HexDigit => is_digit(c) || 'a' <= c <= 'f' || 'A' <= c <= 'F',
            Class::Alnum => is_alnum(c),
            Class::DateChar => is_digit(c) || c == '-',
            Class::SubsystemChar => is_alnum(c) || c == ' ' || c == '_' || c == '-' || c == '.' || c == '/',
            Class::PackageChar => is_alnum(c) || c == '.' || c == '_',
            Class::VersionChar => is_alnum(c) || c == '.',
            Class::BufferChar => is_lower(c) || is_digit(c) || c == '_',
            Class::FileChar => is_alnum(c) || c == '.' || c == '_' || c == '-',
            Class::FileEdge => c == '.' || c == '_' || c == '-',
            Class::ReleaseSep => c == '.' || c == '-' || c == '_' || c == ' ',
            Class::PathSep => c == '/' || c == '\\',
            Class::ShellSafe => is_alnum(c) || c == '_' || c == '-' || c == '.' || c == '=' || c == ':'
                || c == '/' || c == '@' || c == '+' || c == ',',
            Class::LevelLetter => c == 'V' || c == 'D' || c == 'I' || c == 'W' || c == 'E' || c == 'F'
                || c == 'S' || c == 'A',
            Class::StateLetter => c == 'S' || c == 'D' || c == 'I' || c == 'R' || c == 'T' || c == 'W'
                || c == 'Z' || c == 'X' || c == 'V' || c == 't',
        }
    }

    /// Whether `c` belongs to the class.
    pub fn holds(self, c: char) -> (r: bool)
        ensures
            r == self.has(c),
    {
        let digit = '0' <= c && c <= '9';
        let lower = 'a' <= c && c <= 'z';
        let alnum = digit || lower || ('A' <= c && c <= 'Z');
        match self {
            Class::One(x) => c == x,
            Class::Space => ('\u{9}' <= c && c <= '\u{d}') || c == ' ' || c == '\u{85}' || c == '\u{a0}'
                || c == '\u{1680}' || ('\u{2000}' <= c && c <= '\u{200a}') || c == '\u{2028}'
                || c == '\u{2029}' || c == '\u{202f}' || c == '\u{205f}' || c == '\u{3000}',
            Class::Digit => digit,
            Class::HexDigit => digit || ('a' <= c && c <= 'f') || ('A' <= c && c <= 'F'),
            Class::Alnum => alnum,
            Class::DateChar => digit || c == '-',
            Class::SubsystemChar => alnum || c == ' ' || c == '_' || c == '-' || c == '.' || c == '/',
            Class::PackageChar => alnum || c == '.' || c == '_',
            Class::VersionChar => alnum || c == '.',
            Class::BufferChar => lower || digit || c == '_',
            Class::FileChar => alnum || c == '.' || c == '_' || c == '-',
            Class::FileEdge => c == '.' || c == '_' || c == '-',
            Class::ReleaseSep => c == '.' || c == '-' || c == '_' || c == ' ',
            Class::PathSep => c == '/' || c == '\\',
            Class::ShellSafe => alnum || c == '_' || c == '-' || c == '.' || c == '=' || c == ':' || c == '/'
                || c == '@' || c == '+' || c == ',',
            Class::LevelLetter => c == 'V' || c == 'D' || c == 'I' || c == 'W' || c == 'E' || c == 'F'
                || c == 'S' || c == 'A',
            Class::StateLetter => c == 'S' || c == 'D' || c == 'I' || c == 'R' || c == 'T' || c == 'W'
                || c == 'Z' || c == 'X' || c == 'V' || c == 't',
        }
    }
}

/// An ASCII upper case letter in lower case; any other character unchanged.
pub open spec fn lower_char(c: char) -> char {
    match c {
        'A' => 'a', 'B' => 'b', 'C' => 'c', 'D' => 'd', 'E' => 'e', 'F' => 'f', 'G' => 'g',
        'H' => 'h', 'I' => 'i', 'J' => 'j', 'K' => 'k', 'L' => 'l', 'M' => 'm', 'N' => 'n',
        'O' => 'o', 'P' => 'p', 'Q' => 'q', 'R' => 'r', 'S' => 's', 'T' => 't', 'U' => 'u',
        'V' => 'v', 'W' => 'w', 'X' => 'x', 'Y' => 'y', 'Z' => 'z',
        _ => c,
    }
}

/// The executable form of [`lower_char`].
pub fn to_lower_char(c: char) -> (r: char)
    ensures
        r == lower_char(c),
{
    match c {
        'A' => 'a', 'B' => 'b', 'C' => 'c', 'D' => 'd', 'E' => 'e', 'F' => 'f', 'G' => 'g',
        'H' => 'h', 'I' => 'i', 'J' => 'j', 'K' => 'k', 'L' => 'l', 'M' => 'm', 'N' => 'n',
        'O' => 'o', 'P' => 'p', 'Q' => 'q', 'R' => 'r', 'S' => 's', 'T' => 't', 'U' => 'u',
        'V' => 'v', 'W' => 'w', 'X' => 'x', 'Y' => 'y', 'Z' => 'z',
        _ => c,
    }
}

/// Text with its ASCII letters in lower case.
pub open spec fn ascii_lower(s: Seq<char>) -> Seq<char> {
    s.map_values(|c: char| lower_char(c))
}

/// The executable form of [`ascii_lower`].
pub fn to_ascii_lower(cs: &[char]) -> (r: Vec<char>)
    ensures
        r@ == ascii_lower(cs@),
{
    let mut r: Vec<char> = Vec::new();
    let mut i: usize = 0;
    while i < cs.len()
        invariant
            i <= cs@.len(),
            r@ =~= ascii_lower(cs@).take(i as int),
        decreases cs@.len() - i,
    {
        r.push(to_lower_char(cs[i]));
        i += 1;
    }
    r
}

/// Text in lower case, by the case mapping of Unicode.
pub uninterp spec fn unicode_lower(s: Seq<char>) -> Seq<char>;

/// Text in lower case: letter by letter where it is ASCII, and by the case mapping of
/// Unicode where it is not.
pub open spec fn lowercase(s: Seq<char>) -> Seq<char> {
    if vstd::utf8::is_ascii_chars(s) {
        ascii_lower(s)
    } else {
        unicode_lower(s)
    }
}

/// Calls `str::to_lowercase`.
///
/// The result depends on the text alone; on ASCII text it is the text with its
/// letters in lower case. Nothing more is said of the mapping of other text.
#[verifier::external_body]
fn std_lowercase(s: &str) -> (r: String)
    ensures
        r@ == unicode_lower(s@),
        vstd::utf8::is_ascii_chars(s@) ==> r@ == ascii_lower(s@),
{
    s.to_lowercase()
}

/// The characters of `s` in lower case.
pub fn lower_chars(s: &str) -> (r: Vec<char>)
    ensures
        r@ == lowercase(s@),
{
    let folded: String = std_lowercase(s);
    chars_of(folded.as_str())
}

} // verus!
