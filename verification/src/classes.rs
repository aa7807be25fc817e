//! Character classes that reach beyond ASCII.
use crate::text::is_ascii_digit;
use vstd::prelude::*;

verus! {

/// Whether the regular expression `class`, which stands for one character,
/// matches the character `c`.
pub uninterp spec fn class_holds(class: Seq<char>, c: char) -> bool;

/// A decimal digit of any script (Unicode general category Nd).
pub open spec fn is_digit(c: char) -> bool {
    if (c as u32) < 0x80 {
        is_ascii_digit(c)
    } else {
        class_holds("\\d"@, c)
    }
}

/// A word character of any script: a letter, mark, digit or connector.
pub open spec fn is_word(c: char) -> bool {
    if (c as u32) < 0x80 {
        is_ascii_digit(c) || 'a' <= c <= 'z' || 'A' <= c <= 'Z' || c == '_'
    } else {
        class_holds("\\w"@, c)
    }
}

/// `regex::Regex::is_match` on the text that is the character `c` alone, for
/// the class `\d` (Unicode Nd) or `\w` (Unicode Alphabetic, M, Nd, Pc and
/// Join_Control). The answer depends on the class and the character alone; the
/// crate's Unicode tables give it, and it goes by the name `class_holds`.
#[verifier::external_body]
fn matches_class(class: &str, c: char) -> (r: bool)
    requires
        class@ == "\\d"@ || class@ == "\\w"@,
    ensures
        r == class_holds(class@, c),
{
    regex::Regex::new(class).unwrap().is_match(c.encode_utf8(&mut [0; 4]))
}

/// Whether `c` is a decimal digit of any script.
pub fn digit(c: char) -> (r: bool)
    ensures
        r == is_digit(c),
{
    if (c as u32) < 0x80 {
        '0' <= c && c <= '9'
    } else {
        matches_class("\\d", c)
    }
}

/// Whether `c` is a word character of any script.
pub fn word(c: char) -> (r: bool)
    ensures
        r == is_word(c),
{
    if (c as u32) < 0x80 {
        ('0' <= c && c <= '9') || ('a' <= c && c <= 'z') || ('A' <= c && c <= 'Z') || c == '_'
    } else {
        matches_class("\\w", c)
    }
}

} // verus!
