//! Tests on the first character of a text.
use vstd::prelude::*;
use vstd::string::*;
use crate::unicode::{is_letter, letter};

verus! {

/// Whether the text begins with a decimal digit.
pub fn is_digit(c: &str) -> (r: bool)
    ensures
        r == (c@.len() > 0 && '0' <= c@[0] <= '9'),
{
    if c.unicode_len() == 0 {
        return false;
    }
    let ch = c.get_char(0);
    ch >= '0' && ch <= '9'
}

/// Whether the text begins with a character that may stand in a name: a
/// letter or an underscore.
pub fn is_alphabetic(c: &str) -> (r: bool)
    ensures
        r == (c@.len() > 0 && is_letter(c@[0])),
{
    if c.unicode_len() == 0 {
        return false;
    }
    let ch = c.get_char(0);
    letter(ch)
}

} // verus!
