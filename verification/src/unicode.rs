//! Characters in a text of bytes: which character begins at a position of
//! UTF-8 bytes, and what the standard library says of a character.
use vstd::prelude::*;
use vstd::utf8::*;

verus! {

/// Whether the character has the Unicode property Alphabetic, as
/// `char::is_alphabetic` of the standard library tells.
pub uninterp spec fn is_alphabetic_char(c: char) -> bool;

/// `char::is_alphabetic` of the standard library: whether the character has
/// the Unicode property Alphabetic. The result is named, not described; the
/// library asks it of characters beyond 127 only, see `is_letter`.
pub assume_specification[ char::is_alphabetic ](c: char) -> (r: bool)
    ensures
        r == is_alphabetic_char(c),
;

/// `char::from_u32` of the standard library: the character with the given
/// number, which exists exactly for the Unicode scalar values.
pub assume_specification[ char::from_u32 ](i: u32) -> (r: Option<char>)
    ensures
        r == (if is_scalar(i) {
            Some(i as char)
        } else {
            None::<char>
        }),
;

/// Whether a character may stand in a name: among the characters below 128
/// the letters `a` to `z` and `A` to `Z` and the underscore, and beyond them
/// every character that has the Unicode property Alphabetic.
pub open spec fn is_letter(c: char) -> bool {
    if c <= '\x7f' {
        ('a' <= c && c <= 'z') || ('A' <= c && c <= 'Z') || c == '_'
    } else {
        is_alphabetic_char(c)
    }
}

/// Whether a character may stand in a name.
pub fn letter(c: char) -> (r: bool)
    ensures
        r == is_letter(c),
{
    if c <= '\x7f' {
        (c >= 'a' && c <= 'z') || (c >= 'A' && c <= 'Z') || c == '_'
    } else {
        c.is_alphabetic()
    }
}

/// Whether a well-formed encoding of one character begins at a position.
pub open spec fn char_begins_at(bytes: Seq<u8>, p: int) -> bool {
    0 <= p < bytes.len() && valid_first_scalar(bytes.skip(p))
}

/// The character that begins at a position, and NUL where none does.
pub open spec fn char_at(bytes: Seq<u8>, p: int) -> char {
    if char_begins_at(bytes, p) {
        decode_first_scalar(bytes.skip(p)) as char
    } else {
        '\0'
    }
}

/// How many bytes the character that begins at a position takes, and 1 where
/// none does.
pub open spec fn width_at(bytes: Seq<u8>, p: int) -> int {
    if char_begins_at(bytes, p) {
        length_of_first_scalar(bytes.skip(p))
    } else {
        1
    }
}

fn continues(b: u8) -> (r: bool)
    ensures
        r == is_continuation_byte(b),
{
    0x80 <= b && b <= 0xbf
}

/// Decodes the character that begins at a position of the bytes.
pub fn decode_at(bytes: &[u8], p: usize) -> (r: (char, usize))
    ensures
        r.0 == char_at(bytes@, p as int),
        r.1 == width_at(bytes@, p as int),
        1 <= r.1 <= 4,
        p < bytes@.len() ==> p + r.1 <= bytes@.len(),
{
    let len = bytes.len();
    if p >= len {
        return ('\0', 1);
    }
    let ghost rest = bytes@.skip(p as int);
    let left = len - p;
    let b0 = bytes[p];
    assert(rest[0] == b0);
    let mut code: u32 = 0;
    let mut width: usize = 0;
    if b0 <= 0x7f {
        code = (b0 & 0x7F) as u32;
        width = 1;
        assert((b0 & 0x7F) as u32 <= 0x7F) by (bit_vector);
    } else if 0xc0 <= b0 && b0 <= 0xdf {
        if left >= 2 && continues(bytes[p + 1]) {
            let b1 = bytes[p + 1];
            assert(rest[1] == b1);
            code = (((b0 & 0x1F) as u32) << 6) | ((b1 & 0x3f) as u32);
            width = 2;
            assert((((b0 & 0x1F) as u32) << 6) | ((b1 & 0x3f) as u32) <= 0x7FF) by (bit_vector);
        }
    } else if 0xe0 <= b0 && b0 <= 0xef {
        if left >= 3 && continues(bytes[p + 1]) && continues(bytes[p + 2]) {
            let b1 = bytes[p + 1];
            let b2 = bytes[p + 2];
            assert(rest[1] == b1);
            assert(rest[2] == b2);
            code = (((b0 & 0x0F) as u32) << 12) | (((b1 & 0x3f) as u32) << 6) | ((b2
                & 0x3f) as u32);
            width = 3;
            assert((((b0 & 0x0F) as u32) << 12) | (((b1 & 0x3f) as u32) << 6) | ((b2
                & 0x3f) as u32) <= 0xFFFF) by (bit_vector);
        }
    } else if 0xf0 <= b0 && b0 <= 0xf7 {
        if left >= 4 && continues(bytes[p + 1]) && continues(bytes[p + 2]) && continues(
            bytes[p + 3],
        ) {
            let b1 = bytes[p + 1];
            let b2 = bytes[p + 2];
            let b3 = bytes[p + 3];
            assert(rest[1] == b1);
            assert(rest[2] == b2);
            assert(rest[3] == b3);
            code = (((b0 & 0x07) as u32) << 18) | (((b1 & 0x3f) as u32) << 12) | (((b2
                & 0x3f) as u32) << 6) | ((b3 & 0x3f) as u32);
            width = 4;
        }
    }
    if width == 0 {
        assert(!valid_leading_and_continuation_bytes_first_codepoint(rest));
        return ('\0', 1);
    }
    assert(valid_leading_and_continuation_bytes_first_codepoint(rest));
    assert(decode_first_codepoint(rest) == code);
    assert(length_of_first_codepoint(rest) == width);
    let overlong = (width == 2 && code < 0x80) || (width == 3 && code < 0x800) || (width == 4 && (
    code < 0x10000 || code > 0x10ffff));
    let surrogate = 0xD800 <= code && code <= 0xDFFF;
    if overlong || surrogate {
        return ('\0', 1);
    }
    assert(valid_first_scalar(rest));
    assert(is_scalar(code));
    match char::from_u32(code) {
        Some(c) => (c, width),
        None => ('\0', 1),
    }
}

/// Whether a byte below 128 is a letter or an underscore.
pub open spec fn is_name_byte(b: u8) -> bool {
    ('a' as u8 <= b && b <= 'z' as u8) || ('A' as u8 <= b && b <= 'Z' as u8) || b == '_' as u8
}

/// A byte below 128 is a character of its own, the one with its number, and
/// whether it may stand in a name is read from the byte.
pub proof fn lemma_ascii_char(bytes: Seq<u8>, p: int)
    requires
        0 <= p < bytes.len(),
        bytes[p] < 0x80,
    ensures
        char_begins_at(bytes, p),
        width_at(bytes, p) == 1,
        char_at(bytes, p) as u32 == bytes[p] as u32,
        is_letter(char_at(bytes, p)) == is_name_byte(bytes[p]),
{
    let rest = bytes.skip(p);
    let b = bytes[p];
    assert(rest[0] == b);
    assert((b & 0x7F) as u32 == b as u32) by (bit_vector)
        requires
            b < 0x80,
    ;
    assert(valid_leading_and_continuation_bytes_first_codepoint(rest));
    assert(decode_first_codepoint(rest) == b as u32);
    assert(valid_first_scalar(rest));
    assert(is_scalar(b as u32));
    char_u32_cast(char_at(bytes, p), b as u32);
}

} // verus!
