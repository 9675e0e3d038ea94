//! Unicode case of characters, as the standard library gives it.

use vstd::prelude::*;

verus! {

/// Whether a character has the Unicode `Uppercase` property.
pub uninterp spec fn upper_prop(c: char) -> bool;

/// The first character of a character's Unicode lowercase mapping.
pub uninterp spec fn lower_first(c: char) -> char;

/// A character's Unicode uppercase mapping: one or more characters.
pub uninterp spec fn upper_full(c: char) -> Seq<char>;

/// The first character of a character's Unicode uppercase mapping.
pub open spec fn upper_first(c: char) -> char {
    upper_full(c)[0]
}

/// Whether a character has the Unicode `White_Space` property: tab, line feed, vertical
/// tab, form feed, carriage return, space, next line, no-break space, ogham space mark,
/// the spaces from en quad to hair space, line separator, paragraph separator, narrow
/// no-break space, medium mathematical space and ideographic space.
pub open spec fn space_prop(c: char) -> bool {
    let u = c as u32;
    ||| 0x09 <= u <= 0x0D
    ||| u == 0x20 || u == 0x85 || u == 0xA0 || u == 0x1680
    ||| 0x2000 <= u <= 0x200A
    ||| u == 0x2028 || u == 0x2029 || u == 0x202F || u == 0x205F || u == 0x3000
}

/// Whether a character is alphabetic or numeric in Unicode.
pub uninterp spec fn alnum_prop(c: char) -> bool;

/// Whether a character is an ASCII capital letter.
pub open spec fn ascii_upper(c: char) -> bool {
    'A' <= c && c <= 'Z'
}

/// Whether a character is an ASCII small letter.
pub open spec fn ascii_lower(c: char) -> bool {
    'a' <= c && c <= 'z'
}

/// `char::is_uppercase`. For ASCII characters it holds of the capital letters alone,
/// as its documentation says; of other characters only the name is stated.
#[verifier::external_body]
pub fn is_uppercase(c: char) -> (b: bool)
    ensures
        b == upper_prop(c),
        (c as u32) < 0x80 ==> (b == ascii_upper(c)),
{
    c.is_uppercase()
}

/// The first character of `char::to_lowercase`. An ASCII capital letter maps to its
/// small letter and any other ASCII character to itself; of other characters only the
/// name is stated.
#[verifier::external_body]
pub fn to_lowercase_first(c: char) -> (r: char)
    ensures
        r == lower_first(c),
        ascii_upper(c) ==> r as u32 == c as u32 + 32,
        (c as u32) < 0x80 && !ascii_upper(c) ==> r == c,
{
    c.to_lowercase().next().unwrap_or(c)
}

/// The first character of `char::to_uppercase`. An ASCII small letter maps to its
/// capital letter and any other ASCII character to itself; of other characters only the
/// name is stated.
#[verifier::external_body]
pub fn to_uppercase_first(c: char) -> (r: char)
    ensures
        r == upper_first(c),
        ascii_lower(c) ==> r as u32 + 32 == c as u32,
        (c as u32) < 0x80 && !ascii_lower(c) ==> r == c,
{
    c.to_uppercase().next().unwrap_or(c)
}

/// `char::to_uppercase`, collected: one or more characters. An ASCII small letter maps
/// to its capital letter alone and any other ASCII character to itself; of other
/// characters only the name is stated.
#[verifier::external_body]
pub fn to_uppercase_string(c: char) -> (r: String)
    ensures
        r@ == upper_full(c),
        r@.len() >= 1,
        ascii_lower(c) ==> r@.len() == 1 && r@[0] as u32 + 32 == c as u32,
        (c as u32) < 0x80 && !ascii_lower(c) ==> r@ == seq![c],
{
    c.to_uppercase().collect()
}

/// Whether the character has the Unicode `White_Space` property, the set that
/// `char::is_whitespace` tests.
pub fn is_whitespace(c: char) -> (b: bool)
    ensures
        b == space_prop(c),
{
    let u = c as u32;
    (0x09 <= u && u <= 0x0D) || u == 0x20 || u == 0x85 || u == 0xA0 || u == 0x1680
        || (0x2000 <= u && u <= 0x200A) || u == 0x2028 || u == 0x2029 || u == 0x202F || u == 0x205F
        || u == 0x3000
}

/// `char::is_alphanumeric`. Among ASCII characters it holds of the letters and the
/// digits; of other characters only the name is stated.
#[verifier::external_body]
pub fn is_alphanumeric(c: char) -> (b: bool)
    ensures
        b == alnum_prop(c),
        (c as u32) < 0x80 ==> (b == (ascii_upper(c) || ascii_lower(c) || ('0' <= c && c <= '9'))),
{
    c.is_alphanumeric()
}

/// `char::to_ascii_uppercase`: small ASCII letters become capitals.
pub open spec fn ascii_to_upper(c: char) -> char {
    if ascii_lower(c) {
        (((c as u8) - 32) as u8) as char
    } else {
        c
    }
}

/// `char::to_ascii_lowercase`: capital ASCII letters become small.
pub open spec fn ascii_to_lower(c: char) -> char {
    if ascii_upper(c) {
        (((c as u8) + 32) as u8) as char
    } else {
        c
    }
}

/// The capital letter for a small ASCII letter; other characters are kept.
pub fn to_ascii_upper(c: char) -> (r: char)
    ensures
        r == ascii_to_upper(c),
{
    if 'a' <= c && c <= 'z' {
        ((c as u8) - 32) as char
    } else {
        c
    }
}

/// The small letter for a capital ASCII letter; other characters are kept.
pub fn to_ascii_lower(c: char) -> (r: char)
    ensures
        r == ascii_to_lower(c),
{
    if 'A' <= c && c <= 'Z' {
        ((c as u8) + 32) as char
    } else {
        c
    }
}

/// The Unicode lowercase of a string, as `str::to_lowercase` gives it.
pub uninterp spec fn lowercase(s: Seq<char>) -> Seq<char>;

/// `str::to_lowercase`: the string in lowercase, by the Unicode `Lowercase` property. The
/// result is named; of the mapping only what std documents for ASCII text is stated: each
/// ASCII character maps to its ASCII lowercase, one for one.
#[verifier::external_body]
pub fn to_lowercase_str(s: &str) -> (r: String)
    ensures
        r@ == lowercase(s@),
        (forall|i: int| 0 <= i < s@.len() ==> (#[trigger] s@[i] as u32) < 128) ==> r@ == s@.map_values(
            |c: char| ascii_to_lower(c),
        ),
{
    s.to_lowercase()
}

} // verus!
