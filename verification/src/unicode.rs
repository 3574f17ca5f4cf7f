//! Character properties taken from the Unicode tables of the standard library.
use vstd::prelude::*;

verus! {

/// Whether `c` has the Unicode `Alphabetic` property.
pub uninterp spec fn alphabetic(c: char) -> bool;

/// Whether `c` has the Unicode `White_Space` property.
pub uninterp spec fn whitespace(c: char) -> bool;

/// `char::is_alphabetic`: the answer is the `Alphabetic` property of `c`,
/// named [`alphabetic`]; nothing more is claimed of it.
#[verifier::external_body]
pub(crate) fn char_is_alphabetic(c: char) -> (b: bool)
    ensures
        b == alphabetic(c),
{
    c.is_alphabetic()
}

/// `char::is_whitespace`: the answer is the `White_Space` property of `c`,
/// named [`whitespace`]; nothing more is claimed of it.
#[verifier::external_body]
pub(crate) fn char_is_whitespace(c: char) -> (b: bool)
    ensures
        b == whitespace(c),
{
    c.is_whitespace()
}

/// Whether `c` is of the Unicode general categories for numbers.
pub uninterp spec fn numeric(c: char) -> bool;

/// Whether `c` has the Unicode `Uppercase` property.
pub uninterp spec fn uppercase(c: char) -> bool;

/// Whether `c` has the Unicode `Lowercase` property.
pub uninterp spec fn lowercase(c: char) -> bool;

/// The characters that `c` becomes in upper case, one or more.
pub uninterp spec fn upper_mapping(c: char) -> Seq<char>;

/// The characters that `c` becomes in lower case, one or more.
pub uninterp spec fn lower_mapping(c: char) -> Seq<char>;

/// `char::is_numeric`: the answer is named [`numeric`]; nothing more is
/// claimed of it.
#[verifier::external_body]
pub(crate) fn char_is_numeric(c: char) -> (b: bool)
    ensures
        b == numeric(c),
{
    c.is_numeric()
}

/// `char::is_uppercase`: the answer is named [`uppercase`]; nothing more
/// is claimed of it.
#[verifier::external_body]
pub(crate) fn char_is_uppercase(c: char) -> (b: bool)
    ensures
        b == uppercase(c),
{
    c.is_uppercase()
}

/// `char::is_lowercase`: the answer is named [`lowercase`]; nothing more
/// is claimed of it.
#[verifier::external_body]
pub(crate) fn char_is_lowercase(c: char) -> (b: bool)
    ensures
        b == lowercase(c),
{
    c.is_lowercase()
}

/// `char::to_uppercase`: the characters that the iterator yields, in
/// order, are named [`upper_mapping`]; nothing more is claimed of them.
#[verifier::external_body]
pub(crate) fn char_to_uppercase(c: char) -> (v: Vec<char>)
    ensures
        v@ == upper_mapping(c),
{
    c.to_uppercase().collect()
}

/// `char::to_lowercase`: the characters that the iterator yields, in
/// order, are named [`lower_mapping`]; nothing more is claimed of them.
#[verifier::external_body]
pub(crate) fn char_to_lowercase(c: char) -> (v: Vec<char>)
    ensures
        v@ == lower_mapping(c),
{
    c.to_lowercase().collect()
}

/// `char::from_u32`: the character with this code, where the code is a
/// Unicode scalar value, and `None` where it is not.
#[verifier::external_body]
pub(crate) fn char_from_u32(code: u32) -> (r: Option<char>)
    ensures
        r == if vstd::utf8::is_scalar(code) {
            Some(code as char)
        } else {
            None
        },
{
    char::from_u32(code)
}

/// `c` in upper case where that is one character, else `c` itself.
pub open spec fn simple_upper(c: char) -> char {
    if upper_mapping(c).len() == 1 {
        upper_mapping(c)[0]
    } else {
        c
    }
}

/// `c` in lower case where that is one character, else `c` itself.
pub open spec fn simple_lower(c: char) -> char {
    if lower_mapping(c).len() == 1 {
        lower_mapping(c)[0]
    } else {
        c
    }
}

/// `c` with its case folded away: its simple lower case.
pub open spec fn folded(c: char) -> char {
    simple_lower(c)
}

pub fn to_simple_upper(c: char) -> (r: char)
    ensures
        r == simple_upper(c),
{
    let v = char_to_uppercase(c);
    if v.len() == 1 {
        v[0]
    } else {
        c
    }
}

pub fn to_simple_lower(c: char) -> (r: char)
    ensures
        r == simple_lower(c),
{
    let v = char_to_lowercase(c);
    if v.len() == 1 {
        v[0]
    } else {
        c
    }
}

} // verus!
