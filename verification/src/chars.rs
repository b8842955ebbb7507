//! Character classes used by the scanner.
//!
//! Decimal digits are specified directly.  The alphabetic and alphanumeric
//! classes are Unicode properties computed by `std`; their contents are
//! named by uninterpreted spec functions and obtained through trusted
//! wrappers around the `char` methods.  One structural fact is stated
//! beside the name: a line break is a control character, so it is never
//! alphanumeric; the scanner's line counting rests on it.

use vstd::prelude::*;

verus! {

/// A decimal digit, `'0'` through `'9'`.
pub open spec fn digit(c: char) -> bool {
    48 <= c as u32 && c as u32 <= 57
}

/// The set of characters for which `char::is_alphabetic` holds.
pub uninterp spec fn alphabetic(c: char) -> bool;

/// The set of characters for which `char::is_alphanumeric` holds, among
/// those that are not the line break.
pub uninterp spec fn letter_or_digit(c: char) -> bool;

/// The set of characters for which `char::is_alphanumeric` holds: the
/// line break is a control character, never alphanumeric.
pub open spec fn alphanumeric(c: char) -> bool {
    c != '\n' && letter_or_digit(c)
}

/// A character that may open an identifier.
pub open spec fn ident_start(c: char) -> bool {
    alphabetic(c) || c == '_'
}

/// A character that may continue an identifier.
pub open spec fn ident_part(c: char) -> bool {
    alphanumeric(c) || c == '_'
}

pub fn is_digit(c: char) -> (r: bool)
    ensures
        r == digit(c),
{
    let u = c as u32;
    48 <= u && u <= 57
}

/// Relies on char::is_alphabetic: a Unicode property of the character
/// alone.
#[verifier::external_body]
pub fn is_alphabetic(c: char) -> (r: bool)
    ensures
        r == alphabetic(c),
{
    c.is_alphabetic()
}

/// Relies on char::is_alphanumeric: a Unicode property of the character
/// alone, and false of the line break, which is a control character.
#[verifier::external_body]
pub fn is_alphanumeric(c: char) -> (r: bool)
    ensures
        r == (c != '\n' && letter_or_digit(c)),
{
    c.is_alphanumeric()
}

pub fn is_ident_start(c: char) -> (r: bool)
    ensures
        r == ident_start(c),
{
    is_alphabetic(c) || c == '_'
}

pub fn is_ident_part(c: char) -> (r: bool)
    ensures
        r == ident_part(c),
{
    is_alphanumeric(c) || c == '_'
}

} // verus!
