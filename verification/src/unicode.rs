use vstd::prelude::*;
use crate::ast::CharClass;

verus! {

// The five Unicode classifications below are defined by the Unicode character
// tables, which are far too large to restate here. Each gets an opaque name,
// and one trusted wrapper per `char` method relates the name to the runtime
// answer; everything else in the crate speaks only of the names.

/// Whether `c` has the Unicode numeric property.
pub uninterp spec fn is_numeric(c: char) -> bool;

/// Whether `c` has the Unicode alphabetic property.
pub uninterp spec fn is_alphabetic(c: char) -> bool;

/// Whether `c` is uppercase.
pub uninterp spec fn is_uppercase(c: char) -> bool;

/// Whether `c` is lowercase.
pub uninterp spec fn is_lowercase(c: char) -> bool;

/// Whether `c` has the Unicode whitespace property.
pub uninterp spec fn is_whitespace(c: char) -> bool;

/// Relies on char::is_numeric: the Unicode numeric classification of one
/// character, a function of the character alone.
#[verifier::external_body]
pub(crate) fn char_is_numeric(c: char) -> (r: bool)
    ensures
        r == is_numeric(c),
{
    c.is_numeric()
}

/// Relies on char::is_alphabetic: the Unicode alphabetic classification of one
/// character, a function of the character alone.
#[verifier::external_body]
pub(crate) fn char_is_alphabetic(c: char) -> (r: bool)
    ensures
        r == is_alphabetic(c),
{
    c.is_alphabetic()
}

/// Relies on char::is_uppercase: the Unicode uppercase classification of one
/// character, a function of the character alone.
#[verifier::external_body]
pub(crate) fn char_is_uppercase(c: char) -> (r: bool)
    ensures
        r == is_uppercase(c),
{
    c.is_uppercase()
}

/// Relies on char::is_lowercase: the Unicode lowercase classification of one
/// character, a function of the character alone.
#[verifier::external_body]
pub(crate) fn char_is_lowercase(c: char) -> (r: bool)
    ensures
        r == is_lowercase(c),
{
    c.is_lowercase()
}

/// Relies on char::is_whitespace: the Unicode whitespace classification of one
/// character, a function of the character alone.
#[verifier::external_body]
pub(crate) fn char_is_whitespace(c: char) -> (r: bool)
    ensures
        r == is_whitespace(c),
{
    c.is_whitespace()
}

/// What it means for a character to belong to a classification.
pub open spec fn class_holds(cl: CharClass, c: char) -> bool {
    match cl {
        CharClass::Numeric => is_numeric(c),
        CharClass::Alphabetic => is_alphabetic(c),
        CharClass::Uppercase => is_uppercase(c),
        CharClass::Lowercase => is_lowercase(c),
        CharClass::White => is_whitespace(c),
    }
}

/// Decide at run time whether `c` belongs to the classification `cl`.
pub(crate) fn class_check(cl: &CharClass, c: char) -> (r: bool)
    ensures
        r == class_holds(*cl, c),
{
    match cl {
        CharClass::Numeric => char_is_numeric(c),
        CharClass::Alphabetic => char_is_alphabetic(c),
        CharClass::Uppercase => char_is_uppercase(c),
        CharClass::Lowercase => char_is_lowercase(c),
        CharClass::White => char_is_whitespace(c),
    }
}

} // verus!
