use vstd::prelude::*;
use vstd::string::StrSliceExecFns;
use crate::ast::{CharClass, Parser};

verus! {

/// The characters of `s`, in order.
fn str_chars(s: &str) -> (r: Vec<char>)
    ensures
        r@ == s@,
{
    let n = s.unicode_len();
    let mut r: Vec<char> = Vec::new();
    let mut i: usize = 0;
    while i < n
        invariant
            i <= n,
            n == s@.len(),
            r@.len() == i,
            forall|j: int| 0 <= j < i ==> r@[j] == s@[j],
        decreases n - i,
    {
        r.push(s.get_char(i));
        i = i + 1;
    }
    proof {
        assert(r@ =~= s@);
    }
    r
}

/// Parse nothing, returning a unit value.
pub fn empty() -> (p: Parser)
    ensures
        p == Parser::Empty,
{
    Parser::Empty
}

/// Parse one instance of `c`.
pub fn character(c: char) -> (p: Parser)
    ensures
        p == Parser::Character(c),
{
    Parser::Character(c)
}

/// Parse one instance of one of the characters in `cs`.
pub fn one_of(cs: &str) -> (p: Parser)
    ensures
        p matches Parser::OneOf(v) && v@ == cs@,
{
    Parser::OneOf(str_chars(cs))
}

/// Parse one character if it is not present in `cs`.
pub fn none_of(cs: &str) -> (p: Parser)
    ensures
        p matches Parser::NoneOf(v) && v@ == cs@,
{
    Parser::NoneOf(str_chars(cs))
}

/// Parse one character if it belongs to the classification `cl`.
pub fn satisfy(cl: CharClass) -> (p: Parser)
    ensures
        p == Parser::Satisfy(cl),
{
    Parser::Satisfy(cl)
}

/// Parse one numeric character.
pub fn digit() -> (p: Parser)
    ensures
        p == Parser::Satisfy(CharClass::Numeric),
{
    satisfy(CharClass::Numeric)
}

/// Parse one alphabetic character.
pub fn letter() -> (p: Parser)
    ensures
        p == Parser::Satisfy(CharClass::Alphabetic),
{
    satisfy(CharClass::Alphabetic)
}

/// Parse an uppercase letter.
pub fn upper() -> (p: Parser)
    ensures
        p == Parser::Satisfy(CharClass::Uppercase),
{
    satisfy(CharClass::Uppercase)
}

/// Parse a lowercase letter.
pub fn lower() -> (p: Parser)
    ensures
        p == Parser::Satisfy(CharClass::Lowercase),
{
    satisfy(CharClass::Lowercase)
}

/// Parse one whitespace character.
pub fn whitespace() -> (p: Parser)
    ensures
        p == Parser::Satisfy(CharClass::White),
{
    satisfy(CharClass::White)
}

/// Parse a newline.
pub fn newline() -> (p: Parser)
    ensures
        p == Parser::Character('\n'),
{
    character('\n')
}

} // verus!
