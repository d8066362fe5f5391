use vstd::prelude::*;
use crate::ast::{Parser, Value};

verus! {

/// Parse using `f`, or if `f` fails, using `g` on the original input.
pub fn choice(f: Parser, g: Parser) -> (p: Parser)
    ensures
        p == Parser::Choice(Box::new(f), Box::new(g)),
{
    Parser::Choice(Box::new(f), Box::new(g))
}

/// Parse `f`, then `g` on its remainder, pairing the two values.
pub fn sequence(f: Parser, g: Parser) -> (p: Parser)
    ensures
        p == Parser::Both(Box::new(f), Box::new(g)),
{
    Parser::Both(Box::new(f), Box::new(g))
}

/// Parse `f`, discarding its output, and then parse `g`.
pub fn then(f: Parser, g: Parser) -> (p: Parser)
    ensures
        p == Parser::Second(Box::new(f), Box::new(g)),
{
    Parser::Second(Box::new(f), Box::new(g))
}

/// Parse `n` consecutive occurrences of `f`. Zero occurrences succeed
/// trivially with an empty list.
pub fn count(n: usize, f: Parser) -> (p: Parser)
    ensures
        p == Parser::Count(n, Box::new(f)),
{
    Parser::Count(n, Box::new(f))
}

/// Attempt parsing using `f`, succeeding with `default` and the input
/// unchanged if it fails.
pub fn option(default: Value, f: Parser) -> (p: Parser)
    ensures
        p == Parser::Fallback(default, Box::new(f)),
{
    Parser::Fallback(default, Box::new(f))
}

/// Attempt parsing using `f`, wrapping its value as present on success, and
/// succeeding with an absent value and the input unchanged on failure.
pub fn option_option(f: Parser) -> (p: Parser)
    ensures
        p == Parser::Perhaps(Box::new(f)),
{
    Parser::Perhaps(Box::new(f))
}

/// Parse zero or one instances of `f`, returning a unit value either way.
pub fn optional(f: Parser) -> (p: Parser)
    ensures
        p == Parser::Optional(Box::new(f)),
{
    Parser::Optional(Box::new(f))
}

/// Parse `p` if it occurs between `open` and `close`, keeping only its value.
pub fn between(open: Parser, close: Parser, p: Parser) -> (r: Parser)
    ensures
        r == Parser::Between(Box::new(open), Box::new(close), Box::new(p)),
{
    Parser::Between(Box::new(open), Box::new(close), Box::new(p))
}

/// Skip one or more instances of `f`, returning a unit value.
pub fn skip_many1(f: Parser) -> (p: Parser)
    ensures
        p == Parser::SkipMany1(Box::new(f)),
{
    Parser::SkipMany1(Box::new(f))
}

/// Parse one or more instances of `f`.
pub fn many1(f: Parser) -> (p: Parser)
    ensures
        p == Parser::Many1(Box::new(f)),
{
    Parser::Many1(Box::new(f))
}

/// Parse zero or more instances of `f`; never fails.
pub fn many(f: Parser) -> (p: Parser)
    ensures
        p == Parser::Many(Box::new(f)),
{
    Parser::Many(Box::new(f))
}

/// Parse zero or more instances of `f`, separated by `sep`. After a
/// separator matches, a following `f` is mandatory.
pub fn sep_by(f: Parser, sep: Parser) -> (p: Parser)
    ensures
        p == Parser::SepBy(Box::new(f), Box::new(sep)),
{
    Parser::SepBy(Box::new(f), Box::new(sep))
}

/// Parse one or more instances of `f`, separated by `sep`.
pub fn sep_by1(f: Parser, sep: Parser) -> (p: Parser)
    ensures
        p == Parser::SepBy1(Box::new(f), Box::new(sep)),
{
    Parser::SepBy1(Box::new(f), Box::new(sep))
}

} // verus!
