use vstd::prelude::*;
use crate::ast::{Parser, Val, Value};
use crate::semantics::{parses, parses_many};

verus! {

/// `character(c)` on `s` succeeds exactly when `s` is non-empty and starts
/// with `c`; it then produces `c` and the remainder `s` without its first
/// character. Otherwise it fails, leaving the caller free to retry the
/// original input with an alternative.
pub proof fn lemma_character_exact(c: char, s: Seq<char>)
    ensures
        s.len() > 0 && s[0] == c ==> parses(Parser::Character(c), s) == Some(
            (Val::Char(c), s.skip(1)),
        ),
        !(s.len() > 0 && s[0] == c) ==> parses(Parser::Character(c), s) is None,
{
}

/// A zero-or-more repetition never fails, whatever its element parser.
pub proof fn lemma_many_never_fails(f: Parser, s: Seq<char>)
    ensures
        parses(Parser::Many(Box::new(f)), s) is Some,
{
}

/// A choice whose first branch is a zero-or-more repetition always takes
/// that branch: the alternative is never consulted.
pub proof fn lemma_choice_of_many(f: Parser, g: Parser, s: Seq<char>)
    ensures
        parses(Parser::Choice(Box::new(Parser::Many(Box::new(f))), Box::new(g)), s) == parses(
            Parser::Many(Box::new(f)),
            s,
        ),
{
    reveal_with_fuel(parses, 2);
}

/// When `f` fails on `s`, `choice(f, g)` behaves on `s` exactly as `g` alone
/// does: the same value and the same remainder, with nothing of the failed
/// attempt leaking through.
pub proof fn lemma_choice_backtracks(f: Parser, g: Parser, s: Seq<char>)
    requires
        parses(f, s) is None,
    ensures
        parses(Parser::Choice(Box::new(f), Box::new(g)), s) == parses(g, s),
{
}

/// On any input where at least one element parses, `sep_by` and `sep_by1`
/// agree exactly; where none does, `sep_by` succeeds with an empty list and
/// the input unchanged while `sep_by1` fails.
pub proof fn lemma_sep_by_agree(f: Parser, sep: Parser, s: Seq<char>)
    ensures
        parses(f, s) is Some ==> parses(Parser::SepBy(Box::new(f), Box::new(sep)), s) == parses(
            Parser::SepBy1(Box::new(f), Box::new(sep)),
            s,
        ),
        parses(f, s) is None ==> parses(Parser::SepBy(Box::new(f), Box::new(sep)), s) == Some(
            (Val::List(Seq::<Val>::empty()), s),
        ) && parses(Parser::SepBy1(Box::new(f), Box::new(sep)), s) is None,
{
}

/// The optional and zero-or-more forms never fail, and on the branch where
/// their inner parser fails they consume nothing: each succeeds with its
/// fallback value and the input unchanged.
pub proof fn lemma_soft_forms_never_fail(d: Value, f: Parser, s: Seq<char>)
    ensures
        parses(Parser::Many(Box::new(f)), s) is Some,
        parses(Parser::Fallback(d, Box::new(f)), s) is Some,
        parses(Parser::Perhaps(Box::new(f)), s) is Some,
        parses(Parser::Optional(Box::new(f)), s) is Some,
        parses(f, s) is None ==> parses(Parser::Fallback(d, Box::new(f)), s) == Some((d@, s)),
        parses(f, s) is None ==> parses(Parser::Perhaps(Box::new(f)), s) == Some(
            (Val::Maybe(None), s),
        ),
        parses(f, s) is None ==> parses(Parser::Optional(Box::new(f)), s) == Some((Val::Unit, s)),
        parses(f, s) is None ==> parses(Parser::Many(Box::new(f)), s) == Some(
            (Val::List(Seq::<Val>::empty()), s),
        ),
{
    reveal_with_fuel(parses, 2);
    reveal_with_fuel(parses_many, 2);
}

/// Once the element parser succeeds at the start, `many1` behaves exactly as
/// `many`: a later element failure ends the repetition rather than failing
/// it. When even the first attempt fails, `many1` fails.
pub proof fn lemma_many1_agrees_with_many(f: Parser, s: Seq<char>)
    ensures
        parses(f, s) is Some ==> parses(Parser::Many1(Box::new(f)), s) == parses(
            Parser::Many(Box::new(f)),
            s,
        ),
        parses(f, s) is None ==> parses(Parser::Many1(Box::new(f)), s) is None,
{
    reveal_with_fuel(parses, 2);
    reveal_with_fuel(parses_many, 2);
}

/// `skip_many1` repeats exactly as `many1` does and fails under the same
/// condition; it only discards the collected values, producing a unit value.
pub proof fn lemma_skip_many1_consumes_as_many1(f: Parser, s: Seq<char>)
    ensures
        match (parses(Parser::SkipMany1(Box::new(f)), s), parses(
            Parser::Many1(Box::new(f)),
            s,
        )) {
            (Some(a), Some(b)) => a.0 == Val::Unit && a.1 == b.1,
            (None, None) => true,
            _ => false,
        },
{
}

} // verus!
