use vstd::prelude::*;
use crate::ast::{Parser, Val};
use crate::unicode::class_holds;

verus! {

/// The structural size of a parser, used as a termination measure for the
/// semantics: every sub-parser is strictly smaller than its parent.
pub open spec fn psize(p: Parser) -> nat
    decreases p,
{
    match p {
        Parser::Empty => 1,
        Parser::Character(_) => 1,
        Parser::OneOf(_) => 1,
        Parser::NoneOf(_) => 1,
        Parser::Satisfy(_) => 1,
        Parser::Choice(f, g) => 1 + psize(*f) + psize(*g),
        Parser::Both(f, g) => 1 + psize(*f) + psize(*g),
        Parser::Second(f, g) => 1 + psize(*f) + psize(*g),
        Parser::Many(f) => 1 + psize(*f),
        Parser::Many1(f) => 1 + psize(*f),
        Parser::SkipMany1(f) => 1 + psize(*f),
        Parser::Count(_, f) => 1 + psize(*f),
        Parser::Fallback(_, f) => 1 + psize(*f),
        Parser::Perhaps(f) => 1 + psize(*f),
        Parser::Optional(f) => 1 + psize(*f),
        Parser::Between(o, c, i) => 1 + psize(*o) + psize(*c) + psize(*i),
        Parser::SepBy(f, sep) => 1 + psize(*f) + psize(*sep),
        Parser::SepBy1(f, sep) => 1 + psize(*f) + psize(*sep),
    }
}

/// The meaning of a parser: applied to an input, it either fails (`None`) or
/// succeeds with a produced value and the unconsumed remainder, always a
/// suffix of the input (`lemma_parses_suffix`).
///
/// The guards comparing remainder lengths to the input length serve the
/// termination measure; `lemma_parses_suffix` shows a remainder is never
/// longer than the input, so the guarded branches cover every actual outcome.
/// A repetition whose element succeeds without consuming anything keeps that
/// one value and stops, rather than repeating in place forever.
pub open spec fn parses(p: Parser, s: Seq<char>) -> Option<(Val, Seq<char>)>
    decreases s.len(), psize(p), 0int,
{
    match p {
        Parser::Empty => Some((Val::Unit, s)),
        Parser::Character(c) => if s.len() > 0 && s[0] == c {
            Some((Val::Char(c), s.skip(1)))
        } else {
            None
        },
        Parser::OneOf(cs) => if s.len() > 0 && cs@.contains(s[0]) {
            Some((Val::Char(s[0]), s.skip(1)))
        } else {
            None
        },
        Parser::NoneOf(cs) => if s.len() > 0 && !cs@.contains(s[0]) {
            Some((Val::Char(s[0]), s.skip(1)))
        } else {
            None
        },
        Parser::Satisfy(cl) => if s.len() > 0 && class_holds(cl, s[0]) {
            Some((Val::Char(s[0]), s.skip(1)))
        } else {
            None
        },
        Parser::Choice(f, g) => match parses(*f, s) {
            Some(r) => Some(r),
            None => parses(*g, s),
        },
        Parser::Both(f, g) => match parses(*f, s) {
            Some((v1, r1)) => if r1.len() <= s.len() {
                match parses(*g, r1) {
                    Some((v2, r2)) => Some((Val::Pair(Box::new(v1), Box::new(v2)), r2)),
                    None => None,
                }
            } else {
                None
            },
            None => None,
        },
        Parser::Second(f, g) => match parses(*f, s) {
            Some((_, r1)) => if r1.len() <= s.len() {
                parses(*g, r1)
            } else {
                None
            },
            None => None,
        },
        Parser::Many(f) => {
            let (vs, r) = parses_many(*f, s);
            Some((Val::List(vs), r))
        },
        Parser::Many1(f) => {
            let (vs, r) = parses_many(*f, s);
            if vs.len() == 0 {
                None
            } else {
                Some((Val::List(vs), r))
            }
        },
        Parser::SkipMany1(f) => {
            let (vs, r) = parses_many(*f, s);
            if vs.len() == 0 {
                None
            } else {
                Some((Val::Unit, r))
            }
        },
        Parser::Count(n, f) => match parses_count(*f, n as nat, s) {
            Some((vs, r)) => Some((Val::List(vs), r)),
            None => None,
        },
        Parser::Fallback(d, f) => match parses(*f, s) {
            Some(r) => Some(r),
            None => Some((d@, s)),
        },
        Parser::Perhaps(f) => match parses(*f, s) {
            Some((v, r)) => Some((Val::Maybe(Some(Box::new(v))), r)),
            None => Some((Val::Maybe(None), s)),
        },
        Parser::Optional(f) => match parses(*f, s) {
            Some((_, r)) => Some((Val::Unit, r)),
            None => Some((Val::Unit, s)),
        },
        Parser::Between(o, c, i) => match parses(*o, s) {
            Some((_, r1)) => if r1.len() <= s.len() {
                match parses(*i, r1) {
                    Some((v, r2)) => if r2.len() <= s.len() {
                        match parses(*c, r2) {
                            Some((_, r3)) => Some((v, r3)),
                            None => None,
                        }
                    } else {
                        None
                    },
                    None => None,
                }
            } else {
                None
            },
            None => None,
        },
        Parser::SepBy(f, sep) => match parses(*f, s) {
            Some((v, r)) => if r.len() <= s.len() {
                match parses_sep_tail(*f, *sep, r) {
                    Some((vs, r2)) => Some((Val::List(seq![v] + vs), r2)),
                    None => None,
                }
            } else {
                None
            },
            None => Some((Val::List(Seq::empty()), s)),
        },
        Parser::SepBy1(f, sep) => match parses(*f, s) {
            Some((v, r)) => if r.len() <= s.len() {
                match parses_sep_tail(*f, *sep, r) {
                    Some((vs, r2)) => Some((Val::List(seq![v] + vs), r2)),
                    None => None,
                }
            } else {
                None
            },
            None => None,
        },
    }
}

/// Zero or more repetitions of `f`: collects values until `f` fails, or until
/// an attempt succeeds without consuming anything, which would otherwise
/// repeat in place forever. Repetition never fails.
pub open spec fn parses_many(f: Parser, s: Seq<char>) -> (Seq<Val>, Seq<char>)
    decreases s.len(), psize(f), 1int,
{
    match parses(f, s) {
        None => (Seq::empty(), s),
        Some((v, r)) => if r.len() < s.len() {
            let (vs, r2) = parses_many(f, r);
            (seq![v] + vs, r2)
        } else if r.len() == s.len() {
            (seq![v], r)
        } else {
            (seq![v], s)
        },
    }
}

/// Exactly `n` repetitions of `f`, collecting the values in order; fails as
/// soon as one attempt fails. Zero repetitions succeed with an empty sequence.
pub open spec fn parses_count(f: Parser, n: nat, s: Seq<char>) -> Option<(Seq<Val>, Seq<char>)>
    decreases s.len(), psize(f), n + 1,
{
    if n == 0 {
        Some((Seq::empty(), s))
    } else {
        match parses(f, s) {
            None => None,
            Some((v, r)) => if r.len() <= s.len() {
                match parses_count(f, (n - 1) as nat, r) {
                    Some((vs, r2)) => Some((seq![v] + vs, r2)),
                    None => None,
                }
            } else {
                None
            },
        }
    }
}

/// After one occurrence of the element `f`: parse `(sep f)*`. When `sep`
/// fails, stop and succeed with what was collected; when `sep` succeeds, a
/// following `f` is mandatory, and its failure fails the whole repetition.
/// When `sep` and `f` together consume nothing, keep that value and stop.
pub open spec fn parses_sep_tail(f: Parser, sep: Parser, s: Seq<char>) -> Option<
    (Seq<Val>, Seq<char>),
>
    decreases s.len(), psize(f) + psize(sep), 1int,
{
    match parses(sep, s) {
        None => Some((Seq::empty(), s)),
        Some((_, r1)) => if r1.len() <= s.len() {
            match parses(f, r1) {
                None => None,
                Some((v, r2)) => if r2.len() < s.len() {
                    match parses_sep_tail(f, sep, r2) {
                        Some((vs, r3)) => Some((seq![v] + vs, r3)),
                        None => None,
                    }
                } else if r2.len() == s.len() {
                    Some((seq![v], r2))
                } else {
                    None
                },
            }
        } else {
            None
        },
    }
}

/// `r` is a suffix of `s`: exactly the last `r.len()` characters of `s`.
pub open spec fn suffix_of(r: Seq<char>, s: Seq<char>) -> bool {
    &&& r.len() <= s.len()
    &&& r == s.skip(s.len() - r.len())
}

pub proof fn lemma_suffix_refl(s: Seq<char>)
    ensures
        suffix_of(s, s),
{
    assert(s.skip(0) =~= s);
}

pub proof fn lemma_suffix_trans(r2: Seq<char>, r1: Seq<char>, s: Seq<char>)
    requires
        suffix_of(r2, r1),
        suffix_of(r1, s),
    ensures
        suffix_of(r2, s),
{
    vstd::seq_lib::lemma_seq_skip_of_skip(s, s.len() - r1.len(), r1.len() - r2.len());
}

/// The invariant of every successful parse: the remainder is a suffix of the
/// input, never longer and never holding characters the input did not hold at
/// the corresponding trailing positions.
pub proof fn lemma_parses_suffix(p: Parser, s: Seq<char>)
    ensures
        parses(p, s) matches Some(vr) ==> suffix_of(vr.1, s),
    decreases s.len(), psize(p), 0int,
{
    match p {
        Parser::Empty => {
            lemma_suffix_refl(s);
        },
        Parser::Character(_) => {},
        Parser::OneOf(_) => {},
        Parser::NoneOf(_) => {},
        Parser::Satisfy(_) => {},
        Parser::Choice(f, g) => {
            lemma_parses_suffix(*f, s);
            lemma_parses_suffix(*g, s);
        },
        Parser::Both(f, g) => {
            lemma_parses_suffix(*f, s);
            if let Some((v1, r1)) = parses(*f, s) {
                lemma_parses_suffix(*g, r1);
                if let Some((v2, r2)) = parses(*g, r1) {
                    lemma_suffix_trans(r2, r1, s);
                }
            }
        },
        Parser::Second(f, g) => {
            lemma_parses_suffix(*f, s);
            if let Some((v1, r1)) = parses(*f, s) {
                lemma_parses_suffix(*g, r1);
                if let Some((v2, r2)) = parses(*g, r1) {
                    lemma_suffix_trans(r2, r1, s);
                }
            }
        },
        Parser::Many(f) => {
            lemma_parses_many_suffix(*f, s);
        },
        Parser::Many1(f) => {
            lemma_parses_many_suffix(*f, s);
        },
        Parser::SkipMany1(f) => {
            lemma_parses_many_suffix(*f, s);
        },
        Parser::Count(n, f) => {
            lemma_parses_count_suffix(*f, n as nat, s);
        },
        Parser::Fallback(_, f) => {
            lemma_parses_suffix(*f, s);
            lemma_suffix_refl(s);
        },
        Parser::Perhaps(f) => {
            lemma_parses_suffix(*f, s);
            lemma_suffix_refl(s);
        },
        Parser::Optional(f) => {
            lemma_parses_suffix(*f, s);
            lemma_suffix_refl(s);
        },
        Parser::Between(o, c, i) => {
            lemma_parses_suffix(*o, s);
            if let Some((v1, r1)) = parses(*o, s) {
                lemma_parses_suffix(*i, r1);
                if let Some((v2, r2)) = parses(*i, r1) {
                    lemma_suffix_trans(r2, r1, s);
                    lemma_parses_suffix(*c, r2);
                    if let Some((v3, r3)) = parses(*c, r2) {
                        lemma_suffix_trans(r3, r2, s);
                    }
                }
            }
        },
        Parser::SepBy(f, sep) => {
            lemma_parses_suffix(*f, s);
            lemma_suffix_refl(s);
            if let Some((v, r)) = parses(*f, s) {
                lemma_parses_sep_tail_suffix(*f, *sep, r);
                if let Some((vs, r2)) = parses_sep_tail(*f, *sep, r) {
                    lemma_suffix_trans(r2, r, s);
                }
            }
        },
        Parser::SepBy1(f, sep) => {
            lemma_parses_suffix(*f, s);
            if let Some((v, r)) = parses(*f, s) {
                lemma_parses_sep_tail_suffix(*f, *sep, r);
                if let Some((vs, r2)) = parses_sep_tail(*f, *sep, r) {
                    lemma_suffix_trans(r2, r, s);
                }
            }
        },
    }
}

pub proof fn lemma_parses_many_suffix(f: Parser, s: Seq<char>)
    ensures
        suffix_of(parses_many(f, s).1, s),
    decreases s.len(), psize(f), 1int,
{
    lemma_parses_suffix(f, s);
    match parses(f, s) {
        None => {
            lemma_suffix_refl(s);
        },
        Some((v, r)) => {
            if r.len() < s.len() {
                lemma_parses_many_suffix(f, r);
                lemma_suffix_trans(parses_many(f, r).1, r, s);
            }
        },
    }
}

pub proof fn lemma_parses_count_suffix(f: Parser, n: nat, s: Seq<char>)
    ensures
        parses_count(f, n, s) matches Some(vr) ==> suffix_of(vr.1, s),
    decreases s.len(), psize(f), n + 1,
{
    if n == 0 {
        lemma_suffix_refl(s);
    } else {
        lemma_parses_suffix(f, s);
        if let Some((v, r)) = parses(f, s) {
            if r.len() <= s.len() {
                lemma_parses_count_suffix(f, (n - 1) as nat, r);
                if let Some((vs, r2)) = parses_count(f, (n - 1) as nat, r) {
                    lemma_suffix_trans(r2, r, s);
                }
            }
        }
    }
}

pub proof fn lemma_parses_sep_tail_suffix(f: Parser, sep: Parser, s: Seq<char>)
    ensures
        parses_sep_tail(f, sep, s) matches Some(vr) ==> suffix_of(vr.1, s),
    decreases s.len(), psize(f) + psize(sep), 1int,
{
    lemma_parses_suffix(sep, s);
    match parses(sep, s) {
        None => {
            lemma_suffix_refl(s);
        },
        Some((_, r1)) => {
            lemma_parses_suffix(f, r1);
            if let Some((v, r2)) = parses(f, r1) {
                lemma_suffix_trans(r2, r1, s);
                if r2.len() < s.len() {
                    lemma_parses_sep_tail_suffix(f, sep, r2);
                    if let Some((vs, r3)) = parses_sep_tail(f, sep, r2) {
                        lemma_suffix_trans(r3, r2, s);
                    }
                }
            }
        },
    }
}

} // verus!
