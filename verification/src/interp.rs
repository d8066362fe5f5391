use vstd::prelude::*;
use vstd::string::StrSliceExecFns;
use crate::ast::{Parser, Val, Value, lemma_vals_of, vals_of};
use crate::semantics::{
    parses, parses_count, parses_many, parses_sep_tail, psize, lemma_parses_suffix,
    lemma_suffix_trans,
};
use crate::unicode::class_check;

verus! {

/// The outcome of invoking a parser agrees with the outcome the semantics
/// assigns: failure for failure, or the modelled value and remainder.
pub open spec fn agrees<'a>(
    r: Option<(Value, &'a str)>,
    m: Option<(Val, Seq<char>)>,
) -> bool {
    match (r, m) {
        (Some((v, rest)), Some((mv, mrest))) => v@ == mv && rest@ == mrest,
        (None, None) => true,
        _ => false,
    }
}

/// As `agrees`, for the repetition helpers that collect several values.
pub open spec fn agrees_items<'a>(
    r: Option<(Vec<Value>, &'a str)>,
    m: Option<(Seq<Val>, Seq<char>)>,
) -> bool {
    match (r, m) {
        (Some((vs, rest)), Some((mvs, mrest))) => vals_of(vs@) == mvs && rest@ == mrest,
        (None, None) => true,
        _ => false,
    }
}

proof fn lemma_vals_of_insert_front(s: Seq<Value>, v: Value)
    ensures
        vals_of(s.insert(0, v)) == seq![v@] + vals_of(s),
{
    s.insert_ensures(0, v);
    let t = s.insert(0, v);
    lemma_vals_of(t);
    lemma_vals_of(s);
    assert forall|i: int| 0 <= i < t.len() implies vals_of(t)[i] == (seq![v@] + vals_of(s))[i] by {
        if i > 0 {
            assert(t[(i - 1) + 1] == s[i - 1]);
        }
    }
    assert(vals_of(t) =~= seq![v@] + vals_of(s));
}

proof fn lemma_vals_of_single(v: Value)
    ensures
        vals_of(seq![v]) == seq![v@],
{
    lemma_vals_of(seq![v]);
    assert(vals_of(seq![v]) =~= seq![v@]);
}

proof fn lemma_vals_of_empty()
    ensures
        vals_of(Seq::<Value>::empty()) == Seq::<Val>::empty(),
{
    lemma_vals_of(Seq::<Value>::empty());
    assert(vals_of(Seq::<Value>::empty()) =~= Seq::<Val>::empty());
}

/// Whether `c` occurs among the characters of `cs`.
fn vec_has(cs: &Vec<char>, c: char) -> (b: bool)
    ensures
        b == cs@.contains(c),
{
    let mut i: usize = 0;
    while i < cs.len()
        invariant
            i <= cs@.len(),
            forall|j: int| 0 <= j < i ==> cs@[j] != c,
        decreases cs@.len() - i,
    {
        if cs[i] == c {
            return true;
        }
        i = i + 1;
    }
    false
}

/// Invoke a parser against an input: either fail, or produce a value and the
/// unconsumed remainder of the input, exactly as the semantics `parses`
/// prescribes.
pub fn apply<'a>(p: &Parser, input: &'a str) -> (r: Option<(Value, &'a str)>)
    ensures
        agrees(r, parses(*p, input@)),
    decreases input@.len(), psize(*p), 0int,
{
    match p {
        Parser::Empty => Some((Value::Unit, input)),
        Parser::Character(c) => {
            let n = input.unicode_len();
            if n > 0 && input.get_char(0) == *c {
                Some((Value::Char(*c), input.substring_char(1, n)))
            } else {
                None
            }
        },
        Parser::OneOf(cs) => {
            let n = input.unicode_len();
            if n > 0 && vec_has(cs, input.get_char(0)) {
                Some((Value::Char(input.get_char(0)), input.substring_char(1, n)))
            } else {
                None
            }
        },
        Parser::NoneOf(cs) => {
            let n = input.unicode_len();
            if n > 0 && !vec_has(cs, input.get_char(0)) {
                Some((Value::Char(input.get_char(0)), input.substring_char(1, n)))
            } else {
                None
            }
        },
        Parser::Satisfy(cl) => {
            let n = input.unicode_len();
            if n > 0 && class_check(cl, input.get_char(0)) {
                Some((Value::Char(input.get_char(0)), input.substring_char(1, n)))
            } else {
                None
            }
        },
        Parser::Choice(f, g) => match apply(&**f, input) {
            Some(r1) => Some(r1),
            None => apply(&**g, input),
        },
        Parser::Both(f, g) => match apply(&**f, input) {
            None => None,
            Some((v1, rest1)) => {
                proof {
                    lemma_parses_suffix(**f, input@);
                }
                match apply(&**g, rest1) {
                    None => None,
                    Some((v2, rest2)) => Some(
                        (Value::Pair(Box::new(v1), Box::new(v2)), rest2),
                    ),
                }
            },
        },
        Parser::Second(f, g) => match apply(&**f, input) {
            None => None,
            Some((_, rest1)) => {
                proof {
                    lemma_parses_suffix(**f, input@);
                }
                apply(&**g, rest1)
            },
        },
        Parser::Many(f) => {
            let (vs, rest) = apply_many(&**f, input);
            Some((Value::List(vs), rest))
        },
        Parser::Many1(f) => {
            let (vs, rest) = apply_many(&**f, input);
            if vs.is_empty() {
                None
            } else {
                Some((Value::List(vs), rest))
            }
        },
        Parser::SkipMany1(f) => {
            let (vs, rest) = apply_many(&**f, input);
            if vs.is_empty() {
                None
            } else {
                Some((Value::Unit, rest))
            }
        },
        Parser::Count(n, f) => match apply_count(&**f, *n, input) {
            None => None,
            Some((vs, rest)) => Some((Value::List(vs), rest)),
        },
        Parser::Fallback(d, f) => match apply(&**f, input) {
            Some(r1) => Some(r1),
            None => Some((d.clone(), input)),
        },
        Parser::Perhaps(f) => match apply(&**f, input) {
            Some((v, rest)) => Some((Value::Maybe(Some(Box::new(v))), rest)),
            None => Some((Value::Maybe(None), input)),
        },
        Parser::Optional(f) => match apply(&**f, input) {
            Some((_, rest)) => Some((Value::Unit, rest)),
            None => Some((Value::Unit, input)),
        },
        Parser::Between(o, c, i) => match apply(&**o, input) {
            None => None,
            Some((_, rest1)) => {
                proof {
                    lemma_parses_suffix(**o, input@);
                }
                match apply(&**i, rest1) {
                    None => None,
                    Some((v, rest2)) => {
                        proof {
                            lemma_parses_suffix(**i, rest1@);
                            lemma_suffix_trans(rest2@, rest1@, input@);
                        }
                        match apply(&**c, rest2) {
                            None => None,
                            Some((_, rest3)) => Some((v, rest3)),
                        }
                    },
                }
            },
        },
        Parser::SepBy(f, sep) => match apply(&**f, input) {
            None => {
                proof {
                    lemma_vals_of_empty();
                }
                Some((Value::List(Vec::new()), input))
            },
            Some((v, rest)) => {
                proof {
                    lemma_parses_suffix(**f, input@);
                }
                match apply_sep_tail(&**f, &**sep, rest) {
                    None => None,
                    Some((mut vs, rest2)) => {
                        proof {
                            lemma_vals_of_insert_front(vs@, v);
                        }
                        vs.insert(0, v);
                        Some((Value::List(vs), rest2))
                    },
                }
            },
        },
        Parser::SepBy1(f, sep) => match apply(&**f, input) {
            None => None,
            Some((v, rest)) => {
                proof {
                    lemma_parses_suffix(**f, input@);
                }
                match apply_sep_tail(&**f, &**sep, rest) {
                    None => None,
                    Some((mut vs, rest2)) => {
                        proof {
                            lemma_vals_of_insert_front(vs@, v);
                        }
                        vs.insert(0, v);
                        Some((Value::List(vs), rest2))
                    },
                }
            },
        },
    }
}

/// Zero or more repetitions of `f`, as `parses_many` prescribes.
fn apply_many<'a>(f: &Parser, input: &'a str) -> (r: (Vec<Value>, &'a str))
    ensures
        vals_of(r.0@) == parses_many(*f, input@).0,
        r.1@ == parses_many(*f, input@).1,
    decreases input@.len(), psize(*f), 1int,
{
    match apply(f, input) {
        None => {
            proof {
                lemma_vals_of_empty();
            }
            (Vec::new(), input)
        },
        Some((v, rest)) => {
            proof {
                lemma_parses_suffix(*f, input@);
            }
            if rest.unicode_len() < input.unicode_len() {
                let (mut vs, rest2) = apply_many(f, rest);
                proof {
                    lemma_vals_of_insert_front(vs@, v);
                }
                vs.insert(0, v);
                (vs, rest2)
            } else {
                proof {
                    lemma_vals_of_single(v);
                }
                let mut vs: Vec<Value> = Vec::new();
                vs.push(v);
                proof {
                    assert(vs@ =~= seq![v]);
                }
                (vs, rest)
            }
        },
    }
}

/// Exactly `n` repetitions of `f`, as `parses_count` prescribes.
fn apply_count<'a>(f: &Parser, n: usize, input: &'a str) -> (r: Option<(Vec<Value>, &'a str)>)
    ensures
        agrees_items(r, parses_count(*f, n as nat, input@)),
    decreases input@.len(), psize(*f), n as int + 1,
{
    if n == 0 {
        proof {
            lemma_vals_of_empty();
        }
        Some((Vec::new(), input))
    } else {
        match apply(f, input) {
            None => None,
            Some((v, rest)) => {
                proof {
                    lemma_parses_suffix(*f, input@);
                }
                match apply_count(f, n - 1, rest) {
                    None => None,
                    Some((mut vs, rest2)) => {
                        proof {
                            lemma_vals_of_insert_front(vs@, v);
                        }
                        vs.insert(0, v);
                        Some((vs, rest2))
                    },
                }
            },
        }
    }
}

/// The separated repetitions that follow a first element, as
/// `parses_sep_tail` prescribes.
fn apply_sep_tail<'a>(f: &Parser, sep: &Parser, input: &'a str) -> (r: Option<
    (Vec<Value>, &'a str),
>)
    ensures
        agrees_items(r, parses_sep_tail(*f, *sep, input@)),
    decreases input@.len(), psize(*f) + psize(*sep), 1int,
{
    match apply(sep, input) {
        None => {
            proof {
                lemma_vals_of_empty();
            }
            Some((Vec::new(), input))
        },
        Some((_, rest1)) => {
            proof {
                lemma_parses_suffix(*sep, input@);
            }
            match apply(f, rest1) {
                None => None,
                Some((v, rest2)) => {
                    proof {
                        lemma_parses_suffix(*f, rest1@);
                        lemma_suffix_trans(rest2@, rest1@, input@);
                    }
                    if rest2.unicode_len() < input.unicode_len() {
                        match apply_sep_tail(f, sep, rest2) {
                            None => None,
                            Some((mut vs, rest3)) => {
                                proof {
                                    lemma_vals_of_insert_front(vs@, v);
                                }
                                vs.insert(0, v);
                                Some((vs, rest3))
                            },
                        }
                    } else {
                        proof {
                            lemma_vals_of_single(v);
                        }
                        let mut vs: Vec<Value> = Vec::new();
                        vs.push(v);
                        proof {
                            assert(vs@ =~= seq![v]);
                        }
                        Some((vs, rest2))
                    }
                },
            }
        },
    }
}

} // verus!
