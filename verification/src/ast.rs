use vstd::prelude::*;

verus! {

/// A Unicode character classification used by `satisfy` and the recognizers
/// derived from it. Classification is full Unicode, not ASCII-only.
#[derive(Debug, PartialEq, Eq, Clone, Copy)]
pub enum CharClass {
    Numeric,
    Alphabetic,
    Uppercase,
    Lowercase,
    White,
}

/// The value a parser produces on success.
///
/// Parsers are composed freely, so produced values nest: a repetition yields a
/// list of its element values, an optional parser yields a present-or-absent
/// value, and a sequence yields a pair.
#[derive(Debug, PartialEq, Eq)]
pub enum Value {
    /// Produced by parsers that consume input (or nothing) without keeping a value.
    Unit,
    /// A single parsed character.
    Char(char),
    /// The values collected by a repetition, in the order encountered.
    List(Vec<Value>),
    /// A present-or-absent value, as produced by `option_option`.
    Maybe(Option<Box<Value>>),
    /// Both values of a sequence of two parsers.
    Pair(Box<Value>, Box<Value>),
}

/// The mathematical model of a produced [`Value`]: lists become sequences.
pub enum Val {
    Unit,
    Char(char),
    List(Seq<Val>),
    Maybe(Option<Box<Val>>),
    Pair(Box<Val>, Box<Val>),
}

/// The model of one produced value: lists become sequences.
pub open spec fn val_of(v: Value) -> Val
    decreases v,
{
    match v {
        Value::Unit => Val::Unit,
        Value::Char(c) => Val::Char(c),
        Value::List(xs) => Val::List(vals_of(xs@)),
        Value::Maybe(o) => Val::Maybe(
            match o {
                Some(b) => Some(Box::new(val_of(*b))),
                None => None,
            },
        ),
        Value::Pair(a, b) => Val::Pair(Box::new(val_of(*a)), Box::new(val_of(*b))),
    }
}

/// The model of a sequence of produced values, element by element.
pub open spec fn vals_of(vs: Seq<Value>) -> Seq<Val>
    decreases vs,
{
    if vs.len() == 0 {
        Seq::empty()
    } else {
        seq![val_of(vs[0])] + vals_of(vs.drop_first())
    }
}

/// `vals_of` models a sequence of values element by element.
pub proof fn lemma_vals_of(vs: Seq<Value>)
    ensures
        vals_of(vs).len() == vs.len(),
        forall|i: int| 0 <= i < vs.len() ==> vals_of(vs)[i] == vs[i]@,
    decreases vs.len(),
{
    if vs.len() > 0 {
        lemma_vals_of(vs.drop_first());
        assert forall|i: int| 0 <= i < vs.len() implies vals_of(vs)[i] == vs[i]@ by {
            if i > 0 {
                assert(vals_of(vs)[i] == vals_of(vs.drop_first())[i - 1]);
                assert(vs.drop_first()[i - 1] == vs[i]);
            }
        }
    }
}

impl View for Value {
    type V = Val;

    open spec fn view(&self) -> Val {
        val_of(*self)
    }
}

impl Clone for Value {
    /// A clone denotes the same value as the original.
    fn clone(&self) -> (r: Value)
        ensures
            r@ == self@,
        decreases self,
    {
        match self {
            Value::Unit => Value::Unit,
            Value::Char(c) => Value::Char(*c),
            Value::List(xs) => {
                let mut out: Vec<Value> = Vec::new();
                let mut i: usize = 0;
                #[verifier::loop_isolation(false)]
                while i < xs.len()
                    invariant
                        i <= xs@.len(),
                        out@.len() == i,
                        forall|j: int| 0 <= j < i ==> out@[j]@ == xs@[j]@,
                    decreases xs@.len() - i,
                {
                    out.push(xs[i].clone());
                    i = i + 1;
                }
                proof {
                    lemma_vals_of(out@);
                    lemma_vals_of(xs@);
                    assert(vals_of(out@) =~= vals_of(xs@));
                }
                Value::List(out)
            },
            Value::Maybe(o) => match o {
                Some(b) => Value::Maybe(Some(Box::new((**b).clone()))),
                None => Value::Maybe(None),
            },
            Value::Pair(a, b) => Value::Pair(Box::new((**a).clone()), Box::new((**b).clone())),
        }
    }
}

/// A parser: a rule for consuming a prefix of an input string and producing a
/// [`Value`] or failing. A parser is built once, by composing these variants
/// through the constructors in `text` and `combinators`, and may then be
/// invoked any number of times; it carries no state between invocations.
#[derive(Debug, PartialEq, Eq)]
pub enum Parser {
    /// Always succeeds, consumes nothing, produces `Unit`.
    Empty,
    /// Succeeds iff the first character equals the given one; consumes it.
    Character(char),
    /// Succeeds iff the first character is one of the given set; consumes it.
    OneOf(Vec<char>),
    /// Succeeds iff the input is non-empty and its first character is not in
    /// the given set; consumes it.
    NoneOf(Vec<char>),
    /// Succeeds iff the first character is of the given class; consumes it.
    Satisfy(CharClass),
    /// Tries the first parser; on failure tries the second on the original input.
    Choice(Box<Parser>, Box<Parser>),
    /// Runs both parsers in order and pairs their values.
    Both(Box<Parser>, Box<Parser>),
    /// Runs both parsers in order, keeping only the second value.
    Second(Box<Parser>, Box<Parser>),
    /// Zero or more repetitions; never fails.
    Many(Box<Parser>),
    /// One or more repetitions; fails iff the first attempt fails.
    Many1(Box<Parser>),
    /// One or more repetitions, discarding the values.
    SkipMany1(Box<Parser>),
    /// Exactly the given number of repetitions.
    Count(usize, Box<Parser>),
    /// Tries the parser; on failure succeeds with the stored default value.
    Fallback(Value, Box<Parser>),
    /// Tries the parser, wrapping success as present and failure as absent.
    Perhaps(Box<Parser>),
    /// Tries the parser, discarding its value; never fails.
    Optional(Box<Parser>),
    /// An opening parser, an inner parser and a closing parser, in the order
    /// open, close, inner as taken by `between`; produces the inner value.
    Between(Box<Parser>, Box<Parser>, Box<Parser>),
    /// Zero or more occurrences of the first parser separated by the second.
    SepBy(Box<Parser>, Box<Parser>),
    /// One or more occurrences of the first parser separated by the second.
    SepBy1(Box<Parser>, Box<Parser>),
}

} // verus!
