use rarsec::ast::Value;
use rarsec::combinators::{
    between, choice, count, many, many1, option, option_option, optional, sep_by, sep_by1,
    sequence, skip_many1, then,
};
use rarsec::interp::apply;
use rarsec::text::{character, digit, letter, one_of};

fn chars(s: &str) -> Value {
    Value::List(s.chars().map(Value::Char).collect())
}

#[test]
fn combinators() {
    let input = "hello";
    assert_eq!(
        apply(&choice(character('x'), character('h')), input),
        Some((Value::Char('h'), "ello"))
    );
    assert_eq!(apply(&many(one_of("he")), input), Some((chars("he"), "llo")));
    assert_eq!(apply(&many1(one_of("he")), input), Some((chars("he"), "llo")));
    assert_eq!(apply(&many(one_of("abc")), input), Some((chars(""), "hello")));
    assert_eq!(apply(&many1(one_of("abc")), input), None);
    assert_eq!(apply(&optional(character('!')), input), Some((Value::Unit, "hello")));
    assert_eq!(apply(&optional(character('h')), input), Some((Value::Unit, "ello")));
    assert_eq!(apply(&count(3, letter()), input), Some((chars("hel"), "lo")));
    assert_eq!(
        apply(&between(character('('), character(')'), many(letter())), "(hi)"),
        Some((chars("hi"), ""))
    );
    // A matched separator makes the element after it mandatory: the trailing
    // separator with no digit behind it is a hard failure.
    assert_eq!(apply(&sep_by(digit(), character(',')), "1,..."), None);
    assert_eq!(
        apply(&sep_by1(digit(), character(',')), "1,2,3..."),
        Some((chars("123"), "..."))
    );
    assert_eq!(apply(&sep_by(letter(), character('/')), "1/2/3"), Some((chars(""), "1/2/3")));
    assert_eq!(apply(&sep_by1(letter(), character('/')), "1/2/3"), None);
}

#[test]
fn sequencing() {
    assert_eq!(
        apply(&sequence(character('a'), digit()), "a5x"),
        Some((
            Value::Pair(Box::new(Value::Char('a')), Box::new(Value::Char('5'))),
            "x"
        ))
    );
    assert_eq!(apply(&sequence(character('a'), digit()), "ax"), None);
    assert_eq!(apply(&then(character('a'), digit()), "a5x"), Some((Value::Char('5'), "x")));
    assert_eq!(apply(&then(character('a'), digit()), "5x"), None);
}

#[test]
fn fallbacks() {
    assert_eq!(
        apply(&option(Value::Char('d'), digit()), "5x"),
        Some((Value::Char('5'), "x"))
    );
    assert_eq!(
        apply(&option(Value::Char('d'), digit()), "x"),
        Some((Value::Char('d'), "x"))
    );
    assert_eq!(
        apply(&option_option(digit()), "5x"),
        Some((Value::Maybe(Some(Box::new(Value::Char('5')))), "x"))
    );
    assert_eq!(apply(&option_option(digit()), "x"), Some((Value::Maybe(None), "x")));
    // The stored default comes back intact, a nested value included.
    assert_eq!(
        apply(&option(chars("na"), many1(digit())), "x"),
        Some((chars("na"), "x"))
    );
}

#[test]
fn skipping() {
    assert_eq!(apply(&skip_many1(digit()), "123ab"), Some((Value::Unit, "ab")));
    assert_eq!(apply(&skip_many1(digit()), "ab"), None);
}

#[test]
fn count_zero_is_empty_success() {
    assert_eq!(apply(&count(0, letter()), "ab"), Some((chars(""), "ab")));
}

#[test]
fn count_short_input_fails() {
    assert_eq!(apply(&count(3, letter()), "he"), None);
}

#[test]
fn between_unclosed_is_hard_failure() {
    assert_eq!(
        apply(&between(character('('), character(')'), many(letter())), "(hi"),
        None
    );
}
