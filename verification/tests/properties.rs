use rarsec::ast::Value;
use rarsec::combinators::{choice, many, sep_by, sep_by1};
use rarsec::interp::apply;
use rarsec::text::{character, digit};

fn chars(s: &str) -> Value {
    Value::List(s.chars().map(Value::Char).collect())
}

#[test]
fn many_never_fails_and_wins_the_choice() {
    // Even on input its element rejects, `many` succeeds with nothing, so a
    // choice starting with `many` never consults the alternative.
    assert_eq!(apply(&many(digit()), "x"), Some((chars(""), "x")));
    assert_eq!(apply(&choice(many(digit()), character('x')), "x"), Some((chars(""), "x")));
}

#[test]
fn failed_branch_leaves_no_trace() {
    // When the first branch fails, the choice equals the second branch run
    // on the untouched original input: same value, same remainder.
    let direct = apply(&digit(), "5a");
    let chosen = apply(&choice(character('x'), digit()), "5a");
    assert_eq!(chosen, direct);
    assert_eq!(chosen, Some((Value::Char('5'), "a")));
    assert_eq!(apply(&choice(character('x'), digit()), "za"), None);
}

#[test]
fn sep_by_agrees_with_sep_by1_when_one_element_parses() {
    let zero = sep_by(digit(), character(','));
    let one = sep_by1(digit(), character(','));
    assert_eq!(apply(&zero, "1,2x"), apply(&one, "1,2x"));
    assert_eq!(apply(&zero, "1,2x"), Some((chars("12"), "x")));
    assert_eq!(apply(&zero, "7"), apply(&one, "7"));
    // Where no element parses they part ways: empty success against failure.
    assert_eq!(apply(&zero, "x"), Some((chars(""), "x")));
    assert_eq!(apply(&one, "x"), None);
}
