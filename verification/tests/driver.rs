use rarsec::ast::Value;
use rarsec::combinators::{between, choice, count, many, many1, sep_by, sequence, then};
use rarsec::interp::apply;
use rarsec::parse;
use rarsec::text::{character, digit, letter, newline, none_of, one_of};

fn chars(s: &str) -> Value {
    Value::List(s.chars().map(Value::Char).collect())
}

#[test]
fn round_trip_between_parentheses() {
    assert_eq!(
        parse(&between(character('('), character(')'), many(letter())), "(hi)"),
        Some(chars("hi"))
    );
}

#[test]
fn empty_input_zero_length_match() {
    assert_eq!(parse(&many(choice(letter(), one_of("*-"))), ""), Some(chars("")));
}

#[test]
fn count_needs_enough_input() {
    assert_eq!(parse(&count(3, letter()), "he"), None);
}

#[test]
fn digits_separated_by_commas() {
    assert_eq!(apply(&sep_by(digit(), character(',')), "1,2,3"), Some((chars("123"), "")));
    assert_eq!(apply(&sep_by(digit(), character(',')), "1,"), None);
}

#[test]
fn leftover_input_is_failure() {
    assert_eq!(parse(&character('h'), "hello"), None);
    assert_eq!(parse(&character('h'), "h"), Some(Value::Char('h')));
}

#[test]
fn two_records() {
    // A record: a '>' marker, a header running to the end of the line, then
    // newline-prefixed body lines that may hold neither a newline nor a
    // record marker. Records are separated by the newline ending each body.
    let header = then(character('>'), many(none_of("\n")));
    let body_line = then(newline(), many1(none_of("\n>")));
    let record = sequence(header, many(body_line));
    let records = sep_by(record, newline());

    let text = ">h1\nb1\nb2\n>h2\nb3";
    let expected = Value::List(vec![
        Value::Pair(
            Box::new(chars("h1")),
            Box::new(Value::List(vec![chars("b1"), chars("b2")])),
        ),
        Value::Pair(Box::new(chars("h2")), Box::new(Value::List(vec![chars("b3")]))),
    ]);
    assert_eq!(parse(&records, text), Some(expected));
}

#[test]
fn records_with_trailing_text_fail() {
    let header = then(character('>'), many(none_of("\n")));
    let body_line = then(newline(), many1(none_of("\n>")));
    let record = sequence(header, many(body_line));
    let records = sep_by(record, newline());

    // A separator newline with no record behind it is a hard failure.
    assert_eq!(parse(&records, ">h1\nb1\nb2\n>h2\nb3\n"), None);
    // An unconsumed trailing marker fails the whole-input check.
    assert_eq!(parse(&records, ">h1\nb1>"), None);
}
