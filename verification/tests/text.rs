use rarsec::ast::{CharClass, Value};
use rarsec::interp::apply;
use rarsec::text::{
    character, digit, empty, letter, lower, newline, none_of, one_of, satisfy, upper, whitespace,
};

#[test]
fn recognizers() {
    let input = "hello";
    assert_eq!(apply(&empty(), input), Some((Value::Unit, "hello")));
    assert_eq!(apply(&character('h'), input), Some((Value::Char('h'), "ello")));
}

#[test]
fn character_mismatch_and_empty_input() {
    assert_eq!(apply(&character('h'), "x"), None);
    assert_eq!(apply(&character('h'), ""), None);
    assert_eq!(apply(&empty(), ""), Some((Value::Unit, "")));
}

#[test]
fn character_sets() {
    assert_eq!(apply(&one_of("abc"), "ax"), Some((Value::Char('a'), "x")));
    assert_eq!(apply(&one_of("abc"), "zx"), None);
    assert_eq!(apply(&one_of("abc"), ""), None);
    assert_eq!(apply(&none_of("abc"), "zx"), Some((Value::Char('z'), "x")));
    assert_eq!(apply(&none_of("abc"), "ax"), None);
    assert_eq!(apply(&none_of("abc"), ""), None);
}

#[test]
fn classifications() {
    assert_eq!(apply(&digit(), "5x"), Some((Value::Char('5'), "x")));
    assert_eq!(apply(&digit(), "x5"), None);
    assert_eq!(apply(&letter(), "ab"), Some((Value::Char('a'), "b")));
    assert_eq!(apply(&letter(), "1a"), None);
    assert_eq!(apply(&upper(), "Ab"), Some((Value::Char('A'), "b")));
    assert_eq!(apply(&upper(), "ab"), None);
    assert_eq!(apply(&lower(), "ab"), Some((Value::Char('a'), "b")));
    assert_eq!(apply(&lower(), "Ab"), None);
    assert_eq!(apply(&whitespace(), " x"), Some((Value::Char(' '), "x")));
    assert_eq!(apply(&whitespace(), "x "), None);
    assert_eq!(apply(&newline(), "\nx"), Some((Value::Char('\n'), "x")));
    assert_eq!(apply(&newline(), "x\n"), None);
    assert_eq!(apply(&satisfy(CharClass::Numeric), "7!"), Some((Value::Char('7'), "!")));
    assert_eq!(apply(&satisfy(CharClass::Numeric), "!7"), None);
}

#[test]
fn classification_is_unicode_aware() {
    // Alphabetic, uppercase, lowercase and numeric characters beyond ASCII.
    assert_eq!(apply(&letter(), "\u{e9}x"), Some((Value::Char('\u{e9}'), "x")));
    assert_eq!(apply(&lower(), "\u{e9}x"), Some((Value::Char('\u{e9}'), "x")));
    assert_eq!(apply(&upper(), "\u{c9}x"), Some((Value::Char('\u{c9}'), "x")));
    assert_eq!(apply(&upper(), "\u{e9}x"), None);
    assert_eq!(apply(&digit(), "\u{0663}x"), Some((Value::Char('\u{0663}'), "x")));
    assert_eq!(apply(&character('\u{e9}'), "\u{e9}x"), Some((Value::Char('\u{e9}'), "x")));
}
