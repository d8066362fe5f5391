//! A backtracking parser-combinator library.
//!
//! A [`ast::Parser`] is a value describing a rule for consuming a prefix of
//! an input string and either producing a [`ast::Value`] with the unconsumed
//! remainder, or failing. Parsers are built by composing the constructors in
//! [`text`] and [`combinators`], invoked with [`interp::apply`], and run
//! against a complete input with [`parse`]. What an invocation returns is
//! pinned down, for every parser and every input, by the specification
//! [`semantics::parses`]; the laws in [`laws`] state the backtracking
//! guarantees on top of it.

pub mod ast;
pub mod combinators;
pub mod interp;
pub mod laws;
pub mod semantics;
pub mod text;
pub mod unicode;

use vstd::prelude::*;

verus! {

use crate::ast::{Parser, Value};
use crate::interp::apply;
use crate::semantics::parses;

/// Run a parser once against a complete input: succeed only if the parser
/// succeeds and its remainder is empty, so that leftover unconsumed input is
/// an ordinary failure, not a partial success.
pub fn parse(parser: &Parser, input: &str) -> (r: Option<Value>)
    ensures
        match parses(*parser, input@) {
            Some(vr) => if vr.1.len() == 0 {
                r matches Some(rv) && rv@ == vr.0
            } else {
                r is None
            },
            None => r is None,
        },
{
    match apply(parser, input) {
        None => None,
        Some((v, rest)) => if rest.is_empty() {
            Some(v)
        } else {
            None
        },
    }
}

} // verus!
