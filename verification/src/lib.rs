//! Typed CSS value parsing (CSS Values and Units Level 4, CSS Variables
//! Level 1): numeric values (length, angle, time, frequency, resolution,
//! ratio, number, integer), textual values (keyword, identifiers, string,
//! url), math expression trees (`calc()`, `min()`, `max()`, `clamp()`) and
//! `var()` references.
//!
//! Parsing builds typed values only: nothing is computed, and `var()` is not
//! substituted.

pub mod binary64;
pub mod syntax;
pub mod text;
pub mod numeric;
pub mod textual;
pub mod var;
pub mod math;
pub mod calc_grammar;
pub mod serialize;
pub mod grammar;

use crate::grammar::{convert_error, spec_value, syntax_error, value_error, value_model, CssValue, ValueKind, ValuesGrammar};
use crate::math::{calc_error, math_model, spec_calc, MathExpression};
use crate::numeric::{
    integer_error, length_error, number_error, percentage_error, spec_integer, spec_length, spec_number, spec_percentage, Integer, Length, Number, ParseError, Percentage,
};
use crate::syntax::{parse_list_of_component_values, spec_component_values};
use crate::var::{spec_var, var_error, var_matches, VarReference};
use muskitty_css::parser::ParseError as SyntaxParseError;
use vstd::prelude::*;

verus! {

/// Parses a `<length>`.
pub fn parse_length(input: &str) -> (r: Result<Length, ParseError>)
    ensures
        r is Ok <==> spec_length(spec_component_values(input@)) is Some,
        r matches Ok(l) ==> spec_length(spec_component_values(input@)) == Some(l),
        r matches Err(e) ==> e.message@ == length_error(spec_component_values(input@)),
{
    Length::parse(input)
}

/// Parses a `<percentage>`.
pub fn parse_percentage(input: &str) -> (r: Result<Percentage, ParseError>)
    ensures
        r is Ok <==> spec_percentage(spec_component_values(input@)) is Some,
        r matches Ok(p) ==> spec_percentage(spec_component_values(input@)) == Some(p),
        r matches Err(e) ==> e.message@ == percentage_error(spec_component_values(input@)),
{
    Percentage::parse(input)
}

/// Parses a `<number>`.
pub fn parse_number(input: &str) -> (r: Result<Number, ParseError>)
    ensures
        r is Ok <==> spec_number(spec_component_values(input@)) is Some,
        r matches Ok(n) ==> spec_number(spec_component_values(input@)) == Some(n),
        r matches Err(e) ==> e.message@ == number_error(spec_component_values(input@)),
{
    Number::parse(input)
}

/// Parses an `<integer>`.
pub fn parse_integer(input: &str) -> (r: Result<Integer, ParseError>)
    ensures
        r is Ok <==> spec_integer(spec_component_values(input@)) is Some,
        r matches Ok(i) ==> spec_integer(spec_component_values(input@)) == Some(i),
        r matches Err(e) ==> e.message@ == integer_error(spec_component_values(input@)),
{
    Integer::parse(input)
}

/// Parses a `calc()` math expression; `min()`, `max()` and `clamp()` are accepted too.
pub fn parse_calc(input: &str) -> (r: Result<MathExpression, ParseError>)
    ensures
        r is Ok <==> spec_calc(spec_component_values(input@)) is Some,
        r matches Ok(e) ==> spec_calc(spec_component_values(input@)) == Some(math_model(e)),
        r matches Err(e) ==> e.message@ == calc_error(spec_component_values(input@)),
{
    crate::math::parse_calc(input)
}

/// Parses a `var()` reference, with its fallback.
pub fn parse_var(input: &str) -> (r: Result<VarReference, ParseError>)
    ensures
        r is Ok <==> spec_var(spec_component_values(input@)) is Some,
        r matches Ok(v) ==> var_matches(v, spec_var(spec_component_values(input@))->0),
        r matches Err(e) ==> e.message@ == var_error(spec_component_values(input@)),
{
    VarReference::parse(input)
}

/// Parses a typed value of the given kind (CSS Syntax §5.4.1): the text is
/// parsed into a list of component values and matched against the grammar
/// of `kind`. A refusal is a generic syntax error carrying the message.
pub fn parse_value(input: &str, kind: ValueKind) -> (r: Result<CssValue, SyntaxParseError>)
    ensures
        r is Ok <==> spec_value(kind, spec_component_values(input@)) is Some,
        r matches Ok(v) ==> spec_value(kind, spec_component_values(input@)) == Some(value_model(v)),
        r matches Err(e) ==> e == syntax_error(value_error(kind, spec_component_values(input@))),
{
    let cvs = parse_list_of_component_values(input);
    let grammar = ValuesGrammar { kind };
    match grammar.parse(cvs.as_slice()) {
        Ok(v) => Ok(v),
        Err(e) => Err(convert_error(e)),
    }
}

} // verus!
