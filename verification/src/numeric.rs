//! Numeric types — CSS Values Level 4 §4-§6.

use crate::binary64::{is_negative, is_zero, spec_one, spec_zero, Binary64};
use crate::syntax::{
    is_ws, non_ws, parse_list_of_component_values, spec_component_values, ComponentValue, Numeric, Token,
};
use crate::text::{
    concat, decimal, decimal_string, eq_ic, eq_ignore_ascii_case, lemma_eq_ic_equivalence, lemma_eq_ic_prefix, lemma_eq_ic_same,
};
use vstd::prelude::*;

verus! {

/// A value parse error.
#[derive(Debug, Clone, PartialEq, Eq)]
pub struct ParseError {
    pub message: String,
}

impl ParseError {
    /// An error with the given message.
    pub fn new(message: String) -> (e: ParseError)
        ensures
            e.message == message,
    {
        ParseError { message }
    }

    /// The error as text: `CSS value parse error: ` and the message.
    pub fn to_display_string(&self) -> (s: String)
        ensures
            s@ == "CSS value parse error: "@ + self.message@,
    {
        concat("CSS value parse error: ", self.message.as_str())
    }
}

/// An error whose message is the text `message`.
pub fn error(message: &str) -> (e: ParseError)
    ensures
        e.message@ == message@,
{
    ParseError { message: String::from_str(message) }
}

/// An error whose message is `prefix` followed by `detail`.
pub fn error_with(prefix: &str, detail: &str) -> (e: ParseError)
    ensures
        e.message@ == prefix@ + detail@,
{
    ParseError { message: concat(prefix, detail) }
}

/// The only component value of `cvs` that is not whitespace, if there is exactly one.
pub open spec fn sole_value(cvs: Seq<ComponentValue>) -> Option<ComponentValue> {
    if non_ws(cvs).len() == 1 {
        Some(non_ws(cvs)[0])
    } else {
        None
    }
}

/// The message with which a list that does not hold exactly one value is refused.
pub open spec fn count_message(cvs: Seq<ComponentValue>) -> Seq<char> {
    "expected exactly one value, got "@ + decimal(non_ws(cvs).len())
}

/// Extracts the only component value that is not a whitespace token.
pub fn single_non_ws_cv(cvs: &[ComponentValue]) -> (r: Result<&ComponentValue, ParseError>)
    ensures
        r is Ok <==> sole_value(cvs@) is Some,
        r matches Ok(cv) ==> sole_value(cvs@) == Some(*cv),
        r matches Err(e) ==> e.message@ == count_message(cvs@),
{
    let n = cvs.len();
    let mut count: usize = 0;
    let mut first: usize = 0;
    let mut i: usize = 0;
    while i < n
        invariant
            n == cvs@.len(),
            i <= n,
            count == non_ws(cvs@.take(i as int)).len(),
            count <= i,
            count >= 1 ==> first < n && non_ws(cvs@.take(i as int))[0] == cvs@[first as int],
        decreases n - i,
    {
        assert(cvs@.take(i + 1).drop_last() =~= cvs@.take(i as int));
        if !is_whitespace_token(&cvs[i]) {
            if count == 0 {
                first = i;
            }
            count += 1;
        }
        i += 1;
    }
    assert(cvs@.take(n as int) =~= cvs@);
    if count != 1 {
        return Err(error_with("expected exactly one value, got ", decimal_string(count).as_str()));
    }
    Ok(&cvs[first])
}

/// Whether a component value is a whitespace token.
pub fn is_whitespace_token(cv: &ComponentValue) -> (b: bool)
    ensures
        b == is_ws(*cv),
{
    match cv {
        ComponentValue::PreservedToken(Token::Whitespace) => true,
        _ => false,
    }
}

// ── §5 Length ────────────────────────────────────────────────────────

/// A CSS `<length>` (§5): a number and a length unit, kept as written.
#[derive(Debug, Clone, Copy, PartialEq)]
pub struct Length {
    pub value: Binary64,
    pub unit: LengthUnit,
}

/// Length units: relative (§5.1) and absolute (§5.2).
#[derive(Debug, Clone, Copy, PartialEq, Eq, Structural)]
pub enum LengthUnit {
    Em,
    Rem,
    Ex,
    Ch,
    Vw,
    Vh,
    Vmin,
    Vmax,
    Px,
    Cm,
    Mm,
    In,
    Pt,
    Pc,
    Q,
}

/// The length unit that `s` names, compared without regard to ASCII case.
pub open spec fn spec_length_unit(s: Seq<char>) -> Option<LengthUnit> {
    if eq_ic(s, "em"@) {
        Some(LengthUnit::Em)
    } else if eq_ic(s, "rem"@) {
        Some(LengthUnit::Rem)
    } else if eq_ic(s, "ex"@) {
        Some(LengthUnit::Ex)
    } else if eq_ic(s, "ch"@) {
        Some(LengthUnit::Ch)
    } else if eq_ic(s, "vw"@) {
        Some(LengthUnit::Vw)
    } else if eq_ic(s, "vh"@) {
        Some(LengthUnit::Vh)
    } else if eq_ic(s, "vmin"@) {
        Some(LengthUnit::Vmin)
    } else if eq_ic(s, "vmax"@) {
        Some(LengthUnit::Vmax)
    } else if eq_ic(s, "px"@) {
        Some(LengthUnit::Px)
    } else if eq_ic(s, "cm"@) {
        Some(LengthUnit::Cm)
    } else if eq_ic(s, "mm"@) {
        Some(LengthUnit::Mm)
    } else if eq_ic(s, "in"@) {
        Some(LengthUnit::In)
    } else if eq_ic(s, "pt"@) {
        Some(LengthUnit::Pt)
    } else if eq_ic(s, "pc"@) {
        Some(LengthUnit::Pc)
    } else if eq_ic(s, "q"@) {
        Some(LengthUnit::Q)
    } else {
        None
    }
}

/// The CSS spelling of a length unit.
pub open spec fn length_unit_text(u: LengthUnit) -> Seq<char> {
    match u {
        LengthUnit::Em => "em"@,
        LengthUnit::Rem => "rem"@,
        LengthUnit::Ex => "ex"@,
        LengthUnit::Ch => "ch"@,
        LengthUnit::Vw => "vw"@,
        LengthUnit::Vh => "vh"@,
        LengthUnit::Vmin => "vmin"@,
        LengthUnit::Vmax => "vmax"@,
        LengthUnit::Px => "px"@,
        LengthUnit::Cm => "cm"@,
        LengthUnit::Mm => "mm"@,
        LengthUnit::In => "in"@,
        LengthUnit::Pt => "pt"@,
        LengthUnit::Pc => "pc"@,
        LengthUnit::Q => "Q"@,
    }
}

impl LengthUnit {
    /// The length unit that `s` names (ASCII case-insensitive).
    pub fn parse_unit(s: &str) -> (r: Option<LengthUnit>)
        ensures
            r == spec_length_unit(s@),
    {
        if eq_ignore_ascii_case(s, "em") {
            Some(LengthUnit::Em)
        } else if eq_ignore_ascii_case(s, "rem") {
            Some(LengthUnit::Rem)
        } else if eq_ignore_ascii_case(s, "ex") {
            Some(LengthUnit::Ex)
        } else if eq_ignore_ascii_case(s, "ch") {
            Some(LengthUnit::Ch)
        } else if eq_ignore_ascii_case(s, "vw") {
            Some(LengthUnit::Vw)
        } else if eq_ignore_ascii_case(s, "vh") {
            Some(LengthUnit::Vh)
        } else if eq_ignore_ascii_case(s, "vmin") {
            Some(LengthUnit::Vmin)
        } else if eq_ignore_ascii_case(s, "vmax") {
            Some(LengthUnit::Vmax)
        } else if eq_ignore_ascii_case(s, "px") {
            Some(LengthUnit::Px)
        } else if eq_ignore_ascii_case(s, "cm") {
            Some(LengthUnit::Cm)
        } else if eq_ignore_ascii_case(s, "mm") {
            Some(LengthUnit::Mm)
        } else if eq_ignore_ascii_case(s, "in") {
            Some(LengthUnit::In)
        } else if eq_ignore_ascii_case(s, "pt") {
            Some(LengthUnit::Pt)
        } else if eq_ignore_ascii_case(s, "pc") {
            Some(LengthUnit::Pc)
        } else if eq_ignore_ascii_case(s, "q") {
            Some(LengthUnit::Q)
        } else {
            None
        }
    }

    /// The CSS spelling of the unit.
    pub fn to_str(self) -> (s: &'static str)
        ensures
            s@ == length_unit_text(self),
    {
        match self {
            LengthUnit::Em => "em",
            LengthUnit::Rem => "rem",
            LengthUnit::Ex => "ex",
            LengthUnit::Ch => "ch",
            LengthUnit::Vw => "vw",
            LengthUnit::Vh => "vh",
            LengthUnit::Vmin => "vmin",
            LengthUnit::Vmax => "vmax",
            LengthUnit::Px => "px",
            LengthUnit::Cm => "cm",
            LengthUnit::Mm => "mm",
            LengthUnit::In => "in",
            LengthUnit::Pt => "pt",
            LengthUnit::Pc => "pc",
            LengthUnit::Q => "Q",
        }
    }
}

/// The length that a component value is: a dimension token with a length unit.
pub open spec fn length_of(cv: ComponentValue) -> Option<Length> {
    match cv {
        ComponentValue::PreservedToken(Token::Dimension(n, unit)) => match spec_length_unit(unit@) {
            Some(u) => Some(Length { value: n.value, unit: u }),
            None => None,
        },
        _ => None,
    }
}

/// The `<length>` that a list of component values is.
pub open spec fn spec_length(cvs: Seq<ComponentValue>) -> Option<Length> {
    match sole_value(cvs) {
        Some(cv) => length_of(cv),
        None => None,
    }
}

/// Every `<length>` is written as a dimension with a length unit, whose
/// number and unit it keeps; no number token, 0 included, is a length.
pub proof fn lemma_length_is_a_dimension(cvs: Seq<ComponentValue>)
    ensures
        spec_length(cvs) matches Some(l) ==> (sole_value(cvs) matches Some(
            ComponentValue::PreservedToken(Token::Dimension(n, unit)),
        ) && n.value == l.value && spec_length_unit(unit@) == Some(l.unit)),
        (sole_value(cvs) matches Some(ComponentValue::PreservedToken(Token::Number(_)))) ==> spec_length(cvs) is None,
{
}

/// The message with which a list that is not a `<length>` is refused.
pub open spec fn length_error(cvs: Seq<ComponentValue>) -> Seq<char> {
    match sole_value(cvs) {
        None => count_message(cvs),
        Some(ComponentValue::PreservedToken(Token::Dimension(_, unit))) => "unknown length unit: "@ + unit@,
        Some(_) => "expected a dimension token for length"@,
    }
}

impl Length {
    /// Parses a `<length>` from CSS text.
    pub fn parse(input: &str) -> (r: Result<Length, ParseError>)
        ensures
            r is Ok <==> spec_length(spec_component_values(input@)) is Some,
            r matches Ok(l) ==> spec_length(spec_component_values(input@)) == Some(l),
            r matches Err(e) ==> e.message@ == length_error(spec_component_values(input@)),
    {
        let cvs = parse_list_of_component_values(input);
        Length::from_cvs(cvs.as_slice())
    }

    /// Parses a `<length>` from component values.
    pub fn from_cvs(cvs: &[ComponentValue]) -> (r: Result<Length, ParseError>)
        ensures
            r is Ok <==> spec_length(cvs@) is Some,
            r matches Ok(l) ==> spec_length(cvs@) == Some(l),
            r matches Err(e) ==> e.message@ == length_error(cvs@),
    {
        let cv = match single_non_ws_cv(cvs) {
            Ok(cv) => cv,
            Err(e) => return Err(e),
        };
        match cv {
            ComponentValue::PreservedToken(Token::Dimension(numeric, unit)) => {
                match LengthUnit::parse_unit(unit.as_str()) {
                    Some(u) => Ok(Length { value: numeric.value, unit: u }),
                    None => Err(error_with("unknown length unit: ", unit.as_str())),
                }
            },
            _ => Err(error("expected a dimension token for length")),
        }
    }
}

// ── §4.6 Percentage ─────────────────────────────────────────────────

/// A CSS `<percentage>` (§4.6).
#[derive(Debug, Clone, Copy, PartialEq)]
pub struct Percentage {
    pub value: Binary64,
}

/// The `<percentage>` that a list of component values is.
pub open spec fn spec_percentage(cvs: Seq<ComponentValue>) -> Option<Percentage> {
    match sole_value(cvs) {
        Some(ComponentValue::PreservedToken(Token::Percentage(n))) => Some(Percentage { value: n.value }),
        _ => None,
    }
}

/// The message with which a list that is not a `<percentage>` is refused.
pub open spec fn percentage_error(cvs: Seq<ComponentValue>) -> Seq<char> {
    match sole_value(cvs) {
        None => count_message(cvs),
        Some(_) => "expected a percentage token"@,
    }
}

impl Percentage {
    /// Parses a `<percentage>` from CSS text.
    pub fn parse(input: &str) -> (r: Result<Percentage, ParseError>)
        ensures
            r is Ok <==> spec_percentage(spec_component_values(input@)) is Some,
            r matches Ok(p) ==> spec_percentage(spec_component_values(input@)) == Some(p),
            r matches Err(e) ==> e.message@ == percentage_error(spec_component_values(input@)),
    {
        let cvs = parse_list_of_component_values(input);
        Percentage::from_cvs(cvs.as_slice())
    }

    /// Parses a `<percentage>` from component values.
    pub fn from_cvs(cvs: &[ComponentValue]) -> (r: Result<Percentage, ParseError>)
        ensures
            r is Ok <==> spec_percentage(cvs@) is Some,
            r matches Ok(p) ==> spec_percentage(cvs@) == Some(p),
            r matches Err(e) ==> e.message@ == percentage_error(cvs@),
    {
        let cv = match single_non_ws_cv(cvs) {
            Ok(cv) => cv,
            Err(e) => return Err(e),
        };
        match cv {
            ComponentValue::PreservedToken(Token::Percentage(numeric)) => Ok(Percentage { value: numeric.value }),
            _ => Err(error("expected a percentage token")),
        }
    }
}

// ── §4.4 Number ─────────────────────────────────────────────────────

/// A CSS `<number>` (§4.4).
#[derive(Debug, Clone, Copy, PartialEq)]
pub struct Number {
    pub value: Binary64,
}

/// The `<number>` that a list of component values is.
pub open spec fn spec_number(cvs: Seq<ComponentValue>) -> Option<Number> {
    match sole_value(cvs) {
        Some(ComponentValue::PreservedToken(Token::Number(n))) => Some(Number { value: n.value }),
        _ => None,
    }
}

/// The message with which a list that is not a `<number>` is refused.
pub open spec fn number_error(cvs: Seq<ComponentValue>) -> Seq<char> {
    match sole_value(cvs) {
        None => count_message(cvs),
        Some(_) => "expected a number token"@,
    }
}

impl Number {
    /// Parses a `<number>` from CSS text.
    pub fn parse(input: &str) -> (r: Result<Number, ParseError>)
        ensures
            r is Ok <==> spec_number(spec_component_values(input@)) is Some,
            r matches Ok(n) ==> spec_number(spec_component_values(input@)) == Some(n),
            r matches Err(e) ==> e.message@ == number_error(spec_component_values(input@)),
    {
        let cvs = parse_list_of_component_values(input);
        Number::from_cvs(cvs.as_slice())
    }

    /// Parses a `<number>` from component values.
    pub fn from_cvs(cvs: &[ComponentValue]) -> (r: Result<Number, ParseError>)
        ensures
            r is Ok <==> spec_number(cvs@) is Some,
            r matches Ok(n) ==> spec_number(cvs@) == Some(n),
            r matches Err(e) ==> e.message@ == number_error(cvs@),
    {
        let cv = match single_non_ws_cv(cvs) {
            Ok(cv) => cv,
            Err(e) => return Err(e),
        };
        match cv {
            ComponentValue::PreservedToken(Token::Number(numeric)) => Ok(Number { value: numeric.value }),
            _ => Err(error("expected a number token")),
        }
    }
}

// ── §4.3 Integer ────────────────────────────────────────────────────

/// A CSS `<integer>` (§4.3).
#[derive(Debug, Clone, Copy, PartialEq, Eq, Structural)]
pub struct Integer {
    pub value: i32,
}

/// The `<integer>` that a list of component values is: a number token written
/// without fraction or exponent, converted to `i32` as Rust's `as` does.
pub open spec fn spec_integer(cvs: Seq<ComponentValue>) -> Option<Integer> {
    match sole_value(cvs) {
        Some(ComponentValue::PreservedToken(Token::Number(n))) => if n.is_integer {
            Some(Integer { value: crate::binary64::to_i32(n.value) })
        } else {
            None
        },
        _ => None,
    }
}

/// An integer token keeps its value: a number token written without a
/// fraction or an exponent, alone but for whitespace, whose value is the
/// integer `k` in the range of `i32`, is the `<integer>` `k`.
pub proof fn lemma_integer_keeps_its_value(cvs: Seq<ComponentValue>, n: Numeric, k: int)
    requires
        sole_value(cvs) == Some(ComponentValue::PreservedToken(Token::Number(n))),
        n.is_integer,
        crate::binary64::has_integer_value(n.value, k),
        i32::MIN <= k <= i32::MAX,
    ensures
        spec_integer(cvs) matches Some(i) && i.value == k,
{
    crate::binary64::lemma_to_i32_keeps_integers(n.value, k);
}

/// The message with which a list that is not a `<integer>` is refused.
pub open spec fn integer_error(cvs: Seq<ComponentValue>) -> Seq<char> {
    match sole_value(cvs) {
        None => count_message(cvs),
        Some(_) => "expected an integer token"@,
    }
}

impl Integer {
    /// Parses an `<integer>` from CSS text.
    pub fn parse(input: &str) -> (r: Result<Integer, ParseError>)
        ensures
            r is Ok <==> spec_integer(spec_component_values(input@)) is Some,
            r matches Ok(i) ==> spec_integer(spec_component_values(input@)) == Some(i),
            r matches Err(e) ==> e.message@ == integer_error(spec_component_values(input@)),
    {
        let cvs = parse_list_of_component_values(input);
        Integer::from_cvs(cvs.as_slice())
    }

    /// Parses an `<integer>` from component values.
    pub fn from_cvs(cvs: &[ComponentValue]) -> (r: Result<Integer, ParseError>)
        ensures
            r is Ok <==> spec_integer(cvs@) is Some,
            r matches Ok(i) ==> spec_integer(cvs@) == Some(i),
            r matches Err(e) ==> e.message@ == integer_error(cvs@),
    {
        let cv = match single_non_ws_cv(cvs) {
            Ok(cv) => cv,
            Err(e) => return Err(e),
        };
        match cv {
            ComponentValue::PreservedToken(Token::Number(numeric)) if numeric.is_integer => {
                Ok(Integer { value: numeric.value.to_i32() })
            },
            _ => Err(error("expected an integer token")),
        }
    }
}

// ── §6.1 Angle ──────────────────────────────────────────────────────

/// A CSS `<angle>` (§6.1).
#[derive(Debug, Clone, Copy, PartialEq)]
pub struct Angle {
    pub value: Binary64,
    pub unit: AngleUnit,
}

/// Angle units.
#[derive(Debug, Clone, Copy, PartialEq, Eq, Structural)]
pub enum AngleUnit {
    Deg,
    Grad,
    Rad,
    Turn,
}

/// The angle unit that `s` names, compared without regard to ASCII case.
pub open spec fn spec_angle_unit(s: Seq<char>) -> Option<AngleUnit> {
    if eq_ic(s, "deg"@) {
        Some(AngleUnit::Deg)
    } else if eq_ic(s, "grad"@) {
        Some(AngleUnit::Grad)
    } else if eq_ic(s, "rad"@) {
        Some(AngleUnit::Rad)
    } else if eq_ic(s, "turn"@) {
        Some(AngleUnit::Turn)
    } else {
        None
    }
}

impl AngleUnit {
    /// The angle unit that `s` names (ASCII case-insensitive).
    pub fn parse_unit(s: &str) -> (r: Option<AngleUnit>)
        ensures
            r == spec_angle_unit(s@),
    {
        if eq_ignore_ascii_case(s, "deg") {
            Some(AngleUnit::Deg)
        } else if eq_ignore_ascii_case(s, "grad") {
            Some(AngleUnit::Grad)
        } else if eq_ignore_ascii_case(s, "rad") {
            Some(AngleUnit::Rad)
        } else if eq_ignore_ascii_case(s, "turn") {
            Some(AngleUnit::Turn)
        } else {
            None
        }
    }
}

/// The angle that a component value is: a dimension with an angle unit, or a
/// bare number equal to 0, which is `0deg` (§6.1).
pub open spec fn angle_of(cv: ComponentValue) -> Option<Angle> {
    match cv {
        ComponentValue::PreservedToken(Token::Dimension(n, unit)) => match spec_angle_unit(unit@) {
            Some(u) => Some(Angle { value: n.value, unit: u }),
            None => None,
        },
        ComponentValue::PreservedToken(Token::Number(n)) => if is_zero(n.value) {
            Some(Angle { value: spec_zero(), unit: AngleUnit::Deg })
        } else {
            None
        },
        _ => None,
    }
}

/// The `<angle>` that a list of component values is.
pub open spec fn spec_angle(cvs: Seq<ComponentValue>) -> Option<Angle> {
    match sole_value(cvs) {
        Some(cv) => angle_of(cv),
        None => None,
    }
}

/// Every `<angle>` is written as a dimension with an angle unit, whose
/// number and unit it keeps, or as a bare number 0, which is `0deg`; no
/// other number is an angle.
pub proof fn lemma_angle_is_a_dimension_or_zero(cvs: Seq<ComponentValue>)
    ensures
        spec_angle(cvs) matches Some(a) ==> ((sole_value(cvs) matches Some(
            ComponentValue::PreservedToken(Token::Dimension(n, unit)),
        ) && n.value == a.value && spec_angle_unit(unit@) == Some(a.unit)) || (sole_value(cvs) matches Some(
            ComponentValue::PreservedToken(Token::Number(n)),
        ) && is_zero(n.value) && a.value == spec_zero() && a.unit == AngleUnit::Deg)),
{
}

/// The message with which a list that is not an `<angle>` is refused.
pub open spec fn angle_error(cvs: Seq<ComponentValue>) -> Seq<char> {
    match sole_value(cvs) {
        None => count_message(cvs),
        Some(ComponentValue::PreservedToken(Token::Dimension(_, unit))) => "unknown angle unit: "@ + unit@,
        Some(_) => "expected a dimension or 0 for angle"@,
    }
}

impl Angle {
    /// Parses an `<angle>` from CSS text.
    pub fn parse(input: &str) -> (r: Result<Angle, ParseError>)
        ensures
            r is Ok <==> spec_angle(spec_component_values(input@)) is Some,
            r matches Ok(a) ==> spec_angle(spec_component_values(input@)) == Some(a),
            r matches Err(e) ==> e.message@ == angle_error(spec_component_values(input@)),
    {
        let cvs = parse_list_of_component_values(input);
        Angle::from_cvs(cvs.as_slice())
    }

    /// Parses an `<angle>` from component values.
    pub fn from_cvs(cvs: &[ComponentValue]) -> (r: Result<Angle, ParseError>)
        ensures
            r is Ok <==> spec_angle(cvs@) is Some,
            r matches Ok(a) ==> spec_angle(cvs@) == Some(a),
            r matches Err(e) ==> e.message@ == angle_error(cvs@),
    {
        let cv = match single_non_ws_cv(cvs) {
            Ok(cv) => cv,
            Err(e) => return Err(e),
        };
        match cv {
            ComponentValue::PreservedToken(Token::Dimension(numeric, unit)) => {
                match AngleUnit::parse_unit(unit.as_str()) {
                    Some(u) => Ok(Angle { value: numeric.value, unit: u }),
                    None => Err(error_with("unknown angle unit: ", unit.as_str())),
                }
            },
            ComponentValue::PreservedToken(Token::Number(numeric)) if numeric.value.is_zero() => {
                Ok(Angle { value: Binary64::zero(), unit: AngleUnit::Deg })
            },
            _ => Err(error("expected a dimension or 0 for angle")),
        }
    }
}

// ── §6.2 Time ───────────────────────────────────────────────────────

/// A CSS `<time>` (§6.2).
#[derive(Debug, Clone, Copy, PartialEq)]
pub struct Time {
    pub value: Binary64,
    pub unit: TimeUnit,
}

/// Time units.
#[derive(Debug, Clone, Copy, PartialEq, Eq, Structural)]
pub enum TimeUnit {
    S,
    Ms,
}

/// The time unit that `s` names, compared without regard to ASCII case.
pub open spec fn spec_time_unit(s: Seq<char>) -> Option<TimeUnit> {
    if eq_ic(s, "s"@) {
        Some(TimeUnit::S)
    } else if eq_ic(s, "ms"@) {
        Some(TimeUnit::Ms)
    } else {
        None
    }
}

impl TimeUnit {
    /// The time unit that `s` names (ASCII case-insensitive).
    pub fn parse_unit(s: &str) -> (r: Option<TimeUnit>)
        ensures
            r == spec_time_unit(s@),
    {
        if eq_ignore_ascii_case(s, "s") {
            Some(TimeUnit::S)
        } else if eq_ignore_ascii_case(s, "ms") {
            Some(TimeUnit::Ms)
        } else {
            None
        }
    }
}

/// The `<time>` that a list of component values is.
pub open spec fn spec_time(cvs: Seq<ComponentValue>) -> Option<Time> {
    match sole_value(cvs) {
        Some(ComponentValue::PreservedToken(Token::Dimension(n, unit))) => match spec_time_unit(unit@) {
            Some(u) => Some(Time { value: n.value, unit: u }),
            None => None,
        },
        _ => None,
    }
}

/// Every `<time>` is written as a dimension: a list is a `<time>` only when
/// its one value that is not whitespace is a dimension token with a time
/// unit, whose number and unit the time keeps; no number token, 0 included,
/// is a time.
pub proof fn lemma_time_is_a_dimension(cvs: Seq<ComponentValue>)
    ensures
        spec_time(cvs) matches Some(t) ==> (sole_value(cvs) matches Some(
            ComponentValue::PreservedToken(Token::Dimension(n, unit)),
        ) && n.value == t.value && spec_time_unit(unit@) == Some(t.unit)),
        (sole_value(cvs) matches Some(ComponentValue::PreservedToken(Token::Number(_)))) ==> spec_time(cvs) is None,
{
}

/// The message with which a list that is not a `<time>` is refused.
pub open spec fn time_error(cvs: Seq<ComponentValue>) -> Seq<char> {
    match sole_value(cvs) {
        None => count_message(cvs),
        Some(ComponentValue::PreservedToken(Token::Dimension(_, unit))) => "unknown time unit: "@ + unit@,
        Some(_) => "expected a dimension token for time"@,
    }
}

impl Time {
    /// Parses a `<time>` from CSS text.
    pub fn parse(input: &str) -> (r: Result<Time, ParseError>)
        ensures
            r is Ok <==> spec_time(spec_component_values(input@)) is Some,
            r matches Ok(t) ==> spec_time(spec_component_values(input@)) == Some(t),
            r matches Err(e) ==> e.message@ == time_error(spec_component_values(input@)),
    {
        let cvs = parse_list_of_component_values(input);
        Time::from_cvs(cvs.as_slice())
    }

    /// Parses a `<time>` from component values.
    pub fn from_cvs(cvs: &[ComponentValue]) -> (r: Result<Time, ParseError>)
        ensures
            r is Ok <==> spec_time(cvs@) is Some,
            r matches Ok(t) ==> spec_time(cvs@) == Some(t),
            r matches Err(e) ==> e.message@ == time_error(cvs@),
    {
        let cv = match single_non_ws_cv(cvs) {
            Ok(cv) => cv,
            Err(e) => return Err(e),
        };
        match cv {
            ComponentValue::PreservedToken(Token::Dimension(numeric, unit)) => {
                match TimeUnit::parse_unit(unit.as_str()) {
                    Some(u) => Ok(Time { value: numeric.value, unit: u }),
                    None => Err(error_with("unknown time unit: ", unit.as_str())),
                }
            },
            _ => Err(error("expected a dimension token for time")),
        }
    }
}

// ── §6.3 Frequency ──────────────────────────────────────────────────

/// A CSS `<frequency>` (§6.3).
#[derive(Debug, Clone, Copy, PartialEq)]
pub struct Frequency {
    pub value: Binary64,
    pub unit: FrequencyUnit,
}

/// Frequency units.
#[derive(Debug, Clone, Copy, PartialEq, Eq, Structural)]
pub enum FrequencyUnit {
    Hz,
    KHz,
}

/// The frequency unit that `s` names, compared without regard to ASCII case.
pub open spec fn spec_frequency_unit(s: Seq<char>) -> Option<FrequencyUnit> {
    if eq_ic(s, "hz"@) {
        Some(FrequencyUnit::Hz)
    } else if eq_ic(s, "khz"@) {
        Some(FrequencyUnit::KHz)
    } else {
        None
    }
}

impl FrequencyUnit {
    /// The frequency unit that `s` names (ASCII case-insensitive).
    pub fn parse_unit(s: &str) -> (r: Option<FrequencyUnit>)
        ensures
            r == spec_frequency_unit(s@),
    {
        if eq_ignore_ascii_case(s, "hz") {
            Some(FrequencyUnit::Hz)
        } else if eq_ignore_ascii_case(s, "khz") {
            Some(FrequencyUnit::KHz)
        } else {
            None
        }
    }
}

/// The `<frequency>` that a list of component values is.
pub open spec fn spec_frequency(cvs: Seq<ComponentValue>) -> Option<Frequency> {
    match sole_value(cvs) {
        Some(ComponentValue::PreservedToken(Token::Dimension(n, unit))) => match spec_frequency_unit(unit@) {
            Some(u) => Some(Frequency { value: n.value, unit: u }),
            None => None,
        },
        _ => None,
    }
}

/// Every `<frequency>` is written as a dimension with a frequency unit,
/// whose number and unit it keeps; no number token, 0 included, is one.
pub proof fn lemma_frequency_is_a_dimension(cvs: Seq<ComponentValue>)
    ensures
        spec_frequency(cvs) matches Some(f) ==> (sole_value(cvs) matches Some(
            ComponentValue::PreservedToken(Token::Dimension(n, unit)),
        ) && n.value == f.value && spec_frequency_unit(unit@) == Some(f.unit)),
        (sole_value(cvs) matches Some(ComponentValue::PreservedToken(Token::Number(_)))) ==> spec_frequency(cvs) is None,
{
}

/// The message with which a list that is not a `<frequency>` is refused.
pub open spec fn frequency_error(cvs: Seq<ComponentValue>) -> Seq<char> {
    match sole_value(cvs) {
        None => count_message(cvs),
        Some(ComponentValue::PreservedToken(Token::Dimension(_, unit))) => "unknown frequency unit: "@ + unit@,
        Some(_) => "expected a dimension token for frequency"@,
    }
}

impl Frequency {
    /// Parses a `<frequency>` from CSS text.
    pub fn parse(input: &str) -> (r: Result<Frequency, ParseError>)
        ensures
            r is Ok <==> spec_frequency(spec_component_values(input@)) is Some,
            r matches Ok(f) ==> spec_frequency(spec_component_values(input@)) == Some(f),
            r matches Err(e) ==> e.message@ == frequency_error(spec_component_values(input@)),
    {
        let cvs = parse_list_of_component_values(input);
        Frequency::from_cvs(cvs.as_slice())
    }

    /// Parses a `<frequency>` from component values.
    pub fn from_cvs(cvs: &[ComponentValue]) -> (r: Result<Frequency, ParseError>)
        ensures
            r is Ok <==> spec_frequency(cvs@) is Some,
            r matches Ok(f) ==> spec_frequency(cvs@) == Some(f),
            r matches Err(e) ==> e.message@ == frequency_error(cvs@),
    {
        let cv = match single_non_ws_cv(cvs) {
            Ok(cv) => cv,
            Err(e) => return Err(e),
        };
        match cv {
            ComponentValue::PreservedToken(Token::Dimension(numeric, unit)) => {
                match FrequencyUnit::parse_unit(unit.as_str()) {
                    Some(u) => Ok(Frequency { value: numeric.value, unit: u }),
                    None => Err(error_with("unknown frequency unit: ", unit.as_str())),
                }
            },
            _ => Err(error("expected a dimension token for frequency")),
        }
    }
}

// ── §6.4 Resolution ─────────────────────────────────────────────────

/// A CSS `<resolution>` (§6.4).
#[derive(Debug, Clone, Copy, PartialEq)]
pub struct Resolution {
    pub value: Binary64,
    pub unit: ResolutionUnit,
}

/// Resolution units.
#[derive(Debug, Clone, Copy, PartialEq, Eq, Structural)]
pub enum ResolutionUnit {
    Dpi,
    Dpcm,
    Dppx,
}

/// The resolution unit that `s` names, compared without regard to ASCII case.
pub open spec fn spec_resolution_unit(s: Seq<char>) -> Option<ResolutionUnit> {
    if eq_ic(s, "dpi"@) {
        Some(ResolutionUnit::Dpi)
    } else if eq_ic(s, "dpcm"@) {
        Some(ResolutionUnit::Dpcm)
    } else if eq_ic(s, "dppx"@) {
        Some(ResolutionUnit::Dppx)
    } else {
        None
    }
}

impl ResolutionUnit {
    /// The resolution unit that `s` names (ASCII case-insensitive).
    pub fn parse_unit(s: &str) -> (r: Option<ResolutionUnit>)
        ensures
            r == spec_resolution_unit(s@),
    {
        if eq_ignore_ascii_case(s, "dpi") {
            Some(ResolutionUnit::Dpi)
        } else if eq_ignore_ascii_case(s, "dpcm") {
            Some(ResolutionUnit::Dpcm)
        } else if eq_ignore_ascii_case(s, "dppx") {
            Some(ResolutionUnit::Dppx)
        } else {
            None
        }
    }
}

/// The `<resolution>` that a list of component values is.
pub open spec fn spec_resolution(cvs: Seq<ComponentValue>) -> Option<Resolution> {
    match sole_value(cvs) {
        Some(ComponentValue::PreservedToken(Token::Dimension(n, unit))) => match spec_resolution_unit(unit@) {
            Some(u) => Some(Resolution { value: n.value, unit: u }),
            None => None,
        },
        _ => None,
    }
}

/// Every `<resolution>` is written as a dimension with a resolution unit,
/// whose number and unit it keeps; no number token, 0 included, is one.
pub proof fn lemma_resolution_is_a_dimension(cvs: Seq<ComponentValue>)
    ensures
        spec_resolution(cvs) matches Some(r) ==> (sole_value(cvs) matches Some(
            ComponentValue::PreservedToken(Token::Dimension(n, unit)),
        ) && n.value == r.value && spec_resolution_unit(unit@) == Some(r.unit)),
        (sole_value(cvs) matches Some(ComponentValue::PreservedToken(Token::Number(_)))) ==> spec_resolution(cvs) is None,
{
}

/// The message with which a list that is not a `<resolution>` is refused.
pub open spec fn resolution_error(cvs: Seq<ComponentValue>) -> Seq<char> {
    match sole_value(cvs) {
        None => count_message(cvs),
        Some(ComponentValue::PreservedToken(Token::Dimension(_, unit))) => "unknown resolution unit: "@ + unit@,
        Some(_) => "expected a dimension token for resolution"@,
    }
}

impl Resolution {
    /// Parses a `<resolution>` from CSS text.
    pub fn parse(input: &str) -> (r: Result<Resolution, ParseError>)
        ensures
            r is Ok <==> spec_resolution(spec_component_values(input@)) is Some,
            r matches Ok(x) ==> spec_resolution(spec_component_values(input@)) == Some(x),
            r matches Err(e) ==> e.message@ == resolution_error(spec_component_values(input@)),
    {
        let cvs = parse_list_of_component_values(input);
        Resolution::from_cvs(cvs.as_slice())
    }

    /// Parses a `<resolution>` from component values.
    pub fn from_cvs(cvs: &[ComponentValue]) -> (r: Result<Resolution, ParseError>)
        ensures
            r is Ok <==> spec_resolution(cvs@) is Some,
            r matches Ok(x) ==> spec_resolution(cvs@) == Some(x),
            r matches Err(e) ==> e.message@ == resolution_error(cvs@),
    {
        let cv = match single_non_ws_cv(cvs) {
            Ok(cv) => cv,
            Err(e) => return Err(e),
        };
        match cv {
            ComponentValue::PreservedToken(Token::Dimension(numeric, unit)) => {
                match ResolutionUnit::parse_unit(unit.as_str()) {
                    Some(u) => Ok(Resolution { value: numeric.value, unit: u }),
                    None => Err(error_with("unknown resolution unit: ", unit.as_str())),
                }
            },
            _ => Err(error("expected a dimension token for resolution")),
        }
    }
}

// ── §4.7 Ratio ──────────────────────────────────────────────────────

/// A CSS `<ratio>` (§4.7): `<number [0,∞]> [ / <number [0,∞]> ]?`; a single
/// number has height 1.
#[derive(Debug, Clone, Copy, PartialEq)]
pub struct Ratio {
    pub width: Binary64,
    pub height: Binary64,
}

/// The value of a number token.
pub open spec fn number_value(cv: ComponentValue) -> Option<Binary64> {
    match cv {
        ComponentValue::PreservedToken(Token::Number(n)) => Some(n.value),
        _ => None,
    }
}

/// A `/` delimiter token.
pub open spec fn is_slash(cv: ComponentValue) -> bool {
    cv matches ComponentValue::PreservedToken(Token::Delim('/'))
}

/// A number token whose value is not less than 0.
pub open spec fn is_ratio_term(cv: ComponentValue) -> bool {
    number_value(cv) is Some && !is_negative(number_value(cv)->0)
}

/// The `<ratio>` that a list of component values is: whitespace aside, either
/// one non-negative number, or two separated by a `/` delimiter.
pub open spec fn spec_ratio(cvs: Seq<ComponentValue>) -> Option<Ratio> {
    let f = non_ws(cvs);
    if f.len() == 1 && is_ratio_term(f[0]) {
        Some(Ratio { width: number_value(f[0])->0, height: spec_one() })
    } else if f.len() == 3 && is_ratio_term(f[0]) && is_slash(f[1]) && is_ratio_term(f[2]) {
        Some(Ratio { width: number_value(f[0])->0, height: number_value(f[2])->0 })
    } else {
        None
    }
}

/// `a / b` is the ratio of width `a` to height `b`, in that order, and a
/// single number `a` is `a / 1`, for any numbers `a` and `b` that are not
/// negative.
pub proof fn lemma_ratio_width_then_height(cvs: Seq<ComponentValue>, a: Numeric, b: Numeric)
    requires
        !is_negative(a.value),
        !is_negative(b.value),
    ensures
        non_ws(cvs) == seq![
            ComponentValue::PreservedToken(Token::Number(a)),
            ComponentValue::PreservedToken(Token::Delim('/')),
            ComponentValue::PreservedToken(Token::Number(b)),
        ] ==> spec_ratio(cvs) == Some(Ratio { width: a.value, height: b.value }),
        non_ws(cvs) == seq![ComponentValue::PreservedToken(Token::Number(a))] ==> spec_ratio(cvs) == Some(
            Ratio { width: a.value, height: spec_one() },
        ),
{
}

/// The message with which a list that is not a `<ratio>` is refused, by the
/// first check that fails.
pub open spec fn ratio_error(cvs: Seq<ComponentValue>) -> Seq<char> {
    let f = non_ws(cvs);
    if f.len() == 0 {
        "ratio requires at least one number"@
    } else if number_value(f[0]) is None {
        "ratio first value must be a number"@
    } else if is_negative(number_value(f[0])->0) {
        "ratio values must be non-negative"@
    } else if f.len() != 3 {
        "ratio with second value must be 'number / number'"@
    } else if !is_slash(f[1]) {
        "expected '/' between ratio numbers"@
    } else if number_value(f[2]) is None {
        "ratio second value must be a number"@
    } else {
        "ratio values must be non-negative"@
    }
}

/// The positions of the component values that are not whitespace tokens.
fn non_ws_indices(cvs: &[ComponentValue]) -> (idx: Vec<usize>)
    ensures
        idx@.len() == non_ws(cvs@).len(),
        forall|k: int| 0 <= k < idx@.len() ==> #[trigger] idx@[k] < cvs@.len() && cvs@[idx@[k] as int] == non_ws(cvs@)[k],
{
    let n = cvs.len();
    let mut idx: Vec<usize> = Vec::new();
    let mut i: usize = 0;
    while i < n
        invariant
            n == cvs@.len(),
            i <= n,
            idx@.len() == non_ws(cvs@.take(i as int)).len(),
            forall|k: int| 0 <= k < idx@.len() ==> #[trigger] idx@[k] < i && cvs@[idx@[k] as int] == non_ws(cvs@.take(i as int))[k],
        decreases n - i,
    {
        assert(cvs@.take(i + 1).drop_last() =~= cvs@.take(i as int));
        if !is_whitespace_token(&cvs[i]) {
            idx.push(i);
        }
        i += 1;
    }
    assert(cvs@.take(n as int) =~= cvs@);
    idx
}

impl Ratio {
    /// Parses a `<ratio>` from CSS text.
    pub fn parse(input: &str) -> (r: Result<Ratio, ParseError>)
        ensures
            r is Ok <==> spec_ratio(spec_component_values(input@)) is Some,
            r matches Ok(x) ==> spec_ratio(spec_component_values(input@)) == Some(x),
            r matches Err(e) ==> e.message@ == ratio_error(spec_component_values(input@)),
    {
        let cvs = parse_list_of_component_values(input);
        Ratio::from_cvs(cvs.as_slice())
    }

    /// Parses a `<ratio>` from component values.
    pub fn from_cvs(cvs: &[ComponentValue]) -> (r: Result<Ratio, ParseError>)
        ensures
            r is Ok <==> spec_ratio(cvs@) is Some,
            r matches Ok(x) ==> spec_ratio(cvs@) == Some(x),
            r matches Err(e) ==> e.message@ == ratio_error(cvs@),
    {
        let filtered = non_ws_indices(cvs);
        if filtered.len() == 0 {
            return Err(error("ratio requires at least one number"));
        }
        let width = match &cvs[filtered[0]] {
            ComponentValue::PreservedToken(Token::Number(numeric)) => numeric.value,
            _ => return Err(error("ratio first value must be a number")),
        };
        if width.is_negative() {
            return Err(error("ratio values must be non-negative"));
        }
        if filtered.len() == 1 {
            return Ok(Ratio { width, height: Binary64::one() });
        }
        if filtered.len() != 3 {
            return Err(error("ratio with second value must be 'number / number'"));
        }
        if !matches!(cvs[filtered[1]], ComponentValue::PreservedToken(Token::Delim('/'))) {
            return Err(error("expected '/' between ratio numbers"));
        }
        let height = match &cvs[filtered[2]] {
            ComponentValue::PreservedToken(Token::Number(numeric)) => numeric.value,
            _ => return Err(error("ratio second value must be a number")),
        };
        if height.is_negative() {
            return Err(error("ratio values must be non-negative"));
        }
        Ok(Ratio { width, height })
    }
}


/// Every length unit reads back from its CSS spelling.
pub proof fn lemma_length_unit_round_trip(u: LengthUnit)
    ensures
        spec_length_unit(length_unit_text(u)) == Some(u),
{
    reveal_strlit("em");
    reveal_strlit("rem");
    reveal_strlit("ex");
    reveal_strlit("ch");
    reveal_strlit("vw");
    reveal_strlit("vh");
    reveal_strlit("vmin");
    reveal_strlit("vmax");
    reveal_strlit("px");
    reveal_strlit("cm");
    reveal_strlit("mm");
    reveal_strlit("in");
    reveal_strlit("pt");
    reveal_strlit("pc");
    reveal_strlit("q");
    reveal_strlit("Q");
    let t = length_unit_text(u);
    lemma_eq_ic_equivalence(t, t, t);
    lemma_eq_ic_prefix(t, "em"@);
    lemma_eq_ic_prefix(t, "rem"@);
    lemma_eq_ic_prefix(t, "ex"@);
    lemma_eq_ic_prefix(t, "ch"@);
    lemma_eq_ic_prefix(t, "vw"@);
    lemma_eq_ic_prefix(t, "vh"@);
    lemma_eq_ic_prefix(t, "vmin"@);
    lemma_eq_ic_prefix(t, "vmax"@);
    lemma_eq_ic_prefix(t, "px"@);
    lemma_eq_ic_prefix(t, "cm"@);
    lemma_eq_ic_prefix(t, "mm"@);
    lemma_eq_ic_prefix(t, "in"@);
    lemma_eq_ic_prefix(t, "pt"@);
    lemma_eq_ic_prefix(t, "pc"@);
    lemma_eq_ic_prefix(t, "q"@);
}

/// Unit names are read without regard to ASCII case: two names that differ
/// only in case name the same unit, or none.
pub proof fn lemma_units_ignore_case(a: Seq<char>, b: Seq<char>)
    requires
        eq_ic(a, b),
    ensures
        spec_length_unit(a) == spec_length_unit(b),
        spec_angle_unit(a) == spec_angle_unit(b),
        spec_time_unit(a) == spec_time_unit(b),
        spec_frequency_unit(a) == spec_frequency_unit(b),
        spec_resolution_unit(a) == spec_resolution_unit(b),
{
    lemma_eq_ic_same(a, b, "em"@);
    lemma_eq_ic_same(a, b, "rem"@);
    lemma_eq_ic_same(a, b, "ex"@);
    lemma_eq_ic_same(a, b, "ch"@);
    lemma_eq_ic_same(a, b, "vw"@);
    lemma_eq_ic_same(a, b, "vh"@);
    lemma_eq_ic_same(a, b, "vmin"@);
    lemma_eq_ic_same(a, b, "vmax"@);
    lemma_eq_ic_same(a, b, "px"@);
    lemma_eq_ic_same(a, b, "cm"@);
    lemma_eq_ic_same(a, b, "mm"@);
    lemma_eq_ic_same(a, b, "in"@);
    lemma_eq_ic_same(a, b, "pt"@);
    lemma_eq_ic_same(a, b, "pc"@);
    lemma_eq_ic_same(a, b, "q"@);
    lemma_eq_ic_same(a, b, "deg"@);
    lemma_eq_ic_same(a, b, "grad"@);
    lemma_eq_ic_same(a, b, "rad"@);
    lemma_eq_ic_same(a, b, "turn"@);
    lemma_eq_ic_same(a, b, "s"@);
    lemma_eq_ic_same(a, b, "ms"@);
    lemma_eq_ic_same(a, b, "hz"@);
    lemma_eq_ic_same(a, b, "khz"@);
    lemma_eq_ic_same(a, b, "dpi"@);
    lemma_eq_ic_same(a, b, "dpcm"@);
    lemma_eq_ic_same(a, b, "dppx"@);
}

/// A length unit is read only from its own name, in any ASCII case.
pub proof fn lemma_length_unit_names(s: Seq<char>)
    ensures
        spec_length_unit(s) == Some(LengthUnit::Em) ==> eq_ic(s, "em"@),
        spec_length_unit(s) == Some(LengthUnit::Rem) ==> eq_ic(s, "rem"@),
        spec_length_unit(s) == Some(LengthUnit::Ex) ==> eq_ic(s, "ex"@),
        spec_length_unit(s) == Some(LengthUnit::Ch) ==> eq_ic(s, "ch"@),
        spec_length_unit(s) == Some(LengthUnit::Vw) ==> eq_ic(s, "vw"@),
        spec_length_unit(s) == Some(LengthUnit::Vh) ==> eq_ic(s, "vh"@),
        spec_length_unit(s) == Some(LengthUnit::Vmin) ==> eq_ic(s, "vmin"@),
        spec_length_unit(s) == Some(LengthUnit::Vmax) ==> eq_ic(s, "vmax"@),
        spec_length_unit(s) == Some(LengthUnit::Px) ==> eq_ic(s, "px"@),
        spec_length_unit(s) == Some(LengthUnit::Cm) ==> eq_ic(s, "cm"@),
        spec_length_unit(s) == Some(LengthUnit::Mm) ==> eq_ic(s, "mm"@),
        spec_length_unit(s) == Some(LengthUnit::In) ==> eq_ic(s, "in"@),
        spec_length_unit(s) == Some(LengthUnit::Pt) ==> eq_ic(s, "pt"@),
        spec_length_unit(s) == Some(LengthUnit::Pc) ==> eq_ic(s, "pc"@),
        spec_length_unit(s) == Some(LengthUnit::Q) ==> eq_ic(s, "q"@),
{
}

/// A angle unit is read only from its own name, in any ASCII case.
pub proof fn lemma_angle_unit_names(s: Seq<char>)
    ensures
        spec_angle_unit(s) == Some(AngleUnit::Deg) ==> eq_ic(s, "deg"@),
        spec_angle_unit(s) == Some(AngleUnit::Grad) ==> eq_ic(s, "grad"@),
        spec_angle_unit(s) == Some(AngleUnit::Rad) ==> eq_ic(s, "rad"@),
        spec_angle_unit(s) == Some(AngleUnit::Turn) ==> eq_ic(s, "turn"@),
{
}

/// A time unit is read only from its own name, in any ASCII case.
pub proof fn lemma_time_unit_names(s: Seq<char>)
    ensures
        spec_time_unit(s) == Some(TimeUnit::S) ==> eq_ic(s, "s"@),
        spec_time_unit(s) == Some(TimeUnit::Ms) ==> eq_ic(s, "ms"@),
{
}

/// A frequency unit is read only from its own name, in any ASCII case.
pub proof fn lemma_frequency_unit_names(s: Seq<char>)
    ensures
        spec_frequency_unit(s) == Some(FrequencyUnit::Hz) ==> eq_ic(s, "hz"@),
        spec_frequency_unit(s) == Some(FrequencyUnit::KHz) ==> eq_ic(s, "khz"@),
{
}

/// A resolution unit is read only from its own name, in any ASCII case.
pub proof fn lemma_resolution_unit_names(s: Seq<char>)
    ensures
        spec_resolution_unit(s) == Some(ResolutionUnit::Dpi) ==> eq_ic(s, "dpi"@),
        spec_resolution_unit(s) == Some(ResolutionUnit::Dpcm) ==> eq_ic(s, "dpcm"@),
        spec_resolution_unit(s) == Some(ResolutionUnit::Dppx) ==> eq_ic(s, "dppx"@),
{
}

} // verus!
