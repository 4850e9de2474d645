//! Typed values by kind — the grammar that CSS Syntax §5.4.1 "parse
//! something according to a CSS grammar" applies to a list of component values.

use crate::math::{math_function_error, math_model, parse_math_function_from_cvs, spec_math_function, MathExpression, MathModel};
use crate::numeric::{
    angle_error, frequency_error, integer_error, length_error, number_error, percentage_error, ratio_error,
    resolution_error, time_error, spec_angle, spec_frequency, spec_integer, spec_length, spec_number, spec_percentage, spec_ratio,
    spec_resolution, spec_time, Angle, Frequency, Integer, Length, Number, ParseError, Percentage, Ratio,
    Resolution, Time,
};
use crate::calc_grammar::{all_ws, lemma_all_ws, lemma_non_ws_concat};
use crate::numeric::sole_value;
use crate::syntax::{models, non_ws, ComponentValue, CvModel, Token};
use crate::text::eq_ic;
use crate::var::lemma_first_var_whitespace;
use crate::textual::{
    css_string_error, custom_ident_error, dashed_ident_error, keyword_error, url_error, spec_css_string, spec_custom_ident, spec_dashed_ident, spec_keyword, spec_url, CssString, CustomIdent,
    DashedIdent, Keyword, Url,
};
use crate::var::{spec_var, var_error, VarReference};
use muskitty_css::parser::ParseError as SyntaxParseError;
use vstd::prelude::*;

verus! {

/// The CSS Values grammar for one kind of value.
pub struct ValuesGrammar {
    pub kind: ValueKind,
}

/// The kind of CSS value to parse.
#[derive(Debug, Clone, Copy, PartialEq, Eq, Structural)]
pub enum ValueKind {
    Length,
    Percentage,
    Number,
    Integer,
    Angle,
    Time,
    Frequency,
    Resolution,
    Ratio,
    Keyword,
    CustomIdent,
    DashedIdent,
    String,
    Url,
    /// A `calc()`, `min()`, `max()` or `clamp()` math expression.
    Calc,
    /// A `var()` reference.
    Var,
}

/// A parsed typed CSS value.
#[derive(Debug)]
pub enum CssValue {
    Length(Length),
    Percentage(Percentage),
    Number(Number),
    Integer(Integer),
    Angle(Angle),
    Time(Time),
    Frequency(Frequency),
    Resolution(Resolution),
    Ratio(Ratio),
    Keyword(Keyword),
    CustomIdent(CustomIdent),
    DashedIdent(DashedIdent),
    String(CssString),
    Url(Url),
    Calc(MathExpression),
    Var(VarReference),
}

impl Clone for CssValue {
    /// A deep copy.
    fn clone(&self) -> (r: Self)
        ensures
            value_model(r) == value_model(*self),
    {
        match self {
            CssValue::Length(x) => CssValue::Length(*x),
            CssValue::Percentage(x) => CssValue::Percentage(*x),
            CssValue::Number(x) => CssValue::Number(*x),
            CssValue::Integer(x) => CssValue::Integer(*x),
            CssValue::Angle(x) => CssValue::Angle(*x),
            CssValue::Time(x) => CssValue::Time(*x),
            CssValue::Frequency(x) => CssValue::Frequency(*x),
            CssValue::Resolution(x) => CssValue::Resolution(*x),
            CssValue::Ratio(x) => CssValue::Ratio(*x),
            CssValue::Keyword(x) => CssValue::Keyword(Keyword { value: x.value.clone() }),
            CssValue::CustomIdent(x) => CssValue::CustomIdent(CustomIdent { value: x.value.clone() }),
            CssValue::DashedIdent(x) => CssValue::DashedIdent(DashedIdent { value: x.value.clone() }),
            CssValue::String(x) => CssValue::String(CssString { value: x.value.clone() }),
            CssValue::Url(x) => CssValue::Url(Url { value: x.value.clone() }),
            CssValue::Calc(e) => CssValue::Calc(e.clone()),
            CssValue::Var(v) => CssValue::Var(v.clone()),
        }
    }
}

/// A typed value with its text and lists taken by their contents.
pub enum ValueModel {
    Length(Length),
    Percentage(Percentage),
    Number(Number),
    Integer(Integer),
    Angle(Angle),
    Time(Time),
    Frequency(Frequency),
    Resolution(Resolution),
    Ratio(Ratio),
    Keyword(Seq<char>),
    CustomIdent(Seq<char>),
    DashedIdent(Seq<char>),
    String(Seq<char>),
    Url(Seq<char>),
    Calc(MathModel),
    /// The name and the fallback of a `var()` reference.
    Var(Seq<char>, Option<Seq<CvModel>>),
}

/// The model of a typed value.
pub open spec fn value_model(v: CssValue) -> ValueModel {
    match v {
        CssValue::Length(x) => ValueModel::Length(x),
        CssValue::Percentage(x) => ValueModel::Percentage(x),
        CssValue::Number(x) => ValueModel::Number(x),
        CssValue::Integer(x) => ValueModel::Integer(x),
        CssValue::Angle(x) => ValueModel::Angle(x),
        CssValue::Time(x) => ValueModel::Time(x),
        CssValue::Frequency(x) => ValueModel::Frequency(x),
        CssValue::Resolution(x) => ValueModel::Resolution(x),
        CssValue::Ratio(x) => ValueModel::Ratio(x),
        CssValue::Keyword(x) => ValueModel::Keyword(x.value@),
        CssValue::CustomIdent(x) => ValueModel::CustomIdent(x.value@),
        CssValue::DashedIdent(x) => ValueModel::DashedIdent(x.value@),
        CssValue::String(x) => ValueModel::String(x.value@),
        CssValue::Url(x) => ValueModel::Url(x.value@),
        CssValue::Calc(e) => ValueModel::Calc(math_model(e)),
        CssValue::Var(v) => ValueModel::Var(
            v.name@,
            match v.fallback {
                Some(fb) => Some(models(fb@)),
                None => None,
            },
        ),
    }
}

/// The value of the given kind that a list of component values is.
pub open spec fn spec_value(kind: ValueKind, cvs: Seq<ComponentValue>) -> Option<ValueModel> {
    match kind {
        ValueKind::Length => match spec_length(cvs) {
            Some(x) => Some(ValueModel::Length(x)),
            None => None,
        },
        ValueKind::Percentage => match spec_percentage(cvs) {
            Some(x) => Some(ValueModel::Percentage(x)),
            None => None,
        },
        ValueKind::Number => match spec_number(cvs) {
            Some(x) => Some(ValueModel::Number(x)),
            None => None,
        },
        ValueKind::Integer => match spec_integer(cvs) {
            Some(x) => Some(ValueModel::Integer(x)),
            None => None,
        },
        ValueKind::Angle => match spec_angle(cvs) {
            Some(x) => Some(ValueModel::Angle(x)),
            None => None,
        },
        ValueKind::Time => match spec_time(cvs) {
            Some(x) => Some(ValueModel::Time(x)),
            None => None,
        },
        ValueKind::Frequency => match spec_frequency(cvs) {
            Some(x) => Some(ValueModel::Frequency(x)),
            None => None,
        },
        ValueKind::Resolution => match spec_resolution(cvs) {
            Some(x) => Some(ValueModel::Resolution(x)),
            None => None,
        },
        ValueKind::Ratio => match spec_ratio(cvs) {
            Some(x) => Some(ValueModel::Ratio(x)),
            None => None,
        },
        ValueKind::Keyword => match spec_keyword(cvs) {
            Some(x) => Some(ValueModel::Keyword(x)),
            None => None,
        },
        ValueKind::CustomIdent => match spec_custom_ident(cvs) {
            Some(x) => Some(ValueModel::CustomIdent(x)),
            None => None,
        },
        ValueKind::DashedIdent => match spec_dashed_ident(cvs) {
            Some(x) => Some(ValueModel::DashedIdent(x)),
            None => None,
        },
        ValueKind::String => match spec_css_string(cvs) {
            Some(x) => Some(ValueModel::String(x)),
            None => None,
        },
        ValueKind::Url => match spec_url(cvs) {
            Some(x) => Some(ValueModel::Url(x)),
            None => None,
        },
        ValueKind::Calc => match spec_math_function(cvs) {
            Some(x) => Some(ValueModel::Calc(x)),
            None => None,
        },
        ValueKind::Var => match spec_var(cvs) {
            Some((name, fallback)) => Some(
                ValueModel::Var(
                    name,
                    match fallback {
                        Some(fb) => Some(models(fb)),
                        None => None,
                    },
                ),
            ),
            None => None,
        },
    }
}

/// The message with which a list that is not a value of the given kind is refused.
pub open spec fn value_error(kind: ValueKind, cvs: Seq<ComponentValue>) -> Seq<char> {
    match kind {
        ValueKind::Length => length_error(cvs),
        ValueKind::Percentage => percentage_error(cvs),
        ValueKind::Number => number_error(cvs),
        ValueKind::Integer => integer_error(cvs),
        ValueKind::Angle => angle_error(cvs),
        ValueKind::Time => time_error(cvs),
        ValueKind::Frequency => frequency_error(cvs),
        ValueKind::Resolution => resolution_error(cvs),
        ValueKind::Ratio => ratio_error(cvs),
        ValueKind::Keyword => keyword_error(cvs),
        ValueKind::CustomIdent => custom_ident_error(cvs),
        ValueKind::DashedIdent => dashed_ident_error(cvs),
        ValueKind::String => css_string_error(cvs),
        ValueKind::Url => url_error(cvs),
        ValueKind::Calc => math_function_error(cvs),
        ValueKind::Var => var_error(cvs),
    }
}

impl ValuesGrammar {
    /// Matches the component values against the grammar of `self.kind`.
    pub fn parse(&self, input: &[ComponentValue]) -> (r: Result<CssValue, ParseError>)
        ensures
            r is Ok <==> spec_value(self.kind, input@) is Some,
            r matches Ok(v) ==> spec_value(self.kind, input@) == Some(value_model(v)),
            r matches Err(e) ==> e.message@ == value_error(self.kind, input@),
    {
        match self.kind {
            ValueKind::Length => match Length::from_cvs(input) {
                Ok(x) => Ok(CssValue::Length(x)),
                Err(e) => Err(e),
            },
            ValueKind::Percentage => match Percentage::from_cvs(input) {
                Ok(x) => Ok(CssValue::Percentage(x)),
                Err(e) => Err(e),
            },
            ValueKind::Number => match Number::from_cvs(input) {
                Ok(x) => Ok(CssValue::Number(x)),
                Err(e) => Err(e),
            },
            ValueKind::Integer => match Integer::from_cvs(input) {
                Ok(x) => Ok(CssValue::Integer(x)),
                Err(e) => Err(e),
            },
            ValueKind::Angle => match Angle::from_cvs(input) {
                Ok(x) => Ok(CssValue::Angle(x)),
                Err(e) => Err(e),
            },
            ValueKind::Time => match Time::from_cvs(input) {
                Ok(x) => Ok(CssValue::Time(x)),
                Err(e) => Err(e),
            },
            ValueKind::Frequency => match Frequency::from_cvs(input) {
                Ok(x) => Ok(CssValue::Frequency(x)),
                Err(e) => Err(e),
            },
            ValueKind::Resolution => match Resolution::from_cvs(input) {
                Ok(x) => Ok(CssValue::Resolution(x)),
                Err(e) => Err(e),
            },
            ValueKind::Ratio => match Ratio::from_cvs(input) {
                Ok(x) => Ok(CssValue::Ratio(x)),
                Err(e) => Err(e),
            },
            ValueKind::Keyword => match Keyword::from_cvs(input) {
                Ok(x) => Ok(CssValue::Keyword(x)),
                Err(e) => Err(e),
            },
            ValueKind::CustomIdent => match CustomIdent::from_cvs(input) {
                Ok(x) => Ok(CssValue::CustomIdent(x)),
                Err(e) => Err(e),
            },
            ValueKind::DashedIdent => match DashedIdent::from_cvs(input) {
                Ok(x) => Ok(CssValue::DashedIdent(x)),
                Err(e) => Err(e),
            },
            ValueKind::String => match CssString::from_cvs(input) {
                Ok(x) => Ok(CssValue::String(x)),
                Err(e) => Err(e),
            },
            ValueKind::Url => match Url::from_cvs(input) {
                Ok(x) => Ok(CssValue::Url(x)),
                Err(e) => Err(e),
            },
            ValueKind::Calc => match parse_math_function_from_cvs(input) {
                Ok(x) => Ok(CssValue::Calc(x)),
                Err(e) => Err(e),
            },
            ValueKind::Var => match VarReference::from_cvs(input) {
                Ok(x) => Ok(CssValue::Var(x)),
                Err(e) => Err(e),
            },
        }
    }
}


/// The error type of the `muskitty-css` parser, carried through unread.
#[verifier::external_type_specification]
#[verifier::external_body]
pub struct ExSyntaxParseError(SyntaxParseError);

/// The error that `muskitty_css::parser::ParseError::new` builds from a
/// message: a generic syntax error that carries it.
pub uninterp spec fn syntax_error(message: Seq<char>) -> SyntaxParseError;

/// Converts an error of this crate into the error type of the `muskitty-css`
/// grammar entry points by calling `muskitty_css::parser::ParseError::new`
/// with the message; the contract claims that the result is that of the call
/// on this message, nothing of what it holds.
#[verifier::external_body]
pub(crate) fn convert_error(e: ParseError) -> (r: SyntaxParseError)
    ensures
        r == syntax_error(e.message@),
{
    SyntaxParseError::new(e.message)
}


/// The grammar of each kind reads a list as that kind's own parser does,
/// with the same value and the same error: `Length::from_cvs` for lengths,
/// and so on, `parse_math_function_from_cvs` for `Calc` and
/// `VarReference::from_cvs` for `Var`.
pub proof fn lemma_grammar_agrees_with_parsers(cvs: Seq<ComponentValue>)
    ensures
        spec_value(ValueKind::Length, cvs) == match spec_length(cvs) {
            Some(x) => Some(ValueModel::Length(x)),
            None => None,
        },
        value_error(ValueKind::Length, cvs) == length_error(cvs),
        spec_value(ValueKind::Percentage, cvs) == match spec_percentage(cvs) {
            Some(x) => Some(ValueModel::Percentage(x)),
            None => None,
        },
        value_error(ValueKind::Percentage, cvs) == percentage_error(cvs),
        spec_value(ValueKind::Number, cvs) == match spec_number(cvs) {
            Some(x) => Some(ValueModel::Number(x)),
            None => None,
        },
        value_error(ValueKind::Number, cvs) == number_error(cvs),
        spec_value(ValueKind::Integer, cvs) == match spec_integer(cvs) {
            Some(x) => Some(ValueModel::Integer(x)),
            None => None,
        },
        value_error(ValueKind::Integer, cvs) == integer_error(cvs),
        spec_value(ValueKind::Angle, cvs) == match spec_angle(cvs) {
            Some(x) => Some(ValueModel::Angle(x)),
            None => None,
        },
        value_error(ValueKind::Angle, cvs) == angle_error(cvs),
        spec_value(ValueKind::Time, cvs) == match spec_time(cvs) {
            Some(x) => Some(ValueModel::Time(x)),
            None => None,
        },
        value_error(ValueKind::Time, cvs) == time_error(cvs),
        spec_value(ValueKind::Frequency, cvs) == match spec_frequency(cvs) {
            Some(x) => Some(ValueModel::Frequency(x)),
            None => None,
        },
        value_error(ValueKind::Frequency, cvs) == frequency_error(cvs),
        spec_value(ValueKind::Resolution, cvs) == match spec_resolution(cvs) {
            Some(x) => Some(ValueModel::Resolution(x)),
            None => None,
        },
        value_error(ValueKind::Resolution, cvs) == resolution_error(cvs),
        spec_value(ValueKind::Ratio, cvs) == match spec_ratio(cvs) {
            Some(x) => Some(ValueModel::Ratio(x)),
            None => None,
        },
        value_error(ValueKind::Ratio, cvs) == ratio_error(cvs),
        spec_value(ValueKind::Keyword, cvs) == match spec_keyword(cvs) {
            Some(x) => Some(ValueModel::Keyword(x)),
            None => None,
        },
        value_error(ValueKind::Keyword, cvs) == keyword_error(cvs),
        spec_value(ValueKind::CustomIdent, cvs) == match spec_custom_ident(cvs) {
            Some(x) => Some(ValueModel::CustomIdent(x)),
            None => None,
        },
        value_error(ValueKind::CustomIdent, cvs) == custom_ident_error(cvs),
        spec_value(ValueKind::DashedIdent, cvs) == match spec_dashed_ident(cvs) {
            Some(x) => Some(ValueModel::DashedIdent(x)),
            None => None,
        },
        value_error(ValueKind::DashedIdent, cvs) == dashed_ident_error(cvs),
        spec_value(ValueKind::String, cvs) == match spec_css_string(cvs) {
            Some(x) => Some(ValueModel::String(x)),
            None => None,
        },
        value_error(ValueKind::String, cvs) == css_string_error(cvs),
        spec_value(ValueKind::Url, cvs) == match spec_url(cvs) {
            Some(x) => Some(ValueModel::Url(x)),
            None => None,
        },
        value_error(ValueKind::Url, cvs) == url_error(cvs),
        spec_value(ValueKind::Calc, cvs) == match spec_math_function(cvs) {
            Some(x) => Some(ValueModel::Calc(x)),
            None => None,
        },
        value_error(ValueKind::Calc, cvs) == math_function_error(cvs),
        spec_value(ValueKind::Var, cvs) == match spec_var(cvs) {
            Some((name, fallback)) => Some(
                ValueModel::Var(
                    name,
                    match fallback {
                        Some(fb) => Some(models(fb)),
                        None => None,
                    },
                ),
            ),
            None => None,
        },
        value_error(ValueKind::Var, cvs) == var_error(cvs),
{
}

/// The grammar of the `CustomIdent` kind reads an identifier alone but for
/// whitespace, kept as written, and refuses the CSS-wide keywords, `default`
/// and `none` in any ASCII case (§3.2): it accepts exactly what
/// [`CustomIdent::from_cvs`] accepts.
pub proof fn lemma_custom_ident_kind(cvs: Seq<ComponentValue>)
    ensures
        spec_value(ValueKind::CustomIdent, cvs) matches Some(v) ==> {
            &&& v matches ValueModel::CustomIdent(s)
            &&& sole_value(cvs) matches Some(ComponentValue::PreservedToken(Token::Ident(t)))
            &&& t@ == s
            &&& !eq_ic(s, "initial"@) && !eq_ic(s, "inherit"@) && !eq_ic(s, "unset"@)
            &&& !eq_ic(s, "default"@) && !eq_ic(s, "none"@)
        },
        sole_value(cvs) matches Some(ComponentValue::PreservedToken(Token::Ident(t))) ==> ((!eq_ic(
            t@,
            "initial"@,
        ) && !eq_ic(t@, "inherit"@) && !eq_ic(t@, "unset"@) && !eq_ic(t@, "default"@) && !eq_ic(t@, "none"@))
            ==> spec_value(ValueKind::CustomIdent, cvs) == Some(ValueModel::CustomIdent(t@))),
        spec_value(ValueKind::CustomIdent, cvs) == match spec_custom_ident(cvs) {
            Some(x) => Some(ValueModel::CustomIdent(x)),
            None => None,
        },
{
}

/// Whitespace before and after a value does not change it, whatever its kind.
pub proof fn lemma_whitespace_around_value(
    kind: ValueKind,
    before: Seq<ComponentValue>,
    cvs: Seq<ComponentValue>,
    after: Seq<ComponentValue>,
)
    requires
        all_ws(before),
        all_ws(after),
    ensures
        spec_value(kind, before + cvs + after) == spec_value(kind, cvs),
{
    lemma_all_ws(before);
    lemma_all_ws(after);
    lemma_non_ws_concat(before + cvs, after);
    lemma_non_ws_concat(before, cvs);
    assert(non_ws(before + cvs + after) =~= non_ws(cvs));
    lemma_first_var_whitespace(before, cvs + after);
    lemma_first_var_whitespace(after, cvs);
    assert(before + cvs + after =~= before + (cvs + after));
}

} // verus!
