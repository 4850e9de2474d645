//! Textual types — CSS Values Level 4 §3: keywords, `<custom-ident>`,
//! `<dashed-ident>`, `<string>` and `<url>`.

use crate::numeric::{count_message, error, error_with, single_non_ws_cv, sole_value, ParseError};
use crate::syntax::{parse_list_of_component_values, spec_component_values, ComponentValue, Function, Token};
use crate::text::{eq_ic, eq_ignore_ascii_case, has_dashed_prefix, is_dashed_name, lemma_eq_ic_prefix};
use vstd::prelude::*;

verus! {

/// The text of an ident token.
pub open spec fn ident_text(cv: ComponentValue) -> Option<Seq<char>> {
    match cv {
        ComponentValue::PreservedToken(Token::Ident(s)) => Some(s@),
        _ => None,
    }
}

// ── §3.1 Pre-defined Keywords ──────────────────────────────────────

/// A CSS keyword (§3.1): an identifier, kept with its case as written.
#[derive(Debug, Clone, PartialEq, Eq)]
pub struct Keyword {
    pub value: String,
}

/// The text of the keyword that a list of component values is.
pub open spec fn spec_keyword(cvs: Seq<ComponentValue>) -> Option<Seq<char>> {
    match sole_value(cvs) {
        Some(cv) => ident_text(cv),
        None => None,
    }
}

/// The message with which a list that is not a keyword is refused.
pub open spec fn keyword_error(cvs: Seq<ComponentValue>) -> Seq<char> {
    match sole_value(cvs) {
        None => count_message(cvs),
        Some(_) => "expected an ident token for keyword"@,
    }
}

impl Keyword {
    /// Parses a keyword from CSS text.
    pub fn parse(input: &str) -> (r: Result<Keyword, ParseError>)
        ensures
            r is Ok <==> spec_keyword(spec_component_values(input@)) is Some,
            r matches Ok(k) ==> spec_keyword(spec_component_values(input@)) == Some(k.value@),
            r matches Err(e) ==> e.message@ == keyword_error(spec_component_values(input@)),
    {
        let cvs = parse_list_of_component_values(input);
        Keyword::from_cvs(cvs.as_slice())
    }

    /// Parses a keyword from component values.
    pub fn from_cvs(cvs: &[ComponentValue]) -> (r: Result<Keyword, ParseError>)
        ensures
            r is Ok <==> spec_keyword(cvs@) is Some,
            r matches Ok(k) ==> spec_keyword(cvs@) == Some(k.value@),
            r matches Err(e) ==> e.message@ == keyword_error(cvs@),
    {
        let cv = match single_non_ws_cv(cvs) {
            Ok(cv) => cv,
            Err(e) => return Err(e),
        };
        match cv {
            ComponentValue::PreservedToken(Token::Ident(s)) => Ok(Keyword { value: s.clone() }),
            _ => Err(error("expected an ident token for keyword")),
        }
    }
}

// ── §3.2 custom-ident ──────────────────────────────────────────────

/// The CSS-wide keywords, `default` and `none` (§3.2), compared without
/// regard to ASCII case: none of them is a `<custom-ident>`.
pub open spec fn is_reserved_ident(s: Seq<char>) -> bool {
    ||| eq_ic(s, "initial"@)
    ||| eq_ic(s, "inherit"@)
    ||| eq_ic(s, "unset"@)
    ||| eq_ic(s, "default"@)
    ||| eq_ic(s, "none"@)
}

/// Whether `s` is one of the words that a `<custom-ident>` may not be.
pub fn is_reserved_word(s: &str) -> (b: bool)
    ensures
        b == is_reserved_ident(s@),
{
    eq_ignore_ascii_case(s, "initial") || eq_ignore_ascii_case(s, "inherit")
        || eq_ignore_ascii_case(s, "unset") || eq_ignore_ascii_case(s, "default")
        || eq_ignore_ascii_case(s, "none")
}

/// A CSS `<custom-ident>` (§3.2): an author-defined, case-sensitive identifier.
#[derive(Debug, Clone, PartialEq, Eq)]
pub struct CustomIdent {
    pub value: String,
}

/// The text of the `<custom-ident>` that a list of component values is.
pub open spec fn spec_custom_ident(cvs: Seq<ComponentValue>) -> Option<Seq<char>> {
    match spec_keyword(cvs) {
        Some(s) => if is_reserved_ident(s) {
            None
        } else {
            Some(s)
        },
        None => None,
    }
}

/// The message with which a list that is not a `<custom-ident>` is refused.
pub open spec fn custom_ident_error(cvs: Seq<ComponentValue>) -> Seq<char> {
    match sole_value(cvs) {
        None => count_message(cvs),
        Some(ComponentValue::PreservedToken(Token::Ident(s))) => "custom-ident must not be a CSS-wide keyword or 'none': "@
            + s@,
        Some(_) => "expected an ident token for custom-ident"@,
    }
}

impl CustomIdent {
    /// Parses a `<custom-ident>` from CSS text.
    pub fn parse(input: &str) -> (r: Result<CustomIdent, ParseError>)
        ensures
            r is Ok <==> spec_custom_ident(spec_component_values(input@)) is Some,
            r matches Ok(c) ==> spec_custom_ident(spec_component_values(input@)) == Some(c.value@),
            r matches Err(e) ==> e.message@ == custom_ident_error(spec_component_values(input@)),
    {
        let cvs = parse_list_of_component_values(input);
        CustomIdent::from_cvs(cvs.as_slice())
    }

    /// Parses a `<custom-ident>` from component values.
    pub fn from_cvs(cvs: &[ComponentValue]) -> (r: Result<CustomIdent, ParseError>)
        ensures
            r is Ok <==> spec_custom_ident(cvs@) is Some,
            r matches Ok(c) ==> spec_custom_ident(cvs@) == Some(c.value@),
            r matches Err(e) ==> e.message@ == custom_ident_error(cvs@),
    {
        let cv = match single_non_ws_cv(cvs) {
            Ok(cv) => cv,
            Err(e) => return Err(e),
        };
        match cv {
            ComponentValue::PreservedToken(Token::Ident(s)) => {
                if is_reserved_word(s.as_str()) {
                    return Err(
                        error_with("custom-ident must not be a CSS-wide keyword or 'none': ", s.as_str()),
                    );
                }
                Ok(CustomIdent { value: s.clone() })
            },
            _ => Err(error("expected an ident token for custom-ident")),
        }
    }
}

// ── §3.3 dashed-ident ──────────────────────────────────────────────

/// A CSS `<dashed-ident>` (§3.3): an identifier that starts with `--`.
#[derive(Debug, Clone, PartialEq, Eq)]
pub struct DashedIdent {
    pub value: String,
}

/// The text of the `<dashed-ident>` that a list of component values is.
pub open spec fn spec_dashed_ident(cvs: Seq<ComponentValue>) -> Option<Seq<char>> {
    match spec_keyword(cvs) {
        Some(s) => if is_dashed_name(s) {
            Some(s)
        } else {
            None
        },
        None => None,
    }
}

/// The message with which a list that is not a `<dashed-ident>` is refused.
pub open spec fn dashed_ident_error(cvs: Seq<ComponentValue>) -> Seq<char> {
    match sole_value(cvs) {
        None => count_message(cvs),
        Some(ComponentValue::PreservedToken(Token::Ident(s))) => "dashed-ident must start with '--': "@ + s@,
        Some(_) => "expected an ident token for dashed-ident"@,
    }
}

impl DashedIdent {
    /// Parses a `<dashed-ident>` from CSS text.
    pub fn parse(input: &str) -> (r: Result<DashedIdent, ParseError>)
        ensures
            r is Ok <==> spec_dashed_ident(spec_component_values(input@)) is Some,
            r matches Ok(d) ==> spec_dashed_ident(spec_component_values(input@)) == Some(d.value@),
            r matches Err(e) ==> e.message@ == dashed_ident_error(spec_component_values(input@)),
    {
        let cvs = parse_list_of_component_values(input);
        DashedIdent::from_cvs(cvs.as_slice())
    }

    /// Parses a `<dashed-ident>` from component values.
    pub fn from_cvs(cvs: &[ComponentValue]) -> (r: Result<DashedIdent, ParseError>)
        ensures
            r is Ok <==> spec_dashed_ident(cvs@) is Some,
            r matches Ok(d) ==> spec_dashed_ident(cvs@) == Some(d.value@),
            r matches Err(e) ==> e.message@ == dashed_ident_error(cvs@),
    {
        let cv = match single_non_ws_cv(cvs) {
            Ok(cv) => cv,
            Err(e) => return Err(e),
        };
        match cv {
            ComponentValue::PreservedToken(Token::Ident(s)) => {
                if !is_dashed_ident(s.as_str()) {
                    return Err(error_with("dashed-ident must start with '--': ", s.as_str()));
                }
                Ok(DashedIdent { value: s.clone() })
            },
            _ => Err(error("expected an ident token for dashed-ident")),
        }
    }
}

/// Whether `s` has the form of a `<dashed-ident>`: `--` and at least one more character.
pub fn is_dashed_ident(s: &str) -> (b: bool)
    ensures
        b == is_dashed_name(s@),
{
    has_dashed_prefix(s)
}

// ── §3.4 string ────────────────────────────────────────────────────

/// A CSS `<string>` (§3.4): the contents, quotes removed and escapes resolved.
#[derive(Debug, Clone, PartialEq, Eq)]
pub struct CssString {
    pub value: String,
}

/// The contents of a string token.
pub open spec fn string_text(cv: ComponentValue) -> Option<Seq<char>> {
    match cv {
        ComponentValue::PreservedToken(Token::String(s)) => Some(s@),
        _ => None,
    }
}

/// The contents of the `<string>` that a list of component values is.
pub open spec fn spec_css_string(cvs: Seq<ComponentValue>) -> Option<Seq<char>> {
    match sole_value(cvs) {
        Some(cv) => string_text(cv),
        None => None,
    }
}

/// The message with which a list that is not a `<string>` is refused.
pub open spec fn css_string_error(cvs: Seq<ComponentValue>) -> Seq<char> {
    match sole_value(cvs) {
        None => count_message(cvs),
        Some(_) => "expected a string token"@,
    }
}

impl CssString {
    /// Parses a `<string>` from CSS text.
    pub fn parse(input: &str) -> (r: Result<CssString, ParseError>)
        ensures
            r is Ok <==> spec_css_string(spec_component_values(input@)) is Some,
            r matches Ok(s) ==> spec_css_string(spec_component_values(input@)) == Some(s.value@),
            r matches Err(e) ==> e.message@ == css_string_error(spec_component_values(input@)),
    {
        let cvs = parse_list_of_component_values(input);
        CssString::from_cvs(cvs.as_slice())
    }

    /// Parses a `<string>` from component values.
    pub fn from_cvs(cvs: &[ComponentValue]) -> (r: Result<CssString, ParseError>)
        ensures
            r is Ok <==> spec_css_string(cvs@) is Some,
            r matches Ok(s) ==> spec_css_string(cvs@) == Some(s.value@),
            r matches Err(e) ==> e.message@ == css_string_error(cvs@),
    {
        let cv = match single_non_ws_cv(cvs) {
            Ok(cv) => cv,
            Err(e) => return Err(e),
        };
        match cv {
            ComponentValue::PreservedToken(Token::String(s)) => Ok(CssString { value: s.clone() }),
            _ => Err(error("expected a string token")),
        }
    }
}

// ── §3.5 url ───────────────────────────────────────────────────────

/// A CSS `<url>` (§3.5): from a url token (`url(path)`), or from a `url()`
/// function whose argument is a quoted string.
#[derive(Debug, Clone, PartialEq, Eq)]
pub struct Url {
    pub value: String,
}

/// The contents of the first string token in `s`.
pub open spec fn first_string(s: Seq<ComponentValue>) -> Option<Seq<char>>
    decreases s.len(),
{
    if s.len() == 0 {
        None
    } else {
        match string_text(s[0]) {
            Some(t) => Some(t),
            None => first_string(s.drop_first()),
        }
    }
}

/// The URL that a `url()` function holds: its first string argument.
pub open spec fn url_of_function(f: Function) -> Option<Seq<char>> {
    if eq_ic(f.name@, "url"@) {
        first_string(f.value@)
    } else {
        None
    }
}

/// The URL that a component value is.
pub open spec fn url_of(cv: ComponentValue) -> Option<Seq<char>> {
    match cv {
        ComponentValue::PreservedToken(Token::Url(s)) => Some(s@),
        ComponentValue::Function(f) => url_of_function(f),
        _ => None,
    }
}

/// The URL of the `<url>` that a list of component values is.
pub open spec fn spec_url(cvs: Seq<ComponentValue>) -> Option<Seq<char>> {
    match sole_value(cvs) {
        Some(cv) => url_of(cv),
        None => None,
    }
}

/// The message with which a `url()` function without a URL is refused.
pub open spec fn url_function_error(f: Function) -> Seq<char> {
    if eq_ic(f.name@, "url"@) {
        "url() function must contain a string argument"@
    } else {
        "expected url() function, got "@ + f.name@ + "()"@
    }
}

/// The message with which a list that is not a `<url>` is refused.
pub open spec fn url_error(cvs: Seq<ComponentValue>) -> Seq<char> {
    match sole_value(cvs) {
        None => count_message(cvs),
        Some(ComponentValue::Function(f)) => url_function_error(f),
        Some(_) => "expected a url() token or function"@,
    }
}

impl Url {
    /// Parses a `<url>` from CSS text.
    pub fn parse(input: &str) -> (r: Result<Url, ParseError>)
        ensures
            r is Ok <==> spec_url(spec_component_values(input@)) is Some,
            r matches Ok(u) ==> spec_url(spec_component_values(input@)) == Some(u.value@),
            r matches Err(e) ==> e.message@ == url_error(spec_component_values(input@)),
    {
        let cvs = parse_list_of_component_values(input);
        Url::from_cvs(cvs.as_slice())
    }

    /// Parses a `<url>` from component values.
    pub fn from_cvs(cvs: &[ComponentValue]) -> (r: Result<Url, ParseError>)
        ensures
            r is Ok <==> spec_url(cvs@) is Some,
            r matches Ok(u) ==> spec_url(cvs@) == Some(u.value@),
            r matches Err(e) ==> e.message@ == url_error(cvs@),
    {
        let cv = match single_non_ws_cv(cvs) {
            Ok(cv) => cv,
            Err(e) => return Err(e),
        };
        match cv {
            ComponentValue::PreservedToken(Token::Url(s)) => Ok(Url { value: s.clone() }),
            ComponentValue::Function(f) => match extract_url_from_function(f) {
                Ok(value) => Ok(Url { value }),
                Err(e) => Err(e),
            },
            _ => Err(error("expected a url() token or function")),
        }
    }
}

/// The URL held by a `url("...")` or `url('...')` function.
fn extract_url_from_function(f: &Function) -> (r: Result<String, ParseError>)
    ensures
        r is Ok <==> url_of_function(*f) is Some,
        r matches Ok(s) ==> url_of_function(*f) == Some(s@),
        r matches Err(e) ==> e.message@ == url_function_error(*f),
{
    if !eq_ignore_ascii_case(f.name.as_str(), "url") {
        let mut message = error_with("expected url() function, got ", f.name.as_str()).message;
        message.append("()");
        return Err(ParseError::new(message));
    }
    let n = f.value.len();
    let mut i: usize = 0;
    assert(f.value@.skip(0) =~= f.value@);
    while i < n
        invariant
            eq_ic(f.name@, "url"@),
            n == f.value@.len(),
            i <= n,
            first_string(f.value@) == first_string(f.value@.skip(i as int)),
        decreases n - i,
    {
        assert(f.value@.skip(i as int).drop_first() =~= f.value@.skip(i + 1));
        assert(f.value@.skip(i as int)[0] == f.value@[i as int]);
        if let ComponentValue::PreservedToken(Token::String(s)) = &f.value[i] {
            return Ok(s.clone());
        }
        i += 1;
    }
    Err(error("url() function must contain a string argument"))
}


/// Every `<dashed-ident>` is a `<custom-ident>`, and every `<custom-ident>`
/// a keyword, with the same text.
pub proof fn lemma_identifiers_nest(cvs: Seq<ComponentValue>)
    ensures
        spec_custom_ident(cvs) is Some ==> spec_keyword(cvs) == spec_custom_ident(cvs),
        spec_dashed_ident(cvs) is Some ==> spec_custom_ident(cvs) == spec_dashed_ident(cvs),
{
    reveal_strlit("initial");
    reveal_strlit("inherit");
    reveal_strlit("unset");
    reveal_strlit("default");
    reveal_strlit("none");
    if spec_dashed_ident(cvs) is Some {
        let s = spec_dashed_ident(cvs)->0;
        assert(s[0] == '-');
        lemma_eq_ic_prefix(s, "initial"@);
        lemma_eq_ic_prefix(s, "inherit"@);
        lemma_eq_ic_prefix(s, "unset"@);
        lemma_eq_ic_prefix(s, "default"@);
        lemma_eq_ic_prefix(s, "none"@);
    }
}

} // verus!
