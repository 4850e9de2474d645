//! The component values that CSS Syntax parsing produces (§5.2), held as plain
//! values so that the value grammars of this crate can be verified over them.
//!
//! Tokenizing and parsing the text into component values is the work of the
//! `muskitty-css` crate; [`parse_list_of_component_values`] calls it.

use crate::binary64::Binary64;
use muskitty_css::parser::BlockKind as OutsideBlockKind;
use muskitty_css::parser::ComponentValue as OutsideComponentValue;
use muskitty_css::tokenizer::HashType as OutsideHashType;
use muskitty_css::tokenizer::Numeric as OutsideNumeric;
use muskitty_css::tokenizer::Token as OutsideToken;
use vstd::prelude::*;

verus! {

/// The kind of a simple block: `{}`, `[]` or `()`.
#[derive(Debug, Clone, Copy, PartialEq, Eq, Structural)]
pub enum BlockKind {
    Curly,
    Square,
    Paren,
}

/// The numeric payload of a number, percentage or dimension token (§4.3.13).
#[derive(Debug, Clone, Copy, PartialEq)]
pub struct Numeric {
    /// The parsed value, sign included.
    pub value: Binary64,
    /// Whether the source form had neither a fraction nor an exponent.
    pub is_integer: bool,
}

/// The type flag of a hash token (§4.3.4).
#[derive(Debug, Clone, Copy, PartialEq, Eq, Structural)]
pub enum HashType {
    /// `#` followed by an ident sequence.
    Id,
    /// `#` followed by something that is not an ident sequence.
    Unrestricted,
}

/// A token (§4.1).
#[derive(Debug)]
pub enum Token {
    Ident(String),
    Function(String),
    AtKeyword(String),
    Hash(String, HashType),
    String(String),
    BadString,
    Url(String),
    BadUrl,
    Delim(char),
    Number(Numeric),
    Percentage(Numeric),
    Dimension(Numeric, String),
    UnicodeRange(Option<u32>, Option<u32>),
    Whitespace,
    Comment(String),
    Colon,
    Semicolon,
    Comma,
    OpenBracket,
    CloseBracket,
    OpenParen,
    CloseParen,
    OpenBrace,
    CloseBrace,
    Cdo,
    Cdc,
    Eof,
}

/// A component value (§5.2): a preserved token, a function or a simple block.
#[derive(Debug)]
pub enum ComponentValue {
    PreservedToken(Token),
    Function(Function),
    SimpleBlock(SimpleBlock),
}

/// A function: its name and the component values between its parentheses.
#[derive(Debug)]
pub struct Function {
    pub name: String,
    pub value: Vec<ComponentValue>,
}

/// A simple block: its kind and the component values inside it.
#[derive(Debug)]
pub struct SimpleBlock {
    pub kind: BlockKind,
    pub value: Vec<ComponentValue>,
}

/// Whether a component value is a whitespace token.
pub open spec fn is_ws(cv: ComponentValue) -> bool {
    cv matches ComponentValue::PreservedToken(Token::Whitespace)
}

/// Whether a component value is a comma token.
pub open spec fn is_comma(cv: ComponentValue) -> bool {
    cv matches ComponentValue::PreservedToken(Token::Comma)
}

/// The component values of `s` that are not whitespace tokens, in order.
pub open spec fn non_ws(s: Seq<ComponentValue>) -> Seq<ComponentValue>
    decreases s.len(),
{
    if s.len() == 0 {
        Seq::empty()
    } else if is_ws(s.last()) {
        non_ws(s.drop_last())
    } else {
        non_ws(s.drop_last()).push(s.last())
    }
}

/// A component value with each nested list taken by its contents, so that two
/// values that hold the same things are equal.
pub enum CvModel {
    Token(Token),
    Function(String, Seq<CvModel>),
    Block(BlockKind, Seq<CvModel>),
}

/// The model of a component value.
pub open spec fn model(cv: ComponentValue) -> CvModel
    decreases cv,
{
    match cv {
        ComponentValue::PreservedToken(t) => CvModel::Token(t),
        ComponentValue::Function(f) => CvModel::Function(f.name, models(f.value@)),
        ComponentValue::SimpleBlock(b) => CvModel::Block(b.kind, models(b.value@)),
    }
}

/// The models of a list of component values.
pub open spec fn models(s: Seq<ComponentValue>) -> Seq<CvModel>
    decreases s,
{
    if s.len() == 0 {
        Seq::empty()
    } else {
        models(s.drop_last()).push(model(s.last()))
    }
}

/// A copy of a token.
pub fn copy_token(t: &Token) -> (r: Token)
    ensures
        r == *t,
{
    match t {
        Token::Ident(s) => Token::Ident(s.clone()),
        Token::Function(s) => Token::Function(s.clone()),
        Token::AtKeyword(s) => Token::AtKeyword(s.clone()),
        Token::Hash(s, h) => Token::Hash(s.clone(), *h),
        Token::String(s) => Token::String(s.clone()),
        Token::BadString => Token::BadString,
        Token::Url(s) => Token::Url(s.clone()),
        Token::BadUrl => Token::BadUrl,
        Token::Delim(c) => Token::Delim(*c),
        Token::Number(n) => Token::Number(*n),
        Token::Percentage(n) => Token::Percentage(*n),
        Token::Dimension(n, u) => Token::Dimension(*n, u.clone()),
        Token::UnicodeRange(a, b) => Token::UnicodeRange(*a, *b),
        Token::Whitespace => Token::Whitespace,
        Token::Comment(s) => Token::Comment(s.clone()),
        Token::Colon => Token::Colon,
        Token::Semicolon => Token::Semicolon,
        Token::Comma => Token::Comma,
        Token::OpenBracket => Token::OpenBracket,
        Token::CloseBracket => Token::CloseBracket,
        Token::OpenParen => Token::OpenParen,
        Token::CloseParen => Token::CloseParen,
        Token::OpenBrace => Token::OpenBrace,
        Token::CloseBrace => Token::CloseBrace,
        Token::Cdo => Token::Cdo,
        Token::Cdc => Token::Cdc,
        Token::Eof => Token::Eof,
    }
}

/// A deep copy of a component value.
pub fn copy_component_value(cv: &ComponentValue) -> (r: ComponentValue)
    ensures
        model(r) == model(*cv),
    decreases cv,
{
    match cv {
        ComponentValue::PreservedToken(t) => ComponentValue::PreservedToken(copy_token(t)),
        ComponentValue::Function(f) => {
            let value = copy_component_values(&f.value, 0, f.value.len());
            assert(f.value@.subrange(0, f.value@.len() as int) =~= f.value@);
            ComponentValue::Function(Function { name: f.name.clone(), value })
        },
        ComponentValue::SimpleBlock(b) => {
            let value = copy_component_values(&b.value, 0, b.value.len());
            assert(b.value@.subrange(0, b.value@.len() as int) =~= b.value@);
            ComponentValue::SimpleBlock(SimpleBlock { kind: b.kind, value })
        },
    }
}

/// Deep copies of the component values `v[lo..hi]`.
pub fn copy_component_values(v: &Vec<ComponentValue>, lo: usize, hi: usize) -> (r: Vec<ComponentValue>)
    requires
        lo <= hi <= v@.len(),
    ensures
        models(r@) == models(v@.subrange(lo as int, hi as int)),
    decreases v,
{
    let mut r: Vec<ComponentValue> = Vec::new();
    let mut i = lo;
    while i < hi
        invariant
            lo <= i <= hi <= v@.len(),
            models(r@) == models(v@.subrange(lo as int, i as int)),
        decreases hi - i,
    {
        let c = copy_component_value(&v[i]);
        let ghost old_r = r@;
        r.push(c);
        assert(r@.drop_last() =~= old_r);
        assert(v@.subrange(lo as int, i + 1).drop_last() =~= v@.subrange(lo as int, i as int));
        i += 1;
    }
    r
}

impl Clone for Token {
    fn clone(&self) -> (r: Self)
        ensures
            r == *self,
    {
        copy_token(self)
    }
}

impl Clone for ComponentValue {
    /// A deep copy.
    fn clone(&self) -> (r: Self)
        ensures
            model(r) == model(*self),
    {
        copy_component_value(self)
    }
}

impl Clone for Function {
    fn clone(&self) -> (r: Self)
        ensures
            r.name == self.name,
            models(r.value@) == models(self.value@),
    {
        let value = copy_component_values(&self.value, 0, self.value.len());
        assert(self.value@.subrange(0, self.value@.len() as int) =~= self.value@);
        Function { name: self.name.clone(), value }
    }
}

impl Clone for SimpleBlock {
    fn clone(&self) -> (r: Self)
        ensures
            r.kind == self.kind,
            models(r.value@) == models(self.value@),
    {
        let value = copy_component_values(&self.value, 0, self.value.len());
        assert(self.value@.subrange(0, self.value@.len() as int) =~= self.value@);
        SimpleBlock { kind: self.kind, value }
    }
}

/// The text `input` as the list of component values that `muskitty-css`
/// parses it into (CSS Syntax §5.4.9).
pub uninterp spec fn spec_component_values(input: Seq<char>) -> Seq<ComponentValue>;

/// Calls `muskitty_css::parse_list_of_component_values` and converts each
/// component value into this crate's form. The contract claims no more than
/// that the result is a function of the text: what the tokenizer and parser
/// produce is left to the name [`spec_component_values`].
#[verifier::external_body]
pub(crate) fn parse_list_of_component_values(input: &str) -> (cvs: Vec<ComponentValue>)
    ensures
        cvs@ == spec_component_values(input@),
{
    muskitty_css::parse_list_of_component_values(input).iter().map(component_value_from).collect()
}

/// A component value of `muskitty-css`, read only by the conversions below.
#[verifier::external_type_specification]
#[verifier::external_body]
pub struct ExOutsideComponentValue(OutsideComponentValue);

/// A token of `muskitty-css`.
#[verifier::external_type_specification]
#[verifier::external_body]
pub struct ExOutsideToken(OutsideToken);

/// The payload of a numeric token of `muskitty-css`.
#[verifier::external_type_specification]
#[verifier::external_body]
pub struct ExOutsideNumeric(OutsideNumeric);

/// The kind of a simple block of `muskitty-css`.
#[verifier::external_type_specification]
#[verifier::external_body]
pub struct ExOutsideBlockKind(OutsideBlockKind);

/// One for one conversion of a component value of `muskitty-css` (used only
/// inside [`parse_list_of_component_values`]).
#[verifier::external_body]
fn component_value_from(cv: &OutsideComponentValue) -> ComponentValue {
    match cv {
        OutsideComponentValue::PreservedToken(t) => ComponentValue::PreservedToken(token_from(t)),
        OutsideComponentValue::Function(f) => ComponentValue::Function(
            Function { name: f.name.clone(), value: f.value.iter().map(component_value_from).collect() },
        ),
        OutsideComponentValue::SimpleBlock(b) => ComponentValue::SimpleBlock(
            SimpleBlock { kind: block_kind_from(b.kind), value: b.value.iter().map(component_value_from).collect() },
        ),
    }
}

/// One for one conversion of a block kind of `muskitty-css`.
#[verifier::external_body]
fn block_kind_from(k: OutsideBlockKind) -> BlockKind {
    match k {
        OutsideBlockKind::Curly => BlockKind::Curly,
        OutsideBlockKind::Square => BlockKind::Square,
        OutsideBlockKind::Paren => BlockKind::Paren,
    }
}

/// One for one conversion of a numeric token of `muskitty-css`; the
/// number keeps its bit pattern.
#[verifier::external_body]
fn token_from(t: &OutsideToken) -> Token {
    match t {
        OutsideToken::Number(n) => Token::Number(numeric_from(n)),
        OutsideToken::Percentage(n) => Token::Percentage(numeric_from(n)),
        OutsideToken::Dimension(n, u) => Token::Dimension(numeric_from(n), u.clone()),
        _ => text_token_from(t),
    }
}

/// One for one conversion of the tokens of `muskitty-css` that carry a name,
/// a text or a code point; the others go on to [`punct_token_from`].
#[verifier::external_body]
fn text_token_from(t: &OutsideToken) -> Token {
    match t {
        OutsideToken::Ident(s) => Token::Ident(s.clone()),
        OutsideToken::Function(s) => Token::Function(s.clone()),
        OutsideToken::AtKeyword(s) => Token::AtKeyword(s.clone()),
        OutsideToken::Hash(s, OutsideHashType::Id) => Token::Hash(s.clone(), HashType::Id),
        OutsideToken::Hash(s, OutsideHashType::Unrestricted) => Token::Hash(s.clone(), HashType::Unrestricted),
        OutsideToken::String(s) => Token::String(s.clone()),
        OutsideToken::Url(s) => Token::Url(s.clone()),
        OutsideToken::Delim(c) => Token::Delim(*c),
        _ => punct_token_from(t),
    }
}

/// One for one conversion of more tokens of `muskitty-css`; the others go on
/// to [`bracket_token_from`].
#[verifier::external_body]
fn punct_token_from(t: &OutsideToken) -> Token {
    match t {
        OutsideToken::BadString => Token::BadString,
        OutsideToken::BadUrl => Token::BadUrl,
        OutsideToken::UnicodeRange(a, b) => Token::UnicodeRange(*a, *b),
        OutsideToken::Whitespace => Token::Whitespace,
        OutsideToken::Comment(s) => Token::Comment(s.clone()),
        OutsideToken::Colon => Token::Colon,
        OutsideToken::Semicolon => Token::Semicolon,
        OutsideToken::Comma => Token::Comma,
        _ => bracket_token_from(t),
    }
}

/// One for one conversion of the bracket, `<!--`, `-->` and end-of-file
/// tokens of `muskitty-css`: the tokens that the conversions before it
/// leave, `<EOF-token>` the last of them.
#[verifier::external_body]
fn bracket_token_from(t: &OutsideToken) -> Token {
    match t {
        OutsideToken::OpenBracket => Token::OpenBracket,
        OutsideToken::CloseBracket => Token::CloseBracket,
        OutsideToken::OpenParen => Token::OpenParen,
        OutsideToken::CloseParen => Token::CloseParen,
        OutsideToken::OpenBrace => Token::OpenBrace,
        OutsideToken::CloseBrace => Token::CloseBrace,
        OutsideToken::Cdo => Token::Cdo,
        OutsideToken::Cdc => Token::Cdc,
        _ => Token::Eof,
    }
}

/// The payload of a numeric token of `muskitty-css`, its value held by its
/// bit pattern.
#[verifier::external_body]
fn numeric_from(n: &OutsideNumeric) -> Numeric {
    Numeric { value: Binary64 { bits: n.value.to_bits() }, is_integer: n.is_integer }
}

} // verus!
