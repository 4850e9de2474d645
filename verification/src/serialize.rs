//! Serialization — CSS Values Level 4 §8.1 and §9.7 (calc-serialize), the
//! simple form: the calculation tree is written as parsed, not sorted or
//! simplified.
//!
//! A serialization is a sequence of [`CssAtom`]s: characters, and numbers
//! that are still to be written as decimal text. A number is written as an
//! integer without a fractional part when it has none and is finite, and in
//! the shortest form that reads back to the same value otherwise.

use crate::binary64::Binary64;
use crate::math::{constant_text, math_model, math_models, MathConstant, MathExpression, MathModel};
use crate::numeric::{
    length_unit_text, spec_angle_unit, spec_frequency_unit, spec_resolution_unit, spec_time_unit, Angle, AngleUnit, Frequency, FrequencyUnit, Integer, Length, Number, Percentage, Ratio,
    Resolution, ResolutionUnit, Time, TimeUnit,
};
use crate::syntax::{model, models, ComponentValue, CvModel, Token};
use crate::text::{lemma_eq_ic_equivalence, lemma_eq_ic_prefix, signed_decimal, signed_decimal_string};
use crate::textual::{CssString, CustomIdent, DashedIdent, Keyword, Url};
use crate::var::VarReference;
use vstd::prelude::*;

verus! {

/// One element of a serialization: a character, or a number to be written.
#[derive(Debug, Clone, Copy)]
pub enum CssAtom {
    Char(char),
    Number(Binary64),
}

/// A character, as an atom.
pub open spec fn char_atom(c: char) -> CssAtom {
    CssAtom::Char(c)
}

/// The characters of `s`, as atoms.
pub open spec fn chars(s: Seq<char>) -> Seq<CssAtom>
    decreases s.len(),
{
    if s.len() == 0 {
        Seq::empty()
    } else {
        chars(s.drop_last()).push(char_atom(s[s.len() - 1]))
    }
}

proof fn lemma_push_after_concat(s: Seq<CssAtom>, t: Seq<CssAtom>, x: CssAtom)
    ensures
        (s + t).push(x) == s + t.push(x),
{
    assert((s + t).push(x) =~= s + t.push(x));
}

/// The atoms of one and of two characters.
pub proof fn lemma_chars_short(a: char, b: char)
    ensures
        chars(seq![a]) == seq![char_atom(a)],
        chars(seq![a, b]) == seq![char_atom(a), char_atom(b)],
{
    assert(seq![a].drop_last() =~= Seq::<char>::empty());
    assert(seq![a, b].drop_last() =~= seq![a]);
    assert(chars(Seq::<char>::empty()) =~= Seq::<CssAtom>::empty());
    assert(seq![a][0] == a);
    assert(seq![a, b][1] == b);
    assert(chars(seq![a]) =~= seq![char_atom(a)]);
    assert(chars(seq![a, b]) =~= seq![char_atom(a), char_atom(b)]);
}

/// The atoms of two texts one after the other.
pub proof fn lemma_chars_concat(a: Seq<char>, b: Seq<char>)
    ensures
        chars(a + b) == chars(a) + chars(b),
    decreases b.len(),
{
    if b.len() == 0 {
        assert(a + b =~= a);
        assert(chars(a) + chars(b) =~= chars(a));
    } else {
        assert((a + b).drop_last() =~= a + b.drop_last());
        lemma_chars_concat(a, b.drop_last());
        let x = char_atom(b[b.len() - 1]);
        assert((a + b)[(a + b).len() - 1] == b[b.len() - 1]);
        lemma_push_after_concat(chars(a), chars(b.drop_last()), x);
        assert(chars(b) == chars(b.drop_last()).push(x));
        assert(chars(a + b) == chars(a + b.drop_last()).push(x));
    }
}

/// A number, as one atom.
pub open spec fn number(b: Binary64) -> Seq<CssAtom> {
    seq![CssAtom::Number(b)]
}

/// A character that has the Unicode `White_Space` property.
pub open spec fn is_white_space(c: char) -> bool {
    ||| '\t' <= c <= '\r'
    ||| c == ' '
    ||| c == '\u{85}'
    ||| c == '\u{a0}'
    ||| c == '\u{1680}'
    ||| '\u{2000}' <= c <= '\u{200a}'
    ||| c == '\u{2028}'
    ||| c == '\u{2029}'
    ||| c == '\u{202f}'
    ||| c == '\u{205f}'
    ||| c == '\u{3000}'
}

/// A whitespace character atom; a number never is one.
pub open spec fn is_white_atom(a: CssAtom) -> bool {
    a matches CssAtom::Char(c) && is_white_space(c)
}

/// `s` without its leading whitespace.
pub open spec fn trim_start(s: Seq<CssAtom>) -> Seq<CssAtom>
    decreases s.len(),
{
    if s.len() > 0 && is_white_atom(s[0]) {
        trim_start(s.drop_first())
    } else {
        s
    }
}

/// `s` without its trailing whitespace.
pub open spec fn trim_end(s: Seq<CssAtom>) -> Seq<CssAtom>
    decreases s.len(),
{
    if s.len() > 0 && is_white_atom(s.last()) {
        trim_end(s.drop_last())
    } else {
        s
    }
}

/// `s` without leading and trailing whitespace (as `str::trim`).
pub open spec fn trim(s: Seq<CssAtom>) -> Seq<CssAtom> {
    trim_end(trim_start(s))
}

/// `s` with each `\` and `"` escaped by a backslash.
pub open spec fn escape_text(s: Seq<char>) -> Seq<char>
    decreases s.len(),
{
    if s.len() == 0 {
        Seq::empty()
    } else {
        escape_text(s.drop_last()) + if s.last() == '\\' {
            seq!['\\', '\\']
        } else if s.last() == '"' {
            seq!['\\', '"']
        } else {
            seq![s.last()]
        }
    }
}

/// The CSS spelling of an angle unit.
pub open spec fn angle_unit_text(u: AngleUnit) -> Seq<char> {
    match u {
        AngleUnit::Deg => "deg"@,
        AngleUnit::Grad => "grad"@,
        AngleUnit::Rad => "rad"@,
        AngleUnit::Turn => "turn"@,
    }
}

/// The CSS spelling of a time unit.
pub open spec fn time_unit_text(u: TimeUnit) -> Seq<char> {
    match u {
        TimeUnit::S => "s"@,
        TimeUnit::Ms => "ms"@,
    }
}

/// The CSS spelling of a frequency unit.
pub open spec fn frequency_unit_text(u: FrequencyUnit) -> Seq<char> {
    match u {
        FrequencyUnit::Hz => "Hz"@,
        FrequencyUnit::KHz => "kHz"@,
    }
}

/// The CSS spelling of a resolution unit.
pub open spec fn resolution_unit_text(u: ResolutionUnit) -> Seq<char> {
    match u {
        ResolutionUnit::Dpi => "dpi"@,
        ResolutionUnit::Dpcm => "dpcm"@,
        ResolutionUnit::Dppx => "dppx"@,
    }
}

/// A `<ratio>` (§4.7): the width alone when the height is 1, else `w / h`.
pub open spec fn ratio_atoms(r: Ratio) -> Seq<CssAtom> {
    if r.height == crate::binary64::spec_one() {
        number(r.width)
    } else {
        number(r.width) + chars(" / "@) + number(r.height)
    }
}

/// A preserved token of a `var()` fallback. The tokens that this minimal
/// serialization has no spelling for (url, at-keyword, bracket tokens and the
/// like) write nothing.
pub open spec fn token_atoms(t: Token) -> Seq<CssAtom> {
    match t {
        Token::Ident(s) => chars(s@),
        Token::String(s) => chars("\""@) + chars(s@) + chars("\""@),
        Token::Number(n) => number(n.value),
        Token::Percentage(n) => number(n.value) + chars("%"@),
        Token::Dimension(n, u) => number(n.value) + chars(u@),
        Token::Whitespace => chars(" "@),
        Token::Comma => chars(","@),
        Token::Colon => chars(":"@),
        Token::Semicolon => chars(";"@),
        Token::Delim(c) => seq![char_atom(c)],
        Token::Hash(s, _) => chars("#"@) + chars(s@),
        _ => Seq::empty(),
    }
}

/// A component value of a `var()` fallback: a token, or a function with its
/// trimmed arguments; a simple block writes nothing.
pub open spec fn cv_atoms(c: CvModel) -> Seq<CssAtom>
    decreases c,
{
    match c {
        CvModel::Token(t) => token_atoms(t),
        CvModel::Function(name, args) => chars(name@) + chars("("@) + trim(cvs_atoms(args)) + chars(")"@),
        CvModel::Block(_, _) => Seq::empty(),
    }
}

/// Component values one after the other.
pub open spec fn cvs_atoms(s: Seq<CvModel>) -> Seq<CssAtom>
    decreases s,
{
    if s.len() == 0 {
        Seq::empty()
    } else {
        cvs_atoms(s.drop_last()) + cv_atoms(s[s.len() - 1])
    }
}

/// `var(name)`, or `var(name, fallback)` with the fallback trimmed.
pub open spec fn var_atoms(name: Seq<char>, fallback: Option<Seq<CvModel>>) -> Seq<CssAtom> {
    match fallback {
        None => chars("var("@) + chars(name) + chars(")"@),
        Some(fb) => chars("var("@) + chars(name) + chars(", "@) + trim(cvs_atoms(fb)) + chars(")"@),
    }
}

/// A sum, a product or a quotient.
pub open spec fn is_compound(m: MathModel) -> bool {
    m is Sum || m is Product || m is Quotient
}

/// A math expression (§9.7): `+`, `*` and `/` with a space on each side, a
/// negation as `(-1 * e)`, functions with `, ` between arguments. An operand
/// is put in parentheses where the text would otherwise group it otherwise:
/// a sum under `*` or `/`, a sum as the right operand of `+`, and a sum,
/// product or quotient as the right operand of `*` or `/` or under a negation.
pub open spec fn math_atoms(m: MathModel) -> Seq<CssAtom>
    decreases m,
{
    match m {
        MathModel::Length(l) => number(l.value) + chars(length_unit_text(l.unit)),
        MathModel::Percentage(p) => number(p.value) + chars("%"@),
        MathModel::Number(n) => number(n.value),
        MathModel::Constant(c) => chars(constant_text(c)),
        MathModel::Var(name, fallback) => var_atoms(name, fallback),
        MathModel::Negate(a) => chars("(-1 * "@) + (if is_compound(*a) {
            chars("("@) + math_atoms(*a) + chars(")"@)
        } else {
            math_atoms(*a)
        }) + chars(")"@),
        MathModel::Sum(a, b) => math_atoms(*a) + chars(" + "@) + (if *b is Sum {
            chars("("@) + math_atoms(*b) + chars(")"@)
        } else {
            math_atoms(*b)
        }),
        MathModel::Product(a, b) => (if *a is Sum {
            chars("("@) + math_atoms(*a) + chars(")"@)
        } else {
            math_atoms(*a)
        }) + chars(" * "@) + (if is_compound(*b) {
            chars("("@) + math_atoms(*b) + chars(")"@)
        } else {
            math_atoms(*b)
        }),
        MathModel::Quotient(a, b) => (if *a is Sum {
            chars("("@) + math_atoms(*a) + chars(")"@)
        } else {
            math_atoms(*a)
        }) + chars(" / "@) + (if is_compound(*b) {
            chars("("@) + math_atoms(*b) + chars(")"@)
        } else {
            math_atoms(*b)
        }),
        MathModel::Min(args) => chars("min("@) + args_atoms(args) + chars(")"@),
        MathModel::Max(args) => chars("max("@) + args_atoms(args) + chars(")"@),
        MathModel::Clamp(a, b, c) => chars("clamp("@) + math_atoms(*a) + chars(", "@) + math_atoms(*b) + chars(
            ", "@,
        ) + math_atoms(*c) + chars(")"@),
    }
}

/// Arguments joined by `, `.
pub open spec fn args_atoms(args: Seq<MathModel>) -> Seq<CssAtom>
    decreases args,
{
    if args.len() == 0 {
        Seq::empty()
    } else if args.len() == 1 {
        math_atoms(args[0])
    } else {
        args_atoms(args.drop_last()) + chars(", "@) + math_atoms(args[args.len() - 1])
    }
}

// ── Building serializations ─────────────────────────────────────────

/// Whether `c` has the Unicode `White_Space` property.
pub fn is_white_space_char(c: char) -> (b: bool)
    ensures
        b == is_white_space(c),
{
    ('\t' <= c && c <= '\r') || c == ' ' || c == '\u{85}' || c == '\u{a0}' || c == '\u{1680}' || ('\u{2000}' <= c
        && c <= '\u{200a}') || c == '\u{2028}' || c == '\u{2029}' || c == '\u{202f}' || c == '\u{205f}' || c
        == '\u{3000}'
}

/// Appends the characters of `s`.
fn push_str(out: &mut Vec<CssAtom>, s: &str)
    ensures
        final(out)@ == old(out)@ + chars(s@),
{
    let ghost start = out@;
    let n = s.unicode_len();
    let mut i: usize = 0;
    assert(s@.take(0) =~= Seq::<char>::empty());
    while i < n
        invariant
            n == s@.len(),
            i <= n,
            out@ == start + chars(s@.take(i as int)),
        decreases n - i,
    {
        let c = s.get_char(i);
        out.push(CssAtom::Char(c));
        assert(s@.take(i + 1) =~= s@.take(i as int).push(c));
        assert(s@.take(i + 1).drop_last() =~= s@.take(i as int));
        assert(out@ =~= start + chars(s@.take(i + 1)));
        i += 1;
    }
    assert(s@.take(n as int) =~= s@);
}

/// Appends a number.
fn push_number(out: &mut Vec<CssAtom>, b: Binary64)
    ensures
        final(out)@ == old(out)@ + number(b),
{
    out.push(CssAtom::Number(b));
    assert(out@ =~= old(out)@ + number(b));
}

/// Appends `s` with `\` and `"` escaped.
fn push_escaped(out: &mut Vec<CssAtom>, s: &str)
    ensures
        final(out)@ == old(out)@ + chars(escape_text(s@)),
{
    let ghost start = out@;
    let n = s.unicode_len();
    let mut i: usize = 0;
    assert(escape_text(s@.take(0)) =~= Seq::<char>::empty());
    assert(s@.take(0) =~= Seq::<char>::empty());
    while i < n
        invariant
            n == s@.len(),
            i <= n,
            out@ == start + chars(escape_text(s@.take(i as int))),
        decreases n - i,
    {
        let c = s.get_char(i);
        assert(s@.take(i + 1).drop_last() =~= s@.take(i as int));
        if c == '\\' {
            out.push(CssAtom::Char('\\'));
            out.push(CssAtom::Char('\\'));
        } else if c == '"' {
            out.push(CssAtom::Char('\\'));
            out.push(CssAtom::Char('"'));
        } else {
            out.push(CssAtom::Char(c));
        }
        let ghost prev = escape_text(s@.take(i as int));
        let ghost tail = if c == '\\' {
            seq!['\\', '\\']
        } else if c == '"' {
            seq!['\\', '"']
        } else {
            seq![c]
        };
        assert(escape_text(s@.take(i + 1)) == prev + tail);
        proof {
            lemma_chars_concat(prev, tail);
            lemma_chars_short(c, c);
            lemma_chars_short('\\', '\\');
            lemma_chars_short('\\', '"');
        }
        assert(out@ =~= start + chars(escape_text(s@.take(i + 1))));
        i += 1;
    }
    assert(s@.take(n as int) =~= s@);
}

/// `v` without leading and trailing whitespace.
fn trim_atoms(v: &Vec<CssAtom>) -> (r: Vec<CssAtom>)
    ensures
        r@ == trim(v@),
{
    let n = v.len();
    let mut lo: usize = 0;
    assert(v@.subrange(0, n as int) =~= v@);
    while lo < n && is_white_atom_exec(&v[lo])
        invariant
            n == v@.len(),
            lo <= n,
            trim_start(v@) == trim_start(v@.subrange(lo as int, n as int)),
        decreases n - lo,
    {
        assert(v@.subrange(lo as int, n as int).drop_first() =~= v@.subrange(lo + 1, n as int));
        lo += 1;
    }
    let ghost t = v@.subrange(lo as int, n as int);
    assert(trim_start(v@) == t);
    let mut hi: usize = n;
    assert(t.subrange(0, t.len() as int) =~= t);
    while hi > lo && is_white_atom_exec(&v[hi - 1])
        invariant
            n == v@.len(),
            lo <= hi <= n,
            t == v@.subrange(lo as int, n as int),
            trim_end(t) == trim_end(v@.subrange(lo as int, hi as int)),
        decreases hi,
    {
        assert(v@.subrange(lo as int, hi as int).drop_last() =~= v@.subrange(lo as int, hi - 1));
        hi -= 1;
    }
    let mut r: Vec<CssAtom> = Vec::new();
    let mut i = lo;
    while i < hi
        invariant
            lo <= i <= hi <= n,
            n == v@.len(),
            r@ == v@.subrange(lo as int, i as int),
        decreases hi - i,
    {
        r.push(v[i]);
        assert(r@ =~= v@.subrange(lo as int, i + 1));
        i += 1;
    }
    r
}

fn is_white_atom_exec(a: &CssAtom) -> (b: bool)
    ensures
        b == is_white_atom(*a),
{
    match a {
        CssAtom::Char(c) => is_white_space_char(*c),
        CssAtom::Number(_) => false,
    }
}


/// Appends `more`.
fn push_all(out: &mut Vec<CssAtom>, more: Vec<CssAtom>)
    ensures
        final(out)@ == old(out)@ + more@,
{
    let mut more = more;
    out.append(&mut more);
}

// ── Unit spellings ──────────────────────────────────────────────────

/// The CSS spelling of an angle unit.
pub fn angle_unit_str(u: AngleUnit) -> (s: &'static str)
    ensures
        s@ == angle_unit_text(u),
{
    match u {
        AngleUnit::Deg => "deg",
        AngleUnit::Grad => "grad",
        AngleUnit::Rad => "rad",
        AngleUnit::Turn => "turn",
    }
}

/// The CSS spelling of a time unit.
pub fn time_unit_str(u: TimeUnit) -> (s: &'static str)
    ensures
        s@ == time_unit_text(u),
{
    match u {
        TimeUnit::S => "s",
        TimeUnit::Ms => "ms",
    }
}

/// The CSS spelling of a frequency unit.
pub fn frequency_unit_str(u: FrequencyUnit) -> (s: &'static str)
    ensures
        s@ == frequency_unit_text(u),
{
    match u {
        FrequencyUnit::Hz => "Hz",
        FrequencyUnit::KHz => "kHz",
    }
}

/// The CSS spelling of a resolution unit.
pub fn resolution_unit_str(u: ResolutionUnit) -> (s: &'static str)
    ensures
        s@ == resolution_unit_text(u),
{
    match u {
        ResolutionUnit::Dpi => "dpi",
        ResolutionUnit::Dpcm => "dpcm",
        ResolutionUnit::Dppx => "dppx",
    }
}

// ── The serializations ─────────────────────────────────────────────

/// A number followed by a unit.
fn number_and_unit(value: Binary64, unit: &str) -> (r: Vec<CssAtom>)
    ensures
        r@ == number(value) + chars(unit@),
{
    let mut out: Vec<CssAtom> = Vec::new();
    push_number(&mut out, value);
    push_str(&mut out, unit);
    out
}

/// Serialization to CSS text (§8.1): a sequence of characters and of numbers
/// that are still to be written.
pub trait ToCss {
    fn to_css_string(&self) -> Vec<CssAtom>;
}

impl ToCss for Length {
    /// The number, then the unit, with no space between (§8.1).
    fn to_css_string(&self) -> (r: Vec<CssAtom>)
        ensures
            r@ == number(self.value) + chars(length_unit_text(self.unit)),
    {
        number_and_unit(self.value, self.unit.to_str())
    }
}

impl ToCss for Percentage {
    fn to_css_string(&self) -> (r: Vec<CssAtom>)
        ensures
            r@ == number(self.value) + chars("%"@),
    {
        number_and_unit(self.value, "%")
    }
}

impl ToCss for Number {
    fn to_css_string(&self) -> (r: Vec<CssAtom>)
        ensures
            r@ == number(self.value),
    {
        let mut out: Vec<CssAtom> = Vec::new();
        push_number(&mut out, self.value);
        out
    }
}

impl ToCss for Integer {
    /// The decimal notation of the value.
    fn to_css_string(&self) -> (r: Vec<CssAtom>)
        ensures
            r@ == chars(signed_decimal(self.value as int)),
    {
        let mut out: Vec<CssAtom> = Vec::new();
        push_str(&mut out, signed_decimal_string(self.value).as_str());
        out
    }
}

impl ToCss for Angle {
    fn to_css_string(&self) -> (r: Vec<CssAtom>)
        ensures
            r@ == number(self.value) + chars(angle_unit_text(self.unit)),
    {
        number_and_unit(self.value, angle_unit_str(self.unit))
    }
}

impl ToCss for Time {
    fn to_css_string(&self) -> (r: Vec<CssAtom>)
        ensures
            r@ == number(self.value) + chars(time_unit_text(self.unit)),
    {
        number_and_unit(self.value, time_unit_str(self.unit))
    }
}

impl ToCss for Frequency {
    fn to_css_string(&self) -> (r: Vec<CssAtom>)
        ensures
            r@ == number(self.value) + chars(frequency_unit_text(self.unit)),
    {
        number_and_unit(self.value, frequency_unit_str(self.unit))
    }
}

impl ToCss for Resolution {
    fn to_css_string(&self) -> (r: Vec<CssAtom>)
        ensures
            r@ == number(self.value) + chars(resolution_unit_text(self.unit)),
    {
        number_and_unit(self.value, resolution_unit_str(self.unit))
    }
}

impl ToCss for Ratio {
    /// The width alone when the height is 1 (§4.7), else `width / height`.
    fn to_css_string(&self) -> (r: Vec<CssAtom>)
        ensures
            r@ == ratio_atoms(*self),
    {
        let mut out: Vec<CssAtom> = Vec::new();
        push_number(&mut out, self.width);
        if !self.height.is_one() {
            push_str(&mut out, " / ");
            push_number(&mut out, self.height);
        }
        out
    }
}

impl ToCss for Keyword {
    fn to_css_string(&self) -> (r: Vec<CssAtom>)
        ensures
            r@ == chars(self.value@),
    {
        let mut out: Vec<CssAtom> = Vec::new();
        push_str(&mut out, self.value.as_str());
        out
    }
}

impl ToCss for CustomIdent {
    fn to_css_string(&self) -> (r: Vec<CssAtom>)
        ensures
            r@ == chars(self.value@),
    {
        let mut out: Vec<CssAtom> = Vec::new();
        push_str(&mut out, self.value.as_str());
        out
    }
}

impl ToCss for DashedIdent {
    fn to_css_string(&self) -> (r: Vec<CssAtom>)
        ensures
            r@ == chars(self.value@),
    {
        let mut out: Vec<CssAtom> = Vec::new();
        push_str(&mut out, self.value.as_str());
        out
    }
}

impl ToCss for CssString {
    /// In double quotes, with `\` and `"` escaped (§8.1).
    fn to_css_string(&self) -> (r: Vec<CssAtom>)
        ensures
            r@ == chars("\""@) + chars(escape_text(self.value@)) + chars("\""@),
    {
        let mut out: Vec<CssAtom> = Vec::new();
        push_str(&mut out, "\"");
        push_escaped(&mut out, self.value.as_str());
        push_str(&mut out, "\"");
        out
    }
}

impl ToCss for Url {
    /// As `url("...")`, with `\` and `"` escaped (§8.1).
    fn to_css_string(&self) -> (r: Vec<CssAtom>)
        ensures
            r@ == chars("url(\""@) + chars(escape_text(self.value@)) + chars("\")"@),
    {
        let mut out: Vec<CssAtom> = Vec::new();
        push_str(&mut out, "url(\"");
        push_escaped(&mut out, self.value.as_str());
        push_str(&mut out, "\")");
        out
    }
}

impl ToCss for MathConstant {
    fn to_css_string(&self) -> (r: Vec<CssAtom>)
        ensures
            r@ == chars(constant_text(*self)),
    {
        let mut out: Vec<CssAtom> = Vec::new();
        push_str(&mut out, self.to_str());
        out
    }
}

impl ToCss for MathExpression {
    fn to_css_string(&self) -> (r: Vec<CssAtom>)
        ensures
            r@ == math_atoms(math_model(*self)),
    {
        expression_to_css(self)
    }
}

impl ToCss for VarReference {
    fn to_css_string(&self) -> (r: Vec<CssAtom>)
        ensures
            r@ == var_atoms(
                self.name@,
                match self.fallback {
                    Some(fb) => Some(models(fb@)),
                    None => None,
                },
            ),
    {
        var_to_css(self)
    }
}

/// A math expression (§9.7).
fn expression_to_css(e: &MathExpression) -> (r: Vec<CssAtom>)
    ensures
        r@ == math_atoms(math_model(*e)),
    decreases e, 1int,
{
    let mut out: Vec<CssAtom> = Vec::new();
    match e {
        MathExpression::Length(l) => {
            push_all(&mut out, number_and_unit(l.value, l.unit.to_str()));
        },
        MathExpression::Percentage(p) => {
            push_all(&mut out, number_and_unit(p.value, "%"));
        },
        MathExpression::Number(n) => {
            push_number(&mut out, n.value);
        },
        MathExpression::Constant(c) => {
            push_str(&mut out, c.to_str());
        },
        MathExpression::Var(v) => {
            push_all(&mut out, var_to_css(v));
        },
        MathExpression::Negate(a) => {
            push_str(&mut out, "(-1 * ");
            push_all(&mut out, operand_to_css(a, is_compound_expression(a)));
            push_str(&mut out, ")");
        },
        MathExpression::Sum(a, b) => {
            push_all(&mut out, expression_to_css(a));
            push_str(&mut out, " + ");
            push_all(&mut out, operand_to_css(b, is_sum_expression(b)));
        },
        MathExpression::Product(a, b) => {
            push_all(&mut out, operand_to_css(a, is_sum_expression(a)));
            push_str(&mut out, " * ");
            push_all(&mut out, operand_to_css(b, is_compound_expression(b)));
        },
        MathExpression::Quotient(a, b) => {
            push_all(&mut out, operand_to_css(a, is_sum_expression(a)));
            push_str(&mut out, " / ");
            push_all(&mut out, operand_to_css(b, is_compound_expression(b)));
        },
        MathExpression::Min(args) => {
            push_str(&mut out, "min(");
            push_all(&mut out, serialize_args(args.as_slice()));
            push_str(&mut out, ")");
        },
        MathExpression::Max(args) => {
            push_str(&mut out, "max(");
            push_all(&mut out, serialize_args(args.as_slice()));
            push_str(&mut out, ")");
        },
        MathExpression::Clamp { min, val, max } => {
            push_str(&mut out, "clamp(");
            push_all(&mut out, expression_to_css(min));
            push_str(&mut out, ", ");
            push_all(&mut out, expression_to_css(val));
            push_str(&mut out, ", ");
            push_all(&mut out, expression_to_css(max));
            push_str(&mut out, ")");
        },
    }
    proof {
        assert(out@ =~= math_atoms(math_model(*e)));
    }
    out
}

/// An operand, in parentheses when `grouped`.
fn operand_to_css(e: &MathExpression, grouped: bool) -> (r: Vec<CssAtom>)
    ensures
        r@ == if grouped {
            chars("("@) + math_atoms(math_model(*e)) + chars(")"@)
        } else {
            math_atoms(math_model(*e))
        },
    decreases e, 2int,
{
    let mut out: Vec<CssAtom> = Vec::new();
    if grouped {
        push_str(&mut out, "(");
    }
    push_all(&mut out, expression_to_css(e));
    if grouped {
        push_str(&mut out, ")");
    }
    out
}

fn is_sum_expression(e: &MathExpression) -> (b: bool)
    ensures
        b == (math_model(*e) is Sum),
{
    matches!(e, MathExpression::Sum(_, _))
}

fn is_compound_expression(e: &MathExpression) -> (b: bool)
    ensures
        b == is_compound(math_model(*e)),
{
    match e {
        MathExpression::Sum(_, _) | MathExpression::Product(_, _) | MathExpression::Quotient(_, _) => true,
        _ => false,
    }
}

/// Arguments joined by `, `.
fn serialize_args(args: &[MathExpression]) -> (r: Vec<CssAtom>)
    ensures
        r@ == args_atoms(math_models(args@)),
    decreases args@, 0int,
{
    let mut out: Vec<CssAtom> = Vec::new();
    let n = args.len();
    let mut i: usize = 0;
    proof {
        crate::math::lemma_math_models(args@);
        assert(args@.take(0) =~= Seq::<MathExpression>::empty());
    }
    while i < n
        invariant
            n == args@.len(),
            i <= n,
            out@ == args_atoms(math_models(args@.take(i as int))),
        decreases n - i,
    {
        if i > 0 {
            push_str(&mut out, ", ");
        }
        push_all(&mut out, expression_to_css(&args[i]));
        proof {
            let t = args@.take(i + 1);
            assert(t.drop_last() =~= args@.take(i as int));
            assert(math_models(t) == math_models(args@.take(i as int)).push(math_model(args@[i as int])));
            crate::math::lemma_math_models(t);
            assert(math_models(t).drop_last() =~= math_models(args@.take(i as int)));
            if i == 0 {
                assert(math_models(args@.take(0)) =~= Seq::<MathModel>::empty());
            }
            assert(out@ =~= args_atoms(math_models(t)));
        }
        i += 1;
    }
    assert(args@.take(n as int) =~= args@);
    out
}

/// A `var()` reference: `var(name)`, or `var(name, fallback)` with the
/// fallback's component values written one after the other and trimmed.
fn var_to_css(v: &VarReference) -> (r: Vec<CssAtom>)
    ensures
        r@ == var_atoms(
            v.name@,
            match v.fallback {
                Some(fb) => Some(models(fb@)),
                None => None,
            },
        ),
{
    let mut out: Vec<CssAtom> = Vec::new();
    push_str(&mut out, "var(");
    push_str(&mut out, v.name.as_str());
    match &v.fallback {
        None => {},
        Some(fallback) => {
            push_str(&mut out, ", ");
            let written = cvs_to_string(fallback.as_slice());
            push_all(&mut out, trim_atoms(&written));
        },
    }
    push_str(&mut out, ")");
    out
}

/// A component value of a `var()` fallback.
fn cv_to_string(cv: &ComponentValue) -> (r: Vec<CssAtom>)
    ensures
        r@ == cv_atoms(model(*cv)),
    decreases cv, 1int,
{
    let mut out: Vec<CssAtom> = Vec::new();
    match cv {
        ComponentValue::PreservedToken(t) => {
            push_all(&mut out, token_to_string(t));
        },
        ComponentValue::Function(f) => {
            push_str(&mut out, f.name.as_str());
            push_str(&mut out, "(");
            let written = cvs_to_string(f.value.as_slice());
            push_all(&mut out, trim_atoms(&written));
            push_str(&mut out, ")");
        },
        ComponentValue::SimpleBlock(_) => {},
    }
    out
}

/// Component values one after the other.
fn cvs_to_string(cvs: &[ComponentValue]) -> (r: Vec<CssAtom>)
    ensures
        r@ == cvs_atoms(models(cvs@)),
    decreases cvs@, 0int,
{
    let mut out: Vec<CssAtom> = Vec::new();
    let n = cvs.len();
    let mut i: usize = 0;
    proof {
        assert(cvs@.take(0) =~= Seq::<ComponentValue>::empty());
        assert(models(cvs@.take(0)) =~= Seq::<CvModel>::empty());
    }
    while i < n
        invariant
            n == cvs@.len(),
            i <= n,
            out@ == cvs_atoms(models(cvs@.take(i as int))),
        decreases n - i,
    {
        push_all(&mut out, cv_to_string(&cvs[i]));
        proof {
            let t = cvs@.take(i + 1);
            assert(t.drop_last() =~= cvs@.take(i as int));
            let m = models(t);
            assert(m == models(cvs@.take(i as int)).push(model(cvs@[i as int])));
            assert(m.drop_last() =~= models(cvs@.take(i as int)));
            assert(m[m.len() - 1] == model(cvs@[i as int]));
        }
        i += 1;
    }
    assert(cvs@.take(n as int) =~= cvs@);
    out
}

/// A preserved token of a `var()` fallback.
fn token_to_string(t: &Token) -> (r: Vec<CssAtom>)
    ensures
        r@ == token_atoms(*t),
{
    let mut out: Vec<CssAtom> = Vec::new();
    match t {
        Token::Ident(s) => push_str(&mut out, s.as_str()),
        Token::String(s) => {
            push_str(&mut out, "\"");
            push_str(&mut out, s.as_str());
            push_str(&mut out, "\"");
        },
        Token::Number(n) => push_number(&mut out, n.value),
        Token::Percentage(n) => {
            push_number(&mut out, n.value);
            push_str(&mut out, "%");
        },
        Token::Dimension(n, u) => {
            push_number(&mut out, n.value);
            push_str(&mut out, u.as_str());
        },
        Token::Whitespace => push_str(&mut out, " "),
        Token::Comma => push_str(&mut out, ","),
        Token::Colon => push_str(&mut out, ":"),
        Token::Semicolon => push_str(&mut out, ";"),
        Token::Delim(c) => out.push(CssAtom::Char(*c)),
        Token::Hash(s, _) => {
            push_str(&mut out, "#");
            push_str(&mut out, s.as_str());
        },
        _ => {},
    }
    proof {
        assert(out@ =~= token_atoms(*t));
    }
    out
}


// ── Spellings read back ─────────────────────────────────────────────

/// Every angle unit reads back from its CSS spelling.
pub proof fn lemma_angle_unit_round_trip(u: AngleUnit)
    ensures
        spec_angle_unit(angle_unit_text(u)) == Some(u),
{
    reveal_strlit("deg");
    reveal_strlit("grad");
    reveal_strlit("rad");
    reveal_strlit("turn");
    let t = angle_unit_text(u);
    lemma_eq_ic_equivalence(t, t, t);
    lemma_eq_ic_prefix(t, "deg"@);
    lemma_eq_ic_prefix(t, "grad"@);
    lemma_eq_ic_prefix(t, "rad"@);
    lemma_eq_ic_prefix(t, "turn"@);
}

/// Every time unit reads back from its CSS spelling.
pub proof fn lemma_time_unit_round_trip(u: TimeUnit)
    ensures
        spec_time_unit(time_unit_text(u)) == Some(u),
{
    reveal_strlit("s");
    reveal_strlit("ms");
    let t = time_unit_text(u);
    lemma_eq_ic_equivalence(t, t, t);
    lemma_eq_ic_prefix(t, "s"@);
    lemma_eq_ic_prefix(t, "ms"@);
}

/// Every frequency unit reads back from its CSS spelling.
pub proof fn lemma_frequency_unit_round_trip(u: FrequencyUnit)
    ensures
        spec_frequency_unit(frequency_unit_text(u)) == Some(u),
{
    reveal_strlit("hz");
    reveal_strlit("khz");
    reveal_strlit("Hz");
    reveal_strlit("kHz");
    let t = frequency_unit_text(u);
    lemma_eq_ic_equivalence(t, t, t);
    lemma_eq_ic_prefix(t, "hz"@);
    lemma_eq_ic_prefix(t, "khz"@);
}

/// Every resolution unit reads back from its CSS spelling.
pub proof fn lemma_resolution_unit_round_trip(u: ResolutionUnit)
    ensures
        spec_resolution_unit(resolution_unit_text(u)) == Some(u),
{
    reveal_strlit("dpi");
    reveal_strlit("dpcm");
    reveal_strlit("dppx");
    let t = resolution_unit_text(u);
    lemma_eq_ic_equivalence(t, t, t);
    lemma_eq_ic_prefix(t, "dpi"@);
    lemma_eq_ic_prefix(t, "dpcm"@);
    lemma_eq_ic_prefix(t, "dppx"@);
}

} // verus!
