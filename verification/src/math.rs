//! Math expressions — CSS Values Level 4 §9: the AST of `calc()`, `min()`,
//! `max()` and `clamp()`, built without evaluating anything.

use crate::calc_grammar::{
    add_node, alternates, args_spec, arguments_error, comma_pred, constant_of, error_after, error_from,
    function_error, function_spec, is_mul, is_op, lemma_args_none, lemma_arguments_last, lemma_arguments_step,
    lemma_bad_end, lemma_bad_operator, lemma_bad_value, lemma_count_end, lemma_count_step, lemma_count_ws,
    lemma_bad_divisor, lemma_error_after_ws, lemma_spaced_product, lemma_spaced_step,
    lemma_spaced_sub, lemma_spaced_ws, lemma_sum_accepts_well_formed, number_typed, product_end, product_rest,
    spaced_at, spaced_between, sum_end, sum_rest, sum_tokens, value_end, well_formed, is_add, all_number_typed, is_delim, lemma_last_where, lemma_last_where_is, lemma_next_nw,
    lemma_product_first, lemma_product_step, lemma_sum_first, lemma_sum_step, lemma_tokens, lemma_ws_extend,
    next_nw, nw_count, op_pred, strict_args, sum_spec, value_spec, ws_between,
};
use crate::numeric::{
    count_message, error, error_with, is_whitespace_token, single_non_ws_cv, sole_value, Length, LengthUnit,
    Number, ParseError, Percentage,
};
use crate::syntax::{
    is_comma, is_ws, models, non_ws, parse_list_of_component_values, spec_component_values, BlockKind, ComponentValue,
    CvModel, Function, Token,
};
use crate::text::{concat, decimal_string, eq_ic, eq_ignore_ascii_case};
use crate::var::VarReference;
use vstd::prelude::*;

verus! {

/// A math expression (css-values-4 §9).
#[derive(Debug)]
pub enum MathExpression {
    /// A `<length>`: `10px`, `1.5em`.
    Length(Length),
    /// A `<percentage>`: `50%`.
    Percentage(Percentage),
    /// A `<number>`: `3.14`, `42`.
    Number(Number),
    /// A math constant (§9.3).
    Constant(MathConstant),
    /// A `var()` reference.
    Var(VarReference),
    /// `-expr`.
    Negate(Box<MathExpression>),
    /// `a + b`.
    Sum(Box<MathExpression>, Box<MathExpression>),
    /// `a * b`.
    Product(Box<MathExpression>, Box<MathExpression>),
    /// `a / b`.
    Quotient(Box<MathExpression>, Box<MathExpression>),
    /// `min(a, b, ...)` (§9.2).
    Min(Vec<MathExpression>),
    /// `max(a, b, ...)` (§9.2).
    Max(Vec<MathExpression>),
    /// `clamp(min, val, max)` (§9.2).
    Clamp { min: Box<MathExpression>, val: Box<MathExpression>, max: Box<MathExpression> },
}

/// Math constants (§9.3).
#[derive(Debug, Clone, Copy, PartialEq, Eq, Structural)]
pub enum MathConstant {
    E,
    Pi,
    Infinity,
    NegInfinity,
    NaN,
}

/// The keyword of a math constant; `NaN` keeps its canonical case (§9.3).
pub open spec fn constant_text(c: MathConstant) -> Seq<char> {
    match c {
        MathConstant::E => "e"@,
        MathConstant::Pi => "pi"@,
        MathConstant::Infinity => "infinity"@,
        MathConstant::NegInfinity => "-infinity"@,
        MathConstant::NaN => "NaN"@,
    }
}

impl MathConstant {
    /// The keyword of the constant.
    pub fn to_str(self) -> (s: &'static str)
        ensures
            s@ == constant_text(self),
    {
        match self {
            MathConstant::E => "e",
            MathConstant::Pi => "pi",
            MathConstant::Infinity => "infinity",
            MathConstant::NegInfinity => "-infinity",
            MathConstant::NaN => "NaN",
        }
    }
}

/// A math expression with each list taken by its contents: what the
/// grammar in [`crate::calc_grammar`] describes.
pub enum MathModel {
    Length(Length),
    Percentage(Percentage),
    Number(Number),
    Constant(MathConstant),
    /// A `var()` reference: its name and its fallback.
    Var(Seq<char>, Option<Seq<CvModel>>),
    Negate(Box<MathModel>),
    Sum(Box<MathModel>, Box<MathModel>),
    Product(Box<MathModel>, Box<MathModel>),
    Quotient(Box<MathModel>, Box<MathModel>),
    Min(Seq<MathModel>),
    Max(Seq<MathModel>),
    Clamp(Box<MathModel>, Box<MathModel>, Box<MathModel>),
}

/// The model of a math expression.
pub open spec fn math_model(e: MathExpression) -> MathModel
    decreases e,
{
    match e {
        MathExpression::Length(l) => MathModel::Length(l),
        MathExpression::Percentage(p) => MathModel::Percentage(p),
        MathExpression::Number(n) => MathModel::Number(n),
        MathExpression::Constant(c) => MathModel::Constant(c),
        MathExpression::Var(v) => MathModel::Var(
            v.name@,
            match v.fallback {
                Some(fb) => Some(models(fb@)),
                None => None,
            },
        ),
        MathExpression::Negate(a) => MathModel::Negate(Box::new(math_model(*a))),
        MathExpression::Sum(a, b) => MathModel::Sum(Box::new(math_model(*a)), Box::new(math_model(*b))),
        MathExpression::Product(a, b) => MathModel::Product(
            Box::new(math_model(*a)),
            Box::new(math_model(*b)),
        ),
        MathExpression::Quotient(a, b) => MathModel::Quotient(
            Box::new(math_model(*a)),
            Box::new(math_model(*b)),
        ),
        MathExpression::Min(v) => MathModel::Min(math_models(v@)),
        MathExpression::Max(v) => MathModel::Max(math_models(v@)),
        MathExpression::Clamp { min, val, max } => MathModel::Clamp(
            Box::new(math_model(*min)),
            Box::new(math_model(*val)),
            Box::new(math_model(*max)),
        ),
    }
}

/// The models of a list of math expressions.
pub open spec fn math_models(s: Seq<MathExpression>) -> Seq<MathModel>
    decreases s,
{
    if s.len() == 0 {
        Seq::empty()
    } else {
        math_models(s.drop_last()).push(math_model(s.last()))
    }
}


/// The length of the models of a list, and each model in its place.
pub proof fn lemma_math_models(s: Seq<MathExpression>)
    ensures
        math_models(s).len() == s.len(),
        forall|i: int| 0 <= i < s.len() ==> #[trigger] math_models(s)[i] == math_model(s[i]),
    decreases s.len(),
{
    if s.len() > 0 {
        lemma_math_models(s.drop_last());
        assert forall|i: int| 0 <= i < s.len() implies #[trigger] math_models(s)[i] == math_model(s[i]) by {
            if i < s.len() - 1 {
                assert(s.drop_last()[i] == s[i]);
            }
        }
    }
}

/// A deep copy of a math expression.
fn copy_expression(e: &MathExpression) -> (r: MathExpression)
    ensures
        math_model(r) == math_model(*e),
    decreases e,
{
    match e {
        MathExpression::Length(l) => MathExpression::Length(*l),
        MathExpression::Percentage(p) => MathExpression::Percentage(*p),
        MathExpression::Number(n) => MathExpression::Number(*n),
        MathExpression::Constant(c) => MathExpression::Constant(*c),
        MathExpression::Var(v) => MathExpression::Var(v.clone()),
        MathExpression::Negate(a) => MathExpression::Negate(Box::new(copy_expression(a))),
        MathExpression::Sum(a, b) => MathExpression::Sum(Box::new(copy_expression(a)), Box::new(copy_expression(b))),
        MathExpression::Product(a, b) => MathExpression::Product(
            Box::new(copy_expression(a)),
            Box::new(copy_expression(b)),
        ),
        MathExpression::Quotient(a, b) => MathExpression::Quotient(
            Box::new(copy_expression(a)),
            Box::new(copy_expression(b)),
        ),
        MathExpression::Min(args) => MathExpression::Min(copy_expressions(args.as_slice())),
        MathExpression::Max(args) => MathExpression::Max(copy_expressions(args.as_slice())),
        MathExpression::Clamp { min, val, max } => MathExpression::Clamp {
            min: Box::new(copy_expression(min)),
            val: Box::new(copy_expression(val)),
            max: Box::new(copy_expression(max)),
        },
    }
}

/// Deep copies of a list of math expressions.
fn copy_expressions(v: &[MathExpression]) -> (r: Vec<MathExpression>)
    ensures
        math_models(r@) == math_models(v@),
    decreases v@,
{
    let mut r: Vec<MathExpression> = Vec::new();
    let mut i: usize = 0;
    assert(v@.take(0) =~= r@);
    while i < v.len()
        invariant
            i <= v@.len(),
            math_models(r@) == math_models(v@.take(i as int)),
        decreases v@.len() - i,
    {
        let c = copy_expression(&v[i]);
        let ghost before = r@;
        r.push(c);
        assert(r@.drop_last() =~= before);
        assert(v@.take(i + 1).drop_last() =~= v@.take(i as int));
        i += 1;
    }
    assert(v@.take(v@.len() as int) =~= v@);
    r
}

/// Whether a math expression has the type `<number>`.
fn is_number_typed(e: &MathExpression) -> (b: bool)
    ensures
        b == number_typed(math_model(*e)),
    decreases e,
{
    match e {
        MathExpression::Length(_) => false,
        MathExpression::Percentage(_) => false,
        MathExpression::Number(_) => true,
        MathExpression::Constant(_) => true,
        MathExpression::Var(_) => true,
        MathExpression::Negate(a) => is_number_typed(a),
        MathExpression::Sum(a, b) => is_number_typed(a) && is_number_typed(b),
        MathExpression::Product(a, b) => is_number_typed(a) && is_number_typed(b),
        MathExpression::Quotient(a, b) => is_number_typed(a) && is_number_typed(b),
        MathExpression::Min(args) => all_number_typed_exprs(args.as_slice()),
        MathExpression::Max(args) => all_number_typed_exprs(args.as_slice()),
        MathExpression::Clamp { min, val, max } => is_number_typed(min) && is_number_typed(val)
            && is_number_typed(max),
    }
}

/// Whether every expression of a list has the type `<number>`.
fn all_number_typed_exprs(v: &[MathExpression]) -> (b: bool)
    ensures
        b == all_number_typed(math_models(v@)),
    decreases v@,
{
    let mut ok = true;
    let mut i: usize = 0;
    assert(math_models(v@.take(0)) =~= Seq::<MathModel>::empty());
    while i < v.len()
        invariant
            i <= v@.len(),
            ok == all_number_typed(math_models(v@.take(i as int))),
        decreases v@.len() - i,
    {
        let t = is_number_typed(&v[i]);
        assert(v@.take(i + 1).drop_last() =~= v@.take(i as int));
        assert(v@.take(i + 1).last() == v@[i as int]);
        assert(math_models(v@.take(i + 1)).drop_last() =~= math_models(v@.take(i as int)));
        assert(math_models(v@.take(i + 1)) == math_models(v@.take(i as int)).push(math_model(v@[i as int])));
        ok = ok && t;
        i += 1;
    }
    assert(v@.take(v@.len() as int) =~= v@);
    ok
}

impl Clone for MathExpression {
    /// A deep copy.
    fn clone(&self) -> (r: Self)
        ensures
            math_model(r) == math_model(*self),
    {
        copy_expression(self)
    }
}

// ── Parsing ─────────────────────────────────────────────────────────

/// The math constant that an identifier names (ASCII case-insensitive).
fn constant_from_ident(s: &str) -> (r: Option<MathConstant>)
    ensures
        r == constant_of(s@),
{
    if eq_ignore_ascii_case(s, "e") {
        Some(MathConstant::E)
    } else if eq_ignore_ascii_case(s, "pi") {
        Some(MathConstant::Pi)
    } else if eq_ignore_ascii_case(s, "infinity") {
        Some(MathConstant::Infinity)
    } else if eq_ignore_ascii_case(s, "-infinity") {
        Some(MathConstant::NegInfinity)
    } else if eq_ignore_ascii_case(s, "nan") {
        Some(MathConstant::NaN)
    } else {
        None
    }
}

/// A left-to-right reader of the component values of one math expression.
///
/// Its methods read from `pos` on, as [`crate::calc_grammar::value_end`],
/// [`product_end`] and [`sum_end`] describe; whitespace only separates, but
/// for the whitespace that `+` and `-` need. A method that fails where an
/// even number of values and operators lie before it has found a list that
/// [`sum_spec`] refuses, and fails with the message that [`error_from`]
/// gives for the place where it started.
struct CalcParser<'a> {
    cvs: &'a [ComponentValue],
    pos: usize,
}

impl<'a> CalcParser<'a> {
    fn new(cvs: &'a [ComponentValue]) -> (p: Self)
        ensures
            p.cvs@ == cvs@,
            p.pos == 0,
    {
        CalcParser { cvs, pos: 0 }
    }

    /// The component value at `pos`, if any.
    fn peek(&self) -> (r: Option<&'a ComponentValue>)
        ensures
            match r {
                Some(cv) => self.pos < self.cvs@.len() && *cv == self.cvs@[self.pos as int],
                None => self.pos >= self.cvs@.len(),
            },
    {
        if self.pos < self.cvs.len() {
            Some(&self.cvs[self.pos])
        } else {
            None
        }
    }

    /// Moves past the component value at `pos`, if any, and returns it.
    fn advance(&mut self) -> (r: Option<&'a ComponentValue>)
        ensures
            final(self).cvs@ == old(self).cvs@,
            old(self).pos < old(self).cvs@.len() ==> final(self).pos == old(self).pos + 1 && r is Some,
            old(self).pos >= old(self).cvs@.len() ==> final(self).pos == old(self).pos && r is None,
    {
        if self.pos < self.cvs.len() {
            let cv = &self.cvs[self.pos];
            self.pos += 1;
            Some(cv)
        } else {
            None
        }
    }

    /// Moves `pos` to the next component value that is not whitespace.
    fn skip_whitespace(&mut self)
        requires
            old(self).pos <= old(self).cvs@.len(),
        ensures
            final(self).cvs@ == old(self).cvs@,
            final(self).pos == next_nw(old(self).cvs@, old(self).pos as int),
    {
        let ghost u = self.cvs@;
        let ghost p = self.pos as int;
        while self.pos < self.cvs.len() && is_whitespace_token(&self.cvs[self.pos])
            invariant
                self.cvs@ == u,
                p <= self.pos <= u.len(),
                next_nw(u, self.pos as int) == next_nw(u, p),
            decreases u.len() - self.pos,
        {
            self.pos += 1;
        }
    }

    /// Whether only whitespace is left.
    fn expect_eof(&self) -> (r: Result<(), ParseError>)
        requires
            self.pos <= self.cvs@.len(),
        ensures
            r is Ok <==> ws_between(self.cvs@, self.pos as int, self.cvs@.len() as int),
            r matches Err(e) ==> e.message@ == "unexpected trailing content in math expression"@,
    {
        let mut i = self.pos;
        while i < self.cvs.len()
            invariant
                self.pos <= i <= self.cvs@.len(),
                ws_between(self.cvs@, self.pos as int, i as int),
            decreases self.cvs@.len() - i,
        {
            if !is_whitespace_token(&self.cvs[i]) {
                return Err(error("unexpected trailing content in math expression"));
            }
            i += 1;
        }
        Ok(())
    }

    /// `calc-sum = calc-product ( ('+' | '-') calc-product )*`, each `+` and
    /// `-` with whitespace on both sides; it stops in front of the first
    /// component value that is neither whitespace nor `+` or `-`.
    fn parse_calc_sum(&mut self) -> (r: Result<MathExpression, ParseError>)
        requires
            old(self).pos <= old(self).cvs@.len(),
        ensures
            final(self).cvs@ == old(self).cvs@,
            ({
                let u = old(self).cvs@;
                let p0 = old(self).pos as int;
                let p = final(self).pos as int;
                &&& r is Ok <==> sum_end(u, p0) is Some
                &&& r is Err && nw_count(u, p0) % 2 == 0 ==> !well_formed(u)
                &&& r matches Err(e) ==> e.message@ == error_from(u, p0, false)
                &&& r matches Ok(e) ==> {
                    &&& sum_end(u, p0) == Some(p)
                    &&& p0 < p <= u.len()
                    &&& sum_spec(u.subrange(p0, p)) == Some(math_model(e))
                    &&& spaced_between(u, p0, p)
                    &&& error_from(u, p0, false) == error_after(u, p)
                    &&& p < u.len() ==> !is_ws(u[p]) && !is_op(u[p])
                    &&& nw_count(u, p0) % 2 == 0 ==> nw_count(u, p) % 2 == 1
                }
            }),
        decreases old(self).cvs@, 2int,
    {
        let ghost u = self.cvs@;
        let ghost p0 = self.pos as int;
        let mut left = match self.parse_calc_product() {
            Ok(e) => e,
            Err(e) => return Err(e),
        };
        proof {
            lemma_sum_first(u, p0, self.pos as int);
            lemma_spaced_product(u, p0, self.pos as int);
        }
        loop
            invariant
                self.cvs@ == u,
                old(self).cvs@ == u,
                old(self).pos == p0,
                0 <= p0 < self.pos <= u.len(),
                sum_tokens(u.subrange(p0, self.pos as int)) == Some(math_model(left)),
                spaced_between(u, p0, self.pos as int),
                next_nw(u, self.pos as int) < u.len() ==> !is_mul(u[next_nw(u, self.pos as int)]),
                nw_count(u, p0) % 2 == 0 ==> nw_count(u, self.pos as int) % 2 == 1,
                error_from(u, p0, false) == error_after(u, self.pos as int),
                sum_end(u, p0) == sum_rest(u, self.pos as int),
            ensures
                self.cvs@ == u,
                p0 < self.pos <= u.len(),
                sum_tokens(u.subrange(p0, self.pos as int)) == Some(math_model(left)),
                spaced_between(u, p0, self.pos as int),
                self.pos < u.len() ==> !is_ws(u[self.pos as int]) && !is_op(u[self.pos as int]),
                nw_count(u, p0) % 2 == 0 ==> nw_count(u, self.pos as int) % 2 == 1,
                error_from(u, p0, false) == error_after(u, self.pos as int),
                sum_end(u, p0) == Some(self.pos as int),
            decreases u.len() - self.pos,
        {
            let ghost p = self.pos as int;
            self.skip_whitespace();
            let q = self.pos;
            proof {
                lemma_next_nw(u, p);
                lemma_count_ws(u, p, q as int);
                lemma_ws_extend(u, p0, p, q as int);
                lemma_spaced_ws(u, p0, p, q as int);
                lemma_error_after_ws(u, p);
            }
            let op = match self.peek() {
                Some(ComponentValue::PreservedToken(Token::Delim(c))) => if *c == '+' || *c == '-' {
                    Some(*c)
                } else {
                    None
                },
                _ => None,
            };
            match op {
                Some(c) => {
                    let spaced = q > 0 && self.cvs.len() - q > 1 && is_whitespace_token(&self.cvs[q - 1])
                        && is_whitespace_token(&self.cvs[q + 1]);
                    assert(spaced == spaced_at(u, q as int));
                    if !spaced {
                        proof {
                            assert(is_add(u[q as int]));
                        }
                        return Err(error("'+' and '-' must have whitespace on both sides"));
                    }
                    self.advance();
                    proof {
                        lemma_count_step(u, q as int);
                    }
                    let right = match self.parse_calc_product() {
                        Ok(e) => e,
                        Err(e) => return Err(e),
                    };
                    proof {
                        lemma_sum_step(u, p0, p, q as int, self.pos as int);
                        lemma_spaced_step(u, p0, p, q as int, self.pos as int);
                    }
                    let ghost a = math_model(left);
                    let ghost b = math_model(right);
                    assert(sum_tokens(u.subrange(p0, self.pos as int)) == Some(add_node(a, u[q as int], b)));
                    if c == '+' {
                        left = MathExpression::Sum(Box::new(left), Box::new(right));
                        assert(math_model(left) == add_node(a, u[q as int], b));
                    } else {
                        // a - b = a + (-b)
                        let negated = MathExpression::Negate(Box::new(right));
                        assert(math_model(negated) == MathModel::Negate(Box::new(b)));
                        left = MathExpression::Sum(Box::new(left), Box::new(negated));
                    }
                },
                None => {
                    break ;
                },
            }
        }
        proof {
            lemma_spaced_sub(u, p0, self.pos as int);
        }
        Ok(left)
    }

    /// `calc-product = calc-value ( ('*' | '/') calc-value )*`, the divisor
    /// of each `/` a `<number>`; it leaves `pos` right after its last value.
    fn parse_calc_product(&mut self) -> (r: Result<MathExpression, ParseError>)
        requires
            old(self).pos <= old(self).cvs@.len(),
        ensures
            final(self).cvs@ == old(self).cvs@,
            ({
                let u = old(self).cvs@;
                let p0 = old(self).pos as int;
                let p = final(self).pos as int;
                &&& r is Ok <==> product_end(u, p0) is Some
                &&& r is Err && nw_count(u, p0) % 2 == 0 ==> !alternates(non_ws(u), op_pred())
                &&& r matches Err(e) ==> e.message@ == error_from(u, p0, false)
                &&& r matches Ok(e) ==> {
                    &&& product_end(u, p0) == Some(p)
                    &&& p0 < p <= u.len()
                    &&& crate::calc_grammar::product_spec(u.subrange(p0, p)) == Some(math_model(e))
                    &&& error_from(u, p0, false) == error_after(u, p)
                    &&& next_nw(u, p) < u.len() ==> !is_mul(u[next_nw(u, p)])
                    &&& nw_count(u, p0) % 2 == 0 ==> nw_count(u, p) % 2 == 1
                }
            }),
        decreases old(self).cvs@, 1int,
    {
        let ghost u = self.cvs@;
        let ghost p0 = self.pos as int;
        let mut left = match self.parse_calc_value() {
            Ok(e) => e,
            Err(e) => return Err(e),
        };
        proof {
            lemma_next_nw(u, p0);
            lemma_product_first(u, p0, next_nw(u, p0));
        }
        loop
            invariant
                self.cvs@ == u,
                old(self).cvs@ == u,
                old(self).pos == p0,
                0 <= p0 < self.pos <= u.len(),
                crate::calc_grammar::product_spec(u.subrange(p0, self.pos as int)) == Some(math_model(left)),
                nw_count(u, p0) % 2 == 0 ==> nw_count(u, self.pos as int) % 2 == 1,
                error_from(u, p0, false) == error_after(u, self.pos as int),
                product_end(u, p0) == product_rest(u, self.pos as int),
            ensures
                self.cvs@ == u,
                p0 < self.pos <= u.len(),
                crate::calc_grammar::product_spec(u.subrange(p0, self.pos as int)) == Some(math_model(left)),
                next_nw(u, self.pos as int) < u.len() ==> !is_mul(u[next_nw(u, self.pos as int)]),
                nw_count(u, p0) % 2 == 0 ==> nw_count(u, self.pos as int) % 2 == 1,
                error_from(u, p0, false) == error_after(u, self.pos as int),
                product_end(u, p0) == Some(self.pos as int),
            decreases u.len() - self.pos,
        {
            let saved_pos = self.pos;
            self.skip_whitespace();
            let q = self.pos;
            proof {
                lemma_next_nw(u, saved_pos as int);
                lemma_count_ws(u, saved_pos as int, q as int);
            }
            let op = match self.peek() {
                Some(ComponentValue::PreservedToken(Token::Delim(c))) => if *c == '*' || *c == '/' {
                    Some(*c)
                } else {
                    None
                },
                _ => None,
            };
            match op {
                Some(c) => {
                    self.advance();
                    proof {
                        lemma_count_step(u, q as int);
                        lemma_next_nw(u, q + 1);
                        assert(error_after(u, saved_pos as int) == error_from(u, q + 1, is_delim(u[q as int], '/')));
                    }
                    let right = match self.parse_calc_value() {
                        Ok(e) => e,
                        Err(e) => return Err(e),
                    };
                    let ghost j = next_nw(u, q + 1);
                    if c == '/' && !is_number_typed(&right) {
                        proof {
                            if nw_count(u, p0) % 2 == 0 {
                                lemma_bad_divisor(u, q as int, j);
                            }
                        }
                        return Err(error("the divisor of '/' must be a number"));
                    }
                    proof {
                        lemma_product_step(u, p0, saved_pos as int, q as int, j);
                    }
                    if c == '*' {
                        left = MathExpression::Product(Box::new(left), Box::new(right));
                    } else {
                        left = MathExpression::Quotient(Box::new(left), Box::new(right));
                    }
                },
                None => {
                    // Not `*` or `/`: the whitespace stays unread.
                    self.pos = saved_pos;
                    break ;
                },
            }
        }
        Ok(left)
    }

    /// `calc-value`: a number, a percentage, a length, a math constant, a
    /// parenthesized sum or a math function.
    fn parse_calc_value(&mut self) -> (r: Result<MathExpression, ParseError>)
        requires
            old(self).pos <= old(self).cvs@.len(),
        ensures
            final(self).cvs@ == old(self).cvs@,
            ({
                let u = old(self).cvs@;
                let p = old(self).pos as int;
                let j = next_nw(u, p);
                &&& r is Ok <==> value_end(u, p) is Some
                &&& r is Err && nw_count(u, p) % 2 == 0 ==> !alternates(non_ws(u), op_pred())
                &&& r matches Err(e) ==> e.message@ == error_from(u, p, false) && error_from(u, p, true)
                    == error_from(u, p, false)
                &&& r matches Ok(e) ==> {
                    &&& j < u.len()
                    &&& final(self).pos == j + 1
                    &&& value_spec(u[j]) == Some(math_model(e))
                    &&& error_from(u, p, false) == error_after(u, j + 1)
                    &&& error_from(u, p, true) == if number_typed(math_model(e)) {
                        error_after(u, j + 1)
                    } else {
                        "the divisor of '/' must be a number"@
                    }
                    &&& nw_count(u, j + 1) == nw_count(u, p) + 1
                }
            }),
        decreases old(self).cvs@, 0int,
    {
        let ghost u = self.cvs@;
        let ghost p = self.pos as int;
        self.skip_whitespace();
        proof {
            lemma_next_nw(u, p);
            lemma_count_ws(u, p, self.pos as int);
        }
        let cv = match self.peek() {
            Some(cv) => cv,
            None => {
                proof {
                    if nw_count(u, p) % 2 == 0 {
                        lemma_bad_end(u);
                    }
                }
                return Err(error("unexpected end of calc expression"));
            },
        };
        let ghost j = self.pos as int;
        proof {
            lemma_count_step(u, j);
            if value_spec(u[j]) is None && nw_count(u, p) % 2 == 0 {
                lemma_bad_value(u, j);
            }
        }
        match cv {
            ComponentValue::PreservedToken(Token::Number(numeric)) => {
                let value = numeric.value;
                self.advance();
                Ok(MathExpression::Number(Number { value }))
            },
            ComponentValue::PreservedToken(Token::Percentage(numeric)) => {
                let value = numeric.value;
                self.advance();
                Ok(MathExpression::Percentage(Percentage { value }))
            },
            ComponentValue::PreservedToken(Token::Dimension(numeric, unit)) => {
                let value = numeric.value;
                self.advance();
                match LengthUnit::parse_unit(unit.as_str()) {
                    Some(length_unit) => Ok(MathExpression::Length(Length { value, unit: length_unit })),
                    None => Err(
                        error_with("calc() currently supports only length dimensions, got unit: ", unit.as_str()),
                    ),
                }
            },
            ComponentValue::PreservedToken(Token::Ident(s)) => {
                self.advance();
                match constant_from_ident(s.as_str()) {
                    Some(c) => Ok(MathExpression::Constant(c)),
                    None => Err(error_with("unknown calc constant or identifier: ", s.as_str())),
                }
            },
            ComponentValue::SimpleBlock(block) if block.kind == BlockKind::Paren => {
                self.advance();
                parse_sum_to_end(block.value.as_slice())
            },
            ComponentValue::Function(f) => {
                self.advance();
                parse_math_function_body(f)
            },
            _ => Err(error("unexpected token in calc expression")),
        }
    }
}

/// Parses a whole list of component values as one `calc-sum`.
fn parse_sum_to_end(cvs: &[ComponentValue]) -> (r: Result<MathExpression, ParseError>)
    ensures
        r is Ok <==> sum_spec(cvs@) is Some,
        r matches Ok(e) ==> sum_spec(cvs@) == Some(math_model(e)),
        r matches Err(e) ==> e.message@ == error_from(cvs@, 0, false),
    decreases cvs@, 3int,
{
    let ghost u = cvs@;
    let mut parser = CalcParser::new(cvs);
    proof {
        lemma_count_end(u);
        lemma_sum_accepts_well_formed(u);
    }
    let expr = match parser.parse_calc_sum() {
        Ok(e) => e,
        Err(err) => return Err(err),
    };
    match parser.expect_eof() {
        Ok(()) => {},
        Err(err) => {
            proof {
                lemma_bad_operator(u, parser.pos as int);
            }
            return Err(err);
        },
    }
    proof {
        lemma_ws_extend(u, 0, parser.pos as int, u.len() as int);
        lemma_spaced_ws(u, 0, parser.pos as int, u.len() as int);
        lemma_spaced_sub(u, 0, u.len() as int);
        assert(u.subrange(0, u.len() as int) =~= u);
    }
    Ok(expr)
}


/// Parses the arguments of `min()`, `max()` and `clamp()`: the values
/// between commas, each one sum; an empty list is no argument, and an empty
/// argument, a trailing comma's included, is refused.
fn parse_comma_separated_calc_sums(cvs: &[ComponentValue]) -> (r: Result<Vec<MathExpression>, ParseError>)
    ensures
        r is Ok <==> args_spec(cvs@) is Some,
        r matches Ok(v) ==> args_spec(cvs@) == Some(math_models(v@)),
        r matches Err(e) ==> e.message@ == arguments_error(cvs@, 0),
    decreases cvs@, 4int,
{
    let ghost u = cvs@;
    let n = cvs.len();
    let mut args: Vec<MathExpression> = Vec::new();
    let mut start: usize = 0;
    let mut i: usize = 0;
    while i < n
        invariant
            n == u.len(),
            cvs@ == u,
            start <= i <= n,
            forall|k: int| start <= k < i ==> !is_comma(#[trigger] u[k]),
            start == 0 ==> args@.len() == 0,
            start > 0 ==> is_comma(u[start - 1]) && strict_args(u.subrange(0, start - 1)) == Some(
                math_models(args@),
            ),
            arguments_error(u, 0) == arguments_error(u, start as int),
        decreases n - i,
    {
        if is_comma_token(&cvs[i]) {
            let ghost v = u.subrange(0, i as int);
            proof {
                lemma_last_where(v, comma_pred());
                if start > 0 {
                    assert(v[start - 1] == u[start - 1]);
                    assert forall|k: int| start - 1 < k < v.len() implies !comma_pred()(#[trigger] v[k]) by {
                        assert(v[k] == u[k]);
                    }
                    lemma_last_where_is(v, comma_pred(), start - 1);
                    assert(v.subrange(0, start - 1) =~= u.subrange(0, start - 1));
                } else {
                    assert forall|k: int| -1 < k < v.len() implies !comma_pred()(#[trigger] v[k]) by {
                        assert(v[k] == u[k]);
                    }
                    lemma_last_where_is(v, comma_pred(), -1);
                }
                assert(v.subrange(start as int, v.len() as int) =~= u.subrange(start as int, i as int));
            }
            let segment = vstd::slice::slice_subrange(cvs, start, i);
            assert(segment@ == u.subrange(start as int, i as int));
            assert(decreases_to!(cvs@ => segment@));
            proof {
                lemma_arguments_step(u, start as int, i as int);
            }
            let expr = match parse_sum_to_end(segment) {
                Ok(e) => e,
                Err(e) => {
                    proof {
                        if start == 0 {
                            assert(v =~= u.subrange(0, i as int));
                        }
                        lemma_args_none(u, i as int);
                    }
                    return Err(e);
                },
            };
            let ghost before = args@;
            args.push(expr);
            proof {
                assert(args@.drop_last() =~= before);
                if start == 0 {
                    assert(math_models(args@) =~= seq![math_model(expr)]) by {
                        assert(before =~= Seq::<MathExpression>::empty());
                        assert(math_models(before) =~= Seq::<MathModel>::empty());
                    }
                    assert(v =~= v.subrange(0, v.len() as int));
                }
            }
            start = i + 1;
        }
        i += 1;
    }
    proof {
        lemma_last_where(u, comma_pred());
        if start > 0 {
            assert forall|k: int| start - 1 < k < u.len() implies !comma_pred()(#[trigger] u[k]) by {}
            lemma_last_where_is(u, comma_pred(), start - 1);
        } else {
            assert forall|k: int| -1 < k < u.len() implies !comma_pred()(#[trigger] u[k]) by {}
            lemma_last_where_is(u, comma_pred(), -1);
        }
    }
    proof {
        lemma_arguments_last(u, start as int);
    }
    if start < n || start > 0 {
        let segment = vstd::slice::slice_subrange(cvs, start, n);
        assert(segment@ == u.subrange(start as int, n as int));
        proof {
            if start == 0 {
                assert(segment@ =~= cvs@);
            } else {
                assert(decreases_to!(cvs@ => segment@));
            }
        }
        let expr = match parse_sum_to_end(segment) {
            Ok(e) => e,
            Err(e) => {
                proof {
                    if start == 0 {
                        assert(u.subrange(0, n as int) =~= u);
                    }
                }
                return Err(e);
            },
        };
        let ghost before = args@;
        args.push(expr);
        proof {
            assert(args@.drop_last() =~= before);
            if start == 0 {
                assert(u.subrange(0, n as int) =~= u);
                assert(math_models(args@) =~= seq![math_model(expr)]) by {
                    assert(before =~= Seq::<MathExpression>::empty());
                    assert(math_models(before) =~= Seq::<MathModel>::empty());
                }
            }
        }
    } else {
        proof {
            if start == 0 {
                assert(math_models(args@) =~= Seq::<MathModel>::empty()) by {
                    assert(args@ =~= Seq::<MathExpression>::empty());
                }
            }
        }
    }
    Ok(args)
}

/// Whether a component value is a comma token.
fn is_comma_token(cv: &ComponentValue) -> (b: bool)
    ensures
        b == is_comma(*cv),
{
    matches!(cv, ComponentValue::PreservedToken(Token::Comma))
}

/// Parses the body of a math function: `calc()`, `min()`, `max()`,
/// `clamp()` or `var()`, the name compared without regard to ASCII case.
#[verifier::rlimit(30)]
fn parse_math_function_body(f: &Function) -> (r: Result<MathExpression, ParseError>)
    ensures
        r is Ok <==> function_spec(*f) is Some,
        r matches Ok(e) ==> function_spec(*f) == Some(math_model(e)),
        r matches Err(e) ==> e.message@ == function_error(*f),
    decreases f, 5int,
{
    let name = f.name.as_str();
    if eq_ignore_ascii_case(name, "calc") {
        parse_sum_to_end(f.value.as_slice())
    } else if eq_ignore_ascii_case(name, "min") || eq_ignore_ascii_case(name, "max") {
        let args = match parse_comma_separated_calc_sums(f.value.as_slice()) {
            Ok(a) => a,
            Err(e) => return Err(e),
        };
        proof {
            lemma_math_models(args@);
        }
        if args.len() == 0 {
            return Err(error_with(name, "() requires at least one argument"));
        }
        if eq_ignore_ascii_case(name, "min") {
            Ok(MathExpression::Min(args))
        } else {
            Ok(MathExpression::Max(args))
        }
    } else if eq_ignore_ascii_case(name, "clamp") {
        let mut args = match parse_comma_separated_calc_sums(f.value.as_slice()) {
            Ok(a) => a,
            Err(e) => return Err(e),
        };
        proof {
            lemma_math_models(args@);
        }
        if args.len() != 3 {
            return Err(
                error_with("clamp() requires exactly 3 arguments, got ", decimal_string(args.len()).as_str()),
            );
        }
        let ghost all = args@;
        let max = args.pop().unwrap();
        let val = args.pop().unwrap();
        let min = args.pop().unwrap();
        assert(min == all[0] && val == all[1] && max == all[2]);
        Ok(MathExpression::Clamp { min: Box::new(min), val: Box::new(val), max: Box::new(max) })
    } else if eq_ignore_ascii_case(name, "var") {
        match VarReference::from_function(f) {
            Ok(v) => Ok(MathExpression::Var(v)),
            Err(e) => Err(e),
        }
    } else {
        Err(error_with("unsupported math function: ", concat(name, "()").as_str()))
    }
}


// ── Entry points ────────────────────────────────────────────────────

/// The names of the functions that [`parse_calc`] accepts: `calc()`, and
/// `min()`, `max()` and `clamp()` as well (ASCII case-insensitive).
pub open spec fn is_calc_name(name: Seq<char>) -> bool {
    eq_ic(name, "calc"@) || eq_ic(name, "min"@) || eq_ic(name, "max"@) || eq_ic(name, "clamp"@)
}

/// The math expression of a list of component values: a single `calc()`,
/// `min()`, `max()` or `clamp()` function, whitespace around it.
pub open spec fn spec_calc(cvs: Seq<ComponentValue>) -> Option<MathModel> {
    match sole_value(cvs) {
        Some(ComponentValue::Function(f)) => if is_calc_name(f.name@) {
            function_spec(f)
        } else {
            None
        },
        _ => None,
    }
}

/// The math function of a list of component values: a single `calc()`,
/// `min()`, `max()`, `clamp()` or `var()` function, whitespace around it.
pub open spec fn spec_math_function(cvs: Seq<ComponentValue>) -> Option<MathModel> {
    match sole_value(cvs) {
        Some(ComponentValue::Function(f)) => function_spec(f),
        _ => None,
    }
}

/// The message with which a list that is not a `calc()` expression is refused.
pub open spec fn calc_error(cvs: Seq<ComponentValue>) -> Seq<char> {
    match sole_value(cvs) {
        None => count_message(cvs),
        Some(ComponentValue::Function(f)) => if is_calc_name(f.name@) {
            function_error(f)
        } else {
            "expected calc() function"@
        },
        Some(_) => "expected calc() function"@,
    }
}

/// The message with which a list that is not a math function is refused.
pub open spec fn math_function_error(cvs: Seq<ComponentValue>) -> Seq<char> {
    match sole_value(cvs) {
        None => count_message(cvs),
        Some(ComponentValue::Function(f)) => function_error(f),
        Some(_) => "expected a math function (calc/min/max/clamp)"@,
    }
}

/// Every `calc()` expression is a math function, with the same value.
pub proof fn lemma_calc_is_math_function(cvs: Seq<ComponentValue>)
    ensures
        spec_calc(cvs) is Some ==> spec_math_function(cvs) == spec_calc(cvs),
{
}

/// Parses a `calc(...)` expression from CSS text; `min()`, `max()` and
/// `clamp()` are accepted too. `*` and `/` bind tighter than `+` and `-`, and
/// each is left-associative (§9.7).
pub fn parse_calc(input: &str) -> (r: Result<MathExpression, ParseError>)
    ensures
        r is Ok <==> spec_calc(spec_component_values(input@)) is Some,
        r matches Ok(e) ==> spec_calc(spec_component_values(input@)) == Some(math_model(e)),
        r matches Err(e) ==> e.message@ == calc_error(spec_component_values(input@)),
{
    let cvs = parse_list_of_component_values(input);
    parse_calc_from_cvs(cvs.as_slice())
}

/// Parses a `calc()`, `min()`, `max()` or `clamp()` function from component values.
pub fn parse_calc_from_cvs(cvs: &[ComponentValue]) -> (r: Result<MathExpression, ParseError>)
    ensures
        r is Ok <==> spec_calc(cvs@) is Some,
        r matches Ok(e) ==> spec_calc(cvs@) == Some(math_model(e)),
        r matches Err(e) ==> e.message@ == calc_error(cvs@),
{
    let cv = match single_non_ws_cv(cvs) {
        Ok(cv) => cv,
        Err(e) => return Err(e),
    };
    match cv {
        ComponentValue::Function(f) => {
            let name = f.name.as_str();
            if eq_ignore_ascii_case(name, "calc") || eq_ignore_ascii_case(name, "min") || eq_ignore_ascii_case(
                name,
                "max",
            ) || eq_ignore_ascii_case(name, "clamp") {
                parse_math_function_body(f)
            } else {
                Err(error("expected calc() function"))
            }
        },
        _ => Err(error("expected calc() function")),
    }
}

/// Parses any math function (`calc()`, `min()`, `max()`, `clamp()`,
/// `var()`) from CSS text.
pub fn parse_math_function(input: &str) -> (r: Result<MathExpression, ParseError>)
    ensures
        r is Ok <==> spec_math_function(spec_component_values(input@)) is Some,
        r matches Ok(e) ==> spec_math_function(spec_component_values(input@)) == Some(math_model(e)),
        r matches Err(e) ==> e.message@ == math_function_error(spec_component_values(input@)),
{
    let cvs = parse_list_of_component_values(input);
    parse_math_function_from_cvs(cvs.as_slice())
}

/// Parses any math function from component values.
pub fn parse_math_function_from_cvs(cvs: &[ComponentValue]) -> (r: Result<MathExpression, ParseError>)
    ensures
        r is Ok <==> spec_math_function(cvs@) is Some,
        r matches Ok(e) ==> spec_math_function(cvs@) == Some(math_model(e)),
        r matches Err(e) ==> e.message@ == math_function_error(cvs@),
{
    let cv = match single_non_ws_cv(cvs) {
        Ok(cv) => cv,
        Err(e) => return Err(e),
    };
    match cv {
        ComponentValue::Function(f) => parse_math_function_body(f),
        _ => Err(error("expected a math function (calc/min/max/clamp)")),
    }
}

} // verus!
