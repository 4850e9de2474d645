//! The grammar of math expressions (CSS Values Level 4 §9.7) as spec
//! functions over component values, with the lemmas that the parser in
//! [`crate::math`] is proved by.
//!
//! Whitespace tokens separate, and `+` and `-` need them on both sides; the
//! grammar reads the other component values. A sum is split at its last `+`
//! or `-`, a product at its last `*` or `/`, which makes both operators
//! left-associative and lets `*` and `/` bind tighter than `+` and `-`:
//!
//! ```text
//! calc-sum     = calc-product ( ws ('+' | '-') ws calc-product )*
//! calc-product = calc-value ( ('*' | '/') calc-value )*   (the divisor of '/' a <number>)
//! calc-value   = <number> | <length> | <percentage> | <calc-constant>
//!              | '(' calc-sum ')' | <math-function>
//! ```
//!
//! Beside this grammar stands the same language read left to right, as the
//! parser reads it ([`value_end`], [`product_end`], [`sum_end`]), and the
//! message of the first place where that reading fails ([`error_from`]).

use crate::math::{constant_text, MathConstant, MathModel};
use crate::numeric::{spec_length_unit, Length, Number, Percentage};
use crate::syntax::{is_comma, is_ws, models, non_ws, BlockKind, ComponentValue, Function, Token};
use crate::text::{decimal, eq_ic, lemma_eq_ic_equivalence, lemma_eq_ic_prefix, lemma_eq_ic_same};
use crate::var::{spec_var_of_function, var_function_error};
use vstd::prelude::*;

verus! {

/// A delimiter token holding `c`.
pub open spec fn is_delim(cv: ComponentValue, c: char) -> bool {
    cv matches ComponentValue::PreservedToken(Token::Delim(d)) && d == c
}

/// A `+` or `-` delimiter.
pub open spec fn is_add(cv: ComponentValue) -> bool {
    is_delim(cv, '+') || is_delim(cv, '-')
}

/// A `*` or `/` delimiter.
pub open spec fn is_mul(cv: ComponentValue) -> bool {
    is_delim(cv, '*') || is_delim(cv, '/')
}

/// One of the four operator delimiters.
pub open spec fn is_op(cv: ComponentValue) -> bool {
    is_add(cv) || is_mul(cv)
}

/// `is_add`, as a predicate.
pub open spec fn add_pred() -> spec_fn(ComponentValue) -> bool {
    |c: ComponentValue| is_add(c)
}

/// `is_mul`, as a predicate.
pub open spec fn mul_pred() -> spec_fn(ComponentValue) -> bool {
    |c: ComponentValue| is_mul(c)
}

/// Not whitespace, as a predicate.
pub open spec fn nw_pred() -> spec_fn(ComponentValue) -> bool {
    |c: ComponentValue| !is_ws(c)
}

/// `is_comma`, as a predicate.
pub open spec fn comma_pred() -> spec_fn(ComponentValue) -> bool {
    |c: ComponentValue| is_comma(c)
}

/// The position of the last element of `u` that satisfies `p`, or -1.
pub open spec fn last_where(u: Seq<ComponentValue>, p: spec_fn(ComponentValue) -> bool) -> int
    decreases u.len(),
{
    if u.len() == 0 {
        -1
    } else if p(u.last()) {
        u.len() - 1
    } else {
        last_where(u.drop_last(), p)
    }
}

/// `last_where` is in range, satisfies `p`, and nothing after it does.
pub proof fn lemma_last_where(u: Seq<ComponentValue>, p: spec_fn(ComponentValue) -> bool)
    ensures
        -1 <= last_where(u, p) < u.len(),
        last_where(u, p) >= 0 ==> p(u[last_where(u, p)]),
        forall|j: int| last_where(u, p) < j < u.len() ==> !p(#[trigger] u[j]),
    decreases u.len(),
{
    if u.len() > 0 && !p(u.last()) {
        lemma_last_where(u.drop_last(), p);
        assert forall|j: int| last_where(u, p) < j < u.len() implies !p(#[trigger] u[j]) by {
            if j < u.len() - 1 {
                assert(u[j] == u.drop_last()[j]);
            }
        }
    }
}

/// `last_where` is the last position where `p` holds.
pub proof fn lemma_last_where_is(u: Seq<ComponentValue>, p: spec_fn(ComponentValue) -> bool, k: int)
    requires
        -1 <= k < u.len(),
        k >= 0 ==> p(u[k]),
        forall|j: int| k < j < u.len() ==> !p(#[trigger] u[j]),
    ensures
        last_where(u, p) == k,
    decreases u.len(),
{
    if u.len() > 0 && k < u.len() - 1 {
        assert(!p(u[u.len() - 1]));
        assert forall|j: int| k < j < u.drop_last().len() implies !p(#[trigger] u.drop_last()[j]) by {
            assert(u.drop_last()[j] == u[j]);
        }
        lemma_last_where_is(u.drop_last(), p, k);
    }
}

/// A math constant (§9.3), named without regard to ASCII case.
pub open spec fn constant_of(s: Seq<char>) -> Option<MathConstant> {
    if eq_ic(s, "e"@) {
        Some(MathConstant::E)
    } else if eq_ic(s, "pi"@) {
        Some(MathConstant::Pi)
    } else if eq_ic(s, "infinity"@) {
        Some(MathConstant::Infinity)
    } else if eq_ic(s, "-infinity"@) {
        Some(MathConstant::NegInfinity)
    } else if eq_ic(s, "nan"@) {
        Some(MathConstant::NaN)
    } else {
        None
    }
}

/// `a + b`, or `a - b` written as `a + (-b)`.
pub open spec fn add_node(a: MathModel, op: ComponentValue, b: MathModel) -> MathModel {
    if is_delim(op, '+') {
        MathModel::Sum(Box::new(a), Box::new(b))
    } else {
        MathModel::Sum(Box::new(a), Box::new(MathModel::Negate(Box::new(b))))
    }
}

/// Whether a math expression has the type `<number>`: numbers and constants,
/// and what operations and functions build of them alone. A `var()` counts as
/// one: its value is unknown until it is substituted.
pub open spec fn number_typed(m: MathModel) -> bool
    decreases m,
{
    match m {
        MathModel::Number(_) => true,
        MathModel::Constant(_) => true,
        MathModel::Var(_, _) => true,
        MathModel::Length(_) => false,
        MathModel::Percentage(_) => false,
        MathModel::Negate(a) => number_typed(*a),
        MathModel::Sum(a, b) => number_typed(*a) && number_typed(*b),
        MathModel::Product(a, b) => number_typed(*a) && number_typed(*b),
        MathModel::Quotient(a, b) => number_typed(*a) && number_typed(*b),
        MathModel::Min(args) => all_number_typed(args),
        MathModel::Max(args) => all_number_typed(args),
        MathModel::Clamp(a, b, c) => number_typed(*a) && number_typed(*b) && number_typed(*c),
    }
}

/// Whether every expression of a list has the type `<number>`.
pub open spec fn all_number_typed(s: Seq<MathModel>) -> bool
    decreases s,
{
    if s.len() == 0 {
        true
    } else {
        all_number_typed(s.drop_last()) && number_typed(s[s.len() - 1])
    }
}

/// `a * b` or `a / b`; the divisor of `/` must be a `<number>`.
pub open spec fn mul_node(a: MathModel, op: ComponentValue, b: MathModel) -> MathModel {
    if is_delim(op, '*') {
        MathModel::Product(Box::new(a), Box::new(b))
    } else {
        MathModel::Quotient(Box::new(a), Box::new(b))
    }
}

/// The value of the var() reference in a `var()` function.
pub open spec fn var_model(f: Function) -> Option<MathModel> {
    match spec_var_of_function(f) {
        Some((name, fallback)) => Some(
            MathModel::Var(
                name,
                match fallback {
                    Some(fb) => Some(models(fb)),
                    None => None,
                },
            ),
        ),
        None => None,
    }
}

/// A `calc-value`: a number, a percentage, a length, a math constant, a
/// parenthesized sum, or a math function.
pub open spec fn value_spec(cv: ComponentValue) -> Option<MathModel>
    decreases cv, 0int,
{
    match cv {
        ComponentValue::PreservedToken(Token::Number(n)) => Some(MathModel::Number(Number { value: n.value })),
        ComponentValue::PreservedToken(Token::Percentage(n)) => Some(
            MathModel::Percentage(Percentage { value: n.value }),
        ),
        ComponentValue::PreservedToken(Token::Dimension(n, unit)) => match spec_length_unit(unit@) {
            Some(u) => Some(MathModel::Length(Length { value: n.value, unit: u })),
            None => None,
        },
        ComponentValue::PreservedToken(Token::Ident(s)) => match constant_of(s@) {
            Some(c) => Some(MathModel::Constant(c)),
            None => None,
        },
        ComponentValue::SimpleBlock(b) => if b.kind == BlockKind::Paren {
            sum_spec(b.value@)
        } else {
            None
        },
        ComponentValue::Function(f) => function_spec(f),
        _ => None,
    }
}

/// A math function: `calc()`, `min()`, `max()`, `clamp()` or `var()`, its
/// name compared without regard to ASCII case.
pub open spec fn function_spec(f: Function) -> Option<MathModel>
    decreases f, 0int,
{
    if eq_ic(f.name@, "calc"@) {
        sum_spec(f.value@)
    } else if eq_ic(f.name@, "min"@) {
        match args_spec(f.value@) {
            Some(args) => if args.len() > 0 {
                Some(MathModel::Min(args))
            } else {
                None
            },
            None => None,
        }
    } else if eq_ic(f.name@, "max"@) {
        match args_spec(f.value@) {
            Some(args) => if args.len() > 0 {
                Some(MathModel::Max(args))
            } else {
                None
            },
            None => None,
        }
    } else if eq_ic(f.name@, "clamp"@) {
        match args_spec(f.value@) {
            Some(args) => if args.len() == 3 {
                Some(MathModel::Clamp(Box::new(args[0]), Box::new(args[1]), Box::new(args[2])))
            } else {
                None
            },
            None => None,
        }
    } else if eq_ic(f.name@, "var"@) {
        var_model(f)
    } else {
        None
    }
}

/// Every `+` or `-` has whitespace right before and right after it (§9.7).
pub open spec fn add_spaced(u: Seq<ComponentValue>) -> bool {
    forall|k: int|
        0 <= k < u.len() && #[trigger] is_add(u[k]) ==> 0 < k && k + 1 < u.len() && is_ws(u[k - 1]) && is_ws(
            u[k + 1],
        )
}

/// A `calc-sum`: its values and operators, and whitespace on both sides of
/// each `+` and `-`.
pub open spec fn sum_spec(u: Seq<ComponentValue>) -> Option<MathModel>
    decreases u, 3int,
{
    if add_spaced(u) {
        sum_tokens(u)
    } else {
        None
    }
}

/// A `calc-sum` read from its values and operators alone.
pub open spec fn sum_tokens(u: Seq<ComponentValue>) -> Option<MathModel>
    decreases u, 2int,
{
    let k = last_where(u, add_pred());
    proof {
        lemma_last_where(u, add_pred());
    }
    if k < 0 {
        product_spec(u)
    } else {
        match (sum_tokens(u.subrange(0, k)), product_spec(u.subrange(k + 1, u.len() as int))) {
            (Some(a), Some(b)) => Some(add_node(a, u[k], b)),
            _ => None,
        }
    }
}

/// A `calc-product`.
pub open spec fn product_spec(u: Seq<ComponentValue>) -> Option<MathModel>
    decreases u, 1int,
{
    let k = last_where(u, mul_pred());
    proof {
        lemma_last_where(u, mul_pred());
    }
    if k < 0 {
        term_spec(u)
    } else {
        match (product_spec(u.subrange(0, k)), term_spec(u.subrange(k + 1, u.len() as int))) {
            (Some(a), Some(b)) => if is_delim(u[k], '/') && !number_typed(b) {
                None
            } else {
                Some(mul_node(a, u[k], b))
            },
            _ => None,
        }
    }
}

/// A single `calc-value` with whitespace around it.
pub open spec fn term_spec(u: Seq<ComponentValue>) -> Option<MathModel>
    decreases u, 0int,
{
    if non_ws(u).len() == 1 {
        let i = last_where(u, nw_pred());
        proof {
            lemma_last_non_ws(u);
        }
        value_spec(u[i])
    } else {
        None
    }
}

/// Comma-separated sums, each of which must be present.
pub open spec fn strict_args(u: Seq<ComponentValue>) -> Option<Seq<MathModel>>
    decreases u, 4int,
{
    let k = last_where(u, comma_pred());
    proof {
        lemma_last_where(u, comma_pred());
    }
    if k < 0 {
        match sum_spec(u) {
            Some(e) => Some(seq![e]),
            None => None,
        }
    } else {
        match (strict_args(u.subrange(0, k)), sum_spec(u.subrange(k + 1, u.len() as int))) {
            (Some(a), Some(e)) => Some(a.push(e)),
            _ => None,
        }
    }
}

/// The arguments of `min()`, `max()` and `clamp()`: comma-separated sums,
/// each of which must be present, so that a trailing comma is refused; no
/// component value at all is no argument.
pub open spec fn args_spec(u: Seq<ComponentValue>) -> Option<Seq<MathModel>>
    decreases u, 5int,
{
    if u.len() == 0 {
        Some(Seq::empty())
    } else {
        strict_args(u)
    }
}

/// With at least one non-whitespace value, the last one is in range.
pub proof fn lemma_last_non_ws(u: Seq<ComponentValue>)
    ensures
        -1 <= last_where(u, nw_pred()) < u.len(),
        non_ws(u).len() >= 1 ==> last_where(u, nw_pred()) >= 0,
        non_ws(u).len() == 1 ==> non_ws(u)[0] == u[last_where(u, nw_pred())],
    decreases u.len(),
{
    lemma_last_where(u, nw_pred());
    if u.len() > 0 {
        lemma_last_non_ws(u.drop_last());
        if !is_ws(u.last()) && non_ws(u).len() == 1 {
            assert(non_ws(u.drop_last()).len() == 0);
        }
    }
}

// ── Lemmas about whitespace and positions ───────────────────────────

/// Every element of `u` is whitespace.
pub open spec fn all_ws(u: Seq<ComponentValue>) -> bool {
    forall|i: int| 0 <= i < u.len() ==> is_ws(#[trigger] u[i])
}

/// The last non-whitespace position of `u`, or -1.
pub open spec fn last_nw(u: Seq<ComponentValue>) -> int {
    last_where(u, nw_pred())
}

/// Splitting a sequence splits its non-whitespace values.
pub proof fn lemma_non_ws_concat(a: Seq<ComponentValue>, b: Seq<ComponentValue>)
    ensures
        non_ws(a + b) == non_ws(a) + non_ws(b),
    decreases b.len(),
{
    if b.len() == 0 {
        assert(a + b =~= a);
        assert(non_ws(a) + non_ws(b) =~= non_ws(a));
    } else {
        assert((a + b).drop_last() =~= a + b.drop_last());
        assert((a + b).last() == b.last());
        lemma_non_ws_concat(a, b.drop_last());
        if is_ws(b.last()) {
        } else {
            assert(non_ws(a) + non_ws(b) =~= (non_ws(a) + non_ws(b.drop_last())).push(b.last()));
        }
    }
}

/// A sequence has no non-whitespace value exactly when it is all whitespace.
pub proof fn lemma_all_ws(u: Seq<ComponentValue>)
    ensures
        all_ws(u) <==> non_ws(u).len() == 0,
        all_ws(u) <==> last_nw(u) == -1,
    decreases u.len(),
{
    lemma_last_where(u, nw_pred());
    if u.len() > 0 {
        lemma_all_ws(u.drop_last());
        if all_ws(u.drop_last()) && is_ws(u.last()) {
            assert forall|i: int| 0 <= i < u.len() implies is_ws(#[trigger] u[i]) by {
                if i < u.len() - 1 {
                    assert(u[i] == u.drop_last()[i]);
                }
            }
        }
        if all_ws(u) {
            assert(is_ws(u[u.len() - 1]));
            assert forall|i: int| 0 <= i < u.drop_last().len() implies is_ws(#[trigger] u.drop_last()[i]) by {
                assert(u.drop_last()[i] == u[i]);
            }
        }
    }
}

/// Where the last position satisfying `p` lies in `a + b`.
pub proof fn lemma_last_where_concat(a: Seq<ComponentValue>, b: Seq<ComponentValue>, p: spec_fn(ComponentValue) -> bool)
    ensures
        last_where(a + b, p) == if last_where(b, p) >= 0 {
            a.len() + last_where(b, p)
        } else {
            last_where(a, p)
        },
{
    lemma_last_where(a, p);
    lemma_last_where(b, p);
    let k = if last_where(b, p) >= 0 {
        a.len() + last_where(b, p)
    } else {
        last_where(a, p)
    };
    assert forall|j: int| k < j < (a + b).len() implies !p(#[trigger] (a + b)[j]) by {
        if j >= a.len() {
            assert((a + b)[j] == b[j - a.len()]);
        } else {
            assert((a + b)[j] == a[j]);
        }
    }
    if k >= 0 {
        if last_where(b, p) >= 0 {
            assert((a + b)[k] == b[last_where(b, p)]);
        } else {
            assert((a + b)[k] == a[k]);
        }
    }
    lemma_last_where_is(a + b, p, k);
}

/// No operator, comma or other non-whitespace value occurs in a run of whitespace.
pub proof fn lemma_ws_has_none(w: Seq<ComponentValue>)
    requires
        all_ws(w),
    ensures
        last_where(w, add_pred()) == -1,
        last_where(w, mul_pred()) == -1,
        last_where(w, comma_pred()) == -1,
        last_nw(w) == -1,
        non_ws(w).len() == 0,
{
    lemma_last_where(w, add_pred());
    lemma_last_where(w, mul_pred());
    lemma_last_where(w, comma_pred());
    lemma_all_ws(w);
}


// ── The token sequence of a well-formed expression ──────────────────

/// `is_op`, as a predicate.
pub open spec fn op_pred() -> spec_fn(ComponentValue) -> bool {
    |c: ComponentValue| is_op(c)
}

/// A component value that is a `calc-value` of the type `<number>`.
pub open spec fn divisor_ok(cv: ComponentValue) -> bool {
    match value_spec(cv) {
        Some(m) => number_typed(m),
        None => false,
    }
}

/// Each `/` of `t` is followed by a `<number>`.
pub open spec fn divisors_ok(t: Seq<ComponentValue>) -> bool {
    forall|i: int| 0 <= i && i + 1 < t.len() && #[trigger] is_delim(t[i], '/') ==> divisor_ok(t[i + 1])
}

/// `t` alternates values and operators: it has odd length, a component value
/// that `value_spec` accepts at each even position and an operator that `ops`
/// accepts at each odd one; and each `/` is followed by a `<number>`.
pub open spec fn alternates(t: Seq<ComponentValue>, ops: spec_fn(ComponentValue) -> bool) -> bool {
    &&& t.len() % 2 == 1
    &&& forall|i: int|
        0 <= i < t.len() ==> if i % 2 == 0 {
            value_spec(#[trigger] t[i]) is Some
        } else {
            ops(t[i])
        }
    &&& divisors_ok(t)
}

/// What a sum that the grammar accepts looks like: its values and operators
/// alternate, and each `+` and `-` has whitespace on both sides.
pub open spec fn well_formed(u: Seq<ComponentValue>) -> bool {
    alternates(non_ws(u), op_pred()) && add_spaced(u)
}

/// Every element of `u[a..b]` is whitespace.
pub open spec fn ws_between(u: Seq<ComponentValue>, a: int, b: int) -> bool {
    forall|i: int| a <= i < b ==> is_ws(#[trigger] u[i])
}

/// The non-whitespace values of `u` around a non-whitespace element `u[k]`.
pub proof fn lemma_non_ws_split(u: Seq<ComponentValue>, k: int)
    requires
        0 <= k < u.len(),
        !is_ws(u[k]),
    ensures
        non_ws(u) == non_ws(u.subrange(0, k)) + seq![u[k]] + non_ws(u.subrange(k + 1, u.len() as int)),
        non_ws(u.subrange(0, k + 1)) == non_ws(u.subrange(0, k)).push(u[k]),
{
    let a = u.subrange(0, k);
    let b = u.subrange(k + 1, u.len() as int);
    assert(u =~= a + seq![u[k]] + b);
    lemma_non_ws_concat(a + seq![u[k]], b);
    lemma_non_ws_concat(a, seq![u[k]]);
    lemma_non_ws_single(u[k]);
    assert(u.subrange(0, k + 1).drop_last() =~= a);
}

/// A single value that is not whitespace is its own non-whitespace part.
pub proof fn lemma_non_ws_single(x: ComponentValue)
    requires
        !is_ws(x),
    ensures
        non_ws(seq![x]) == seq![x],
{
    let e = Seq::<ComponentValue>::empty();
    assert(seq![x].drop_last() =~= e);
    assert(non_ws(e) =~= e);
    assert(non_ws(seq![x]) =~= non_ws(e).push(x));
}

/// Joining two alternating sequences with an operator.
pub proof fn lemma_alternates_join(
    a: Seq<ComponentValue>,
    x: ComponentValue,
    b: Seq<ComponentValue>,
    ops: spec_fn(ComponentValue) -> bool,
)
    requires
        alternates(a, ops),
        ops(x),
        alternates(b, mul_pred()),
        forall|c: ComponentValue| is_mul(c) ==> #[trigger] ops(c),
        is_delim(x, '/') ==> divisor_ok(b[0]),
    ensures
        alternates(a + seq![x] + b, ops),
{
    let t = a + seq![x] + b;
    assert forall|i: int| 0 <= i && i + 1 < t.len() && #[trigger] is_delim(t[i], '/') implies divisor_ok(t[i + 1]) by {
        if i + 1 < a.len() {
            assert(t[i] == a[i] && t[i + 1] == a[i + 1]);
        } else if i + 1 == a.len() {
            assert(t[i] == a[i]);
            assert(value_spec(a[i]) is Some);
        } else if i == a.len() {
            assert(t[i + 1] == b[0]);
        } else {
            let j = i - a.len() - 1;
            assert(t[i] == b[j] && t[i + 1] == b[j + 1]);
        }
    }
    assert forall|i: int| 0 <= i < t.len() implies if i % 2 == 0 {
        value_spec(#[trigger] t[i]) is Some
    } else {
        ops(t[i])
    } by {
        if i < a.len() {
            assert(t[i] == a[i]);
        } else if i == a.len() {
            assert(t[i] == x);
        } else {
            let j = i - a.len() - 1;
            assert(t[i] == b[j]);
            assert(j % 2 == i % 2);
            if j % 2 == 1 {
                assert(mul_pred()(b[j]));
            }
        }
    }
}

/// What a sum, a product or a term that the grammar accepts looks like once
/// the whitespace is left out.
pub proof fn lemma_tokens(u: Seq<ComponentValue>)
    ensures
        sum_tokens(u) is Some ==> alternates(non_ws(u), op_pred()),
        product_spec(u) is Some ==> alternates(non_ws(u), mul_pred()),
        term_spec(u) is Some ==> non_ws(u).len() == 1 && value_spec(non_ws(u)[0]) == term_spec(u),
    decreases u.len(),
{
    lemma_last_non_ws(u);
    lemma_last_where(u, add_pred());
    lemma_last_where(u, mul_pred());
    let ka = last_where(u, add_pred());
    let km = last_where(u, mul_pred());
    if term_spec(u) is Some {
        assert(alternates(non_ws(u), mul_pred()));
        assert(alternates(non_ws(u), op_pred()));
    }
    if km >= 0 {
        lemma_tokens(u.subrange(0, km));
        lemma_tokens(u.subrange(km + 1, u.len() as int));
        if product_spec(u) is Some {
            assert(mul_pred()(u[km]));
            let suffix = u.subrange(km + 1, u.len() as int);
            assert(is_delim(u[km], '/') ==> divisor_ok(non_ws(suffix)[0]));
            lemma_non_ws_split(u, km);
            lemma_alternates_join(
                non_ws(u.subrange(0, km)),
                u[km],
                non_ws(u.subrange(km + 1, u.len() as int)),
                mul_pred(),
            );
        }
    }
    if product_spec(u) is Some {
        assert(alternates(non_ws(u), op_pred()));
    }
    if ka >= 0 {
        lemma_tokens(u.subrange(0, ka));
        lemma_tokens(u.subrange(ka + 1, u.len() as int));
        if sum_tokens(u) is Some {
            assert(op_pred()(u[ka]));
            lemma_non_ws_split(u, ka);
            lemma_alternates_join(
                non_ws(u.subrange(0, ka)),
                u[ka],
                non_ws(u.subrange(ka + 1, u.len() as int)),
                op_pred(),
            );
        }
    }
}

/// A product holds no `+` or `-`.
pub proof fn lemma_product_no_add(u: Seq<ComponentValue>)
    requires
        product_spec(u) is Some,
    ensures
        last_where(u, add_pred()) == -1,
{
    lemma_tokens(u);
    assert forall|i: int| -1 < i < u.len() implies !add_pred()(#[trigger] u[i]) by {
        if is_add(u[i]) {
            lemma_non_ws_split(u, i);
            let c = non_ws(u.subrange(0, i)).len() as int;
            assert(non_ws(u)[c] == u[i]);
            if c % 2 == 0 {
                assert(value_spec(non_ws(u)[c]) is Some);
            } else {
                assert(mul_pred()(non_ws(u)[c]));
            }
        }
    }
    lemma_last_where_is(u, add_pred(), -1);
}


// ── Whitespace around a parsed part ─────────────────────────────────

/// Whitespace after a term changes nothing.
pub proof fn lemma_ws_suffix_term(s: Seq<ComponentValue>, w: Seq<ComponentValue>)
    requires
        all_ws(w),
    ensures
        term_spec(s + w) == term_spec(s),
{
    lemma_ws_has_none(w);
    lemma_non_ws_concat(s, w);
    assert(non_ws(s + w) =~= non_ws(s));
    lemma_last_where_concat(s, w, nw_pred());
    lemma_last_non_ws(s);
    if non_ws(s).len() == 1 {
        assert((s + w)[last_nw(s)] == s[last_nw(s)]);
    }
}

/// Whitespace after a product changes nothing.
pub proof fn lemma_ws_suffix_product(s: Seq<ComponentValue>, w: Seq<ComponentValue>)
    requires
        all_ws(w),
    ensures
        product_spec(s + w) == product_spec(s),
{
    lemma_ws_has_none(w);
    lemma_last_where_concat(s, w, mul_pred());
    lemma_last_where(s, mul_pred());
    let k = last_where(s, mul_pred());
    if k < 0 {
        lemma_ws_suffix_term(s, w);
    } else {
        assert((s + w).subrange(0, k) =~= s.subrange(0, k));
        assert((s + w).subrange(k + 1, (s + w).len() as int) =~= s.subrange(k + 1, s.len() as int) + w);
        assert((s + w)[k] == s[k]);
        lemma_ws_suffix_term(s.subrange(k + 1, s.len() as int), w);
    }
}

/// Whitespace after a sum changes nothing.
pub proof fn lemma_ws_suffix_sum(s: Seq<ComponentValue>, w: Seq<ComponentValue>)
    requires
        all_ws(w),
    ensures
        sum_tokens(s + w) == sum_tokens(s),
{
    lemma_ws_has_none(w);
    lemma_last_where_concat(s, w, add_pred());
    lemma_last_where(s, add_pred());
    let k = last_where(s, add_pred());
    if k < 0 {
        lemma_ws_suffix_product(s, w);
    } else {
        assert((s + w).subrange(0, k) =~= s.subrange(0, k));
        assert((s + w).subrange(k + 1, (s + w).len() as int) =~= s.subrange(k + 1, s.len() as int) + w);
        assert((s + w)[k] == s[k]);
        lemma_ws_suffix_product(s.subrange(k + 1, s.len() as int), w);
    }
}

/// Extending `u[a..p]` by the whitespace of `u[p..q]`.
pub proof fn lemma_ws_extend(u: Seq<ComponentValue>, a: int, p: int, q: int)
    requires
        0 <= a <= p <= q <= u.len(),
        ws_between(u, p, q),
    ensures
        sum_tokens(u.subrange(a, q)) == sum_tokens(u.subrange(a, p)),
        product_spec(u.subrange(a, q)) == product_spec(u.subrange(a, p)),
{
    let w = u.subrange(p, q);
    assert(all_ws(w)) by {
        assert forall|i: int| 0 <= i < w.len() implies is_ws(#[trigger] w[i]) by {
            assert(w[i] == u[p + i]);
        }
    }
    assert(u.subrange(a, q) =~= u.subrange(a, p) + w);
    lemma_ws_suffix_sum(u.subrange(a, p), w);
    lemma_ws_suffix_product(u.subrange(a, p), w);
}

/// A value after whitespace is a term, and a product, of its own.
pub proof fn lemma_product_first(u: Seq<ComponentValue>, a: int, j: int)
    requires
        0 <= a <= j < u.len(),
        ws_between(u, a, j),
        value_spec(u[j]) is Some,
    ensures
        product_spec(u.subrange(a, j + 1)) == value_spec(u[j]),
{
    let s = u.subrange(a, j + 1);
    let w = u.subrange(a, j);
    assert(s.drop_last() =~= w);
    assert(all_ws(w)) by {
        assert forall|i: int| 0 <= i < w.len() implies is_ws(#[trigger] w[i]) by {
            assert(w[i] == u[a + i]);
        }
    }
    lemma_all_ws(w);
    assert(s.last() == u[j]);
    assert(non_ws(s) == non_ws(w).push(u[j]));
    assert(non_ws(s) =~= seq![u[j]]);
    lemma_last_where(s, nw_pred());
    assert(nw_pred()(s.last()));
    assert(last_nw(s) == s.len() - 1);
    assert(term_spec(s) == value_spec(u[j]));
    assert forall|i: int| -1 < i < s.len() implies !mul_pred()(#[trigger] s[i]) by {
        if i < s.len() - 1 {
            assert(s[i] == u[a + i]);
        }
    }
    lemma_last_where_is(s, mul_pred(), -1);
}

/// One more `* value` or `/ value` after a product.
pub proof fn lemma_product_step(u: Seq<ComponentValue>, p0: int, p: int, q: int, j: int)
    requires
        0 <= p0 <= p <= q < j < u.len(),
        product_spec(u.subrange(p0, p)) is Some,
        ws_between(u, p, q),
        is_mul(u[q]),
        ws_between(u, q + 1, j),
        value_spec(u[j]) is Some,
        is_delim(u[q], '/') ==> number_typed(value_spec(u[j])->0),
    ensures
        product_spec(u.subrange(p0, j + 1)) == Some(
            mul_node(product_spec(u.subrange(p0, p))->0, u[q], value_spec(u[j])->0),
        ),
{
    let s = u.subrange(p0, j + 1);
    let k = q - p0;
    assert forall|i: int| k < i < s.len() implies !mul_pred()(#[trigger] s[i]) by {
        assert(s[i] == u[p0 + i]);
    }
    assert(s[k] == u[q]);
    lemma_last_where_is(s, mul_pred(), k);
    assert(s.subrange(0, k) =~= u.subrange(p0, q));
    assert(s.subrange(k + 1, s.len() as int) =~= u.subrange(q + 1, j + 1));
    lemma_ws_extend(u, p0, p, q);
    lemma_product_first(u, q + 1, j);
    let t = u.subrange(q + 1, j + 1);
    lemma_last_where(t, mul_pred());
}

/// A product alone is a sum.
pub proof fn lemma_sum_first(u: Seq<ComponentValue>, a: int, b: int)
    requires
        0 <= a <= b <= u.len(),
        product_spec(u.subrange(a, b)) is Some,
    ensures
        sum_tokens(u.subrange(a, b)) == product_spec(u.subrange(a, b)),
{
    lemma_product_no_add(u.subrange(a, b));
}

/// One more `+ product` or `- product` after a sum.
pub proof fn lemma_sum_step(u: Seq<ComponentValue>, p0: int, p: int, q: int, p2: int)
    requires
        0 <= p0 <= p <= q < p2 <= u.len(),
        sum_tokens(u.subrange(p0, p)) is Some,
        ws_between(u, p, q),
        is_add(u[q]),
        product_spec(u.subrange(q + 1, p2)) is Some,
    ensures
        sum_tokens(u.subrange(p0, p2)) == Some(
            add_node(sum_tokens(u.subrange(p0, p))->0, u[q], product_spec(u.subrange(q + 1, p2))->0),
        ),
{
    let s = u.subrange(p0, p2);
    let t = u.subrange(q + 1, p2);
    let k = q - p0;
    lemma_product_no_add(t);
    lemma_last_where(t, add_pred());
    assert forall|i: int| k < i < s.len() implies !add_pred()(#[trigger] s[i]) by {
        assert(s[i] == t[i - k - 1]);
    }
    assert(s[k] == u[q]);
    lemma_last_where_is(s, add_pred(), k);
    assert(s.subrange(0, k) =~= u.subrange(p0, q));
    assert(s.subrange(k + 1, s.len() as int) =~= t);
    lemma_ws_extend(u, p0, p, q);
}

// ── Positions of the non-whitespace values ──────────────────────────

/// The first position at or after `p` that holds no whitespace, or the length.
pub open spec fn next_nw(u: Seq<ComponentValue>, p: int) -> int
    decreases u.len() - p,
{
    if p < 0 || p >= u.len() {
        u.len() as int
    } else if !is_ws(u[p]) {
        p
    } else {
        next_nw(u, p + 1)
    }
}

/// `next_nw` skips whitespace only, and stops at a value that is not whitespace.
pub proof fn lemma_next_nw(u: Seq<ComponentValue>, p: int)
    requires
        0 <= p <= u.len(),
    ensures
        p <= next_nw(u, p) <= u.len(),
        ws_between(u, p, next_nw(u, p)),
        next_nw(u, p) < u.len() ==> !is_ws(u[next_nw(u, p)]),
    decreases u.len() - p,
{
    if p < u.len() && is_ws(u[p]) {
        lemma_next_nw(u, p + 1);
    }
}

/// How many values that are not whitespace stand before position `p`.
pub open spec fn nw_count(u: Seq<ComponentValue>, p: int) -> int {
    non_ws(u.subrange(0, p)).len() as int
}

/// Whitespace adds nothing to the count.
pub proof fn lemma_count_ws(u: Seq<ComponentValue>, p: int, q: int)
    requires
        0 <= p <= q <= u.len(),
        ws_between(u, p, q),
    ensures
        non_ws(u.subrange(0, q)) == non_ws(u.subrange(0, p)),
        nw_count(u, q) == nw_count(u, p),
{
    let w = u.subrange(p, q);
    assert(all_ws(w)) by {
        assert forall|i: int| 0 <= i < w.len() implies is_ws(#[trigger] w[i]) by {
            assert(w[i] == u[p + i]);
        }
    }
    lemma_all_ws(w);
    assert(u.subrange(0, q) =~= u.subrange(0, p) + w);
    lemma_non_ws_concat(u.subrange(0, p), w);
    assert(non_ws(u.subrange(0, q)) =~= non_ws(u.subrange(0, p)));
}

/// A value that is not whitespace adds one to the count, and is the value
/// at that place in `non_ws(u)`.
pub proof fn lemma_count_step(u: Seq<ComponentValue>, j: int)
    requires
        0 <= j < u.len(),
        !is_ws(u[j]),
    ensures
        nw_count(u, j + 1) == nw_count(u, j) + 1,
        nw_count(u, j) < non_ws(u).len(),
        non_ws(u)[nw_count(u, j)] == u[j],
{
    lemma_non_ws_split(u, j);
    let c = nw_count(u, j);
    assert((non_ws(u.subrange(0, j)) + seq![u[j]] + non_ws(u.subrange(j + 1, u.len() as int)))[c] == u[j]);
}

/// The count at the end is the number of values that are not whitespace.
pub proof fn lemma_count_end(u: Seq<ComponentValue>)
    ensures
        nw_count(u, u.len() as int) == non_ws(u).len(),
        nw_count(u, 0) == 0,
{
    assert(u.subrange(0, u.len() as int) =~= u);
    assert(u.subrange(0, 0) =~= Seq::<ComponentValue>::empty());
    assert(non_ws(Seq::<ComponentValue>::empty()) =~= Seq::<ComponentValue>::empty());
}

// ── Comma-separated arguments ───────────────────────────────────────

/// Once the arguments before a comma fail, so do the arguments of any longer list.
pub proof fn lemma_strict_args_none(u: Seq<ComponentValue>, m: int, k: int)
    requires
        0 <= m < k <= u.len(),
        is_comma(u[m]),
        strict_args(u.subrange(0, m)) is None,
    ensures
        strict_args(u.subrange(0, k)) is None,
    decreases k,
{
    let v = u.subrange(0, k);
    lemma_last_where(v, comma_pred());
    let c = last_where(v, comma_pred());
    if c < m {
        assert(v[m] == u[m]);
        assert(false);
    }
    assert(v.subrange(0, c) =~= u.subrange(0, c));
    if c > m {
        lemma_strict_args_none(u, m, c);
    }
}

/// Once the arguments before a comma fail, the whole argument list fails.
pub proof fn lemma_args_none(u: Seq<ComponentValue>, m: int)
    requires
        0 <= m < u.len(),
        is_comma(u[m]),
        strict_args(u.subrange(0, m)) is None,
    ensures
        args_spec(u) is None,
{
    lemma_strict_args_none(u, m, u.len() as int);
    assert(u.subrange(0, u.len() as int) =~= u);
}


// ── Where a left-to-right reading can fail ──────────────────────────

/// A value is missing at the end: an even number of values and operators.
pub proof fn lemma_bad_end(u: Seq<ComponentValue>)
    requires
        nw_count(u, u.len() as int) % 2 == 0,
    ensures
        !alternates(non_ws(u), op_pred()),
{
    lemma_count_end(u);
}

/// A component value in the place of a value is not one.
pub proof fn lemma_bad_value(u: Seq<ComponentValue>, j: int)
    requires
        0 <= j < u.len(),
        !is_ws(u[j]),
        nw_count(u, j) % 2 == 0,
        value_spec(u[j]) is None,
    ensures
        !alternates(non_ws(u), op_pred()),
{
    lemma_count_step(u, j);
    let c = nw_count(u, j);
    assert(non_ws(u)[c] == u[j]);
}

/// A component value in the place of an operator is not one.
pub proof fn lemma_bad_operator(u: Seq<ComponentValue>, j: int)
    requires
        0 <= j < u.len(),
        !is_ws(u[j]),
        nw_count(u, j) % 2 == 1,
        !is_op(u[j]),
    ensures
        !alternates(non_ws(u), op_pred()),
{
    lemma_count_step(u, j);
    let c = nw_count(u, j);
    assert(non_ws(u)[c] == u[j]);
    assert(!op_pred()(non_ws(u)[c]));
}


// ── Whitespace only separates ───────────────────────────────────────

/// Leaving out whitespace leaves no whitespace.
pub proof fn lemma_non_ws_idempotent(u: Seq<ComponentValue>)
    ensures
        non_ws(non_ws(u)) == non_ws(u),
        forall|i: int| 0 <= i < non_ws(u).len() ==> !is_ws(#[trigger] non_ws(u)[i]),
    decreases u.len(),
{
    if u.len() > 0 {
        lemma_non_ws_idempotent(u.drop_last());
        let t = non_ws(u.drop_last());
        if !is_ws(u.last()) {
            assert(t.push(u.last()).drop_last() =~= t);
            assert forall|i: int| 0 <= i < non_ws(u).len() implies !is_ws(#[trigger] non_ws(u)[i]) by {
                if i < t.len() {
                    assert(non_ws(u)[i] == t[i]);
                }
            }
        }
    } else {
        assert(non_ws(u) =~= u);
    }
}

/// The last position satisfying `p`, a predicate that no whitespace
/// satisfies, is the same element in `u` and in `non_ws(u)`.
pub proof fn lemma_last_where_non_ws(u: Seq<ComponentValue>, p: spec_fn(ComponentValue) -> bool)
    requires
        forall|c: ComponentValue| is_ws(c) ==> !#[trigger] p(c),
    ensures
        last_where(u, p) < 0 ==> last_where(non_ws(u), p) == -1,
        last_where(u, p) >= 0 ==> last_where(non_ws(u), p) == non_ws(u.subrange(0, last_where(u, p))).len(),
    decreases u.len(),
{
    if u.len() > 0 {
        let w = u.drop_last();
        lemma_last_where_non_ws(w, p);
        assert(u.subrange(0, u.len() - 1) =~= w);
        if p(u.last()) {
            assert(non_ws(u) == non_ws(w).push(u.last()));
        } else if is_ws(u.last()) {
            assert(non_ws(u) == non_ws(w));
            lemma_last_where(w, p);
            if last_where(w, p) >= 0 {
                assert(u.subrange(0, last_where(w, p)) =~= w.subrange(0, last_where(w, p)));
            }
        } else {
            assert(non_ws(u) == non_ws(w).push(u.last()));
            assert(non_ws(w).push(u.last()).drop_last() =~= non_ws(w));
            lemma_last_where(w, p);
            if last_where(w, p) >= 0 {
                assert(u.subrange(0, last_where(w, p)) =~= w.subrange(0, last_where(w, p)));
            }
        }
    } else {
        assert(non_ws(u) =~= u);
    }
}

/// Splitting `u` at an element that is not whitespace splits `non_ws(u)` at
/// its image.
proof fn lemma_split_images(u: Seq<ComponentValue>, k: int)
    requires
        0 <= k < u.len(),
        !is_ws(u[k]),
    ensures
        ({
            let t = non_ws(u);
            let c = non_ws(u.subrange(0, k)).len() as int;
            &&& 0 <= c < t.len()
            &&& t[c] == u[k]
            &&& t.subrange(0, c) == non_ws(u.subrange(0, k))
            &&& t.subrange(c + 1, t.len() as int) == non_ws(u.subrange(k + 1, u.len() as int))
        }),
{
    lemma_non_ws_split(u, k);
    let a = non_ws(u.subrange(0, k));
    let b = non_ws(u.subrange(k + 1, u.len() as int));
    let t = non_ws(u);
    let c = a.len() as int;
    assert(t == a + seq![u[k]] + b);
    assert(t.subrange(0, c) =~= a);
    assert(t.subrange(c + 1, t.len() as int) =~= b);
    assert(t[c] == u[k]);
}

/// Whitespace only separates values and operators: a sum read from them
/// alone, a product or a term reads the same with the whitespace left out.
pub proof fn lemma_whitespace_separates(u: Seq<ComponentValue>)
    ensures
        sum_tokens(u) == sum_tokens(non_ws(u)),
        product_spec(u) == product_spec(non_ws(u)),
        term_spec(u) == term_spec(non_ws(u)),
    decreases u.len(),
{
    let t = non_ws(u);
    lemma_non_ws_idempotent(u);
    // term
    lemma_last_non_ws(u);
    lemma_last_non_ws(t);
    lemma_last_where(t, nw_pred());
    if t.len() == 1 {
        assert(!is_ws(t[0]));
        lemma_last_where_is(t, nw_pred(), 0);
    }
    // product
    assert forall|c: ComponentValue| is_ws(c) implies !#[trigger] mul_pred()(c) by {}
    assert forall|c: ComponentValue| is_ws(c) implies !#[trigger] add_pred()(c) by {}
    lemma_last_where(u, mul_pred());
    lemma_last_where_non_ws(u, mul_pred());
    let km = last_where(u, mul_pred());
    if km >= 0 {
        lemma_split_images(u, km);
        lemma_whitespace_separates(u.subrange(0, km));
        lemma_whitespace_separates(u.subrange(km + 1, u.len() as int));
    }
    // sum
    lemma_last_where(u, add_pred());
    lemma_last_where_non_ws(u, add_pred());
    let ka = last_where(u, add_pred());
    if ka >= 0 {
        lemma_split_images(u, ka);
        lemma_whitespace_separates(u.subrange(0, ka));
        lemma_whitespace_separates(u.subrange(ka + 1, u.len() as int));
    }
}

/// Two lists with the same values and operators in the same order, whatever
/// whitespace stands between them, read as the same values and operators,
/// and as the same sum where both have whitespace around each `+` and `-`.
pub proof fn lemma_same_tokens_same_sum(u: Seq<ComponentValue>, v: Seq<ComponentValue>)
    requires
        non_ws(u) == non_ws(v),
    ensures
        sum_tokens(u) == sum_tokens(v),
        add_spaced(u) && add_spaced(v) ==> sum_spec(u) == sum_spec(v),
{
    lemma_whitespace_separates(u);
    lemma_whitespace_separates(v);
}


/// A list without whitespace is its own non-whitespace part.
proof fn lemma_non_ws_clean(t: Seq<ComponentValue>)
    requires
        forall|i: int| 0 <= i < t.len() ==> !is_ws(#[trigger] t[i]),
    ensures
        non_ws(t) == t,
    decreases t.len(),
{
    if t.len() > 0 {
        assert forall|i: int| 0 <= i < t.drop_last().len() implies !is_ws(#[trigger] t.drop_last()[i]) by {
            assert(t.drop_last()[i] == t[i]);
        }
        lemma_non_ws_clean(t.drop_last());
        assert(!is_ws(t[t.len() - 1]));
        assert(t.drop_last().push(t.last()) =~= t);
    } else {
        assert(non_ws(t) =~= t);
    }
}

/// An alternation of values and `*` or `/`, without whitespace, is a product.
proof fn lemma_product_alternation(t: Seq<ComponentValue>)
    requires
        forall|i: int| 0 <= i < t.len() ==> !is_ws(#[trigger] t[i]),
        alternates(t, mul_pred()),
    ensures
        product_spec(t) is Some,
    decreases t.len(),
{
    lemma_non_ws_clean(t);
    lemma_last_where(t, nw_pred());
    lemma_last_where(t, mul_pred());
    let km = last_where(t, mul_pred());
    if km < 0 {
        if t.len() > 1 {
            assert(mul_pred()(t[1]));
        }
        assert(t.len() == 1);
        assert(!is_ws(t[0]));
        assert(value_spec(t[0]) is Some);
        lemma_last_where_is(t, nw_pred(), 0);
        assert(non_ws(t).len() == 1);
        assert(term_spec(t) is Some);
        assert(product_spec(t) is Some);
    } else {
        if km % 2 == 0 {
            assert(value_spec(t[km]) is Some);
        }
        let a = t.subrange(0, km);
        let b = t.subrange(km + 1, t.len() as int);
        assert forall|i: int| 0 <= i < a.len() implies !is_ws(#[trigger] a[i]) by {
            assert(a[i] == t[i]);
        }
        assert forall|i: int| 0 <= i < a.len() implies (if i % 2 == 0 {
            value_spec(#[trigger] a[i]) is Some
        } else {
            mul_pred()(a[i])
        }) by {
            assert(a[i] == t[i]);
        }
        lemma_product_alternation(a);
        if b.len() > 1 {
            assert(t[km + 2] == b[1]);
            assert(mul_pred()(t[km + 2]));
        }
        assert(b[0] == t[km + 1]);
        assert(value_spec(t[km + 1]) is Some);
        assert forall|i: int| 0 <= i < b.len() implies !is_ws(#[trigger] b[i]) by {
            assert(b[i] == t[km + 1 + i]);
        }
        lemma_non_ws_clean(b);
        lemma_last_where(b, nw_pred());
        assert(b.len() == 1);
        lemma_last_where_is(b, nw_pred(), 0);
        assert(term_spec(b) is Some);
        assert(product_spec(a) is Some);
        if is_delim(t[km], '/') {
            assert(divisor_ok(t[km + 1]));
        }
        assert(product_spec(t) is Some);
    }
}

/// An alternation of values and operators, without whitespace, is a sum.
proof fn lemma_sum_alternation(t: Seq<ComponentValue>)
    requires
        forall|i: int| 0 <= i < t.len() ==> !is_ws(#[trigger] t[i]),
        alternates(t, op_pred()),
    ensures
        sum_tokens(t) is Some,
    decreases t.len(),
{
    lemma_last_where(t, add_pred());
    let ka = last_where(t, add_pred());
    if ka < 0 {
        assert forall|i: int| 0 <= i < t.len() implies (if i % 2 == 0 {
            value_spec(#[trigger] t[i]) is Some
        } else {
            mul_pred()(t[i])
        }) by {
            if i % 2 == 1 {
                assert(op_pred()(t[i]));
                assert(!add_pred()(t[i]));
            }
        }
        lemma_product_alternation(t);
    } else {
        if ka % 2 == 0 {
            assert(value_spec(t[ka]) is Some);
        }
        let a = t.subrange(0, ka);
        let b = t.subrange(ka + 1, t.len() as int);
        assert forall|i: int| 0 <= i < a.len() implies !is_ws(#[trigger] a[i]) by {
            assert(a[i] == t[i]);
        }
        assert forall|i: int| 0 <= i < a.len() implies (if i % 2 == 0 {
            value_spec(#[trigger] a[i]) is Some
        } else {
            op_pred()(a[i])
        }) by {
            assert(a[i] == t[i]);
        }
        assert forall|i: int| 0 <= i < b.len() implies !is_ws(#[trigger] b[i]) by {
            assert(b[i] == t[ka + 1 + i]);
        }
        assert forall|i: int| 0 <= i < b.len() implies (if i % 2 == 0 {
            value_spec(#[trigger] b[i]) is Some
        } else {
            mul_pred()(b[i])
        }) by {
            assert(b[i] == t[ka + 1 + i]);
            assert((ka + 1 + i) % 2 == i % 2);
            if i % 2 == 1 {
                assert(op_pred()(t[ka + 1 + i]));
                assert(!add_pred()(t[ka + 1 + i]));
            }
        }
        lemma_sum_alternation(a);
        lemma_product_alternation(b);
    }
}

/// Read from its values and operators alone, a `calc-sum` is accepted
/// exactly when, whitespace left out, its component values alternate value,
/// operator, value, ..., value, and each `/` is followed by a `<number>`.
pub proof fn lemma_sum_accepts_alternations(u: Seq<ComponentValue>)
    ensures
        sum_tokens(u) is Some <==> alternates(non_ws(u), op_pred()),
{
    lemma_tokens(u);
    lemma_whitespace_separates(u);
    lemma_non_ws_idempotent(u);
    if alternates(non_ws(u), op_pred()) {
        lemma_sum_alternation(non_ws(u));
    }
}


/// A `calc-sum` is accepted exactly when it is well formed: whitespace left
/// out, its component values alternate value, operator, ..., value, each `/`
/// is followed by a `<number>`, and each `+` and `-` has whitespace on both
/// sides.
pub proof fn lemma_sum_accepts_well_formed(u: Seq<ComponentValue>)
    ensures
        sum_spec(u) is Some <==> well_formed(u),
{
    lemma_sum_accepts_alternations(u);
}

/// Every `+` or `-` in `u[a..b]` has whitespace on both sides inside that range.
pub open spec fn spaced_between(u: Seq<ComponentValue>, a: int, b: int) -> bool {
    forall|k: int|
        a <= k < b && #[trigger] is_add(u[k]) ==> a < k && k + 1 < b && is_ws(u[k - 1]) && is_ws(u[k + 1])
}

/// A product holds no `+` or `-`, so none lacks its whitespace.
pub proof fn lemma_spaced_product(u: Seq<ComponentValue>, a: int, b: int)
    requires
        0 <= a <= b <= u.len(),
        product_spec(u.subrange(a, b)) is Some,
    ensures
        spaced_between(u, a, b),
{
    let t = u.subrange(a, b);
    lemma_product_no_add(t);
    lemma_last_where(t, add_pred());
    assert forall|k: int| a <= k < b && #[trigger] is_add(u[k]) implies a < k && k + 1 < b && is_ws(u[k - 1])
        && is_ws(u[k + 1]) by {
        assert(t[k - a] == u[k]);
        assert(!add_pred()(t[k - a]));
    }
}

/// `spaced_between` is `add_spaced` of the range.
pub proof fn lemma_spaced_sub(u: Seq<ComponentValue>, a: int, b: int)
    requires
        0 <= a <= b <= u.len(),
        spaced_between(u, a, b),
    ensures
        add_spaced(u.subrange(a, b)),
{
    let s = u.subrange(a, b);
    assert forall|k: int| 0 <= k < s.len() && #[trigger] is_add(s[k]) implies 0 < k && k + 1 < s.len() && is_ws(
        s[k - 1],
    ) && is_ws(s[k + 1]) by {
        assert(s[k] == u[a + k]);
        assert(is_add(u[a + k]));
        assert(s[k - 1] == u[a + k - 1]);
        assert(s[k + 1] == u[a + k + 1]);
    }
}

/// Whitespace adds no `+` or `-`.
pub proof fn lemma_spaced_ws(u: Seq<ComponentValue>, a: int, p: int, q: int)
    requires
        0 <= a <= p <= q <= u.len(),
        spaced_between(u, a, p),
        ws_between(u, p, q),
    ensures
        spaced_between(u, a, q),
{
    assert forall|k: int| a <= k < q && #[trigger] is_add(u[k]) implies a < k && k + 1 < q && is_ws(u[k - 1])
        && is_ws(u[k + 1]) by {
        if k >= p {
            assert(is_ws(u[k]));
        }
    }
}

/// One more `+ product` or `- product`, whitespace on both sides of the operator.
pub proof fn lemma_spaced_step(u: Seq<ComponentValue>, a: int, p: int, q: int, p2: int)
    requires
        0 <= a < p <= q,
        q + 1 < p2 <= u.len(),
        spaced_between(u, a, p),
        ws_between(u, p, q),
        is_add(u[q]),
        spaced_at(u, q),
        product_spec(u.subrange(q + 1, p2)) is Some,
    ensures
        spaced_between(u, a, p2),
{
    let t = u.subrange(q + 1, p2);
    lemma_product_no_add(t);
    lemma_last_where(t, add_pred());
    assert forall|k: int| a <= k < p2 && #[trigger] is_add(u[k]) implies a < k && k + 1 < p2 && is_ws(u[k - 1])
        && is_ws(u[k + 1]) by {
        if p <= k < q {
            assert(is_ws(u[k]));
        } else if k > q {
            assert(t[k - q - 1] == u[k]);
            assert(!add_pred()(t[k - q - 1]));
        }
    }
}

/// A `/` whose divisor is not a `<number>` breaks the alternation.
pub proof fn lemma_bad_divisor(u: Seq<ComponentValue>, q: int, j: int)
    requires
        0 <= q < j < u.len(),
        is_delim(u[q], '/'),
        nw_count(u, q) % 2 == 1,
        ws_between(u, q + 1, j),
        value_spec(u[j]) is Some,
        !number_typed(value_spec(u[j])->0),
    ensures
        !alternates(non_ws(u), op_pred()),
{
    lemma_count_step(u, q);
    lemma_count_ws(u, q + 1, j);
    lemma_count_step(u, j);
    let c = nw_count(u, q);
    let t = non_ws(u);
    assert(t[c] == u[q]);
    assert(t[c + 1] == u[j]);
    assert(is_delim(t[c], '/'));
    assert(!divisor_ok(t[c + 1]));
}

/// A list without a comma is one argument.
pub proof fn lemma_strict_args_one(a: Seq<ComponentValue>)
    requires
        forall|i: int| 0 <= i < a.len() ==> !is_comma(#[trigger] a[i]),
    ensures
        strict_args(a) == match sum_spec(a) {
            Some(e) => Some(seq![e]),
            None => None,
        },
{
    assert forall|j: int| -1 < j < a.len() implies !comma_pred()(#[trigger] a[j]) by {}
    lemma_last_where_is(a, comma_pred(), -1);
}

/// One more argument after a comma.
pub proof fn lemma_strict_args_push(p: Seq<ComponentValue>, c: ComponentValue, q: Seq<ComponentValue>)
    requires
        is_comma(c),
        forall|i: int| 0 <= i < q.len() ==> !is_comma(#[trigger] q[i]),
    ensures
        strict_args(p + seq![c] + q) == match (strict_args(p), sum_spec(q)) {
            (Some(x), Some(e)) => Some(x.push(e)),
            _ => None,
        },
{
    let u = p + seq![c] + q;
    let k = p.len() as int;
    assert(u[k] == c);
    assert forall|j: int| k < j < u.len() implies !comma_pred()(#[trigger] u[j]) by {
        assert(u[j] == q[j - k - 1]);
    }
    lemma_last_where_is(u, comma_pred(), k);
    assert(u.subrange(0, k) =~= p);
    assert(u.subrange(k + 1, u.len() as int) =~= q);
}

/// A product followed by `*` or `/` and one more value is the product, or
/// quotient, of the two, the product on the left, so that both operators
/// group to the left; the divisor of `/` must be a `<number>`.
pub proof fn lemma_product_operators(p: Seq<ComponentValue>, op: ComponentValue, v: ComponentValue)
    requires
        product_spec(p) is Some,
        value_spec(v) is Some,
        is_mul(op),
    ensures
        is_delim(op, '*') ==> product_spec(p + seq![op, v]) == Some(
            MathModel::Product(Box::new(product_spec(p)->0), Box::new(value_spec(v)->0)),
        ),
        is_delim(op, '/') ==> product_spec(p + seq![op, v]) == if number_typed(value_spec(v)->0) {
            Some(MathModel::Quotient(Box::new(product_spec(p)->0), Box::new(value_spec(v)->0)))
        } else {
            None
        },
{
    let u = p + seq![op, v];
    let n = p.len() as int;
    assert(u.subrange(0, n) =~= p);
    assert(u[n] == op && u[n + 1] == v);
    assert(u.subrange(0, n + 2) =~= u);
    if !is_delim(op, '/') || number_typed(value_spec(v)->0) {
        lemma_product_step(u, 0, n, n, n + 1);
    } else {
        assert forall|i: int| n < i < u.len() implies !mul_pred()(#[trigger] u[i]) by {}
        lemma_last_where_is(u, mul_pred(), n);
        assert(u.subrange(n + 1, u.len() as int) =~= seq![v]);
        lemma_non_ws_single(v);
        lemma_last_non_ws(seq![v]);
        assert(term_spec(seq![v]) == value_spec(v));
    }
}

/// A sum followed by `+` or `-` with whitespace on both sides and one more
/// product is the sum of the two, the sum on the left, so that both
/// operators group to the left; `a - b` is `a + (-b)`.
pub proof fn lemma_sum_operators(
    p: Seq<ComponentValue>,
    w1: ComponentValue,
    op: ComponentValue,
    w2: ComponentValue,
    q: Seq<ComponentValue>,
)
    requires
        sum_spec(p) is Some,
        product_spec(q) is Some,
        is_ws(w1),
        is_ws(w2),
        is_add(op),
    ensures
        is_delim(op, '+') ==> sum_spec(p + seq![w1, op, w2] + q) == Some(
            MathModel::Sum(Box::new(sum_spec(p)->0), Box::new(product_spec(q)->0)),
        ),
        is_delim(op, '-') ==> sum_spec(p + seq![w1, op, w2] + q) == Some(
            MathModel::Sum(
                Box::new(sum_spec(p)->0),
                Box::new(MathModel::Negate(Box::new(product_spec(q)->0))),
            ),
        ),
{
    let u = p + seq![w1, op, w2] + q;
    let n = p.len() as int;
    assert(u.subrange(0, n) =~= p);
    assert(u[n] == w1 && u[n + 1] == op && u[n + 2] == w2);
    assert(u.subrange(0, u.len() as int) =~= u);
    // the product after the operator, its whitespace ahead of it
    let r = u.subrange(n + 2, u.len() as int);
    assert(r =~= seq![w2] + q);
    lemma_non_ws_concat(seq![w2], q);
    lemma_all_ws(seq![w2]);
    assert(non_ws(seq![w2]) =~= Seq::<ComponentValue>::empty()) by {
        assert(all_ws(seq![w2]));
    }
    assert(non_ws(r) =~= non_ws(q));
    lemma_whitespace_separates(r);
    lemma_whitespace_separates(q);
    lemma_sum_step(u, 0, n, n + 1, u.len() as int);
    lemma_spaced_join(p, w1, op, w2, q);
}

/// Joining a sum and a product with a `+` or `-` that has whitespace on both
/// sides leaves every `+` and `-` with whitespace on both sides.
proof fn lemma_spaced_join(
    p: Seq<ComponentValue>,
    w1: ComponentValue,
    op: ComponentValue,
    w2: ComponentValue,
    q: Seq<ComponentValue>,
)
    requires
        add_spaced(p),
        product_spec(q) is Some,
        is_ws(w1),
        is_ws(w2),
    ensures
        add_spaced(p + seq![w1, op, w2] + q),
{
    let u = p + seq![w1, op, w2] + q;
    let n = p.len() as int;
    assert(u[n] == w1 && u[n + 1] == op && u[n + 2] == w2);
    lemma_product_no_add(q);
    lemma_last_where(q, add_pred());
    assert forall|k: int| 0 <= k < u.len() && #[trigger] is_add(u[k]) implies 0 < k && k + 1 < u.len()
        && is_ws(u[k - 1]) && is_ws(u[k + 1]) by {
        if k < n {
            assert(u[k] == p[k]);
            assert(is_add(p[k]));
            assert(u[k - 1] == p[k - 1]);
            if k + 1 < n {
                assert(u[k + 1] == p[k + 1]);
            }
        } else if k > n + 2 {
            assert(u[k] == q[k - n - 3]);
            assert(!add_pred()(q[k - n - 3]));
        }
    }
}

/// The arguments of `min()`, `max()` and `clamp()` are read in order: a
/// list without a comma is the one sum it holds, and a further comma and a
/// part without a comma append that part's sum after the arguments before
/// it (none of which may be missing).
pub proof fn lemma_arguments_in_order(p: Seq<ComponentValue>, c: ComponentValue, q: Seq<ComponentValue>)
    requires
        is_comma(c),
        forall|i: int| 0 <= i < q.len() ==> !is_comma(#[trigger] q[i]),
    ensures
        q.len() > 0 ==> args_spec(q) == match sum_spec(q) {
            Some(e) => Some(seq![e]),
            None => None,
        },
        p.len() > 0 ==> args_spec(p + seq![c] + q) == match (args_spec(p), sum_spec(q)) {
            (Some(x), Some(e)) => Some(x.push(e)),
            _ => None,
        },
        p.len() == 0 ==> args_spec(p + seq![c] + q) is None,
{
    lemma_strict_args_one(q);
    lemma_strict_args_push(p, c, q);
    assert((p + seq![c] + q).len() > 0);
    if p.len() == 0 {
        let e = Seq::<ComponentValue>::empty();
        assert(p =~= e);
        lemma_strict_args_one(e);
        lemma_no_sum_of_nothing();
    }
}

/// A part that holds nothing is no sum.
proof fn lemma_no_sum_of_nothing()
    ensures
        sum_spec(Seq::<ComponentValue>::empty()) is None,
{
    let e = Seq::<ComponentValue>::empty();
    lemma_sum_accepts_well_formed(e);
    assert(non_ws(e) =~= e);
}

/// `min(A, B)` and `max(A, B)` keep their arguments in order.
pub proof fn lemma_min_max_arguments_in_order(
    f: Function,
    a: Seq<ComponentValue>,
    c1: ComponentValue,
    b: Seq<ComponentValue>,
)
    requires
        f.value@ == a + seq![c1] + b,
        is_comma(c1),
        forall|i: int| 0 <= i < a.len() ==> !is_comma(#[trigger] a[i]),
        forall|i: int| 0 <= i < b.len() ==> !is_comma(#[trigger] b[i]),
        sum_spec(a) is Some,
        sum_spec(b) is Some,
    ensures
        eq_ic(f.name@, "min"@) ==> function_spec(f) == Some(MathModel::Min(seq![sum_spec(a)->0, sum_spec(b)->0])),
        eq_ic(f.name@, "max"@) ==> function_spec(f) == Some(MathModel::Max(seq![sum_spec(a)->0, sum_spec(b)->0])),
{
    reveal_strlit("calc");
    reveal_strlit("min");
    reveal_strlit("max");
    lemma_strict_args_one(a);
    lemma_strict_args_push(a, c1, b);
    let u = f.value@;
    assert(u.len() > 0) by {
        assert(u[a.len() as int] == c1);
    }
    let x = sum_spec(a)->0;
    let y = sum_spec(b)->0;
    assert(seq![x].push(y) =~= seq![x, y]);
    assert(args_spec(u) == Some(seq![x, y]));
    if eq_ic(f.name@, "max"@) {
        lemma_eq_ic_same(f.name@, "max"@, "min"@);
        assert(!eq_ic("max"@, "min"@)) by {
            lemma_eq_ic_prefix("max"@, "min"@);
        }
    }
}

/// `clamp(A, B, C)` keeps its arguments in order: the minimum is the first
/// sum, the preferred value the second and the maximum the third (§9.2).
pub proof fn lemma_clamp_arguments_in_order(
    f: Function,
    a: Seq<ComponentValue>,
    c1: ComponentValue,
    b: Seq<ComponentValue>,
    c2: ComponentValue,
    c: Seq<ComponentValue>,
)
    requires
        eq_ic(f.name@, "clamp"@),
        f.value@ == a + seq![c1] + b + seq![c2] + c,
        is_comma(c1),
        is_comma(c2),
        forall|i: int| 0 <= i < a.len() ==> !is_comma(#[trigger] a[i]),
        forall|i: int| 0 <= i < b.len() ==> !is_comma(#[trigger] b[i]),
        forall|i: int| 0 <= i < c.len() ==> !is_comma(#[trigger] c[i]),
        sum_spec(a) is Some,
        sum_spec(b) is Some,
        sum_spec(c) is Some,
    ensures
        function_spec(f) == Some(
            MathModel::Clamp(Box::new(sum_spec(a)->0), Box::new(sum_spec(b)->0), Box::new(sum_spec(c)->0)),
        ),
{
    reveal_strlit("clamp");
    reveal_strlit("calc");
    reveal_strlit("min");
    reveal_strlit("max");
    lemma_strict_args_one(a);
    lemma_strict_args_push(a, c1, b);
    lemma_strict_args_push(a + seq![c1] + b, c2, c);
    let u = f.value@;
    assert(u.len() > 0) by {
        assert(u[a.len() as int] == c1);
    }
    let args = strict_args(u);
    assert(args == Some(seq![sum_spec(a)->0, sum_spec(b)->0, sum_spec(c)->0]));
}

// ── Reading left to right ───────────────────────────────────────────
//
// Where each part of an expression ends when it is read from a position on,
// as the parser reads it: `None` where the part is refused there.

/// Where a `calc-value` read from `p` ends: right after the first component
/// value that is not whitespace, if that is a `calc-value`.
pub open spec fn value_end(u: Seq<ComponentValue>, p: int) -> Option<int> {
    let j = next_nw(u, p);
    if j < u.len() && value_spec(u[j]) is Some {
        Some(j + 1)
    } else {
        None
    }
}

/// Where a product whose values were read up to `p` ends: each further `*`
/// or `/` must be followed by a `calc-value`, and each `/` by a `<number>`;
/// the whitespace after the last value is left unread.
pub open spec fn product_rest(u: Seq<ComponentValue>, p: int) -> Option<int>
    decreases u.len() - p,
{
    let q = next_nw(u, p);
    let j = next_nw(u, q + 1);
    proof {
        if 0 <= p <= u.len() {
            lemma_next_nw(u, p);
            if q < u.len() {
                lemma_next_nw(u, q + 1);
            }
        }
    }
    if p < 0 || p > u.len() {
        None
    } else if q < u.len() && is_mul(u[q]) {
        if j < u.len() && value_spec(u[j]) is Some && (is_delim(u[q], '/') ==> number_typed(
            value_spec(u[j])->0,
        )) {
            product_rest(u, j + 1)
        } else {
            None
        }
    } else {
        Some(p)
    }
}

/// Where a `calc-product` read from `p` ends.
pub open spec fn product_end(u: Seq<ComponentValue>, p: int) -> Option<int> {
    match value_end(u, p) {
        Some(e) => product_rest(u, e),
        None => None,
    }
}

/// A product read from `p` ends after `p`, within the list.
pub proof fn lemma_product_end(u: Seq<ComponentValue>, p: int)
    requires
        0 <= p <= u.len(),
    ensures
        product_end(u, p) matches Some(e) ==> p < e <= u.len(),
{
    lemma_next_nw(u, p);
    if value_end(u, p) is Some {
        lemma_product_rest(u, next_nw(u, p) + 1);
    }
}

/// The rest of a product ends at or after `p`, within the list.
pub proof fn lemma_product_rest(u: Seq<ComponentValue>, p: int)
    requires
        0 <= p <= u.len(),
    ensures
        product_rest(u, p) matches Some(e) ==> p <= e <= u.len(),
    decreases u.len() - p,
{
    lemma_next_nw(u, p);
    let q = next_nw(u, p);
    if q < u.len() && is_mul(u[q]) {
        lemma_next_nw(u, q + 1);
        let j = next_nw(u, q + 1);
        if j < u.len() {
            lemma_product_rest(u, j + 1);
        }
    }
}

/// Where a sum whose products were read up to `p` ends: each further `+` or
/// `-` must have whitespace on both sides and be followed by a product; the
/// whitespace after the last product is read.
pub open spec fn sum_rest(u: Seq<ComponentValue>, p: int) -> Option<int>
    decreases u.len() - p,
{
    let q = next_nw(u, p);
    proof {
        if 0 <= p <= u.len() {
            lemma_next_nw(u, p);
            if q < u.len() {
                lemma_product_end(u, q + 1);
            }
        }
    }
    if p < 0 || p > u.len() {
        None
    } else if q < u.len() && is_add(u[q]) {
        if spaced_at(u, q) {
            match product_end(u, q + 1) {
                Some(e) => sum_rest(u, e),
                None => None,
            }
        } else {
            None
        }
    } else {
        Some(q)
    }
}

/// Where a `calc-sum` read from `p` ends.
pub open spec fn sum_end(u: Seq<ComponentValue>, p: int) -> Option<int> {
    match product_end(u, p) {
        Some(e) => sum_rest(u, e),
        None => None,
    }
}

// ── Math constants ──────────────────────────────────────────────────

/// Every math constant reads back from its keyword (`NaN` in its canonical case).
pub proof fn lemma_constant_round_trip(c: MathConstant)
    ensures
        constant_of(constant_text(c)) == Some(c),
{
    reveal_strlit("e");
    reveal_strlit("pi");
    reveal_strlit("infinity");
    reveal_strlit("-infinity");
    reveal_strlit("nan");
    reveal_strlit("NaN");
    let t = constant_text(c);
    lemma_eq_ic_equivalence(t, t, t);
    lemma_eq_ic_prefix(t, "e"@);
    lemma_eq_ic_prefix(t, "pi"@);
    lemma_eq_ic_prefix(t, "infinity"@);
    lemma_eq_ic_prefix(t, "-infinity"@);
    lemma_eq_ic_prefix(t, "nan"@);
}

/// Each math constant is named by its own keyword (§9.3), in any ASCII
/// case: `e`, `pi`, `infinity`, `-infinity` and `NaN`.
pub proof fn lemma_constant_names(s: Seq<char>)
    ensures
        constant_of(s) == Some(MathConstant::E) <==> eq_ic(s, "e"@),
        constant_of(s) == Some(MathConstant::Pi) <==> eq_ic(s, "pi"@),
        constant_of(s) == Some(MathConstant::Infinity) <==> eq_ic(s, "infinity"@),
        constant_of(s) == Some(MathConstant::NegInfinity) <==> eq_ic(s, "-infinity"@),
        constant_of(s) == Some(MathConstant::NaN) <==> eq_ic(s, "nan"@),
{
    reveal_strlit("e");
    reveal_strlit("pi");
    reveal_strlit("infinity");
    reveal_strlit("-infinity");
    reveal_strlit("nan");
}

/// Math constants are named without regard to ASCII case.
pub proof fn lemma_constants_ignore_case(a: Seq<char>, b: Seq<char>)
    requires
        eq_ic(a, b),
    ensures
        constant_of(a) == constant_of(b),
{
    lemma_eq_ic_same(a, b, "e"@);
    lemma_eq_ic_same(a, b, "pi"@);
    lemma_eq_ic_same(a, b, "infinity"@);
    lemma_eq_ic_same(a, b, "-infinity"@);
    lemma_eq_ic_same(a, b, "nan"@);
}


// ── The message of a refused expression ─────────────────────────────
//
// Read left to right, an expression is refused at the first place where a
// value is missing or is not one, or where an operator is expected and
// something else stands; the message tells which.

/// The first comma at or after `p`, or the length.
pub open spec fn next_comma(u: Seq<ComponentValue>, p: int) -> int
    decreases u.len() - p,
{
    if p < 0 || p >= u.len() {
        u.len() as int
    } else if is_comma(u[p]) {
        p
    } else {
        next_comma(u, p + 1)
    }
}

/// `next_comma` skips everything but commas, and stops at a comma.
pub proof fn lemma_next_comma(u: Seq<ComponentValue>, p: int)
    requires
        0 <= p <= u.len(),
    ensures
        p <= next_comma(u, p) <= u.len(),
        forall|i: int| p <= i < next_comma(u, p) ==> !is_comma(#[trigger] u[i]),
        next_comma(u, p) < u.len() ==> is_comma(u[next_comma(u, p)]),
    decreases u.len() - p,
{
    if p < u.len() && !is_comma(u[p]) {
        lemma_next_comma(u, p + 1);
    }
}

/// Why a component value is not a `calc-value` (meaningful when it is not one).
pub open spec fn value_message(cv: ComponentValue) -> Seq<char>
    decreases cv, 0int,
{
    match cv {
        ComponentValue::PreservedToken(Token::Dimension(_, unit)) => "calc() currently supports only length dimensions, got unit: "@
            + unit@,
        ComponentValue::PreservedToken(Token::Ident(s)) => "unknown calc constant or identifier: "@ + s@,
        ComponentValue::SimpleBlock(b) => if b.kind == BlockKind::Paren {
            error_from(b.value@, 0, false)
        } else {
            "unexpected token in calc expression"@
        },
        ComponentValue::Function(f) => function_error(f),
        _ => "unexpected token in calc expression"@,
    }
}

/// The message of a sum that is refused, read from position `p`, where a
/// value is expected; `div` tells that it follows a `/`.
pub open spec fn error_from(u: Seq<ComponentValue>, p: int, div: bool) -> Seq<char>
    decreases u, u.len() - p,
{
    let j = next_nw(u, p);
    proof {
        if 0 <= p <= u.len() {
            lemma_next_nw(u, p);
        }
    }
    if p < 0 || j >= u.len() {
        "unexpected end of calc expression"@
    } else if value_spec(u[j]) is None {
        value_message(u[j])
    } else if div && !number_typed(value_spec(u[j])->0) {
        "the divisor of '/' must be a number"@
    } else {
        error_after(u, j + 1)
    }
}

/// Whitespace stands right before and right after position `q`.
pub open spec fn spaced_at(u: Seq<ComponentValue>, q: int) -> bool {
    0 < q && q + 1 < u.len() && is_ws(u[q - 1]) && is_ws(u[q + 1])
}

/// The message of a sum that is refused, read from position `p`, where an
/// operator or the end is expected.
pub open spec fn error_after(u: Seq<ComponentValue>, p: int) -> Seq<char>
    decreases u, u.len() - p,
{
    let k = next_nw(u, p);
    proof {
        if 0 <= p <= u.len() {
            lemma_next_nw(u, p);
        }
    }
    if p < 0 || p > u.len() || k >= u.len() {
        Seq::empty()
    } else if is_add(u[k]) {
        if spaced_at(u, k) {
            error_from(u, k + 1, false)
        } else {
            "'+' and '-' must have whitespace on both sides"@
        }
    } else if is_mul(u[k]) {
        error_from(u, k + 1, is_delim(u[k], '/'))
    } else {
        "unexpected trailing content in math expression"@
    }
}

/// The message of the first argument, from `start` on, that is refused.
pub open spec fn arguments_error(u: Seq<ComponentValue>, start: int) -> Seq<char>
    decreases u, u.len() - start + 1,
{
    let c = next_comma(u, start);
    proof {
        if 0 <= start <= u.len() {
            lemma_next_comma(u, start);
        }
    }
    if start < 0 || start > u.len() {
        Seq::empty()
    } else if c < u.len() {
        if sum_spec(u.subrange(start, c)) is None {
            proof {
                if start > 0 || c < u.len() {
                    assert(decreases_to!(u => u.subrange(start, c)));
                }
            }
            error_from(u.subrange(start, c), 0, false)
        } else {
            arguments_error(u, c + 1)
        }
    } else if (start < u.len() || start > 0) && sum_spec(u.subrange(start, u.len() as int)) is None {
        proof {
            if start == 0 {
                assert(u.subrange(start, u.len() as int) =~= u);
            } else {
                assert(decreases_to!(u => u.subrange(start, u.len() as int)));
            }
        }
        error_from(u.subrange(start, u.len() as int), 0, false)
    } else {
        Seq::empty()
    }
}

/// The message with which a math function is refused.
pub open spec fn function_error(f: Function) -> Seq<char>
    decreases f, 0int,
{
    if eq_ic(f.name@, "calc"@) {
        error_from(f.value@, 0, false)
    } else if eq_ic(f.name@, "min"@) || eq_ic(f.name@, "max"@) {
        match args_spec(f.value@) {
            None => arguments_error(f.value@, 0),
            Some(_) => f.name@ + "() requires at least one argument"@,
        }
    } else if eq_ic(f.name@, "clamp"@) {
        match args_spec(f.value@) {
            None => arguments_error(f.value@, 0),
            Some(args) => "clamp() requires exactly 3 arguments, got "@ + decimal(args.len()),
        }
    } else if eq_ic(f.name@, "var"@) {
        var_function_error(f)
    } else {
        "unsupported math function: "@ + f.name@ + "()"@
    }
}


/// `next_comma` is the first comma from `p` on.
pub proof fn lemma_next_comma_at(u: Seq<ComponentValue>, p: int, i: int)
    requires
        0 <= p <= i <= u.len(),
        forall|k: int| p <= k < i ==> !is_comma(#[trigger] u[k]),
        i < u.len() ==> is_comma(u[i]),
    ensures
        next_comma(u, p) == i,
    decreases i - p,
{
    if p < i {
        lemma_next_comma_at(u, p + 1, i);
    }
}

/// The arguments error read at a comma.
pub proof fn lemma_arguments_step(u: Seq<ComponentValue>, start: int, i: int)
    requires
        0 <= start <= i < u.len(),
        forall|k: int| start <= k < i ==> !is_comma(#[trigger] u[k]),
        is_comma(u[i]),
    ensures
        arguments_error(u, start) == if sum_spec(u.subrange(start, i)) is None {
            error_from(u.subrange(start, i), 0, false)
        } else {
            arguments_error(u, i + 1)
        },
{
    lemma_next_comma_at(u, start, i);
}

/// The arguments error read after the last comma.
pub proof fn lemma_arguments_last(u: Seq<ComponentValue>, start: int)
    requires
        0 <= start <= u.len(),
        forall|k: int| start <= k < u.len() ==> !is_comma(#[trigger] u[k]),
    ensures
        arguments_error(u, start) == if (start < u.len() || start > 0) && sum_spec(
            u.subrange(start, u.len() as int),
        ) is None {
            error_from(u.subrange(start, u.len() as int), 0, false)
        } else {
            Seq::empty()
        },
{
    lemma_next_comma_at(u, start, u.len() as int);
}

/// Whitespace before an operator or the end changes nothing.
pub proof fn lemma_error_after_ws(u: Seq<ComponentValue>, p: int)
    requires
        0 <= p <= u.len(),
    ensures
        error_after(u, next_nw(u, p)) == error_after(u, p),
{
    lemma_next_nw(u, p);
    let q = next_nw(u, p);
    lemma_next_nw(u, q);
    if q < u.len() {
        assert(next_nw(u, q) == q);
    }
}

} // verus!
