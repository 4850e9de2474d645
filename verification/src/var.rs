//! `var()` references — CSS Variables Level 1 §3: the syntax only, not the
//! substitution.

use crate::numeric::{error, error_with, ParseError};
use crate::syntax::{
    copy_component_values, is_comma, models, is_ws, parse_list_of_component_values, spec_component_values, ComponentValue,
    Function, Token,
};
use crate::text::{eq_ic, eq_ignore_ascii_case, has_dashed_prefix, is_dashed_name};
use vstd::prelude::*;

verus! {

/// A parsed `var()` reference (css-variables-1 §3).
#[derive(Debug)]
pub struct VarReference {
    /// The custom property name, `--` included.
    pub name: String,
    /// The component values after the first comma, whitespace kept: `None`
    /// without a comma, `Some` of an empty list after a bare comma.
    pub fallback: Option<Vec<ComponentValue>>,
}

/// The first `var()` function (name compared without regard to ASCII case) in `s`.
pub open spec fn first_var_function(s: Seq<ComponentValue>) -> Option<Function>
    decreases s.len(),
{
    if s.len() == 0 {
        None
    } else {
        match s[0] {
            ComponentValue::Function(f) => if eq_ic(f.name@, "var"@) {
                Some(f)
            } else {
                first_var_function(s.drop_first())
            },
            _ => first_var_function(s.drop_first()),
        }
    }
}

/// The first component value of `s` that is not whitespace.
pub open spec fn first_non_ws(s: Seq<ComponentValue>) -> Option<ComponentValue>
    decreases s.len(),
{
    if s.len() == 0 {
        None
    } else if is_ws(s[0]) {
        first_non_ws(s.drop_first())
    } else {
        Some(s[0])
    }
}

/// The position of the first comma token of `s`.
pub open spec fn first_comma(s: Seq<ComponentValue>) -> Option<int>
    decreases s.len(),
{
    if s.len() == 0 {
        None
    } else if is_comma(s[0]) {
        Some(0)
    } else {
        match first_comma(s.drop_first()) {
            Some(k) => Some(k + 1),
            None => None,
        }
    }
}

/// The name and the fallback that a `var()` function's arguments give: the
/// first argument must be a custom property name, and the fallback is what
/// follows the first comma.
pub open spec fn spec_var_of_function(f: Function) -> Option<(Seq<char>, Option<Seq<ComponentValue>>)> {
    match first_non_ws(f.value@) {
        Some(ComponentValue::PreservedToken(Token::Ident(s))) => if is_dashed_name(s@) {
            Some(
                (
                    s@,
                    match first_comma(f.value@) {
                        Some(k) => Some(f.value@.skip(k + 1)),
                        None => None,
                    },
                ),
            )
        } else {
            None
        },
        _ => None,
    }
}

/// In a list that holds a comma after a part without one, the first comma
/// is the one after that part.
proof fn lemma_first_comma_after(a: Seq<ComponentValue>, b: Seq<ComponentValue>)
    requires
        forall|i: int| 0 <= i < a.len() ==> !is_comma(#[trigger] a[i]),
        b.len() > 0,
        is_comma(b[0]),
    ensures
        first_comma(a + b) == Some(a.len() as int),
    decreases a.len(),
{
    if a.len() == 0 {
        assert(a + b =~= b);
    } else {
        assert((a + b)[0] == a[0]);
        assert((a + b).drop_first() =~= a.drop_first() + b);
        assert forall|i: int| 0 <= i < a.drop_first().len() implies !is_comma(#[trigger] a.drop_first()[i]) by {
            assert(a.drop_first()[i] == a[i + 1]);
        }
        lemma_first_comma_after(a.drop_first(), b);
    }
}

/// What follows a part that holds a value other than whitespace does not
/// change its first such value.
proof fn lemma_first_non_ws_prefix(a: Seq<ComponentValue>, b: Seq<ComponentValue>)
    requires
        first_non_ws(a) is Some,
    ensures
        first_non_ws(a + b) == first_non_ws(a),
    decreases a.len(),
{
    assert((a + b)[0] == a[0]);
    if is_ws(a[0]) {
        assert((a + b).drop_first() =~= a.drop_first() + b);
        lemma_first_non_ws_prefix(a.drop_first(), b);
    }
}

/// The fallback of a `var()` reference is everything after the first comma,
/// later commas included: when the arguments are a part without a comma
/// whose first value is a custom property name, a comma, and `rest`, the
/// reference has that name and the fallback `rest`.
pub proof fn lemma_var_fallback_after_first_comma(
    f: Function,
    a: Seq<ComponentValue>,
    c: ComponentValue,
    rest: Seq<ComponentValue>,
    name: String,
)
    requires
        f.value@ == a + seq![c] + rest,
        is_comma(c),
        forall|i: int| 0 <= i < a.len() ==> !is_comma(#[trigger] a[i]),
        first_non_ws(a) == Some(ComponentValue::PreservedToken(Token::Ident(name))),
        is_dashed_name(name@),
    ensures
        spec_var_of_function(f) == Some((name@, Some(rest))),
{
    let u = f.value@;
    assert(u =~= a + (seq![c] + rest));
    lemma_first_comma_after(a, seq![c] + rest);
    lemma_first_non_ws_prefix(a, seq![c] + rest);
    assert(u.skip(a.len() as int + 1) =~= rest);
}

/// Without a comma among its arguments, a `var()` reference has no fallback.
pub proof fn lemma_var_without_comma(f: Function)
    requires
        forall|i: int| 0 <= i < f.value@.len() ==> !is_comma(#[trigger] f.value@[i]),
    ensures
        spec_var_of_function(f) matches Some((_, fb)) ==> fb is None,
{
    lemma_no_comma(f.value@);
}

/// A list without a comma has no first comma.
proof fn lemma_no_comma(a: Seq<ComponentValue>)
    requires
        forall|i: int| 0 <= i < a.len() ==> !is_comma(#[trigger] a[i]),
    ensures
        first_comma(a) is None,
    decreases a.len(),
{
    if a.len() > 0 {
        assert(!is_comma(a[0]));
        assert forall|i: int| 0 <= i < a.drop_first().len() implies !is_comma(#[trigger] a.drop_first()[i]) by {
            assert(a.drop_first()[i] == a[i + 1]);
        }
        lemma_no_comma(a.drop_first());
    }
}

/// The message with which a `var()` function is refused.
pub open spec fn var_function_error(f: Function) -> Seq<char> {
    match first_non_ws(f.value@) {
        None => "var() requires at least one argument"@,
        Some(ComponentValue::PreservedToken(Token::Ident(s))) => "var() first argument must be a custom property name (starting with '--'), got: "@
            + s@,
        Some(_) => "var() first argument must be an ident token"@,
    }
}

/// The message with which a list without a `var()` reference is refused.
pub open spec fn var_error(cvs: Seq<ComponentValue>) -> Seq<char> {
    match first_var_function(cvs) {
        None => "expected var() function"@,
        Some(f) => var_function_error(f),
    }
}

/// The name and fallback of the `var()` reference in a list of component values.
pub open spec fn spec_var(cvs: Seq<ComponentValue>) -> Option<(Seq<char>, Option<Seq<ComponentValue>>)> {
    match first_var_function(cvs) {
        Some(f) => spec_var_of_function(f),
        None => None,
    }
}

/// Whether a parsed reference has the given name and fallback.
pub open spec fn var_matches(
    v: VarReference,
    expected: (Seq<char>, Option<Seq<ComponentValue>>),
) -> bool {
    &&& v.name@ == expected.0
    &&& match (v.fallback, expected.1) {
        (None, None) => true,
        (Some(fb), Some(e)) => models(fb@) == models(e),
        _ => false,
    }
}

impl VarReference {
    /// Parses a `var()` reference from CSS text.
    pub fn parse(input: &str) -> (r: Result<VarReference, ParseError>)
        ensures
            r is Ok <==> spec_var(spec_component_values(input@)) is Some,
            r matches Ok(v) ==> var_matches(v, spec_var(spec_component_values(input@))->0),
            r matches Err(e) ==> e.message@ == var_error(spec_component_values(input@)),
    {
        let cvs = parse_list_of_component_values(input);
        VarReference::from_cvs(cvs.as_slice())
    }

    /// Parses the first `var()` function among the component values.
    pub fn from_cvs(cvs: &[ComponentValue]) -> (r: Result<VarReference, ParseError>)
        ensures
            r is Ok <==> spec_var(cvs@) is Some,
            r matches Ok(v) ==> var_matches(v, spec_var(cvs@)->0),
            r matches Err(e) ==> e.message@ == var_error(cvs@),
    {
        let n = cvs.len();
        let mut i: usize = 0;
        assert(cvs@.skip(0) =~= cvs@);
        while i < n
            invariant
                n == cvs@.len(),
                i <= n,
                first_var_function(cvs@) == first_var_function(cvs@.skip(i as int)),
            decreases n - i,
        {
            assert(cvs@.skip(i as int).drop_first() =~= cvs@.skip(i + 1));
            assert(cvs@.skip(i as int)[0] == cvs@[i as int]);
            if let ComponentValue::Function(f) = &cvs[i] {
                if eq_ignore_ascii_case(f.name.as_str(), "var") {
                    return VarReference::from_function(f);
                }
            }
            i += 1;
        }
        Err(error("expected var() function"))
    }

    /// Parses a `var()` function already found (as inside `calc()`).
    pub fn from_function(func: &Function) -> (r: Result<VarReference, ParseError>)
        ensures
            r is Ok <==> spec_var_of_function(*func) is Some,
            r matches Ok(v) ==> var_matches(v, spec_var_of_function(*func)->0),
            r matches Err(e) ==> e.message@ == var_function_error(*func),
    {
        let n = func.value.len();
        let mut i: usize = 0;
        assert(func.value@.skip(0) =~= func.value@);
        while i < n && is_whitespace(&func.value[i])
            invariant
                n == func.value@.len(),
                i <= n,
                first_non_ws(func.value@) == first_non_ws(func.value@.skip(i as int)),
            decreases n - i,
        {
            assert(func.value@.skip(i as int).drop_first() =~= func.value@.skip(i + 1));
            assert(func.value@.skip(i as int)[0] == func.value@[i as int]);
            i += 1;
        }
        if i == n {
            return Err(error("var() requires at least one argument"));
        }
        assert(func.value@.skip(i as int)[0] == func.value@[i as int]);
        let name = match &func.value[i] {
            ComponentValue::PreservedToken(Token::Ident(s)) => {
                if !is_custom_property_name(s.as_str()) {
                    return Err(
                        error_with(
                            "var() first argument must be a custom property name (starting with '--'), got: ",
                            s.as_str(),
                        ),
                    );
                }
                s.clone()
            },
            _ => return Err(error("var() first argument must be an ident token")),
        };
        let mut j: usize = 0;
        while j < n && !is_comma_token(&func.value[j])
            invariant
                n == func.value@.len(),
                j <= n,
                first_comma(func.value@) == match first_comma(func.value@.skip(j as int)) {
                    Some(k) => Some(k + j),
                    None => None,
                },
            decreases n - j,
        {
            assert(func.value@.skip(j as int).drop_first() =~= func.value@.skip(j + 1));
            assert(func.value@.skip(j as int)[0] == func.value@[j as int]);
            j += 1;
        }
        let fallback = if j == n {
            None
        } else {
            assert(func.value@.skip(j as int)[0] == func.value@[j as int]);
            Some(copy_component_values(&func.value, j + 1, n))
        };
        Ok(VarReference { name, fallback })
    }
}

impl Clone for VarReference {
    /// A deep copy.
    fn clone(&self) -> (r: Self)
        ensures
            r.name == self.name,
            match (r.fallback, self.fallback) {
                (None, None) => true,
                (Some(a), Some(b)) => models(a@) == models(b@),
                _ => false,
            },
    {
        let fallback = match &self.fallback {
            None => None,
            Some(fb) => {
                let copy = copy_component_values(fb, 0, fb.len());
                assert(fb@.subrange(0, fb@.len() as int) =~= fb@);
                Some(copy)
            },
        };
        VarReference { name: self.name.clone(), fallback }
    }
}

/// Whether `s` is a custom property name (css-variables-1 §2): `--` and at
/// least one more character.
pub fn is_custom_property_name(s: &str) -> (b: bool)
    ensures
        b == is_dashed_name(s@),
{
    has_dashed_prefix(s)
}

/// Whether a component value is a whitespace token.
fn is_whitespace(cv: &ComponentValue) -> (b: bool)
    ensures
        b == is_ws(*cv),
{
    matches!(cv, ComponentValue::PreservedToken(Token::Whitespace))
}

fn is_comma_token(cv: &ComponentValue) -> (b: bool)
    ensures
        b == is_comma(*cv),
{
    matches!(cv, ComponentValue::PreservedToken(Token::Comma))
}


/// Whitespace before or after the list changes which `var()` comes first in
/// no way: whitespace is never a function.
pub proof fn lemma_first_var_whitespace(w: Seq<ComponentValue>, s: Seq<ComponentValue>)
    requires
        forall|i: int| 0 <= i < w.len() ==> is_ws(#[trigger] w[i]),
    ensures
        first_var_function(w + s) == first_var_function(s),
        first_var_function(s + w) == first_var_function(s),
    decreases w.len() + s.len(),
{
    if w.len() > 0 {
        assert((w + s).drop_first() =~= w.drop_first() + s);
        assert((w + s)[0] == w[0]);
        assert forall|i: int| 0 <= i < w.drop_first().len() implies is_ws(#[trigger] w.drop_first()[i]) by {
            assert(w.drop_first()[i] == w[i + 1]);
        }
        lemma_first_var_whitespace(w.drop_first(), s);
    } else {
        assert(w + s =~= s);
    }
    if s.len() > 0 {
        assert((s + w).drop_first() =~= s.drop_first() + w);
        assert((s + w)[0] == s[0]);
        lemma_first_var_whitespace(w, s.drop_first());
    } else {
        assert(s + w =~= w);
        if w.len() > 0 {
            assert(w.drop_first() + s =~= w.drop_first());
            assert forall|i: int| 0 <= i < w.drop_first().len() implies is_ws(#[trigger] w.drop_first()[i]) by {
                assert(w.drop_first()[i] == w[i + 1]);
            }
            lemma_first_var_whitespace(w.drop_first(), s);
            assert(w.drop_first() + s =~= w.drop_first());
        }
    }
}

} // verus!
