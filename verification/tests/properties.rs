//! The stated properties of the library on concrete values, the error of each
//! refusal, and serializations checked character for character.

use muskitty_css_values::binary64::Binary64;
use muskitty_css_values::grammar::{CssValue, ValueKind};
use muskitty_css_values::math::{parse_calc, parse_math_function, MathConstant, MathExpression};
use muskitty_css_values::numeric::{
    Angle, AngleUnit, Frequency, FrequencyUnit, Integer, Length, LengthUnit, ParseError, Ratio, Resolution,
    ResolutionUnit, Time, TimeUnit,
};
use muskitty_css_values::serialize::{
    angle_unit_str, frequency_unit_str, resolution_unit_str, time_unit_str, CssAtom, ToCss,
};
use muskitty_css_values::textual::{is_dashed_ident, CssString, Url};
use muskitty_css_values::syntax::{ComponentValue, HashType, Token};
use muskitty_css_values::var::{is_custom_property_name, VarReference};
use muskitty_css_values::{parse_integer, parse_length, parse_value, parse_var};

fn format_number(v: f64) -> String {
    if v == v.trunc() && v.is_finite() {
        format!("{:.0}", v)
    } else {
        format!("{}", v)
    }
}

fn render(atoms: &[CssAtom]) -> String {
    let mut s = String::new();
    for a in atoms {
        match a {
            CssAtom::Char(c) => s.push(*c),
            CssAtom::Number(b) => s.push_str(&format_number(f64::from_bits(b.bits))),
        }
    }
    s
}

fn val(b: Binary64) -> f64 {
    f64::from_bits(b.bits)
}

fn message<T: std::fmt::Debug>(r: Result<T, ParseError>) -> String {
    r.unwrap_err().message
}

// ── Whitespace only separates ───────────────────────────────────────

#[test]
fn calc_reads_the_same_with_or_without_whitespace() {
    let a = parse_calc("calc(2*3/4)").unwrap();
    let b = parse_calc("calc(  2 *  3 / 4  )").unwrap();
    assert_eq!(render(&a.to_css_string()), "2 * 3 / 4");
    assert_eq!(render(&b.to_css_string()), "2 * 3 / 4");
}

#[test]
fn whitespace_around_any_value_is_ignored() {
    let kinds = [
        ("10px", ValueKind::Length),
        ("50%", ValueKind::Percentage),
        ("auto", ValueKind::Keyword),
        ("16 / 9", ValueKind::Ratio),
        ("calc(1px + 2px)", ValueKind::Calc),
        ("var(--x)", ValueKind::Var),
    ];
    for (text, kind) in kinds {
        let padded = format!("  {}  ", text);
        assert!(parse_value(text, kind).is_ok());
        assert!(parse_value(&padded, kind).is_ok(), "failed for {padded:?}");
    }
}

// ── A sum is an alternation of values and operators ─────────────────

#[test]
fn calc_accepts_alternating_values_and_operators() {
    let e = parse_calc("calc(1 + 2 * 3 - 4 / 5)").unwrap();
    assert_eq!(render(&e.to_css_string()), "1 + 2 * 3 + (-1 * (4 / 5))");
}

#[test]
fn calc_refuses_what_does_not_alternate() {
    assert!(parse_calc("calc(1 2)").is_err());
    assert!(parse_calc("calc(1 * * 2)").is_err());
    assert!(parse_calc("calc(* 2)").is_err());
    assert!(parse_calc("calc(2 *)").is_err());
    assert!(parse_calc("calc(1px ; 2px)").is_err());
}

#[test]
fn calc_precedence_and_associativity() {
    let e = parse_calc("calc(1 - 2 - 3)").unwrap();
    assert_eq!(render(&e.to_css_string()), "1 + (-1 * 2) + (-1 * 3)");
    let e = parse_calc("calc(8 / 4 / 2)").unwrap();
    match &e {
        MathExpression::Quotient(left, right) => {
            assert!(matches!(left.as_ref(), MathExpression::Quotient(_, _)));
            assert!(matches!(right.as_ref(), MathExpression::Number(n) if val(n.value) == 2.0));
        }
        other => panic!("expected a quotient, got {other:?}"),
    }
    let e = parse_calc("calc(2 * (3 + 4))").unwrap();
    assert_eq!(render(&e.to_css_string()), "2 * (3 + 4)");
    assert!(matches!(e, MathExpression::Product(_, _)));
}

// ── Unit spellings read back, without regard to case ────────────────

#[test]
fn every_unit_reads_back_from_its_spelling() {
    let lengths = [
        LengthUnit::Em, LengthUnit::Rem, LengthUnit::Ex, LengthUnit::Ch, LengthUnit::Vw,
        LengthUnit::Vh, LengthUnit::Vmin, LengthUnit::Vmax, LengthUnit::Px, LengthUnit::Cm,
        LengthUnit::Mm, LengthUnit::In, LengthUnit::Pt, LengthUnit::Pc, LengthUnit::Q,
    ];
    for u in lengths {
        assert_eq!(LengthUnit::parse_unit(u.to_str()), Some(u));
    }
    for u in [AngleUnit::Deg, AngleUnit::Grad, AngleUnit::Rad, AngleUnit::Turn] {
        assert_eq!(AngleUnit::parse_unit(angle_unit_str(u)), Some(u));
    }
    for u in [TimeUnit::S, TimeUnit::Ms] {
        assert_eq!(TimeUnit::parse_unit(time_unit_str(u)), Some(u));
    }
    for u in [FrequencyUnit::Hz, FrequencyUnit::KHz] {
        assert_eq!(FrequencyUnit::parse_unit(frequency_unit_str(u)), Some(u));
    }
    for u in [ResolutionUnit::Dpi, ResolutionUnit::Dpcm, ResolutionUnit::Dppx] {
        assert_eq!(ResolutionUnit::parse_unit(resolution_unit_str(u)), Some(u));
    }
}

#[test]
fn unit_names_ignore_ascii_case() {
    assert_eq!(LengthUnit::parse_unit("VMIN"), Some(LengthUnit::Vmin));
    assert_eq!(LengthUnit::parse_unit("q"), Some(LengthUnit::Q));
    assert_eq!(AngleUnit::parse_unit("DeG"), Some(AngleUnit::Deg));
    assert_eq!(TimeUnit::parse_unit("MS"), Some(TimeUnit::Ms));
    assert_eq!(FrequencyUnit::parse_unit("KHZ"), Some(FrequencyUnit::KHz));
    assert_eq!(ResolutionUnit::parse_unit("DPPX"), Some(ResolutionUnit::Dppx));
    assert_eq!(LengthUnit::parse_unit("pxx"), None);
    assert_eq!(AngleUnit::parse_unit(""), None);
}

#[test]
fn every_constant_reads_back_from_its_keyword() {
    let all = [
        MathConstant::E,
        MathConstant::Pi,
        MathConstant::Infinity,
        MathConstant::NegInfinity,
        MathConstant::NaN,
    ];
    for c in all {
        let e = parse_calc(&format!("calc({})", c.to_str())).unwrap();
        assert!(matches!(e, MathExpression::Constant(k) if k == c));
    }
    let e = parse_calc("calc(nAn)").unwrap();
    assert_eq!(render(&e.to_css_string()), "NaN");
    let e = parse_calc("calc(-INFINITY)").unwrap();
    assert_eq!(render(&e.to_css_string()), "-infinity");
}

#[test]
fn dashed_idents_are_custom_property_names() {
    for s in ["--a", "--my-var", "--", "-a", "a--", ""] {
        assert_eq!(is_dashed_ident(s), is_custom_property_name(s));
    }
    assert!(is_dashed_ident("--a"));
    assert!(!is_dashed_ident("--"));
}

// ── Each refusal and its message ────────────────────────────────────

#[test]
fn error_messages() {
    assert_eq!(message(parse_length("10px 20px")), "expected exactly one value, got 2");
    assert_eq!(message(parse_length("")), "expected exactly one value, got 0");
    assert_eq!(message(parse_calc("10px")), "expected calc() function");
    assert_eq!(message(parse_calc("max()")), "max() requires at least one argument");
    assert_eq!(
        message(parse_math_function("10px")),
        "expected a math function (calc/min/max/clamp)"
    );
    assert_eq!(message(parse_math_function("foo(1)")), "unsupported math function: foo()");
    assert_eq!(
        message(parse_math_function("clamp(1, 2)")),
        "clamp() requires exactly 3 arguments, got 2"
    );
    assert_eq!(message(parse_math_function("MIN()")), "MIN() requires at least one argument");
    assert_eq!(message(parse_calc("calc(1 2)")), "unexpected trailing content in math expression");
    assert_eq!(
        message(parse_calc("calc(45deg)")),
        "calc() currently supports only length dimensions, got unit: deg"
    );
    assert_eq!(message(parse_calc("calc(foo)")), "unknown calc constant or identifier: foo");
    assert_eq!(message(parse_calc("calc(10px +)")), "'+' and '-' must have whitespace on both sides");
    assert_eq!(message(parse_calc("calc(10px + ;)")), "unexpected token in calc expression");
    assert_eq!(message(parse_calc("calc((1 + ))")), "unexpected end of calc expression");
    assert_eq!(
        message(parse_math_function("min(1px, foo, 2deg)")),
        "unknown calc constant or identifier: foo"
    );
    assert_eq!(message(parse_math_function("max(1px, [2px])")), "unexpected token in calc expression");
    assert_eq!(message(parse_calc("calc(var(x))")), "var() first argument must be a custom property name (starting with '--'), got: x");
    assert_eq!(message(parse_var("10px")), "expected var() function");
    assert_eq!(message(parse_var("var()")), "var() requires at least one argument");
    assert_eq!(message(parse_var("var(1px)")), "var() first argument must be an ident token");
    assert_eq!(
        message(parse_var("var(foo)")),
        "var() first argument must be a custom property name (starting with '--'), got: foo"
    );
}

#[test]
fn parse_error_text() {
    let e = ParseError::new("bad".to_string());
    assert_eq!(e.message, "bad");
    assert_eq!(e.to_display_string(), "CSS value parse error: bad");
}

#[test]
fn grammar_refusal_is_a_generic_syntax_error() {
    match parse_value("auto", ValueKind::Length) {
        Err(muskitty_css::parser::ParseError::Generic(m)) => {
            assert_eq!(m, "expected a dimension token for length")
        }
        other => panic!("expected a generic error, got {other:?}"),
    }
}

// ── Values ──────────────────────────────────────────────────────────

#[test]
fn integer_conversion_saturates() {
    assert_eq!(parse_integer("3000000000").unwrap().value, i32::MAX);
    assert_eq!(parse_integer("-3000000000").unwrap().value, i32::MIN);
    assert_eq!(parse_integer("0").unwrap().value, 0);
}

#[test]
fn grammar_builds_the_value_of_its_kind() {
    match parse_value("calc(1px + 2%)", ValueKind::Calc).unwrap() {
        CssValue::Calc(e) => assert_eq!(render(&e.to_css_string()), "1px + 2%"),
        other => panic!("expected a math expression, got {other:?}"),
    }
    match parse_value("  -7 ", ValueKind::Integer).unwrap() {
        CssValue::Integer(i) => assert_eq!(i, Integer { value: -7 }),
        other => panic!("expected an integer, got {other:?}"),
    }
    match parse_value("var(--a,b)", ValueKind::Var).unwrap() {
        CssValue::Var(v) => assert_eq!(render(&v.to_css_string()), "var(--a, b)"),
        other => panic!("expected a var() reference, got {other:?}"),
    }
}

#[test]
fn length_keeps_the_number_as_written() {
    let l = Length::parse("0.1px").unwrap();
    assert_eq!(val(l.value), 0.1);
    assert_eq!(l.unit, LengthUnit::Px);
}

// ── Serialization ───────────────────────────────────────────────────

#[test]
fn string_and_url_escape_backslash_and_quote() {
    let s = CssString::parse(r#""a\\b""#).unwrap();
    assert_eq!(s.value, "a\\b");
    assert_eq!(render(&s.to_css_string()), r#""a\\b""#);
    let u = Url::parse(r#"url("x\"y")"#).unwrap();
    assert_eq!(render(&u.to_css_string()), r#"url("x\"y")"#);
}

#[test]
fn ratio_with_height_one_writes_the_width_only() {
    let r = Ratio::parse("16 / 1").unwrap();
    assert_eq!(render(&r.to_css_string()), "16");
    let r = Ratio::parse("1.5").unwrap();
    assert_eq!(render(&r.to_css_string()), "1.5");
    let r = Ratio::parse("4/3").unwrap();
    assert_eq!(render(&r.to_css_string()), "4 / 3");
}

#[test]
fn units_serialize_after_the_number() {
    assert_eq!(render(&Angle::parse("45DEG").unwrap().to_css_string()), "45deg");
    assert_eq!(render(&Time::parse("250ms").unwrap().to_css_string()), "250ms");
    assert_eq!(render(&Frequency::parse("1khz").unwrap().to_css_string()), "1kHz");
    assert_eq!(render(&Resolution::parse("96dpi").unwrap().to_css_string()), "96dpi");
    assert_eq!(render(&Length::parse("2q").unwrap().to_css_string()), "2Q");
    assert_eq!(render(&Integer::parse("-12").unwrap().to_css_string()), "-12");
}

#[test]
fn math_functions_serialize_with_their_arguments() {
    let e = parse_math_function("max(1px, min(2px, 3%), clamp(1px, 2px, 3px))").unwrap();
    assert_eq!(render(&e.to_css_string()), "max(1px, min(2px, 3%), clamp(1px, 2px, 3px))");
    assert_eq!(message(parse_math_function("min(1px,)")), "unexpected end of calc expression");
    assert!(parse_math_function("min(1px, )").is_err());
    assert!(parse_math_function("min(, 1px)").is_err());
    let e = parse_calc("calc(var(--w, 1px) * pi)").unwrap();
    assert_eq!(render(&e.to_css_string()), "var(--w, 1px) * pi");
}

#[test]
fn var_fallback_is_trimmed_and_written_token_by_token() {
    let v = VarReference::parse("var(--x,   a   b  )").unwrap();
    assert_eq!(render(&v.to_css_string()), "var(--x, a b)");
    let v = VarReference::parse("var(--x, rgb( 1 , 2 ) #fff \"s\" 50% 3:4;)").unwrap();
    assert_eq!(render(&v.to_css_string()), "var(--x, rgb(1 , 2) #fff \"s\" 50% 3:4;)");
    let v = VarReference::parse("var(--x,)").unwrap();
    assert_eq!(render(&v.to_css_string()), "var(--x, )");
    let v = VarReference::parse("var(--x, [a] / 2)").unwrap();
    assert_eq!(render(&v.to_css_string()), "var(--x, / 2)");
}

#[test]
fn var_found_anywhere_in_the_list() {
    let v = parse_var("foo var(--y) bar").unwrap();
    assert_eq!(v.name, "--y");
    assert!(v.fallback.is_none());
}

#[test]
fn clones_are_deep_copies() {
    let e = parse_math_function("clamp(1px, calc(var(--a, 2px) * 3), max(4%, 5px))").unwrap();
    let c = e.clone();
    drop(e);
    assert_eq!(render(&c.to_css_string()), "clamp(1px, var(--a, 2px) * 3, max(4%, 5px))");
    let v = parse_var("var(--b, f( x ))").unwrap();
    let w = v.clone();
    assert_eq!(render(&w.to_css_string()), "var(--b, f(x))");
    let value = parse_value("calc(1px - 2px)", ValueKind::Calc).unwrap();
    match value.clone() {
        CssValue::Calc(x) => assert_eq!(render(&x.to_css_string()), "1px + (-1 * 2px)"),
        other => panic!("expected a math expression, got {other:?}"),
    }
}

#[test]
fn zero_edge_cases() {
    let a = Angle::parse("-0").unwrap();
    assert_eq!(a.unit, AngleUnit::Deg);
    assert_eq!(a.value.bits, 0);
    assert!(Angle::parse("0.5").is_err());
    let r = Ratio::parse("-0").unwrap();
    assert_eq!(val(r.width), 0.0);
    assert_eq!(val(r.height), 1.0);
    assert_eq!(message(Ratio::parse("1 / 2 / 3")), "ratio with second value must be 'number / number'");
    assert_eq!(message(Ratio::parse("1 * 2")), "expected '/' between ratio numbers");
    assert_eq!(message(Ratio::parse("a")), "ratio first value must be a number");
    assert_eq!(message(Ratio::parse("1 / a")), "ratio second value must be a number");
}

// ── What a sum needs ────────────────────────────────────────────────

#[test]
fn calc_accepts_min_max_and_clamp() {
    match parse_calc("min(10px, 20px)").unwrap() {
        MathExpression::Min(ref a) => assert_eq!(a.len(), 2),
        other => panic!("expected min(), got {other:?}"),
    }
    assert!(matches!(parse_calc("MAX(1px)").unwrap(), MathExpression::Max(_)));
    assert!(matches!(parse_calc("clamp(1px, 2px, 3px)").unwrap(), MathExpression::Clamp { .. }));
    assert_eq!(message(parse_calc("var(--x)")), "expected calc() function");
}

#[test]
fn divisor_must_be_a_number() {
    assert_eq!(message(parse_calc("calc(10px / 5px)")), "the divisor of '/' must be a number");
    assert_eq!(message(parse_calc("calc(1 / 50%)")), "the divisor of '/' must be a number");
    assert_eq!(message(parse_calc("calc(1 / (2 * 3px))")), "the divisor of '/' must be a number");
    assert!(parse_calc("calc(10px / 2)").is_ok());
    assert!(parse_calc("calc(10px / (1 + 1))").is_ok());
    assert!(parse_calc("calc(10px / pi)").is_ok());
    assert!(parse_calc("calc(10px / var(--n))").is_ok());
    assert!(parse_calc("calc(10px / max(2, 3))").is_ok());
}

#[test]
fn plus_and_minus_need_whitespace() {
    let m = "'+' and '-' must have whitespace on both sides";
    assert_eq!(message(parse_calc("calc(10px+ 5px)")), m);
    assert_eq!(message(parse_calc("calc(10px +(5px))")), m);
    assert_eq!(message(parse_calc("calc((1px)-(2px))")), m);
    assert!(parse_calc("calc(10px + 5px)").is_ok());
    assert!(parse_calc("calc(2*3 + 4/2)").is_ok());
}

#[test]
fn trailing_comma_is_refused() {
    assert!(parse_math_function("min(10px,)").is_err());
    assert!(parse_math_function("max(1px, 2px,)").is_err());
    assert!(parse_math_function("clamp(1px, 2px, 3px,)").is_err());
    assert!(parse_math_function("min(10px)").is_ok());
}

#[test]
fn grouping_survives_serialization() {
    let e = parse_calc("calc((10px + 5px) * 2)").unwrap();
    assert_eq!(render(&e.to_css_string()), "(10px + 5px) * 2");
    let e = parse_calc("calc(1px - (2px - 3px))").unwrap();
    assert_eq!(render(&e.to_css_string()), "1px + (-1 * (2px + (-1 * 3px)))");
    let e = parse_calc("calc(1px + (2px + 3px))").unwrap();
    assert_eq!(render(&e.to_css_string()), "1px + (2px + 3px)");
    let e = parse_calc("calc(8 / (4 / 2))").unwrap();
    assert_eq!(render(&e.to_css_string()), "8 / (4 / 2)");
    for text in ["(10px + 5px) * 2", "1px + (2px + 3px)", "8 / (4 / 2)", "2 * 3 / 4"] {
        let once = render(&parse_calc(&format!("calc({text})")).unwrap().to_css_string());
        let twice = render(&parse_calc(&format!("calc({once})")).unwrap().to_css_string());
        assert_eq!(once, twice);
    }
}

#[test]
fn var_fallback_keeps_every_token() {
    let v = parse_var("var(--x, @media #main #123)").unwrap();
    let fb = v.fallback.unwrap();
    let tokens: Vec<&Token> = fb
        .iter()
        .filter_map(|cv| match cv {
            ComponentValue::PreservedToken(t) if !matches!(t, Token::Whitespace) => Some(t),
            _ => None,
        })
        .collect();
    assert!(matches!(tokens[0], Token::AtKeyword(s) if s == "media"));
    assert!(matches!(tokens[1], Token::Hash(s, HashType::Id) if s == "main"));
    assert!(matches!(tokens[2], Token::Hash(s, HashType::Unrestricted) if s == "123"));
    assert_eq!(tokens.len(), 3);
}
