//! The grammar entry point and serialization.

use muskitty_css_values::binary64::Binary64;
use muskitty_css_values::grammar::{CssValue, ValueKind, ValuesGrammar};
use muskitty_css_values::parse_value;
use muskitty_css_values::serialize::{CssAtom, ToCss};

/// A number as CSS writes it: without a fractional part when it has none.
fn format_number(v: f64) -> String {
    if v == v.trunc() && v.is_finite() {
        format!("{:.0}", v)
    } else {
        format!("{}", v)
    }
}

/// The text of a serialization, each number written out.
fn render(atoms: &[CssAtom]) -> String {
    let mut s = String::new();
    for a in atoms {
        match a {
            CssAtom::Char(c) => s.push(*c),
            CssAtom::Number(b) => s.push_str(&format_number(f64::from_bits(b.bits))),
        }
    }
    s
}

fn bits(v: f64) -> Binary64 {
    Binary64 { bits: v.to_bits() }
}

#[test]
fn parse_length_via_grammar() {
    let g = ValuesGrammar {
        kind: ValueKind::Length,
    };
    let v = parse_value("10px", g.kind).unwrap();
    assert!(matches!(v, CssValue::Length(_)));
}

#[test]
fn parse_percentage_via_grammar() {
    let g = ValuesGrammar {
        kind: ValueKind::Percentage,
    };
    let v = parse_value("50%", g.kind).unwrap();
    assert!(matches!(v, CssValue::Percentage(_)));
}

#[test]
fn parse_number_via_grammar() {
    let g = ValuesGrammar {
        kind: ValueKind::Number,
    };
    let v = parse_value("42", g.kind).unwrap();
    assert!(matches!(v, CssValue::Number(_)));
}

#[test]
fn parse_integer_via_grammar() {
    let g = ValuesGrammar {
        kind: ValueKind::Integer,
    };
    let v = parse_value("7", g.kind).unwrap();
    assert!(matches!(v, CssValue::Integer(_)));
}

#[test]
fn parse_angle_via_grammar() {
    let g = ValuesGrammar {
        kind: ValueKind::Angle,
    };
    let v = parse_value("45deg", g.kind).unwrap();
    assert!(matches!(v, CssValue::Angle(_)));
}

#[test]
fn parse_keyword_via_grammar() {
    let g = ValuesGrammar {
        kind: ValueKind::Keyword,
    };
    let v = parse_value("auto", g.kind).unwrap();
    assert!(matches!(v, CssValue::Keyword(_)));
}

#[test]
fn parse_dashed_ident_via_grammar() {
    let g = ValuesGrammar {
        kind: ValueKind::DashedIdent,
    };
    let v = parse_value("--foo", g.kind).unwrap();
    assert!(matches!(v, CssValue::DashedIdent(_)));
}

#[test]
fn parse_string_via_grammar() {
    let g = ValuesGrammar {
        kind: ValueKind::String,
    };
    let v = parse_value("\"hello\"", g.kind).unwrap();
    assert!(matches!(v, CssValue::String(_)));
}

#[test]
fn parse_url_via_grammar() {
    let g = ValuesGrammar {
        kind: ValueKind::Url,
    };
    let v = parse_value("url(image.png)", g.kind).unwrap();
    assert!(matches!(v, CssValue::Url(_)));
}

#[test]
fn parse_calc_via_grammar() {
    let g = ValuesGrammar {
        kind: ValueKind::Calc,
    };
    let v = parse_value("calc(10px + 5px)", g.kind).unwrap();
    assert!(matches!(v, CssValue::Calc(_)));
}

#[test]
fn parse_min_via_grammar() {
    let g = ValuesGrammar {
        kind: ValueKind::Calc,
    };
    let v = parse_value("min(10px, 20px)", g.kind).unwrap();
    assert!(matches!(v, CssValue::Calc(_)));
}

#[test]
fn parse_var_via_grammar() {
    let g = ValuesGrammar {
        kind: ValueKind::Var,
    };
    let v = parse_value("var(--foo, 10px)", g.kind).unwrap();
    assert!(matches!(v, CssValue::Var(_)));
}

#[test]
fn grammar_returns_error_on_mismatch() {
    let g = ValuesGrammar {
        kind: ValueKind::Length,
    };
    assert!(parse_value("auto", g.kind).is_err());
    assert!(parse_value("45deg", g.kind).is_err());
}


#[test]
fn serialize_length() {
    let l = muskitty_css_values::numeric::Length::parse("10px").unwrap();
    assert_eq!(render(&l.to_css_string()), "10px");
}

#[test]
fn serialize_negative_length() {
    let l = muskitty_css_values::numeric::Length::parse("-5px").unwrap();
    assert_eq!(render(&l.to_css_string()), "-5px");
}

#[test]
fn serialize_float_length() {
    let l = muskitty_css_values::numeric::Length::parse("1.5em").unwrap();
    assert_eq!(render(&l.to_css_string()), "1.5em");
}

#[test]
fn serialize_percentage() {
    let p = muskitty_css_values::numeric::Percentage::parse("50%").unwrap();
    assert_eq!(render(&p.to_css_string()), "50%");
}

#[test]
fn serialize_integer() {
    let i = muskitty_css_values::numeric::Integer::parse("42").unwrap();
    assert_eq!(render(&i.to_css_string()), "42");
}

#[test]
fn serialize_keyword() {
    let k = muskitty_css_values::textual::Keyword::parse("auto").unwrap();
    assert_eq!(render(&k.to_css_string()), "auto");
}

#[test]
fn serialize_string() {
    let s = muskitty_css_values::textual::CssString::parse("\"hello\"").unwrap();
    assert_eq!(render(&s.to_css_string()), "\"hello\"");
}

#[test]
fn serialize_string_with_escape() {
    let s = muskitty_css_values::textual::CssString::parse(r#""a\"b""#).unwrap();
    assert_eq!(render(&s.to_css_string()), "\"a\\\"b\"");
}

#[test]
fn serialize_url() {
    let u = muskitty_css_values::textual::Url::parse("url(image.png)").unwrap();
    assert_eq!(render(&u.to_css_string()), "url(\"image.png\")");
}

#[test]
fn serialize_calc_sum() {
    let expr = muskitty_css_values::math::parse_calc("calc(10px + 5px)").unwrap();
    assert_eq!(render(&expr.to_css_string()), "10px + 5px");
}

#[test]
fn serialize_calc_product() {
    let expr = muskitty_css_values::math::parse_calc("calc(10px * 2)").unwrap();
    assert_eq!(render(&expr.to_css_string()), "10px * 2");
}

#[test]
fn serialize_calc_quotient() {
    let expr = muskitty_css_values::math::parse_calc("calc(100px / 2)").unwrap();
    assert_eq!(render(&expr.to_css_string()), "100px / 2");
}

#[test]
fn serialize_calc_subtraction() {
    // calc(10px - 5px) is Sum(10px, Negate(5px)), written "10px + (-1 * 5px)".
    let expr = muskitty_css_values::math::parse_calc("calc(10px - 5px)").unwrap();
    assert_eq!(render(&expr.to_css_string()), "10px + (-1 * 5px)");
}

#[test]
fn serialize_min() {
    let expr = muskitty_css_values::math::parse_math_function("min(10px, 20px)").unwrap();
    assert_eq!(render(&expr.to_css_string()), "min(10px, 20px)");
}

#[test]
fn serialize_clamp() {
    let expr = muskitty_css_values::math::parse_math_function("clamp(10px, 50px, 100px)").unwrap();
    assert_eq!(render(&expr.to_css_string()), "clamp(10px, 50px, 100px)");
}

#[test]
fn serialize_var_no_fallback() {
    let v = muskitty_css_values::var::VarReference::parse("var(--foo)").unwrap();
    assert_eq!(render(&v.to_css_string()), "var(--foo)");
}

#[test]
fn serialize_var_with_fallback() {
    let v = muskitty_css_values::var::VarReference::parse("var(--foo, 10px)").unwrap();
    assert_eq!(render(&v.to_css_string()), "var(--foo, 10px)");
}

#[test]
fn serialize_var_with_complex_fallback() {
    let v = muskitty_css_values::var::VarReference::parse("var(--foo, 10px solid red)").unwrap();
    assert_eq!(render(&v.to_css_string()), "var(--foo, 10px solid red)");
}

#[test]
fn serialize_ratio_single() {
    let r = muskitty_css_values::numeric::Ratio::parse("16").unwrap();
    assert_eq!(render(&r.to_css_string()), "16");
}

#[test]
fn serialize_ratio_two_numbers() {
    let r = muskitty_css_values::numeric::Ratio::parse("16 / 9").unwrap();
    assert_eq!(render(&r.to_css_string()), "16 / 9");
}
