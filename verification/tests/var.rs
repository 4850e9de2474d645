//! `var()` references (CSS Variables §3).

use muskitty_css_values::var::VarReference;

#[test]
fn var_simple() {
    let v = VarReference::parse("var(--foo)").unwrap();
    assert_eq!(v.name, "--foo");
    assert!(v.fallback.is_none());
}

#[test]
fn var_case_insensitive_function_name() {
    // The function name is ASCII case-insensitive.
    let v = VarReference::parse("VAR(--foo)").unwrap();
    assert_eq!(v.name, "--foo");
}

#[test]
fn var_with_whitespace_around_name() {
    let v = VarReference::parse("var( --foo )").unwrap();
    assert_eq!(v.name, "--foo");
}

#[test]
fn var_with_fallback() {
    let v = VarReference::parse("var(--foo, 10px)").unwrap();
    assert_eq!(v.name, "--foo");
    assert!(v.fallback.is_some());
    // The fallback is not empty.
    assert!(!v.fallback.as_ref().unwrap().is_empty());
}

#[test]
fn var_empty_fallback_bare_comma() {
    let v = VarReference::parse("var(--foo,)").unwrap();
    assert_eq!(v.name, "--foo");
    assert!(v.fallback.is_some());
    assert!(v.fallback.as_ref().unwrap().is_empty());
}

#[test]
fn var_fallback_with_whitespace_only() {
    // Whitespace alone after the comma is a fallback; the whitespace is kept.
    let v = VarReference::parse("var(--foo, )").unwrap();
    assert_eq!(v.name, "--foo");
    assert!(v.fallback.is_some());
}

#[test]
fn var_nested_in_fallback() {
    // A nested var() in the fallback is kept as component values, not parsed.
    let v = VarReference::parse("var(--foo, var(--bar, 10px))").unwrap();
    assert_eq!(v.name, "--foo");
    assert!(v.fallback.is_some());
    // The fallback holds the component values of var(--bar, 10px).
    assert!(!v.fallback.as_ref().unwrap().is_empty());
}

#[test]
fn var_fallback_preserves_complex_value() {
    let v = VarReference::parse("var(--foo, 10px solid red)").unwrap();
    assert_eq!(v.name, "--foo");
    let fb = v.fallback.unwrap();
    // The fallback holds 10px, solid and red, and the whitespace between them.
    assert!(fb.len() >= 5);
}

#[test]
fn var_rejects_no_args() {
    assert!(VarReference::parse("var()").is_err());
}

#[test]
fn var_rejects_non_custom_property_name() {
    assert!(VarReference::parse("var(foo)").is_err());
    assert!(VarReference::parse("var(-foo)").is_err()); // A single dash is not a custom property name.
    assert!(VarReference::parse("var(--)").is_err()); // `--` alone is not one either.
}

#[test]
fn var_rejects_non_function_input() {
    assert!(VarReference::parse("--foo").is_err());
    assert!(VarReference::parse("10px").is_err());
}

#[test]
fn var_rejects_wrong_function_name() {
    assert!(VarReference::parse("calc(--foo)").is_err());
    assert!(VarReference::parse("url(--foo)").is_err());
}
