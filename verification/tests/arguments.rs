use mcl_core::arguments::convert;
use mcl_core::component::Argument;
use mcl_core::rules::{Platform, Rule, RuleAction};
use mcl_core::version::{Argument as RawArgument, ArgumentValue};

fn linux() -> Platform {
    Platform { os_name: "linux".to_string(), os_arch: "x86_64".to_string() }
}

fn basic(s: &str) -> RawArgument {
    RawArgument::Basic(s.to_string())
}

#[test]
fn two_token_flag_becomes_a_pair() {
    let out = convert(vec![basic("--key"), basic("${value}")], &linux());
    assert_eq!(out, vec![Argument::Pair("--key".to_string(), "${value}".to_string())]);
}

#[test]
fn inner_equals_splits_once_into_eq() {
    let out = convert(vec![basic("foo=bar")], &linux());
    assert_eq!(out, vec![Argument::Eq("foo".to_string(), "bar".to_string())]);
}

#[test]
fn equals_splits_at_the_first_occurrence() {
    let out = convert(vec![basic("a=b=c")], &linux());
    assert_eq!(out, vec![Argument::Eq("a".to_string(), "b=c".to_string())]);
}

#[test]
fn standalone_placeholder_stays_single() {
    let out = convert(vec![basic("${standalone}")], &linux());
    assert_eq!(out, vec![Argument::Single("${standalone}".to_string())]);
}

#[test]
fn bare_token_without_placeholder_follower_stays_single() {
    let out = convert(vec![basic("--demo"), basic("--fullscreen")], &linux());
    assert_eq!(
        out,
        vec![
            Argument::Single("--demo".to_string()),
            Argument::Single("--fullscreen".to_string()),
        ]
    );
}

#[test]
fn denied_conditional_is_dropped() {
    let guarded = RawArgument::Conditional {
        rules: vec![Rule {
            action: RuleAction::Allow,
            os: Some(mcl_core::rules::OsRule {
                name: Some("osx".to_string()),
                arch: None,
                version: None,
            }),
            features: None,
        }],
        value: ArgumentValue::Single("-XstartOnFirstThread".to_string()),
    };
    let out = convert(vec![guarded, basic("--demo")], &linux());
    assert_eq!(out, vec![Argument::Single("--demo".to_string())]);
}

#[test]
fn allowed_multi_value_conditional_expands_in_order() {
    let guarded = RawArgument::Conditional {
        rules: vec![Rule { action: RuleAction::Allow, os: None, features: None }],
        value: ArgumentValue::Multiple(vec![
            "--width".to_string(),
            "${resolution_width}".to_string(),
        ]),
    };
    let out = convert(vec![guarded], &linux());
    assert_eq!(
        out,
        vec![Argument::Pair("--width".to_string(), "${resolution_width}".to_string())]
    );
}

#[test]
fn empty_token_vanishes() {
    let out = convert(vec![basic(""), basic("foo=bar")], &linux());
    assert_eq!(out, vec![Argument::Eq("foo".to_string(), "bar".to_string())]);
}
