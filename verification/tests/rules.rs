use mcl_core::rules::{
    canonical_os_name, check, match_feature_rule, match_os_rule, match_rule, FeatureRule, OsRule,
    Platform, Rule, RuleAction,
};

fn linux() -> Platform {
    Platform { os_name: "linux".to_string(), os_arch: "x86_64".to_string() }
}

fn rule(action: RuleAction, os: Option<OsRule>, features: Option<FeatureRule>) -> Rule {
    Rule { action, os, features }
}

fn os_named(name: &str) -> Option<OsRule> {
    Some(OsRule { name: Some(name.to_string()), arch: None, version: None })
}

#[test]
fn empty_rule_list_denies() {
    assert_eq!(check(&Vec::new(), &linux()), false);
}

#[test]
fn unconditional_allow_allows() {
    let rules = vec![rule(RuleAction::Allow, None, None)];
    assert_eq!(check(&rules, &linux()), true);
}

#[test]
fn unconditional_disallow_denies() {
    let rules = vec![rule(RuleAction::Disallow, None, None)];
    assert_eq!(check(&rules, &linux()), false);
}

#[test]
fn last_matching_rule_wins() {
    let rules = vec![
        rule(RuleAction::Allow, None, None),
        rule(RuleAction::Disallow, os_named("linux"), None),
    ];
    assert_eq!(check(&rules, &linux()), false);
}

#[test]
fn non_matching_rule_does_not_affect_result() {
    let rules = vec![
        rule(RuleAction::Allow, None, None),
        rule(RuleAction::Disallow, os_named("osx"), None),
    ];
    assert_eq!(check(&rules, &linux()), true);
}

#[test]
fn allow_for_other_platform_alone_denies() {
    let rules = vec![rule(RuleAction::Allow, os_named("osx"), None)];
    assert_eq!(check(&rules, &linux()), false);
}

#[test]
fn os_rule_name_and_arch_both_checked() {
    let both = OsRule {
        name: Some("linux".to_string()),
        arch: Some("x86_64".to_string()),
        version: None,
    };
    assert!(match_os_rule(&both, &linux()));
    let wrong_arch = OsRule {
        name: Some("linux".to_string()),
        arch: Some("aarch64".to_string()),
        version: None,
    };
    assert!(!match_os_rule(&wrong_arch, &linux()));
}

#[test]
fn os_rule_arch_only() {
    let arch_only =
        OsRule { name: None, arch: Some("x86_64".to_string()), version: None };
    assert!(match_os_rule(&arch_only, &linux()));
}

#[test]
fn empty_os_block_never_matches() {
    let empty = OsRule { name: None, arch: None, version: None };
    assert!(!match_os_rule(&empty, &linux()));
}

#[test]
fn feature_rules_are_a_stub_and_never_match() {
    let features = FeatureRule { is_demo_user: Some(true), has_custom_resolution: None };
    assert!(!match_feature_rule(&features));
    let guarded = rule(RuleAction::Allow, os_named("linux"), Some(FeatureRule {
        is_demo_user: None,
        has_custom_resolution: None,
    }));
    assert!(!match_rule(&guarded, &linux()));
}

#[test]
fn target_os_names_map_to_rule_document_names() {
    assert_eq!(canonical_os_name("linux"), "linux");
    assert_eq!(canonical_os_name("macos"), "osx");
    assert_eq!(canonical_os_name("windows"), "windows");
    assert_eq!(canonical_os_name("freebsd"), "unknown");
}
