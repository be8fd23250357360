//! Rule engine: conditional allow/disallow rules gated on the running
//! platform and on feature switches, evaluated last-match-wins with a
//! deny-by-default fallback.

use vstd::prelude::*;

use crate::text::str_eq;

verus! {

#[derive(Debug, Clone, Copy, PartialEq, Eq, Structural)]
pub enum RuleAction {
    Allow,
    Disallow,
}

#[derive(Debug)]
pub struct OsRule {
    pub name: Option<String>,
    pub arch: Option<String>,
    pub version: Option<String>,
}

#[derive(Debug)]
pub struct FeatureRule {
    pub is_demo_user: Option<bool>,
    pub has_custom_resolution: Option<bool>,
}

#[derive(Debug)]
pub struct Rule {
    pub action: RuleAction,
    pub os: Option<OsRule>,
    pub features: Option<FeatureRule>,
}

/// The running platform, handed in once as plain values by the caller.
#[derive(Debug)]
pub struct Platform {
    pub os_name: String,
    pub os_arch: String,
}

/// An `os` block matches when every constraint it carries equals the running
/// platform; a block with neither `name` nor `arch` never matches.
pub open spec fn os_rule_matches(rule: OsRule, os_name: Seq<char>, os_arch: Seq<char>) -> bool {
    match (rule.name, rule.arch) {
        (Some(n), Some(a)) => n@ == os_name && a@ == os_arch,
        (Some(n), None) => n@ == os_name,
        (None, Some(a)) => a@ == os_arch,
        (None, None) => false,
    }
}

/// Feature negotiation is not implemented: a feature constraint never
/// matches. This is deliberate current behaviour, not an oversight.
pub open spec fn feature_rule_matches(rule: FeatureRule) -> bool {
    false
}

/// A rule's predicate: the conjunction of whichever of its `os` and
/// `features` constraints are present; unconditionally true when neither is.
pub open spec fn rule_matches(rule: Rule, os_name: Seq<char>, os_arch: Seq<char>) -> bool {
    match (rule.os, rule.features) {
        (Some(o), Some(f)) => os_rule_matches(o, os_name, os_arch) && feature_rule_matches(f),
        (Some(o), None) => os_rule_matches(o, os_name, os_arch),
        (None, Some(f)) => feature_rule_matches(f),
        (None, None) => true,
    }
}

/// Result of scanning a rule list left to right: the action of the last
/// matching rule, or false when no rule matches.
pub open spec fn eval_rules(rules: Seq<Rule>, os_name: Seq<char>, os_arch: Seq<char>) -> bool
    decreases rules.len(),
{
    if rules.len() == 0 {
        false
    } else if rule_matches(rules.last(), os_name, os_arch) {
        rules.last().action is Allow
    } else {
        eval_rules(rules.drop_last(), os_name, os_arch)
    }
}

pub fn match_os_rule(rule: &OsRule, platform: &Platform) -> (r: bool)
    ensures
        r == os_rule_matches(*rule, platform.os_name@, platform.os_arch@),
{
    match (&rule.name, &rule.arch) {
        (Some(n), Some(a)) => {
            str_eq(n.as_str(), platform.os_name.as_str())
                && str_eq(a.as_str(), platform.os_arch.as_str())
        },
        (Some(n), None) => str_eq(n.as_str(), platform.os_name.as_str()),
        (None, Some(a)) => str_eq(a.as_str(), platform.os_arch.as_str()),
        (None, None) => false,
    }
}

pub fn match_feature_rule(rule: &FeatureRule) -> (r: bool)
    ensures
        r == feature_rule_matches(*rule),
{
    false
}

pub fn match_rule(rule: &Rule, platform: &Platform) -> (r: bool)
    ensures
        r == rule_matches(*rule, platform.os_name@, platform.os_arch@),
{
    match (&rule.os, &rule.features) {
        (Some(o), Some(f)) => match_os_rule(o, platform) && match_feature_rule(f),
        (Some(o), None) => match_os_rule(o, platform),
        (None, Some(f)) => match_feature_rule(f),
        (None, None) => true,
    }
}

/// Evaluate a rule list: scan in order, let each matching rule overwrite the
/// running result with its action, and default to deny when nothing matched.
pub fn check(rules: &Vec<Rule>, platform: &Platform) -> (r: bool)
    ensures
        r == eval_rules(rules@, platform.os_name@, platform.os_arch@),
{
    let mut result = false;
    let mut i: usize = 0;
    while i < rules.len()
        invariant
            i <= rules.len(),
            result == eval_rules(rules@.take(i as int), platform.os_name@, platform.os_arch@),
        decreases rules.len() - i,
    {
        if match_rule(&rules[i], platform) {
            result = match rules[i].action {
                RuleAction::Allow => true,
                RuleAction::Disallow => false,
            };
        }
        proof {
            let pre = rules@.take(i as int);
            let post = rules@.take(i + 1 as int);
            assert(post.drop_last() =~= pre);
            assert(post.last() == rules@[i as int]);
        }
        i = i + 1;
    }
    proof {
        assert(rules@.take(rules@.len() as int) =~= rules@);
    }
    result
}

/// The platform name the rule documents use for a Rust target os name.
pub open spec fn spec_canonical_os_name(raw: Seq<char>) -> Seq<char> {
    if raw == "linux"@ {
        "linux"@
    } else if raw == "macos"@ {
        "osx"@
    } else if raw == "windows"@ {
        "windows"@
    } else {
        "unknown"@
    }
}

/// Map a Rust target os name to the name the rule documents use.
pub fn canonical_os_name(raw: &str) -> (r: String)
    ensures
        r@ == spec_canonical_os_name(raw@),
{
    if str_eq(raw, "linux") {
        String::from_str("linux")
    } else if str_eq(raw, "macos") {
        String::from_str("osx")
    } else if str_eq(raw, "windows") {
        String::from_str("windows")
    } else {
        String::from_str("unknown")
    }
}

/// How an optional rule list gates a library or argument: an absent list
/// always passes, a present one passes when it evaluates true.
pub open spec fn rules_pass(rules: Option<Vec<Rule>>, os_name: Seq<char>, os_arch: Seq<char>) -> bool {
    match rules {
        Some(rs) => eval_rules(rs@, os_name, os_arch),
        None => true,
    }
}

/// The empty rule list always evaluates to deny.
pub proof fn lemma_eval_rules_empty(os_name: Seq<char>, os_arch: Seq<char>)
    ensures
        !eval_rules(Seq::<Rule>::empty(), os_name, os_arch),
{
}

/// A rule list on which no rule's predicate matches evaluates to deny.
pub proof fn lemma_eval_rules_no_match(rules: Seq<Rule>, os_name: Seq<char>, os_arch: Seq<char>)
    requires
        forall|i: int| 0 <= i < rules.len() ==> !rule_matches(#[trigger] rules[i], os_name, os_arch),
    ensures
        !eval_rules(rules, os_name, os_arch),
    decreases rules.len(),
{
    if rules.len() > 0 {
        lemma_eval_rules_no_match(rules.drop_last(), os_name, os_arch);
    }
}

/// The evaluated result of a rule list is the action of its last matching
/// rule: rules after it that do not match never affect the result.
pub proof fn lemma_eval_rules_last_match(
    rules: Seq<Rule>,
    os_name: Seq<char>,
    os_arch: Seq<char>,
    i: int,
)
    requires
        0 <= i < rules.len(),
        rule_matches(rules[i], os_name, os_arch),
        forall|j: int| i < j < rules.len() ==> !rule_matches(#[trigger] rules[j], os_name, os_arch),
    ensures
        eval_rules(rules, os_name, os_arch) == (rules[i].action is Allow),
    decreases rules.len(),
{
    if i == rules.len() - 1 {
    } else {
        lemma_eval_rules_last_match(rules.drop_last(), os_name, os_arch, i);
    }
}

} // verus!
