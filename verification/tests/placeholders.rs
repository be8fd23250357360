use mcl_core::utils::replace_placeholders;

fn vars(pairs: &[(&str, &str)]) -> Vec<(String, String)> {
    pairs.iter().map(|(k, v)| (k.to_string(), v.to_string())).collect()
}

#[test]
fn missing_variable_drops_the_whole_argument() {
    let v = vars(&[("a", "1")]);
    assert_eq!(replace_placeholders("${a}-${b}", &v), None);
}

#[test]
fn bound_variables_are_substituted() {
    let v = vars(&[("a", "1"), ("b", "2")]);
    assert_eq!(replace_placeholders("${a}-${b}", &v), Some("1-2".to_string()));
}

#[test]
fn template_without_placeholders_is_unchanged() {
    let v = vars(&[]);
    assert_eq!(
        replace_placeholders("net.minecraft.client.main.Main", &v),
        Some("net.minecraft.client.main.Main".to_string())
    );
}

#[test]
fn lone_sigil_is_literal() {
    let v = vars(&[]);
    assert_eq!(replace_placeholders("cost: 5$", &v), Some("cost: 5$".to_string()));
    assert_eq!(replace_placeholders("a$b", &v), Some("a$b".to_string()));
}

#[test]
fn unterminated_placeholder_discards_the_pending_name() {
    let v = vars(&[("a", "1")]);
    assert_eq!(replace_placeholders("x${a", &v), Some("x".to_string()));
}

#[test]
fn empty_template_stays_empty() {
    let v = vars(&[("a", "1")]);
    assert_eq!(replace_placeholders("", &v), Some("".to_string()));
}

#[test]
fn empty_value_substitutes_to_nothing() {
    let v = vars(&[("a", "")]);
    assert_eq!(replace_placeholders("<${a}>", &v), Some("<>".to_string()));
}
