use namelint::rules::{builtin_rules, builtin_rules_by_slug, is_rule_disabled_param, RuleBuilder, RuleCheck};

#[test]
fn builtin_rules_in_order() {
    let rules = builtin_rules();
    let slugs: Vec<&str> = rules.iter().map(|r| r.slug).collect();
    assert_eq!(
        slugs,
        vec![
            "nfc",
            "no_combining",
            "trimmed",
            "whitespace",
            "posix_portable",
            "url_safe",
            "url_component_safe",
            "ascii_an",
            "ascii_alphanumeric"
        ]
    );
    assert_eq!(rules[5].no_arg, "off");
    assert_eq!(rules[5].missing_value, "on");
    assert_eq!(rules[2].values, &["base", "ext", "both", "off"]);
    assert_eq!(rules[7].no_arg, "ext");
    assert_eq!(rules[7].missing_value, "both");
    assert_eq!(rules[8].check, RuleBuilder::AsciiAlphanumeric);
    assert_eq!(rules[0].short_description, "Filename must be NFC-normalized Unicode.");
}

#[test]
fn builtin_rules_by_slug_finds_each() {
    let table = builtin_rules_by_slug();
    assert_eq!(table.len(), 9);
    for rule in builtin_rules() {
        let found = table.get(rule.slug).unwrap();
        assert_eq!(found.slug, rule.slug);
        assert_eq!(found.check, rule.check);
    }
    assert!(table.get("unknown").is_none());
    assert!(table.get("").is_none());
}

#[test]
fn disabled_params() {
    assert!(!is_rule_disabled_param(None));
    for word in ["off", "false", "0", "disable", "disabled", " OFF ", "False", "\tDisabled\n"] {
        assert!(is_rule_disabled_param(Some(word)), "{:?}", word);
    }
    for word in ["on", "", "o ff", "no", "disables", "offf"] {
        assert!(!is_rule_disabled_param(Some(word)), "{:?}", word);
    }
}

#[test]
fn disabled_param_switches_every_rule_off() {
    for rule in builtin_rules() {
        assert_eq!(rule.check.build(Some("off".to_string())), None, "{}", rule.slug);
        assert_eq!(rule.run("a.txt", Some("Disabled".to_string())), None, "{}", rule.slug);
    }
}

#[test]
fn run_compiles_and_applies() {
    let rules = builtin_rules();
    assert_eq!(rules[4].run("bad name", None), Some(false));
    assert_eq!(rules[4].run("good_name", Some("on".to_string())), Some(true));
    assert_eq!(rules[3].run("a  b", Some("space".to_string())), Some(false));
    assert_eq!(rules[3].run("a  b", Some("spaces".to_string())), Some(true));
    assert_eq!(rules[2].run(" a", Some("weird".to_string())), None);
}

#[test]
fn rule_check_dispatch() {
    assert!(RuleCheck::PosixPortable.check("a.b"));
    assert!(!RuleCheck::UrlComponentSafe.check("a.b"));
    assert!(RuleCheck::AsciiAnBoth.check("report.txt"));
    assert!(!RuleCheck::TrimmedBoth.check("a .b"));
}
