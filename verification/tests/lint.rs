use namelint::lint::{failing_rules, failure_report, json_failure_object, select_active_rules};
use namelint::process_dirs::{classify_entry, EntryDecision, EntryType};
use namelint::rules::{builtin_rules, RuleCheck};

fn json_object(filename: &str, rule: &str) -> String {
    let mut m = serde_json::Map::new();
    m.insert("filename".to_string(), serde_json::Value::String(filename.to_string()));
    m.insert("rule".to_string(), serde_json::Value::String(rule.to_string()));
    serde_json::Value::Object(m).to_string()
}

#[test]
fn plain_failure_goes_to_stderr() {
    let r = failure_report("bad name.txt", "whitespace", "plain");
    assert!(!r.to_stdout);
    assert_eq!(r.line, "bad name.txt: whitespace");
}

#[test]
fn json_failure_goes_to_stdout() {
    let r = failure_report("a\"b\n.txt", "nfc", "json");
    assert!(r.to_stdout);
    assert_eq!(r.line, "{\"filename\":\"a\\\"b\\n.txt\",\"rule\":\"nfc\"}");
    assert_eq!(r.line, json_object("a\"b\n.txt", "nfc"));
    let r2 = failure_report("\u{e9}\u{1}", "trimmed", "json");
    assert_eq!(r2.line, json_object("\u{e9}\u{1}", "trimmed"));
}

#[test]
fn json_object_from_literals() {
    assert_eq!(json_failure_object("\"x\"", "\"y\""), "{\"filename\":\"x\",\"rule\":\"y\"}");
}

#[test]
fn active_rules_use_defaults() {
    let rules = builtin_rules();
    let params: Vec<Option<String>> = vec![None; rules.len()];
    let active = select_active_rules(&rules, &params);
    let slugs: Vec<&str> = active.iter().map(|a| a.slug).collect();
    // url_safe is off by default; everything else is on.
    assert_eq!(
        slugs,
        vec!["nfc", "no_combining", "trimmed", "whitespace", "posix_portable", "url_component_safe", "ascii_an", "ascii_alphanumeric"]
    );
    assert_eq!(active[6].check, RuleCheck::AsciiAnExt);
    assert_eq!(active[7].check, RuleCheck::AsciiAlphanumericExt);
}

#[test]
fn active_rules_follow_parameters() {
    let rules = builtin_rules();
    let mut params: Vec<Option<String>> = vec![None; rules.len()];
    params[0] = Some("off".to_string());
    params[3] = Some("any".to_string());
    params[5] = Some("on".to_string());
    params[2] = Some("bogus".to_string());
    let active = select_active_rules(&rules, &params);
    let slugs: Vec<&str> = active.iter().map(|a| a.slug).collect();
    assert_eq!(
        slugs,
        vec!["no_combining", "whitespace", "posix_portable", "url_safe", "url_component_safe", "ascii_an", "ascii_alphanumeric"]
    );
    assert_eq!(active[1].check, RuleCheck::WhitespaceAny);
}

#[test]
fn failing_rules_in_order() {
    let rules = builtin_rules();
    let params: Vec<Option<String>> = vec![None; rules.len()];
    let active = select_active_rules(&rules, &params);
    assert!(failing_rules(&active, "goodname1").is_empty());
    assert_eq!(
        failing_rules(&active, "bad name.txt"),
        vec!["whitespace", "posix_portable", "url_component_safe", "ascii_an", "ascii_alphanumeric"]
    );
    assert_eq!(
        failing_rules(&active, " x"),
        vec!["trimmed", "whitespace", "posix_portable", "url_component_safe", "ascii_an", "ascii_alphanumeric"]
    );
}

#[test]
fn classify_entries() {
    let skip_dirs = vec![".git".to_string(), "target".to_string()];
    let skip_files = vec![".DS_Store".to_string()];
    assert_eq!(
        classify_entry(true, ".git", EntryType::Both, &skip_dirs, &skip_files),
        EntryDecision { check: false, descend: false }
    );
    assert_eq!(
        classify_entry(true, "src", EntryType::File, &skip_dirs, &skip_files),
        EntryDecision { check: false, descend: true }
    );
    assert_eq!(
        classify_entry(true, "src", EntryType::Dir, &skip_dirs, &skip_files),
        EntryDecision { check: true, descend: true }
    );
    assert_eq!(
        classify_entry(false, ".DS_Store", EntryType::Both, &skip_dirs, &skip_files),
        EntryDecision { check: false, descend: false }
    );
    assert_eq!(
        classify_entry(false, "a.txt", EntryType::Dir, &skip_dirs, &skip_files),
        EntryDecision { check: false, descend: false }
    );
    assert_eq!(
        classify_entry(false, "a.txt", EntryType::Both, &skip_dirs, &skip_files),
        EntryDecision { check: true, descend: false }
    );
    // A file named like a skipped directory is still checked.
    assert_eq!(
        classify_entry(false, "target", EntryType::File, &skip_dirs, &skip_files),
        EntryDecision { check: true, descend: false }
    );
}

#[test]
fn json_escapes() {
    let r = failure_report("q\"b\\s\u{8}\t\n\u{c}\r\u{1}\u{1f} \u{7f}\u{e9}/", "nfc", "json");
    assert_eq!(
        r.line,
        "{\"filename\":\"q\\\"b\\\\s\\b\\t\\n\\f\\r\\u0001\\u001f \u{7f}\u{e9}/\",\"rule\":\"nfc\"}"
    );
}
