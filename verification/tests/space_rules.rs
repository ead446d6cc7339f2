use namelint::rules::trimmed::{trimmed_base, trimmed_both, trimmed_builder, trimmed_ext};
use namelint::rules::whitespace::{whitespace_builder, whitespace_none, whitespace_space, whitespace_spaces};
use namelint::rules::RuleCheck;
use namelint::text::char_is_whitespace;

#[test]
fn trimmed_base_accepts() {
    assert!(trimmed_base("clean.name.txt"));
    assert!(trimmed_base("clean name.txt"));
    assert!(trimmed_base("clean name txt"));
    assert!(trimmed_base("report.txt"));
    assert!(trimmed_base("name is okay... but test anyway.txt"));
}

#[test]
fn trimmed_base_rejects() {
    assert!(!trimmed_base(" leading.txt"));
    assert!(!trimmed_base("trailing .txt"));
    assert!(!trimmed_base(""));
}

#[test]
fn trimmed_ext_accepts() {
    assert!(trimmed_ext("clean.txt"));
    assert!(trimmed_ext("clean.name.txt"));
    assert!(trimmed_ext("no_extension"));
    assert!(trimmed_ext("clean name.txt"));
}

#[test]
fn trimmed_ext_rejects() {
    assert!(!trimmed_ext("file. txt")); // Space in extension
    assert!(!trimmed_ext(""));
}

#[test]
fn trimmed_both_accepts() {
    assert!(trimmed_both("clean.name.txt"));
    assert!(trimmed_both("clean name.txt"));
    assert!(trimmed_both("clean name txt"));
    assert!(trimmed_both("clean name. passing.txt"));
}

#[test]
fn trimmed_both_rejects() {
    assert!(!trimmed_both(" bad.txt"));
    assert!(!trimmed_both("bad.txt "));
    assert!(!trimmed_both("bad .txt"));
    assert!(!trimmed_both("clean name. txt"));
    assert!(!trimmed_both(""));
}

#[test]
fn trimmed_edge_cases() {
    assert!(trimmed_base(".hidden"));
    assert!(!trimmed_base("\u{a0}x.txt"));
    assert!(trimmed_ext(".  hidden"));
    assert!(!trimmed_ext("a.txt\u{3000}"));
    assert!(!trimmed_both("a\t.txt"));
    assert!(trimmed_both("a. b.txt"));
}

#[test]
fn trimmed_both_implies_base_and_ext_on_examples() {
    for name in ["clean.name.txt", "a. b.txt", " x", "x .y", "x. y", "x.y ", "plain", ".h", "a b.c d"] {
        if trimmed_both(name) {
            assert!(trimmed_base(name) && trimmed_ext(name), "{}", name);
        }
    }
}

#[test]
fn trimmed_builder_modes() {
    assert_eq!(trimmed_builder(None), Some(RuleCheck::TrimmedBoth));
    assert_eq!(trimmed_builder(Some("base".to_string())), Some(RuleCheck::TrimmedBase));
    assert_eq!(trimmed_builder(Some(" Ext".to_string())), Some(RuleCheck::TrimmedExt));
    assert_eq!(trimmed_builder(Some("BOTH".to_string())), Some(RuleCheck::TrimmedBoth));
    assert_eq!(trimmed_builder(Some("sides".to_string())), None);
    assert_eq!(trimmed_builder(Some("off".to_string())), None);
}

#[test]
fn none_accepts() {
    assert!(whitespace_none("clean-name.txt"));
    assert!(whitespace_none("clean_name"));
}

#[test]
fn none_rejects() {
    assert!(!whitespace_none("clean name.txt"));
    assert!(!whitespace_none("clean\tname.txt"));
}

#[test]
fn space_accepts() {
    assert!(whitespace_space("clean name.txt"));
    assert!(whitespace_space("clean name file.txt"));
    assert!(whitespace_space("clean-name.txt"));
}

#[test]
fn space_rejects() {
    assert!(!whitespace_space("clean  name.txt"));
    assert!(!whitespace_space(" clean name.txt"));
    assert!(!whitespace_space("clean\tname.txt"));
}

#[test]
fn spaces_accepts() {
    assert!(whitespace_spaces("clean name.txt"));
    assert!(whitespace_spaces("clean  name.txt"));
    assert!(whitespace_spaces("clean-name.txt"));
}

#[test]
fn spaces_rejects() {
    assert!(!whitespace_spaces("clean\tname.txt"));
    assert!(!whitespace_spaces(" clean name.txt"));
    assert!(!whitespace_spaces("clean name.txt "));
}

#[test]
fn whitespace_modes_nest_on_examples() {
    for name in ["a", "a b", "a  b", " a", "a\tb", "", "a\u{2003}b"] {
        if whitespace_none(name) {
            assert!(whitespace_space(name), "{:?}", name);
        }
        if whitespace_space(name) {
            assert!(whitespace_spaces(name), "{:?}", name);
        }
    }
}

#[test]
fn whitespace_builder_modes() {
    assert_eq!(whitespace_builder(None), Some(RuleCheck::WhitespaceNone));
    assert_eq!(whitespace_builder(Some("space".to_string())), Some(RuleCheck::WhitespaceSpace));
    assert_eq!(whitespace_builder(Some("SPACES".to_string())), Some(RuleCheck::WhitespaceSpaces));
    assert_eq!(whitespace_builder(Some("any".to_string())), Some(RuleCheck::WhitespaceAny));
    assert_eq!(whitespace_builder(Some("tabs".to_string())), Some(RuleCheck::WhitespaceNone));
    assert_eq!(whitespace_builder(Some("off".to_string())), None);
    assert!(RuleCheck::WhitespaceAny.check(" \t odd \n"));
}

#[test]
fn whitespace_matches_std_for_every_char() {
    for code in 0u32..=0x10FFFF {
        if let Some(c) = char::from_u32(code) {
            assert_eq!(char_is_whitespace(c), c.is_whitespace(), "U+{:04X}", code);
        }
    }
}
