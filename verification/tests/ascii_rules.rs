use namelint::rules::ascii_alphanumeric::{ascii_alphanumeric_base, ascii_alphanumeric_builder, ascii_alphanumeric_ext, ascii_alphanumeric_on};
use namelint::rules::ascii_an::{ascii_an_base, ascii_an_both, ascii_an_builder, ascii_an_ext};
use namelint::rules::{file_extension, file_stem, RuleCheck};

#[test]
fn helpers() {
    assert_eq!(file_stem("report.txt"), Some("report"));
    assert_eq!(file_stem("report"), Some("report"));
    assert_eq!(file_stem("archive.tar.gz"), Some("archive.tar"));
    assert_eq!(file_stem(".txt"), Some(".txt"));

    assert_eq!(file_extension("report.txt"), Some("txt"));
    assert_eq!(file_extension("archive.tar.gz"), Some("gz"));
    assert_eq!(file_extension("report"), None);
    assert_eq!(file_extension(".txt"), None);
}

#[test]
fn ascii_alphanumeric_base_accepts() {
    assert!(ascii_alphanumeric_base("report"));
    assert!(ascii_alphanumeric_base("ABC123"));
    assert!(ascii_alphanumeric_base("ABC123.log"));
    assert!(ascii_alphanumeric_base("myfile.$$$"));
    assert!(ascii_alphanumeric_base("report.tar.gz"));
}

#[test]
fn ascii_alphanumeric_base_rejects() {
    assert!(!ascii_alphanumeric_base("my-file.txt"));
    assert!(!ascii_alphanumeric_base(".txt"));
    assert!(!ascii_alphanumeric_base("bad$.txt"));
    assert!(!ascii_alphanumeric_base(""));
}

#[test]
fn on_accepts() {
    assert!(ascii_alphanumeric_on("report.txt"));
    assert!(ascii_alphanumeric_on("report"));
    assert!(ascii_alphanumeric_on("ABC123.log"));
}

#[test]
fn on_rejects() {
    assert!(!ascii_alphanumeric_on("report.tar.gz"));
    assert!(!ascii_alphanumeric_on("my-file.txt"));
    assert!(!ascii_alphanumeric_on("report."));
    assert!(!ascii_alphanumeric_on(".txt"));
    assert!(!ascii_alphanumeric_on(""));
}

#[test]
fn ascii_alphanumeric_ext_accepts() {
    assert!(ascii_alphanumeric_ext("report.txt"));
    assert!(ascii_alphanumeric_ext("archive.tar.gz"));
    assert!(ascii_alphanumeric_ext("report"));
}

#[test]
fn ascii_alphanumeric_ext_rejects() {
    assert!(!ascii_alphanumeric_ext("my-file.txt"));
    assert!(!ascii_alphanumeric_ext("report."));
    assert!(!ascii_alphanumeric_ext(".txt"));
    assert!(!ascii_alphanumeric_ext(""));
}

#[test]
fn ascii_alphanumeric_ext_rejects_empty_inner_segment() {
    assert!(!ascii_alphanumeric_ext("a..b"));
    assert!(ascii_alphanumeric_ext("a.b.c.d1"));
    assert!(!ascii_alphanumeric_ext("a.b.c-d"));
    assert!(!ascii_alphanumeric_ext("é.txt"));
}

#[test]
fn ascii_alphanumeric_modes_nest_on_examples() {
    for name in ["report.txt", "report", "a.b.c", "a..b", ".txt", "report.", "x-y.z", "", "A1.B2"] {
        if ascii_alphanumeric_on(name) {
            assert!(ascii_alphanumeric_ext(name), "{}", name);
        }
        if ascii_alphanumeric_ext(name) {
            assert!(ascii_alphanumeric_base(name), "{}", name);
        }
    }
}

#[test]
fn ascii_alphanumeric_builder_modes() {
    assert_eq!(ascii_alphanumeric_builder(None), Some(RuleCheck::AsciiAlphanumericOn));
    assert_eq!(ascii_alphanumeric_builder(Some("base".to_string())), Some(RuleCheck::AsciiAlphanumericBase));
    assert_eq!(ascii_alphanumeric_builder(Some(" EXT ".to_string())), Some(RuleCheck::AsciiAlphanumericExt));
    assert_eq!(ascii_alphanumeric_builder(Some("On".to_string())), Some(RuleCheck::AsciiAlphanumericOn));
    assert_eq!(ascii_alphanumeric_builder(Some("both".to_string())), None);
    assert_eq!(ascii_alphanumeric_builder(Some("off".to_string())), None);
}

#[test]
fn ascii_an_base_accepts() {
    assert!(ascii_an_base("report"));
    assert!(ascii_an_base("ABC123"));
    assert!(ascii_an_base("ABC123.log"));
    assert!(ascii_an_base("myfile.$$$"));
    assert!(ascii_an_base("report.")); // not desireable, but catch in a separate rule
    assert!(ascii_an_base(""));
}

#[test]
fn ascii_an_base_rejects() {
    assert!(!ascii_an_base("my-file.txt"));
    assert!(!ascii_an_base(".txt"));
    assert!(!ascii_an_base("bad$.txt"));
    assert!(!ascii_an_base("report.tar.gz"));
}

#[test]
fn ascii_an_both_accepts() {
    assert!(ascii_an_both("report.txt"));
    assert!(ascii_an_both("report"));
    assert!(ascii_an_both("ABC123.log"));
    assert!(ascii_an_both("report.")); // not desireable, but catch in a separate rule
    assert!(ascii_an_both(""));
}

#[test]
fn ascii_an_both_rejects() {
    assert!(!ascii_an_both("report.tar.gz"));
    assert!(!ascii_an_both("my-file.txt"));
    assert!(!ascii_an_both(".txt"));
}

#[test]
fn ascii_an_ext_accepts() {
    assert!(ascii_an_ext("report.txt"));
    assert!(ascii_an_ext("report.tar.gz"));
    assert!(ascii_an_ext("ABC123.log"));
    assert!(ascii_an_ext(""));
}

#[test]
fn ascii_an_ext_rejects() {
    assert!(!ascii_an_ext(".txt"));
    assert!(!ascii_an_ext("report.tar.gz."));
    assert!(!ascii_an_ext("my-file.txt"));
}

#[test]
fn ascii_an_builder_modes() {
    assert_eq!(ascii_an_builder(None), Some(RuleCheck::AsciiAnBoth));
    assert_eq!(ascii_an_builder(Some("BASE".to_string())), Some(RuleCheck::AsciiAnBase));
    assert_eq!(ascii_an_builder(Some("ext".to_string())), Some(RuleCheck::AsciiAnExt));
    assert_eq!(ascii_an_builder(Some("on".to_string())), None);
    assert_eq!(ascii_an_builder(Some("Disabled".to_string())), None);
}
