use namelint::rules::nfc::{nfc, nfc_builder};
use namelint::rules::no_combining::{no_combining, no_combining_builder};
use namelint::rules::posix_portable::{posix_portable, posix_portable_builder};
use namelint::rules::url_component_safe::{url_component_safe, url_component_safe_builder};
use namelint::rules::url_safe::{url_safe, url_safe_builder};
use namelint::rules::RuleCheck;

#[test]
fn nfc_accepts() {
    assert!(nfc("report.txt"));
}

#[test]
fn nfc_rejects() {
    let nfd = "e\u{301}.txt";
    assert!(!nfc(nfd));
}

#[test]
fn nfc_accepts_composed_form() {
    assert!(nfc("\u{e9}.txt"));
    assert!(nfc(""));
}

#[test]
fn no_combining_accepts() {
    assert!(no_combining("normal-file.txt"));
}

#[test]
fn no_combining_rejects() {
    let with_combining = "n\u{0303}.txt";
    assert!(!no_combining(with_combining));
}

#[test]
fn no_combining_accepts_precomposed() {
    assert!(no_combining("\u{f1}.txt"));
    assert!(no_combining(""));
}

#[test]
fn posix_portable_accepts() {
    assert!(posix_portable("test"));
    assert!(posix_portable("test.txt"));
    assert!(posix_portable("my_file-2026.log"));
    assert!(posix_portable("A1_b-2.c"));
}

#[test]
fn posix_portable_rejects() {
    assert!(!posix_portable("test.txt~"));
    assert!(!posix_portable("test.txt#"));
    assert!(!posix_portable("test.txt@"));
    assert!(!posix_portable("test.txt!"));
    assert!(!posix_portable("test.txt$"));
    assert!(!posix_portable("test.txt%"));
    assert!(!posix_portable("bad name.txt"));
    assert!(!posix_portable(""));
}

#[test]
fn url_component_safe_accepts() {
    assert!(url_component_safe("my-report"));
    assert!(url_component_safe("my_report_2026"));
    assert!(url_component_safe("A1-b2"));
}

#[test]
fn url_component_safe_rejects() {
    assert!(!url_component_safe("file.txt"));
    assert!(!url_component_safe("~backup"));
    assert!(!url_component_safe("bad name"));
    assert!(!url_component_safe("bad$name"));
    assert!(!url_component_safe("bad/name"));
    assert!(!url_component_safe(""));
}

#[test]
fn url_safe_accepts() {
    assert!(url_safe("file.txt"));
    assert!(url_safe("my-report_2026.log"));
    assert!(url_safe("~backup"));
    assert!(url_safe("A1-b_2.c"));
}

#[test]
fn url_safe_rejects() {
    assert!(!url_safe("bad name.txt"));
    assert!(!url_safe("bad$name.txt"));
    assert!(!url_safe("bad#name.txt"));
    assert!(!url_safe("bad?name.txt"));
    assert!(!url_safe("bad/name.txt"));
    assert!(!url_safe(""));
}

#[test]
fn url_component_safe_is_stricter_on_examples() {
    for name in ["my-report", "A1_b2", "x", "file.txt", "~b", "bad name", ""] {
        if url_component_safe(name) {
            assert!(url_safe(name), "{}", name);
            assert!(posix_portable(name), "{}", name);
        }
    }
    assert!(url_safe("~backup") && !posix_portable("~backup"));
}

#[test]
fn on_off_builders() {
    assert_eq!(nfc_builder(None), Some(RuleCheck::Nfc));
    assert_eq!(nfc_builder(Some("on".to_string())), Some(RuleCheck::Nfc));
    assert_eq!(nfc_builder(Some("off".to_string())), None);
    assert_eq!(no_combining_builder(Some(" FALSE ".to_string())), None);
    assert_eq!(no_combining_builder(Some("yes".to_string())), Some(RuleCheck::NoCombining));
    assert_eq!(posix_portable_builder(Some("0".to_string())), None);
    assert_eq!(posix_portable_builder(Some("1".to_string())), Some(RuleCheck::PosixPortable));
    assert_eq!(url_safe_builder(Some("Disable".to_string())), None);
    assert_eq!(url_safe_builder(Some("on".to_string())), Some(RuleCheck::UrlSafe));
    assert_eq!(url_component_safe_builder(Some("\tdisabled\n".to_string())), None);
    assert_eq!(url_component_safe_builder(None), Some(RuleCheck::UrlComponentSafe));
}
