use namelint::namefix::{check_and_fix_name, decimal_string, fix_candidate_name, fix_plan, split_name_ext, FixOutcome, FixPlan, FixStats, Issues};

#[test]
fn fix_not_needed_for_clean_names() {
    assert!(check_and_fix_name(true, "report.txt").is_none());
    assert!(check_and_fix_name(true, "caf\u{e9}.txt").is_none());
}

#[test]
fn fix_replaces_null_bytes() {
    let (fixed, issues) = check_and_fix_name(true, "a\0b").unwrap();
    assert_eq!(fixed, "a0b");
    assert!(issues.has_null);
    assert!(!issues.has_non_utf8);
}

#[test]
fn fix_replaces_invalid_utf8() {
    let (fixed, issues) = check_and_fix_name(false, "bad\u{fffd}name.txt").unwrap();
    assert_eq!(fixed, "badXname.txt");
    assert!(!issues.has_null);
    assert!(issues.has_non_utf8);
}

#[test]
fn fix_also_replaces_other_non_ascii_when_fixing() {
    let (fixed, _) = check_and_fix_name(false, "\u{e9}t\u{e9}\u{fffd}\t.txt").unwrap();
    assert_eq!(fixed, "XtXXX.txt");
}

#[test]
fn fix_offered_only_when_name_changes() {
    // Reported as not valid UTF-8, but the lossy text needs no replacement.
    assert!(check_and_fix_name(false, "plain.txt").is_none());
}

#[test]
fn fixed_name_needs_no_further_fix() {
    let (fixed, _) = check_and_fix_name(false, "a\0\u{fffd} b\u{7f}").unwrap();
    assert_eq!(fixed, "a0X bX");
    assert!(check_and_fix_name(true, &fixed).is_none());
    assert!(check_and_fix_name(false, &fixed).is_none());
}

#[test]
fn split_name_ext_cases() {
    assert_eq!(split_name_ext("report.txt"), ("report".to_string(), "txt".to_string()));
    assert_eq!(split_name_ext("archive.tar.gz"), ("archive.tar".to_string(), "gz".to_string()));
    assert_eq!(split_name_ext(".hidden"), (".hidden".to_string(), String::new()));
    assert_eq!(split_name_ext("trailing."), ("trailing.".to_string(), String::new()));
    assert_eq!(split_name_ext("nodot"), ("nodot".to_string(), String::new()));
    assert_eq!(split_name_ext(""), (String::new(), String::new()));
    assert_eq!(split_name_ext("\u{e9}.\u{fc}"), ("\u{e9}".to_string(), "\u{fc}".to_string()));
}

#[test]
fn candidate_names() {
    assert_eq!(fix_candidate_name("report.txt", 1), "report_1_txt");
    assert_eq!(fix_candidate_name("README", 12), "README_12");
    assert_eq!(fix_candidate_name(".hidden", 3), ".hidden_3");
}

#[test]
fn decimal_numerals() {
    assert_eq!(decimal_string(0), "0");
    assert_eq!(decimal_string(7), "7");
    assert_eq!(decimal_string(10), "10");
    assert_eq!(decimal_string(1234567890), "1234567890");
    assert_eq!(decimal_string(u64::MAX), u64::MAX.to_string());
}

#[test]
fn invalid_utf8_name_is_always_fixed() {
    assert!(check_and_fix_name(false, "\u{fffd}").is_some());
    assert!(check_and_fix_name(false, "ok\u{fffd}ok.txt").is_some());
}

#[test]
fn fix_plans() {
    assert_eq!(fix_plan(true, false), FixPlan::Leave);
    assert_eq!(fix_plan(false, false), FixPlan::Leave);
    assert_eq!(fix_plan(true, true), FixPlan::Preview);
    assert_eq!(fix_plan(false, true), FixPlan::Rename);
}

#[test]
fn fix_stats_record_outcomes() {
    let null = Issues { has_null: true, has_non_utf8: false };
    let both = Issues { has_null: true, has_non_utf8: true };
    let mut stats = FixStats::new();
    assert!(stats.record(FixOutcome::Clean, true));
    assert!(!stats.record(FixOutcome::Clean, false));
    assert!(stats.record(FixOutcome::Previewed(null), true));
    assert!(!stats.record(FixOutcome::Previewed(null), false));
    assert!(stats.record(FixOutcome::Renamed(both), true));
    assert!(!stats.record(FixOutcome::Renamed(null), false));
    assert!(!stats.record(FixOutcome::RenameFailed(both), true));
    assert_eq!(
        stats,
        FixStats { total_checked: 7, total_fixed: 4, has_null_byte: 5, not_utf8: 2 }
    );
}
