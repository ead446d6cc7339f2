//! Names must be in Unicode Normalization Form C.
use vstd::prelude::*;
use crate::rules::{is_rule_disabled_param, param_as_str, param_view, spec_rule_disabled, has_fields, RuleBuilder, RuleCheck, RuleSpec};

verus! {

/// Whether a string is in Unicode Normalization Form C, as `unicode_normalization::is_nfc`
/// decides it from the string's characters.
pub uninterp spec fn is_nfc_text(s: Seq<char>) -> bool;

/// Calls `unicode_normalization::is_nfc`. Its contract claims only that the answer is a
/// function of the string's characters, named `is_nfc_text`; which strings are NFC is the
/// crate's Unicode tables and is not stated here.
#[verifier::external_body]
fn unicode_is_nfc(s: &str) -> (r: bool)
    ensures
        r == is_nfc_text(s@),
{
    unicode_normalization::is_nfc(s)
}

/// Whether the name is NFC-normalized.
pub fn nfc(input: &str) -> (r: bool)
    ensures
        r == is_nfc_text(input@),
{
    unicode_is_nfc(input)
}

/// The check that a parameter selects: none when the rule is switched off.
pub open spec fn spec_nfc_builder(param: Option<Seq<char>>) -> Option<RuleCheck> {
    if spec_rule_disabled(param) {
        None
    } else {
        Some(RuleCheck::Nfc)
    }
}

/// Compiles the rule for a parameter.
pub fn nfc_builder(param: Option<String>) -> (r: Option<RuleCheck>)
    ensures
        r == spec_nfc_builder(param_view(param)),
{
    if is_rule_disabled_param(param_as_str(&param)) {
        return None;
    }
    Some(RuleCheck::Nfc)
}


/// The `nfc` rule: on by default.
pub open spec fn is_rule(r: RuleSpec) -> bool {
    has_fields(
        r,
        "nfc"@,
        "on"@,
        "on"@,
        seq!["on"@, "off"@],
        "Filename must be NFC-normalized Unicode."@,
        "Ensures the filename is in Unicode NFC form.\n\nThis helps avoid visually identical names being stored with different byte representations across filesystems and tools."@,
        RuleBuilder::Nfc,
    )
}

/// The `nfc` rule.
pub fn rule() -> (r: RuleSpec)
    ensures
        is_rule(r),
{
    let r = RuleSpec {
        slug: "nfc",
        no_arg: "on",
        missing_value: "on",
        values: &["on", "off"],
        short_description: "Filename must be NFC-normalized Unicode.",
        long_description_markdown: "Ensures the filename is in Unicode NFC form.\n\nThis helps avoid visually identical names being stored with different byte representations across filesystems and tools.",
        check: RuleBuilder::Nfc,
    };
    assert(crate::rules::str_views(r.values@) =~= seq!["on"@, "off"@]);
    r
}

} // verus!
