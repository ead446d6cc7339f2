//! Names must not contain Unicode combining marks.
use vstd::prelude::*;
use crate::rules::{is_rule_disabled_param, param_as_str, param_view, spec_rule_disabled, RuleCheck, has_fields, str_views, RuleBuilder, RuleSpec};

verus! {

/// Whether a character is a combining mark (`General_Category=Mark`), as
/// `unicode_normalization::char::is_combining_mark` decides it.
pub uninterp spec fn is_combining_mark_char(c: char) -> bool;

/// Calls `unicode_normalization::char::is_combining_mark`. Its contract claims only that the
/// answer is a function of the character, named `is_combining_mark_char`; which characters
/// are marks is the crate's Unicode table and is not stated here.
#[verifier::external_body]
fn unicode_is_combining_mark(c: char) -> (r: bool)
    ensures
        r == is_combining_mark_char(c),
{
    unicode_normalization::char::is_combining_mark(c)
}

/// No character of the name is a combining mark.
pub open spec fn spec_no_combining(s: Seq<char>) -> bool {
    forall|i: int| 0 <= i < s.len() ==> !#[trigger] is_combining_mark_char(s[i])
}

/// Whether the name is free of combining marks.
pub fn no_combining(input: &str) -> (r: bool)
    ensures
        r == spec_no_combining(input@),
{
    let len = input.unicode_len();
    let mut i: usize = 0;
    while i < len
        invariant
            i <= len,
            len == input@.len(),
            forall|k: int| 0 <= k < i ==> !#[trigger] is_combining_mark_char(input@[k]),
        decreases len - i,
    {
        if unicode_is_combining_mark(input.get_char(i)) {
            return false;
        }
        i = i + 1;
    }
    true
}

/// The check that a parameter selects: none when the rule is switched off.
pub open spec fn spec_no_combining_builder(param: Option<Seq<char>>) -> Option<RuleCheck> {
    if spec_rule_disabled(param) {
        None
    } else {
        Some(RuleCheck::NoCombining)
    }
}

/// Compiles the rule for a parameter.
pub fn no_combining_builder(param: Option<String>) -> (r: Option<RuleCheck>)
    ensures
        r == spec_no_combining_builder(param_view(param)),
{
    if is_rule_disabled_param(param_as_str(&param)) {
        return None;
    }
    Some(RuleCheck::NoCombining)
}


/// The `no_combining` rule.
pub open spec fn is_rule(r: RuleSpec) -> bool {
    has_fields(
        r,
        "no_combining"@,
        "on"@,
        "on"@,
        seq!["on"@, "off"@],
        "Filename must not contain combining marks."@,
        "Rejects filenames that include Unicode combining marks.\n\nCombining marks can make names hard to compare and reason about across terminals, shells, and filesystems."@,
        RuleBuilder::NoCombining,
    )
}

/// The `no_combining` rule.
pub fn rule() -> (r: RuleSpec)
    ensures
        is_rule(r),
{
    let r = RuleSpec {
        slug: "no_combining",
        no_arg: "on",
        missing_value: "on",
        values: &["on", "off"],
        short_description: "Filename must not contain combining marks.",
        long_description_markdown: "Rejects filenames that include Unicode combining marks.\n\nCombining marks can make names hard to compare and reason about across terminals, shells, and filesystems.",
        check: RuleBuilder::NoCombining,
    };
    assert(str_views(r.values@) =~= seq!["on"@, "off"@]);
    r
}


/// The rule accepts a name exactly when none of its characters is a combining mark.
pub proof fn lemma_no_combining_chars(s: Seq<char>)
    ensures
        spec_no_combining(s) <==> !exists|i: int| 0 <= i < s.len() && #[trigger] is_combining_mark_char(s[i]),
{
}

} // verus!
