//! Names restricted to the POSIX Portable Filename Character Set.
use vstd::prelude::*;
use crate::text::{is_ascii_alnum, char_is_ascii_alphanumeric};
use crate::rules::{is_rule_disabled_param, param_as_str, param_view, spec_rule_disabled, RuleCheck, has_fields, str_views, RuleBuilder, RuleSpec};

verus! {

/// A character of the POSIX Portable Filename Character Set: `A-Z a-z 0-9 . _ -`.
pub open spec fn posix_portable_char(c: char) -> bool {
    is_ascii_alnum(c) || c == '.' || c == '_' || c == '-'
}

/// The name is non-empty and every character is allowed.
pub open spec fn spec_posix_portable(s: Seq<char>) -> bool {
    s.len() > 0 && forall|i: int| 0 <= i < s.len() ==> #[trigger] posix_portable_char(s[i])
}

/// Accepts only characters in the POSIX Portable Filename Character Set:
/// A-Z  a-z  0-9  .  _  -
/// Reference: https://pubs.opengroup.org/onlinepubs/9799919799/basedefs/V1_chap03.html#tag_03_265
pub fn posix_portable(input: &str) -> (r: bool)
    ensures
        r == spec_posix_portable(input@),
{
    let len = input.unicode_len();
    if len == 0 {
        return false;
    }
    let mut i: usize = 0;
    while i < len
        invariant
            i <= len,
            len == input@.len(),
            forall|k: int| 0 <= k < i ==> #[trigger] posix_portable_char(input@[k]),
        decreases len - i,
    {
        let c = input.get_char(i);
        if !(char_is_ascii_alphanumeric(c) || c == '.' || c == '_' || c == '-') {
            assert(!posix_portable_char(input@[i as int]));
            return false;
        }
        i = i + 1;
    }
    true
}

/// The check that a parameter selects: none when the rule is switched off.
pub open spec fn spec_posix_portable_builder(param: Option<Seq<char>>) -> Option<RuleCheck> {
    if spec_rule_disabled(param) {
        None
    } else {
        Some(RuleCheck::PosixPortable)
    }
}

/// Compiles the rule for a parameter.
pub fn posix_portable_builder(param: Option<String>) -> (r: Option<RuleCheck>)
    ensures
        r == spec_posix_portable_builder(param_view(param)),
{
    if is_rule_disabled_param(param_as_str(&param)) {
        return None;
    }
    Some(RuleCheck::PosixPortable)
}



/// The `posix_portable` rule.
pub open spec fn is_rule(r: RuleSpec) -> bool {
    has_fields(
        r,
        "posix_portable"@,
        "on"@,
        "on"@,
        seq!["on"@, "off"@],
        "Only POSIX portable filename characters (A-Za-z0-9._-)."@,
        "Restricts filenames to the [POSIX Portable Filename Character Set](https://pubs.opengroup.org/onlinepubs/9799919799/basedefs/V1_chap03.html#tag_03_265): ASCII letters, digits, dot (`.`), underscore (`_`), and dash (`-`)."@,
        RuleBuilder::PosixPortable,
    )
}

/// The `posix_portable` rule.
pub fn rule() -> (r: RuleSpec)
    ensures
        is_rule(r),
{
    let r = RuleSpec {
        slug: "posix_portable",
        no_arg: "on",
        missing_value: "on",
        values: &["on", "off"],
        short_description: "Only POSIX portable filename characters (A-Za-z0-9._-).",
        long_description_markdown: "Restricts filenames to the [POSIX Portable Filename Character Set](https://pubs.opengroup.org/onlinepubs/9799919799/basedefs/V1_chap03.html#tag_03_265): ASCII letters, digits, dot (`.`), underscore (`_`), and dash (`-`).",
        check: RuleBuilder::PosixPortable,
    };
    assert(str_views(r.values@) =~= seq!["on"@, "off"@]);
    r
}


/// The rule accepts exactly the non-empty names made only of ASCII letters, digits, `.`, `_` and `-`.
pub proof fn lemma_posix_portable_chars(s: Seq<char>)
    ensures
        spec_posix_portable(s) <==> s.len() > 0 && forall|i: int|
            0 <= i < s.len() ==> ('A' <= #[trigger] s[i] <= 'Z' || 'a' <= s[i] <= 'z' || '0' <= s[i] <= '9'
                || s[i] == '.' || s[i] == '_' || s[i] == '-'),
{
    if spec_posix_portable(s) {
        assert forall|i: int| 0 <= i < s.len() implies ('A' <= s[i] <= 'Z' || 'a' <= s[i] <= 'z' || '0' <= s[i] <= '9' || s[i] == '.' || s[i] == '_' || s[i] == '-') by {
            assert(posix_portable_char(s[i]));
        }
    }
    if s.len() > 0 && forall|i: int| 0 <= i < s.len() ==> ('A' <= #[trigger] s[i] <= 'Z' || 'a' <= s[i] <= 'z' || '0' <= s[i] <= '9' || s[i] == '.' || s[i] == '_' || s[i] == '-') {
        assert forall|i: int| 0 <= i < s.len() implies #[trigger] posix_portable_char(s[i]) by {
            assert(('A' <= s[i] <= 'Z' || 'a' <= s[i] <= 'z' || '0' <= s[i] <= '9' || s[i] == '.' || s[i] == '_' || s[i] == '-'));
        }
    }
}

} // verus!
