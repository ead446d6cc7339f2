//! Names restricted to the RFC 3986 unreserved characters.
use vstd::prelude::*;
use crate::text::{is_ascii_alnum, char_is_ascii_alphanumeric};
use crate::rules::{is_rule_disabled_param, param_as_str, param_view, spec_rule_disabled, RuleCheck, has_fields, str_views, RuleBuilder, RuleSpec};

verus! {

/// An RFC 3986 unreserved character: `A-Z a-z 0-9 - . _ ~`.
pub open spec fn url_safe_char(c: char) -> bool {
    is_ascii_alnum(c) || c == '-' || c == '.' || c == '_' || c == '~'
}

/// The name is non-empty and every character is allowed.
pub open spec fn spec_url_safe(s: Seq<char>) -> bool {
    s.len() > 0 && forall|i: int| 0 <= i < s.len() ==> #[trigger] url_safe_char(s[i])
}

/// RFC 3986 unreserved characters: A-Za-z0-9 - . _ ~
/// These are safe anywhere in a URL without percent-encoding.
/// Reference: https://datatracker.ietf.org/doc/html/rfc3986#section-2.3
pub fn url_safe(input: &str) -> (r: bool)
    ensures
        r == spec_url_safe(input@),
{
    let len = input.unicode_len();
    if len == 0 {
        return false;
    }
    let mut i: usize = 0;
    while i < len
        invariant
            i <= len,
            len == input@.len(),
            forall|k: int| 0 <= k < i ==> #[trigger] url_safe_char(input@[k]),
        decreases len - i,
    {
        let c = input.get_char(i);
        if !(char_is_ascii_alphanumeric(c) || c == '-' || c == '.' || c == '_' || c == '~') {
            assert(!url_safe_char(input@[i as int]));
            return false;
        }
        i = i + 1;
    }
    true
}

/// The check that a parameter selects: none when the rule is switched off.
pub open spec fn spec_url_safe_builder(param: Option<Seq<char>>) -> Option<RuleCheck> {
    if spec_rule_disabled(param) {
        None
    } else {
        Some(RuleCheck::UrlSafe)
    }
}

/// Compiles the rule for a parameter.
pub fn url_safe_builder(param: Option<String>) -> (r: Option<RuleCheck>)
    ensures
        r == spec_url_safe_builder(param_view(param)),
{
    if is_rule_disabled_param(param_as_str(&param)) {
        return None;
    }
    Some(RuleCheck::UrlSafe)
}


/// The `url_safe` rule.
pub open spec fn is_rule(r: RuleSpec) -> bool {
    has_fields(
        r,
        "url_safe"@,
        "off"@,
        "on"@,
        seq!["on"@, "off"@],
        "Only RFC 3986 unreserved characters (A-Za-z0-9-._~)."@,
        "Restricts filenames to the [RFC 3986 unreserved characters](https://datatracker.ietf.org/doc/html/rfc3986#section-2.3): ASCII letters, digits, hyphen (`-`), dot (`.`), underscore (`_`), and tilde (`~`).\n\nThese characters are safe anywhere in a URL without percent-encoding."@,
        RuleBuilder::UrlSafe,
    )
}

/// The `url_safe` rule.
pub fn rule() -> (r: RuleSpec)
    ensures
        is_rule(r),
{
    let r = RuleSpec {
        slug: "url_safe",
        no_arg: "off",
        missing_value: "on",
        values: &["on", "off"],
        short_description: "Only RFC 3986 unreserved characters (A-Za-z0-9-._~).",
        long_description_markdown: "Restricts filenames to the [RFC 3986 unreserved characters](https://datatracker.ietf.org/doc/html/rfc3986#section-2.3): ASCII letters, digits, hyphen (`-`), dot (`.`), underscore (`_`), and tilde (`~`).\n\nThese characters are safe anywhere in a URL without percent-encoding.",
        check: RuleBuilder::UrlSafe,
    };
    assert(str_views(r.values@) =~= seq!["on"@, "off"@]);
    r
}


/// The rule accepts exactly the non-empty names made only of ASCII letters, digits, `-`, `.`, `_` and `~`.
pub proof fn lemma_url_safe_chars(s: Seq<char>)
    ensures
        spec_url_safe(s) <==> s.len() > 0 && forall|i: int|
            0 <= i < s.len() ==> ('A' <= #[trigger] s[i] <= 'Z' || 'a' <= s[i] <= 'z' || '0' <= s[i] <= '9'
                || s[i] == '-' || s[i] == '.' || s[i] == '_' || s[i] == '~'),
{
    if spec_url_safe(s) {
        assert forall|i: int| 0 <= i < s.len() implies ('A' <= s[i] <= 'Z' || 'a' <= s[i] <= 'z' || '0' <= s[i] <= '9' || s[i] == '-' || s[i] == '.' || s[i] == '_' || s[i] == '~') by {
            assert(url_safe_char(s[i]));
        }
    }
    if s.len() > 0 && forall|i: int| 0 <= i < s.len() ==> ('A' <= #[trigger] s[i] <= 'Z' || 'a' <= s[i] <= 'z' || '0' <= s[i] <= '9' || s[i] == '-' || s[i] == '.' || s[i] == '_' || s[i] == '~') {
        assert forall|i: int| 0 <= i < s.len() implies #[trigger] url_safe_char(s[i]) by {
            assert(('A' <= s[i] <= 'Z' || 'a' <= s[i] <= 'z' || '0' <= s[i] <= '9' || s[i] == '-' || s[i] == '.' || s[i] == '_' || s[i] == '~'));
        }
    }
}

} // verus!
