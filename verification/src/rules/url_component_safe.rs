//! Names safe as a URL path segment or query value.
use vstd::prelude::*;
use crate::text::{is_ascii_alnum, char_is_ascii_alphanumeric};
use crate::rules::{is_rule_disabled_param, param_as_str, param_view, spec_rule_disabled, RuleCheck, has_fields, str_views, RuleBuilder, RuleSpec};

verus! {

/// A character safe in a URL component without encoding: `A-Z a-z 0-9 - _`.
pub open spec fn url_component_safe_char(c: char) -> bool {
    is_ascii_alnum(c) || c == '-' || c == '_'
}

/// The name is non-empty and every character is allowed.
pub open spec fn spec_url_component_safe(s: Seq<char>) -> bool {
    s.len() > 0 && forall|i: int| 0 <= i < s.len() ==> #[trigger] url_component_safe_char(s[i])
}

/// Characters safe as a URL path segment or query parameter value without
/// percent-encoding and without ambiguity.  More restrictive than url_safe:
/// only alphanumerics, hyphen and underscore: no dot (path traversal risk)
/// and no tilde (sometimes treated specially by servers).
pub fn url_component_safe(input: &str) -> (r: bool)
    ensures
        r == spec_url_component_safe(input@),
{
    let len = input.unicode_len();
    if len == 0 {
        return false;
    }
    let mut i: usize = 0;
    while i < len
        invariant
            i <= len,
            len == input@.len(),
            forall|k: int| 0 <= k < i ==> #[trigger] url_component_safe_char(input@[k]),
        decreases len - i,
    {
        let c = input.get_char(i);
        if !(char_is_ascii_alphanumeric(c) || c == '-' || c == '_') {
            assert(!url_component_safe_char(input@[i as int]));
            return false;
        }
        i = i + 1;
    }
    true
}

/// The check that a parameter selects: none when the rule is switched off.
pub open spec fn spec_url_component_safe_builder(param: Option<Seq<char>>) -> Option<RuleCheck> {
    if spec_rule_disabled(param) {
        None
    } else {
        Some(RuleCheck::UrlComponentSafe)
    }
}

/// Compiles the rule for a parameter.
pub fn url_component_safe_builder(param: Option<String>) -> (r: Option<RuleCheck>)
    ensures
        r == spec_url_component_safe_builder(param_view(param)),
{
    if is_rule_disabled_param(param_as_str(&param)) {
        return None;
    }
    Some(RuleCheck::UrlComponentSafe)
}


/// More restrictive than `url_safe` and `posix_portable`: a name this rule accepts is
/// accepted by both of them.
pub proof fn lemma_url_component_safe_is_stricter(s: Seq<char>)
    ensures
        spec_url_component_safe(s) ==> crate::rules::url_safe::spec_url_safe(s),
        spec_url_component_safe(s) ==> crate::rules::posix_portable::spec_posix_portable(s),
{
    if spec_url_component_safe(s) {
        assert forall|i: int| 0 <= i < s.len() implies #[trigger] crate::rules::url_safe::url_safe_char(s[i]) by {
            assert(url_component_safe_char(s[i]));
        }
        assert forall|i: int| 0 <= i < s.len() implies #[trigger] crate::rules::posix_portable::posix_portable_char(s[i]) by {
            assert(url_component_safe_char(s[i]));
        }
    }
}


/// The `url_component_safe` rule.
pub open spec fn is_rule(r: RuleSpec) -> bool {
    has_fields(
        r,
        "url_component_safe"@,
        "on"@,
        "on"@,
        seq!["on"@, "off"@],
        "Only characters safe as a URL path/query component (A-Za-z0-9-_)."@,
        "Restricts filenames to characters that are unambiguously safe as a URL path segment or query parameter value: ASCII letters, digits, hyphen (`-`), and underscore (`_`).\n\nMore restrictive than `url_safe`: excludes dot (`.`) to avoid path-traversal ambiguity and tilde (`~`) which some servers treat specially."@,
        RuleBuilder::UrlComponentSafe,
    )
}

/// The `url_component_safe` rule.
pub fn rule() -> (r: RuleSpec)
    ensures
        is_rule(r),
{
    let r = RuleSpec {
        slug: "url_component_safe",
        no_arg: "on",
        missing_value: "on",
        values: &["on", "off"],
        short_description: "Only characters safe as a URL path/query component (A-Za-z0-9-_).",
        long_description_markdown: "Restricts filenames to characters that are unambiguously safe as a URL path segment or query parameter value: ASCII letters, digits, hyphen (`-`), and underscore (`_`).\n\nMore restrictive than `url_safe`: excludes dot (`.`) to avoid path-traversal ambiguity and tilde (`~`) which some servers treat specially.",
        check: RuleBuilder::UrlComponentSafe,
    };
    assert(str_views(r.values@) =~= seq!["on"@, "off"@]);
    r
}


/// The rule accepts exactly the non-empty names made only of ASCII letters, digits, `-` and `_`.
pub proof fn lemma_url_component_safe_chars(s: Seq<char>)
    ensures
        spec_url_component_safe(s) <==> s.len() > 0 && forall|i: int|
            0 <= i < s.len() ==> ('A' <= #[trigger] s[i] <= 'Z' || 'a' <= s[i] <= 'z' || '0' <= s[i] <= '9'
                || s[i] == '-' || s[i] == '_'),
{
    if spec_url_component_safe(s) {
        assert forall|i: int| 0 <= i < s.len() implies ('A' <= s[i] <= 'Z' || 'a' <= s[i] <= 'z' || '0' <= s[i] <= '9' || s[i] == '-' || s[i] == '_') by {
            assert(url_component_safe_char(s[i]));
        }
    }
    if s.len() > 0 && forall|i: int| 0 <= i < s.len() ==> ('A' <= #[trigger] s[i] <= 'Z' || 'a' <= s[i] <= 'z' || '0' <= s[i] <= '9' || s[i] == '-' || s[i] == '_') {
        assert forall|i: int| 0 <= i < s.len() implies #[trigger] url_component_safe_char(s[i]) by {
            assert(('A' <= s[i] <= 'Z' || 'a' <= s[i] <= 'z' || '0' <= s[i] <= '9' || s[i] == '-' || s[i] == '_'));
        }
    }
}

} // verus!
