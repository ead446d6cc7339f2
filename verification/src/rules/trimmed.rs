//! Names without white space at the edges of their stem and extension.
use vstd::prelude::*;
use crate::text::{is_white_space, no_white_space, trim, lemma_trim_fixed, char_is_whitespace, normalize, normalized_equals, str_is_trimmed, str_has_no_whitespace};
use crate::path::{first_segment, first_segment_end, spec_file_extension, file_extension, lemma_stem_extension_reconstruct};
use crate::rules::{is_rule_disabled_param, param_as_str, param_or, param_view, spec_rule_disabled, RuleCheck, has_fields, str_views, RuleBuilder, RuleSpec};

verus! {

/// Non-empty, and the first period-separated segment has no white space at either end.
pub open spec fn spec_trimmed_base(s: Seq<char>) -> bool {
    s.len() > 0 && trim(first_segment(s)) == first_segment(s)
}

/// Non-empty, and the extension, where there is one, has no white space at either end.
pub open spec fn spec_trimmed_ext(s: Seq<char>) -> bool {
    s.len() > 0 && match spec_file_extension(s) {
        Some(e) => trim(e) == e,
        None => true,
    }
}

/// No white space stands immediately before a period.
pub open spec fn no_white_before_dot(s: Seq<char>) -> bool {
    forall|i: int, j: int|
        0 <= i && j == i + 1 && j < s.len() ==> !(#[trigger] s[j] == '.' && is_white_space(
            #[trigger] s[i],
        ))
}

/// Non-empty, trimmed as a whole, an extension without white space, and no white space
/// immediately before a period.
pub open spec fn spec_trimmed_both(s: Seq<char>) -> bool {
    &&& s.len() > 0
    &&& trim(s) == s
    &&& match spec_file_extension(s) {
        Some(e) => no_white_space(e),
        None => true,
    }
    &&& no_white_before_dot(s)
}

/// Check if the stem (first segment) is trimmed: no leading/trailing whitespace.
pub fn trimmed_base(input: &str) -> (r: bool)
    ensures
        r == spec_trimmed_base(input@),
{
    let len = input.unicode_len();
    if len == 0 {
        return false;
    }
    let end = first_segment_end(input, len);
    let ghost seg = input@.take(end as int);
    proof {
        lemma_trim_fixed(seg);
    }
    if end == 0 {
        return true;
    }
    !char_is_whitespace(input.get_char(0)) && !char_is_whitespace(input.get_char(end - 1))
}

/// Check if the extension (last segment) is trimmed: no leading/trailing whitespace.
pub fn trimmed_ext(input: &str) -> (r: bool)
    ensures
        r == spec_trimmed_ext(input@),
{
    if input.is_empty() {
        return false;
    }
    match file_extension(input) {
        None => true,
        Some(ext) => str_is_trimmed(ext),
    }
}

/// Check if both stem and extension are trimmed.
pub fn trimmed_both(input: &str) -> (r: bool)
    ensures
        r == spec_trimmed_both(input@),
{
    if input.is_empty() {
        return false;
    }
    if !str_is_trimmed(input) {
        return false;
    }
    match file_extension(input) {
        Some(ext) => {
            if !str_has_no_whitespace(ext) {
                return false;
            }
        },
        None => {},
    }
    let len = input.unicode_len();
    let mut prev = input.get_char(0);
    let mut i: usize = 1;
    while i < len
        invariant
            1 <= i <= len,
            len == input@.len(),
            prev == input@[i - 1],
            forall|k: int, j: int|
                0 <= k && j == k + 1 && j < i ==> !(#[trigger] input@[j] == '.' && is_white_space(
                    #[trigger] input@[k],
                )),
        decreases len - i,
    {
        let c = input.get_char(i);
        if c == '.' && char_is_whitespace(prev) {
            assert(input@[i as int] == '.' && is_white_space(input@[i - 1]));
            return false;
        }
        prev = c;
        i = i + 1;
    }
    true
}

/// The check that a parameter selects: none when the rule is switched off; otherwise by the
/// normalized mode (default `both`), where an unknown mode selects nothing.
pub open spec fn spec_trimmed_builder(param: Option<Seq<char>>) -> Option<RuleCheck> {
    if spec_rule_disabled(param) {
        None
    } else {
        let mode = normalize(param_or(param, "both"@));
        if mode == "base"@ {
            Some(RuleCheck::TrimmedBase)
        } else if mode == "ext"@ {
            Some(RuleCheck::TrimmedExt)
        } else if mode == "both"@ {
            Some(RuleCheck::TrimmedBoth)
        } else {
            None
        }
    }
}

/// Compiles the rule for a parameter.
pub fn trimmed_builder(param: Option<String>) -> (r: Option<RuleCheck>)
    ensures
        r == spec_trimmed_builder(param_view(param)),
{
    let p = param_as_str(&param);
    if is_rule_disabled_param(p) {
        return None;
    }
    let mode: &str = match p {
        Some(s) => s,
        None => "both",
    };
    if normalized_equals(mode, "base") {
        Some(RuleCheck::TrimmedBase)
    } else if normalized_equals(mode, "ext") {
        Some(RuleCheck::TrimmedExt)
    } else if normalized_equals(mode, "both") {
        Some(RuleCheck::TrimmedBoth)
    } else {
        None
    }
}

/// `both` is the strictest mode: a name it accepts is accepted by `base` and by `ext`.
pub proof fn lemma_trimmed_both_implies_base_and_ext(s: Seq<char>)
    ensures
        spec_trimmed_both(s) ==> spec_trimmed_base(s) && spec_trimmed_ext(s),
{
    if spec_trimmed_both(s) {
        lemma_trim_fixed(s);
        crate::text::lemma_find(s, '.');
        let seg = first_segment(s);
        lemma_trim_fixed(seg);
        if seg.len() > 0 {
            assert(seg[0] == s[0]);
            match crate::text::find(s, '.') {
                Some(i) => {
                    assert(seg[seg.len() - 1] == s[i - 1]);
                    assert(s[i] == '.');
                    assert(!(s[i] == '.' && is_white_space(s[i - 1])));
                },
                None => {},
            }
        }
        match spec_file_extension(s) {
            Some(e) => {
                lemma_trim_fixed(e);
                if e.len() > 0 {
                    assert(!is_white_space(e[0]));
                    assert(!is_white_space(e[e.len() - 1]));
                }
            },
            None => {},
        }
    }
}


/// The `trimmed` rule.
pub open spec fn is_rule(r: RuleSpec) -> bool {
    has_fields(
        r,
        "trimmed"@,
        "both"@,
        "both"@,
        seq!["base"@, "ext"@, "both"@, "off"@],
        "No leading or trailing whitespace."@,
        "Ensures filename components are properly trimmed.\n\n- **base**: Stem (first dot-separated segment) must be trimmed (no leading/trailing whitespace)\n- **ext**: Extension (last dot-separated segment) must be trimmed\n- **both**: Both stem and extension must be trimmed, and no whitespace immediately before periods"@,
        RuleBuilder::Trimmed,
    )
}

/// The `trimmed` rule.
pub fn rule() -> (r: RuleSpec)
    ensures
        is_rule(r),
{
    let r = RuleSpec {
        slug: "trimmed",
        no_arg: "both",
        missing_value: "both",
        values: &["base", "ext", "both", "off"],
        short_description: "No leading or trailing whitespace.",
        long_description_markdown: "Ensures filename components are properly trimmed.\n\n- **base**: Stem (first dot-separated segment) must be trimmed (no leading/trailing whitespace)\n- **ext**: Extension (last dot-separated segment) must be trimmed\n- **both**: Both stem and extension must be trimmed, and no whitespace immediately before periods",
        check: RuleBuilder::Trimmed,
    };
    assert(str_views(r.values@) =~= seq!["base"@, "ext"@, "both"@, "off"@]);
    r
}


/// Mode `base` looks at the first period-separated segment `s[..e]` (the whole name when it has
/// no period): a non-empty name passes exactly when that segment is empty or neither begins
/// nor ends with white space.
pub proof fn lemma_trimmed_base_edges(s: Seq<char>, e: int)
    requires
        s.len() > 0,
        0 <= e <= s.len(),
        forall|k: int| 0 <= k < e ==> #[trigger] s[k] != '.',
        e == s.len() || s[e] == '.',
    ensures
        spec_trimmed_base(s) <==> (e == 0 || (!is_white_space(s[0]) && !is_white_space(s[e - 1]))),
{
    crate::text::lemma_find(s, '.');
    match crate::text::find(s, '.') {
        Some(i) => {
            if i < e {
                assert(s[i] != '.');
            }
            if i > e {
                assert(s[e] != '.');
            }
        },
        None => {
            if e < s.len() {
                assert(s[e] != '.');
            }
            assert(s.take(s.len() as int) =~= s);
        },
    }
    assert(first_segment(s) =~= s.take(e));
    lemma_trim_fixed(s.take(e));
}


/// Mode `ext` looks at the text after the last period `s[p]` (when `p > 0`): a name passes
/// exactly when that text is empty or neither begins nor ends with white space.
pub proof fn lemma_trimmed_ext_edges(s: Seq<char>, p: int)
    requires
        0 < p < s.len(),
        s[p] == '.',
        forall|k: int| p < k < s.len() ==> #[trigger] s[k] != '.',
    ensures
        spec_trimmed_ext(s) <==> (p == s.len() - 1 || (!is_white_space(s[p + 1]) && !is_white_space(s[s.len() - 1]))),
{
    crate::path::lemma_split_at_last_dot(s, p);
    lemma_trim_fixed(s.skip(p + 1));
}

/// Mode `ext` accepts every non-empty name without an extension: no period, or only a
/// leading one.
pub proof fn lemma_trimmed_ext_without_extension(s: Seq<char>)
    requires
        s.len() > 0,
        forall|k: int| 0 < k < s.len() ==> #[trigger] s[k] != '.',
    ensures
        spec_trimmed_ext(s),
{
    crate::path::lemma_no_extension(s);
}

/// Mode `both` accepts exactly the non-empty names that neither begin nor end with white
/// space, have no white space right before a period, and have no white space after their last
/// period `s[p]` when `p > 0` (`p == -1` stands for a name without a period).
pub proof fn lemma_trimmed_both_chars(s: Seq<char>, p: int)
    requires
        s.len() > 0,
        (p == -1 && forall|k: int| 0 <= k < s.len() ==> #[trigger] s[k] != '.') || (0 <= p < s.len()
            && s[p] == '.' && forall|k: int| p < k < s.len() ==> #[trigger] s[k] != '.'),
    ensures
        spec_trimmed_both(s) <==> {
            &&& !is_white_space(s[0])
            &&& !is_white_space(s[s.len() - 1])
            &&& forall|i: int| 0 < i < s.len() && #[trigger] s[i] == '.' ==> !is_white_space(s[i - 1])
            &&& p > 0 ==> forall|k: int| p < k < s.len() ==> !is_white_space(#[trigger] s[k])
        },
{
    lemma_trim_fixed(s);
    if p > 0 {
        crate::path::lemma_split_at_last_dot(s, p);
        let e = s.skip(p + 1);
        if no_white_space(e) {
            assert forall|k: int| p < k < s.len() implies !is_white_space(#[trigger] s[k]) by {
                assert(s[k] == e[k - p - 1]);
            }
        }
        if forall|k: int| p < k < s.len() ==> !is_white_space(#[trigger] s[k]) {
            assert forall|k: int| 0 <= k < e.len() implies !#[trigger] is_white_space(e[k]) by {
                assert(e[k] == s[k + p + 1]);
            }
        }
    } else {
        crate::path::lemma_no_extension(s);
    }
    if no_white_before_dot(s) {
        assert forall|i: int| 0 < i < s.len() && #[trigger] s[i] == '.' implies !is_white_space(s[i - 1]) by {
            let h = i - 1;
            assert(!(s[i] == '.' && is_white_space(s[h])));
        }
    }
    if forall|i: int| 0 < i < s.len() && #[trigger] s[i] == '.' ==> !is_white_space(s[i - 1]) {
        assert forall|i: int, j: int| 0 <= i && j == i + 1 && j < s.len() implies !(#[trigger] s[j] == '.' && is_white_space(#[trigger] s[i])) by {
            if s[j] == '.' {
                assert(!is_white_space(s[j - 1]));
            }
        }
    }
}

} // verus!
