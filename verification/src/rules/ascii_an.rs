//! Names whose stem and extension are ASCII letters and digits.
use vstd::prelude::*;
use crate::text::{all_ascii_alnum, all_alnum_range, normalize, normalized_equals};
use crate::path::{opt_view, spec_file_stem, spec_file_extension, split_segments, file_stem, file_extension};
use crate::rules::ascii_alphanumeric::{all_alnum_segments, ascii_alphanumeric_ext};
use crate::rules::{is_rule_disabled_param, param_as_str, param_or, param_view, spec_rule_disabled, RuleCheck, has_fields, str_views, RuleBuilder, RuleSpec};

verus! {

/// An absent part passes; a present one must be empty or all ASCII letters and digits.
pub open spec fn part_is_ascii_an(part: Option<Seq<char>>) -> bool {
    match part {
        Some(t) => t.len() == 0 || all_ascii_alnum(t),
        None => true,
    }
}

/// The stem passes.
pub open spec fn spec_ascii_an_base(s: Seq<char>) -> bool {
    part_is_ascii_an(spec_file_stem(s))
}

/// Both the stem and the extension pass.
pub open spec fn spec_ascii_an_both(s: Seq<char>) -> bool {
    part_is_ascii_an(spec_file_stem(s)) && part_is_ascii_an(spec_file_extension(s))
}

/// The empty name passes; any other name passes when every period-separated segment is
/// non-empty and all ASCII letters and digits.
pub open spec fn spec_ascii_an_ext(s: Seq<char>) -> bool {
    s.len() == 0 || all_alnum_segments(split_segments(s))
}

fn _ascii_an(input: Option<&str>) -> (r: bool)
    ensures
        r == part_is_ascii_an(opt_view(input)),
{
    let input = match input {
        Some(s) => s,
        None => return true,
    };
    let len = input.unicode_len();
    assert(input@.subrange(0, len as int) =~= input@);
    len == 0 || all_alnum_range(input, 0, len)
}

/// Only the first segment (before the first dot) must be ASCII alphanumeric.
/// Any extensions are allowed but not checked.
pub fn ascii_an_base(input: &str) -> (r: bool)
    ensures
        r == spec_ascii_an_base(input@),
{
    return _ascii_an(file_stem(input));
}

/// ASCII alphanumeric first segment plus exactly one extension.
/// No period is also fine.
pub fn ascii_an_both(input: &str) -> (r: bool)
    ensures
        r == spec_ascii_an_both(input@),
{
    return _ascii_an(file_stem(input)) && _ascii_an(file_extension(input));
}

/// All dot-separated segments must be ASCII alphanumeric.
pub fn ascii_an_ext(input: &str) -> (r: bool)
    ensures
        r == spec_ascii_an_ext(input@),
{
    return input.is_empty() || ascii_alphanumeric_ext(input);
}

/// The check that a parameter selects: none when the rule is switched off; otherwise by the
/// normalized mode (default `both`), where an unknown mode selects nothing.
pub open spec fn spec_ascii_an_builder(param: Option<Seq<char>>) -> Option<RuleCheck> {
    if spec_rule_disabled(param) {
        None
    } else {
        let mode = normalize(param_or(param, "both"@));
        if mode == "base"@ {
            Some(RuleCheck::AsciiAnBase)
        } else if mode == "ext"@ {
            Some(RuleCheck::AsciiAnExt)
        } else if mode == "both"@ {
            Some(RuleCheck::AsciiAnBoth)
        } else {
            None
        }
    }
}

/// Compiles the rule for a parameter.
pub fn ascii_an_builder(param: Option<String>) -> (r: Option<RuleCheck>)
    ensures
        r == spec_ascii_an_builder(param_view(param)),
{
    let p = param_as_str(&param);
    if is_rule_disabled_param(p) {
        return None;
    }
    let mode: &str = match p {
        Some(s) => s,
        None => "both",
    };
    if normalized_equals(mode, "base") {
        Some(RuleCheck::AsciiAnBase)
    } else if normalized_equals(mode, "ext") {
        Some(RuleCheck::AsciiAnExt)
    } else if normalized_equals(mode, "both") {
        Some(RuleCheck::AsciiAnBoth)
    } else {
        None
    }
}


/// The `ascii_an` rule.
pub open spec fn is_rule(r: RuleSpec) -> bool {
    has_fields(
        r,
        "ascii_an"@,
        "ext"@,
        "both"@,
        seq!["off"@, "base"@, "ext"@, "both"@],
        "Only ASCII alphanumeric characters"@,
        "Restricts filenames to ASCII letters and digits.\n\n- `base`: no dots — alphanumerics only in the full name\n- `both`: allows a single dot separating an alphanumeric stem from an alphanumeric extension\n- `ext`: allows multiple dot-separated alphanumeric segments"@,
        RuleBuilder::AsciiAn,
    )
}

/// The `ascii_an` rule.
pub fn rule() -> (r: RuleSpec)
    ensures
        is_rule(r),
{
    let r = RuleSpec {
        slug: "ascii_an",
        no_arg: "ext",
        missing_value: "both",
        values: &["off", "base", "ext", "both"],
        short_description: "Only ASCII alphanumeric characters",
        long_description_markdown: "Restricts filenames to ASCII letters and digits.\n\n- `base`: no dots — alphanumerics only in the full name\n- `both`: allows a single dot separating an alphanumeric stem from an alphanumeric extension\n- `ext`: allows multiple dot-separated alphanumeric segments",
        check: RuleBuilder::AsciiAn,
    };
    assert(str_views(r.values@) =~= seq!["off"@, "base"@, "ext"@, "both"@]);
    r
}


/// `s[i]` is a period past the start, and no other character of `s` is a period.
pub open spec fn is_sole_inner_dot(s: Seq<char>, i: int) -> bool {
    &&& s[i] == '.'
    &&& i > 0
    &&& forall|j: int| 0 <= j < s.len() && j != i ==> s[j] != '.'
}

/// Mode `both` accepts exactly the names in which every character is an ASCII letter or digit,
/// except at most one period that is not the first character: an ASCII-alphanumeric stem and
/// an extension (possibly empty) that is ASCII alphanumeric too.
pub proof fn lemma_ascii_an_both_chars(s: Seq<char>)
    ensures
        spec_ascii_an_both(s) <==> forall|i: int|
            0 <= i < s.len() ==> crate::text::is_ascii_alnum(#[trigger] s[i]) || is_sole_inner_dot(s, i),
{
    let allowed = forall|i: int|
        0 <= i < s.len() ==> crate::text::is_ascii_alnum(#[trigger] s[i]) || is_sole_inner_dot(s, i);
    if s.len() == 0 {
        return;
    }
    crate::text::lemma_rfind(s, '.');
    match crate::text::rfind(s, '.') {
        None => {
            assert(!crate::text::has_char(s, '.'));
            assert(spec_file_stem(s) == Some(s));
            assert(spec_file_extension(s) is None);
            if allowed {
                assert forall|i: int| 0 <= i < s.len() implies #[trigger] crate::text::is_ascii_alnum(s[i]) by {
                    if !crate::text::is_ascii_alnum(s[i]) {
                        assert(is_sole_inner_dot(s, i));
                    }
                }
            }
        },
        Some(p) => {
            assert(crate::text::has_char(s, '.'));
            if p == 0 {
                assert(crate::path::is_plain_hidden(s));
                assert(spec_file_stem(s) == Some(s));
                assert(!crate::text::is_ascii_alnum(s[0]));
                assert(!is_sole_inner_dot(s, 0));
            } else {
                assert(!crate::path::is_plain_hidden(s));
                let stem = s.take(p);
                let ext = s.skip(p + 1);
                assert(spec_file_stem(s) == Some(stem));
                assert(spec_file_extension(s) == Some(ext));
                if allowed {
                    assert forall|i: int| 0 <= i < stem.len() implies #[trigger] crate::text::is_ascii_alnum(stem[i]) by {
                        assert(stem[i] == s[i]);
                        if !crate::text::is_ascii_alnum(s[i]) {
                            assert(is_sole_inner_dot(s, i));
                            assert(s[p] == '.');
                        }
                    }
                    assert forall|i: int| 0 <= i < ext.len() implies #[trigger] crate::text::is_ascii_alnum(ext[i]) by {
                        assert(ext[i] == s[p + 1 + i]);
                        if !crate::text::is_ascii_alnum(s[p + 1 + i]) {
                            assert(is_sole_inner_dot(s, p + 1 + i));
                            assert(s[p] == '.');
                        }
                    }
                }
                if spec_ascii_an_both(s) {
                    assert forall|i: int| 0 <= i < s.len() implies crate::text::is_ascii_alnum(#[trigger] s[i]) || is_sole_inner_dot(s, i) by {
                        if i < p {
                            assert(s[i] == stem[i]);
                            if stem.len() > 0 {
                                assert(crate::text::is_ascii_alnum(stem[i]));
                            }
                        } else if i > p {
                            assert(s[i] == ext[i - p - 1]);
                            assert(crate::text::is_ascii_alnum(ext[i - p - 1]));
                        } else {
                            assert forall|j: int| 0 <= j < s.len() && j != i implies s[j] != '.' by {
                                if j < p {
                                    assert(s[j] == stem[j]);
                                    assert(crate::text::is_ascii_alnum(stem[j]));
                                } else {
                                    assert(s[j] == ext[j - p - 1]);
                                    assert(crate::text::is_ascii_alnum(ext[j - p - 1]));
                                }
                            }
                        }
                    }
                }
            }
        },
    }
}


/// Every mode accepts the empty name.
pub proof fn lemma_ascii_an_empty()
    ensures
        spec_ascii_an_base(Seq::empty()),
        spec_ascii_an_ext(Seq::empty()),
        spec_ascii_an_both(Seq::empty()),
{
}

/// Mode `base` looks at the stem `s[..q]`, everything before the last period when that is not
/// the first character, and the whole name otherwise: a non-empty name passes exactly when
/// every character of its stem is an ASCII letter or digit.
pub proof fn lemma_ascii_an_base_chars(s: Seq<char>, q: int)
    requires
        s.len() > 0,
        (0 < q < s.len() && s[q] == '.' && forall|k: int| q < k < s.len() ==> #[trigger] s[k] != '.')
            || (q == s.len() && forall|k: int| 0 < k < s.len() ==> #[trigger] s[k] != '.'),
    ensures
        spec_ascii_an_base(s) <==> forall|i: int| 0 <= i < q ==> crate::text::is_ascii_alnum(#[trigger] s[i]),
{
    if q < s.len() {
        crate::path::lemma_split_at_last_dot(s, q);
        let stem = s.take(q);
        assert forall|i: int| 0 <= i < q implies (crate::text::is_ascii_alnum(#[trigger] s[i]) <==> crate::text::is_ascii_alnum(stem[i])) by {
            assert(stem[i] == s[i]);
        }
    } else {
        crate::path::lemma_no_extension(s);
    }
}

/// Mode `ext` accepts exactly the empty name and the names made of ASCII letters and digits
/// in which each period stands between two letters or digits.
pub proof fn lemma_ascii_an_ext_chars(s: Seq<char>)
    ensures
        spec_ascii_an_ext(s) <==> s.len() == 0 || forall|i: int|
            0 <= i < s.len() ==> #[trigger] crate::rules::ascii_alphanumeric::alnum_or_inner_dot(s, i),
{
    crate::rules::ascii_alphanumeric::lemma_segments_chars(s);
}

} // verus!
