//! How much white space a name may hold.
use vstd::prelude::*;
use crate::text::{is_white_space, no_white_space, trim, char_is_whitespace, normalize, normalized_equals, str_is_trimmed, str_has_no_whitespace};
use crate::rules::{is_rule_disabled_param, param_as_str, param_or, param_view, spec_rule_disabled, RuleCheck, has_fields, str_views, RuleBuilder, RuleSpec};

verus! {

/// No character is white space.
pub open spec fn spec_whitespace_none(s: Seq<char>) -> bool {
    no_white_space(s)
}

/// Every white-space character is an ASCII space.
pub open spec fn only_space_white(s: Seq<char>) -> bool {
    forall|i: int| 0 <= i < s.len() && #[trigger] is_white_space(s[i]) ==> s[i] == ' '
}

/// No two spaces stand next to each other.
pub open spec fn no_double_space(s: Seq<char>) -> bool {
    forall|i: int, j: int|
        0 <= i && j == i + 1 && j < s.len() ==> !(#[trigger] s[i] == ' ' && #[trigger] s[j] == ' ')
}

/// Trimmed, white space only as single ASCII spaces.
pub open spec fn spec_whitespace_space(s: Seq<char>) -> bool {
    &&& trim(s) == s
    &&& only_space_white(s)
    &&& no_double_space(s)
}

/// Trimmed, white space only as ASCII spaces.
pub open spec fn spec_whitespace_spaces(s: Seq<char>) -> bool {
    trim(s) == s && only_space_white(s)
}

/// No internal whitespace at all.
pub fn whitespace_none(input: &str) -> (r: bool)
    ensures
        r == spec_whitespace_none(input@),
{
    str_has_no_whitespace(input)
}

/// Trimmed, and internal whitespace only as single ASCII spaces.
pub fn whitespace_space(input: &str) -> (r: bool)
    ensures
        r == spec_whitespace_space(input@),
{
    if !str_is_trimmed(input) {
        return false;
    }
    let len = input.unicode_len();
    let mut prev_was_space = false;
    let mut i: usize = 0;
    while i < len
        invariant
            i <= len,
            len == input@.len(),
            prev_was_space == (i > 0 && input@[i - 1] == ' '),
            forall|k: int| 0 <= k < i && #[trigger] is_white_space(input@[k]) ==> input@[k] == ' ',
            forall|k: int, j: int|
                0 <= k && j == k + 1 && j < i ==> !(#[trigger] input@[k] == ' ' && #[trigger] input@[j]
                    == ' '),
        decreases len - i,
    {
        let c = input.get_char(i);
        if char_is_whitespace(c) {
            if c != ' ' {
                return false;
            }
            if prev_was_space {
                assert(input@[i - 1] == ' ' && input@[i as int] == ' ');
                return false;
            }
            prev_was_space = true;
        } else {
            prev_was_space = false;
        }
        i = i + 1;
    }
    true
}

/// Trimmed, and internal whitespace only as ASCII spaces.
pub fn whitespace_spaces(input: &str) -> (r: bool)
    ensures
        r == spec_whitespace_spaces(input@),
{
    if !str_is_trimmed(input) {
        return false;
    }
    let len = input.unicode_len();
    let mut i: usize = 0;
    while i < len
        invariant
            i <= len,
            len == input@.len(),
            forall|k: int| 0 <= k < i && #[trigger] is_white_space(input@[k]) ==> input@[k] == ' ',
        decreases len - i,
    {
        let c = input.get_char(i);
        if char_is_whitespace(c) && c != ' ' {
            return false;
        }
        i = i + 1;
    }
    true
}

/// The check that a parameter selects: none when the rule is switched off; otherwise by the
/// normalized mode (default `none`), where an unknown mode means `none`.
pub open spec fn spec_whitespace_builder(param: Option<Seq<char>>) -> Option<RuleCheck> {
    if spec_rule_disabled(param) {
        None
    } else {
        let mode = normalize(param_or(param, "none"@));
        if mode == "none"@ {
            Some(RuleCheck::WhitespaceNone)
        } else if mode == "space"@ {
            Some(RuleCheck::WhitespaceSpace)
        } else if mode == "spaces"@ {
            Some(RuleCheck::WhitespaceSpaces)
        } else if mode == "any"@ {
            Some(RuleCheck::WhitespaceAny)
        } else {
            Some(RuleCheck::WhitespaceNone)
        }
    }
}

/// Compiles the rule for a parameter.
pub fn whitespace_builder(param: Option<String>) -> (r: Option<RuleCheck>)
    ensures
        r == spec_whitespace_builder(param_view(param)),
{
    let p = param_as_str(&param);
    if is_rule_disabled_param(p) {
        return None;
    }
    let mode: &str = match p {
        Some(s) => s,
        None => "none",
    };
    let checker = if normalized_equals(mode, "none") {
        RuleCheck::WhitespaceNone
    } else if normalized_equals(mode, "space") {
        RuleCheck::WhitespaceSpace
    } else if normalized_equals(mode, "spaces") {
        RuleCheck::WhitespaceSpaces
    } else if normalized_equals(mode, "any") {
        RuleCheck::WhitespaceAny
    } else {
        RuleCheck::WhitespaceNone
    };
    Some(checker)
}

/// The modes nest: a name with no white space passes `space`, and one that passes `space`
/// passes `spaces`.
pub proof fn lemma_whitespace_modes_nest(s: Seq<char>)
    ensures
        spec_whitespace_none(s) ==> spec_whitespace_space(s),
        spec_whitespace_space(s) ==> spec_whitespace_spaces(s),
{
    crate::text::lemma_trim_fixed(s);
    if spec_whitespace_none(s) {
        if s.len() > 0 {
            assert(!is_white_space(s[0]));
            assert(!is_white_space(s[s.len() - 1]));
        }
        assert forall|i: int, j: int|
            0 <= i && j == i + 1 && j < s.len() implies !(#[trigger] s[i] == ' ' && #[trigger] s[j]
            == ' ') by {
            assert(!is_white_space(s[i]));
        }
    }
}


/// The `whitespace` rule.
pub open spec fn is_rule(r: RuleSpec) -> bool {
    has_fields(
        r,
        "whitespace"@,
        "none"@,
        "none"@,
        seq!["none"@, "space"@, "spaces"@, "any"@],
        "Control how internal whitespace is allowed in filenames."@,
        "Controls internal whitespace policy for filenames.\n\n- `none`: no internal whitespace allowed\n- `space`: allow single ASCII spaces only\n- `spaces`: allow one or more ASCII spaces\n- `any`: allow any internal whitespace"@,
        RuleBuilder::Whitespace,
    )
}

/// The `whitespace` rule.
pub fn rule() -> (r: RuleSpec)
    ensures
        is_rule(r),
{
    let r = RuleSpec {
        slug: "whitespace",
        no_arg: "none",
        missing_value: "none",
        values: &["none", "space", "spaces", "any"],
        short_description: "Control how internal whitespace is allowed in filenames.",
        long_description_markdown: "Controls internal whitespace policy for filenames.\n\n- `none`: no internal whitespace allowed\n- `space`: allow single ASCII spaces only\n- `spaces`: allow one or more ASCII spaces\n- `any`: allow any internal whitespace",
        check: RuleBuilder::Whitespace,
    };
    assert(str_views(r.values@) =~= seq!["none"@, "space"@, "spaces"@, "any"@]);
    r
}


/// Mode `none` accepts a name exactly when none of its characters has the Unicode
/// `White_Space` property; no other character ever leads to a rejection.
pub proof fn lemma_whitespace_none_exact(s: Seq<char>)
    ensures
        spec_whitespace_none(s) <==> forall|i: int| 0 <= i < s.len() ==> !is_white_space(#[trigger] s[i]),
{
}


/// Mode `spaces` accepts exactly the names whose white space is all ASCII spaces and that
/// neither begin nor end with a space.
pub proof fn lemma_whitespace_spaces_chars(s: Seq<char>)
    ensures
        spec_whitespace_spaces(s) <==> {
            &&& s.len() > 0 ==> s[0] != ' ' && s[s.len() - 1] != ' '
            &&& forall|i: int| 0 <= i < s.len() && is_white_space(#[trigger] s[i]) ==> s[i] == ' '
        },
{
    crate::text::lemma_trim_fixed(s);
    if s.len() > 0 {
        assert(is_white_space(' '));
    }
}

/// Mode `space` accepts exactly the names that mode `spaces` accepts and that hold no two
/// spaces side by side.
pub proof fn lemma_whitespace_space_chars(s: Seq<char>)
    ensures
        spec_whitespace_space(s) <==> {
            &&& s.len() > 0 ==> s[0] != ' ' && s[s.len() - 1] != ' '
            &&& forall|i: int| 0 <= i < s.len() && is_white_space(#[trigger] s[i]) ==> s[i] == ' '
            &&& forall|i: int| 0 <= i < s.len() - 1 ==> !(#[trigger] s[i] == ' ' && s[i + 1] == ' ')
        },
{
    lemma_whitespace_spaces_chars(s);
    if no_double_space(s) {
        assert forall|i: int| 0 <= i < s.len() - 1 implies !(#[trigger] s[i] == ' ' && s[i + 1] == ' ') by {
            let j = i + 1;
            assert(!(s[i] == ' ' && s[j] == ' '));
        }
    }
    if forall|i: int| 0 <= i < s.len() - 1 ==> !(#[trigger] s[i] == ' ' && s[i + 1] == ' ') {
        assert forall|i: int, j: int| 0 <= i && j == i + 1 && j < s.len() implies !(#[trigger] s[i] == ' ' && #[trigger] s[j] == ' ') by {
            assert(!(s[i] == ' ' && s[i + 1] == ' '));
        }
    }
}

} // verus!
