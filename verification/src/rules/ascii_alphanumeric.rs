//! Names made of ASCII letters and digits, in period-separated segments.
use vstd::prelude::*;
use crate::text::{all_ascii_alnum, all_alnum_range, find, rfind, lemma_find, find_char_from, rfind_char, normalize, normalized_equals};
use crate::path::{first_segment, first_segment_end, split_segments, spec_file_extension, file_extension};
use crate::rules::{is_rule_disabled_param, param_as_str, param_or, param_view, spec_rule_disabled, RuleCheck, has_fields, str_views, RuleBuilder, RuleSpec};

verus! {

/// A segment that is non-empty and all ASCII letters and digits.
pub open spec fn is_alnum_segment(t: Seq<char>) -> bool {
    t.len() > 0 && all_ascii_alnum(t)
}

/// Every segment is non-empty and all ASCII letters and digits.
pub open spec fn all_alnum_segments(segs: Seq<Seq<char>>) -> bool {
    forall|k: int| 0 <= k < segs.len() ==> #[trigger] is_alnum_segment(segs[k])
}

/// The first and the last period of the name, where there is one, are the same.
pub open spec fn at_most_one_dot(s: Seq<char>) -> bool {
    match (find(s, '.'), rfind(s, '.')) {
        (Some(first), Some(last)) => first == last,
        _ => true,
    }
}

/// Non-empty, with a non-empty ASCII alphanumeric first segment.
pub open spec fn spec_ascii_alphanumeric_base(s: Seq<char>) -> bool {
    s.len() > 0 && is_alnum_segment(first_segment(s))
}

/// Non-empty, at most one period, an ASCII alphanumeric first segment, and an ASCII
/// alphanumeric extension where there is one.
pub open spec fn spec_ascii_alphanumeric_on(s: Seq<char>) -> bool {
    &&& s.len() > 0
    &&& at_most_one_dot(s)
    &&& is_alnum_segment(first_segment(s))
    &&& match spec_file_extension(s) {
        Some(e) => is_alnum_segment(e),
        None => true,
    }
}

/// Non-empty, and every period-separated segment is non-empty ASCII alphanumeric.
pub open spec fn spec_ascii_alphanumeric_ext(s: Seq<char>) -> bool {
    s.len() > 0 && all_alnum_segments(split_segments(s))
}

/// Only the first segment (before the first dot) must be ASCII alphanumeric.
/// Any extensions are allowed but not checked.
pub fn ascii_alphanumeric_base(input: &str) -> (r: bool)
    ensures
        r == spec_ascii_alphanumeric_base(input@),
{
    let len = input.unicode_len();
    if len == 0 {
        return false;
    }
    let end = first_segment_end(input, len);
    assert(input@.subrange(0, end as int) =~= input@.take(end as int));
    end > 0 && all_alnum_range(input, 0, end)
}

/// ASCII alphanumeric first segment plus exactly one extension.
/// No period is also fine.
pub fn ascii_alphanumeric_on(input: &str) -> (r: bool)
    ensures
        r == spec_ascii_alphanumeric_on(input@),
{
    let len = input.unicode_len();
    if len == 0 {
        return false;
    }
    assert(input@.skip(0) =~= input@);
    let first = find_char_from(input, len, '.', 0);
    let last = rfind_char(input, len, '.');
    match (first, last) {
        (Some(f), Some(l)) => {
            if f != l {
                return false;
            }
        },
        _ => {},
    }
    let end = first_segment_end(input, len);
    assert(input@.subrange(0, end as int) =~= input@.take(end as int));
    if end == 0 || !all_alnum_range(input, 0, end) {
        return false;
    }
    match file_extension(input) {
        None => true,
        Some(ext) => {
            let elen = ext.unicode_len();
            assert(ext@.subrange(0, elen as int) =~= ext@);
            elen > 0 && all_alnum_range(ext, 0, elen)
        },
    }
}

/// All dot-separated segments must be ASCII alphanumeric.
pub fn ascii_alphanumeric_ext(input: &str) -> (r: bool)
    ensures
        r == spec_ascii_alphanumeric_ext(input@),
{
    let len = input.unicode_len();
    if len == 0 {
        return false;
    }
    let mut pos: usize = 0;
    assert(input@.skip(0) =~= input@);
    loop
        invariant
            pos <= len,
            len == input@.len(),
            len > 0,
            all_alnum_segments(split_segments(input@)) == all_alnum_segments(
                split_segments(input@.skip(pos as int)),
            ),
        decreases len - pos,
    {
        let ghost t = input@.skip(pos as int);
        match find_char_from(input, len, '.', pos) {
            None => {
                assert(split_segments(t) == seq![t]);
                assert(input@.subrange(pos as int, len as int) =~= t);
                let ok = pos < len && all_alnum_range(input, pos, len);
                assert(ok == is_alnum_segment(split_segments(t)[0]));
                return ok;
            },
            Some(d) => {
                proof {
                    lemma_find(t, '.');
                }
                let ghost i = (d - pos) as int;
                let ghost rest = t.skip(i + 1);
                assert(split_segments(t) == seq![t.take(i)] + split_segments(rest));
                assert(t.take(i) =~= input@.subrange(pos as int, d as int));
                assert(rest =~= input@.skip(d + 1));
                if d == pos || !all_alnum_range(input, pos, d) {
                    assert(!is_alnum_segment(split_segments(t)[0]));
                    return false;
                }
                let ghost segs = split_segments(t);
                assert forall|k: int| 0 <= k < split_segments(rest).len() implies
                    #[trigger] is_alnum_segment(split_segments(rest)[k]) == is_alnum_segment(segs[k + 1]) by {
                    assert(segs[k + 1] == split_segments(rest)[k]);
                }
                assert(all_alnum_segments(segs) == all_alnum_segments(split_segments(rest))) by {
                    if all_alnum_segments(split_segments(rest)) {
                        assert forall|k: int| 0 <= k < segs.len() implies #[trigger] is_alnum_segment(segs[k]) by {
                            if k > 0 {
                                assert(is_alnum_segment(split_segments(rest)[k - 1]));
                            }
                        }
                    }
                    if all_alnum_segments(segs) {
                        assert forall|k: int| 0 <= k < split_segments(rest).len() implies #[trigger] is_alnum_segment(split_segments(rest)[k]) by {
                            assert(is_alnum_segment(segs[k + 1]));
                        }
                    }
                }
                pos = d + 1;
            },
        }
    }
}

/// The check that a parameter selects: none when the rule is switched off; otherwise by the
/// normalized mode (default `on`), where an unknown mode selects nothing.
pub open spec fn spec_ascii_alphanumeric_builder(param: Option<Seq<char>>) -> Option<RuleCheck> {
    if spec_rule_disabled(param) {
        None
    } else {
        let mode = normalize(param_or(param, "on"@));
        if mode == "base"@ {
            Some(RuleCheck::AsciiAlphanumericBase)
        } else if mode == "ext"@ {
            Some(RuleCheck::AsciiAlphanumericExt)
        } else if mode == "on"@ {
            Some(RuleCheck::AsciiAlphanumericOn)
        } else {
            None
        }
    }
}

/// Compiles the rule for a parameter.
pub fn ascii_alphanumeric_builder(param: Option<String>) -> (r: Option<RuleCheck>)
    ensures
        r == spec_ascii_alphanumeric_builder(param_view(param)),
{
    let p = param_as_str(&param);
    if is_rule_disabled_param(p) {
        return None;
    }
    let mode: &str = match p {
        Some(s) => s,
        None => "on",
    };
    if normalized_equals(mode, "base") {
        Some(RuleCheck::AsciiAlphanumericBase)
    } else if normalized_equals(mode, "ext") {
        Some(RuleCheck::AsciiAlphanumericExt)
    } else if normalized_equals(mode, "on") {
        Some(RuleCheck::AsciiAlphanumericOn)
    } else {
        None
    }
}


/// The modes nest: a name that `on` accepts is accepted by `ext`, and one that `ext` accepts
/// is accepted by `base`.
pub proof fn lemma_ascii_alphanumeric_modes_nest(s: Seq<char>)
    ensures
        spec_ascii_alphanumeric_on(s) ==> spec_ascii_alphanumeric_ext(s),
        spec_ascii_alphanumeric_ext(s) ==> spec_ascii_alphanumeric_base(s),
{
    crate::path::lemma_split_first(s);
    if spec_ascii_alphanumeric_ext(s) {
        assert(is_alnum_segment(split_segments(s)[0]));
    }
    if spec_ascii_alphanumeric_on(s) {
        lemma_find(s, '.');
        crate::text::lemma_rfind(s, '.');
        match find(s, '.') {
            None => {
                assert(split_segments(s) == seq![s]);
                assert(first_segment(s) == s);
            },
            Some(i) => {
                assert(rfind(s, '.') == Some(i));
                let t = s.skip(i + 1);
                lemma_find(t, '.');
                match find(t, '.') {
                    Some(j) => {
                        assert(t[j] == s[i + 1 + j]);
                    },
                    None => {},
                }
                assert(split_segments(t) == seq![t]);
                assert(split_segments(s) == seq![s.take(i)] + seq![t]);
                assert(i > 0);
                assert(s[0] != '.');
                assert(!crate::path::is_plain_hidden(s));
                assert(spec_file_extension(s) == Some(t));
                let segs = split_segments(s);
                assert forall|k: int| 0 <= k < segs.len() implies #[trigger] is_alnum_segment(segs[k]) by {
                    if k == 0 {
                        assert(segs[0] == s.take(i));
                    } else {
                        assert(segs[1] == t);
                    }
                }
            },
        }
    }
}


/// The `ascii_alphanumeric` rule.
pub open spec fn is_rule(r: RuleSpec) -> bool {
    has_fields(
        r,
        "ascii_alphanumeric"@,
        "ext"@,
        "on"@,
        seq!["off"@, "base"@, "ext"@, "on"@],
        "Only ASCII alphanumeric characters, with optional dot separator."@,
        "Restricts filenames to ASCII letters and digits.\n\n- `base`: no dots — alphanumerics only in the full name\n- `on`: allows a single dot separating an alphanumeric stem from an alphanumeric extension\n- `ext`: allows multiple dot-separated alphanumeric segments"@,
        RuleBuilder::AsciiAlphanumeric,
    )
}

/// The `ascii_alphanumeric` rule.
pub fn rule() -> (r: RuleSpec)
    ensures
        is_rule(r),
{
    let r = RuleSpec {
        slug: "ascii_alphanumeric",
        no_arg: "ext",
        missing_value: "on",
        values: &["off", "base", "ext", "on"],
        short_description: "Only ASCII alphanumeric characters, with optional dot separator.",
        long_description_markdown: "Restricts filenames to ASCII letters and digits.\n\n- `base`: no dots — alphanumerics only in the full name\n- `on`: allows a single dot separating an alphanumeric stem from an alphanumeric extension\n- `ext`: allows multiple dot-separated alphanumeric segments",
        check: RuleBuilder::AsciiAlphanumeric,
    };
    assert(str_views(r.values@) =~= seq!["off"@, "base"@, "ext"@, "on"@]);
    r
}


/// Mode `on` accepts every name made of a non-empty ASCII-alphanumeric stem, one period and a
/// non-empty ASCII-alphanumeric extension, whatever their lengths, and every non-empty
/// ASCII-alphanumeric name without a period.
pub proof fn lemma_on_accepts_stem_dot_ext(stem: Seq<char>, ext: Seq<char>)
    requires
        stem.len() > 0,
        forall|i: int| 0 <= i < stem.len() ==> crate::text::is_ascii_alnum(#[trigger] stem[i]),
        forall|i: int| 0 <= i < ext.len() ==> crate::text::is_ascii_alnum(#[trigger] ext[i]),
    ensures
        ext.len() > 0 ==> spec_ascii_alphanumeric_on(stem + seq!['.'] + ext),
        spec_ascii_alphanumeric_on(stem),
{
    let p = stem.len() as int;
    // A name without a period.
    lemma_find(stem, '.');
    crate::text::lemma_rfind(stem, '.');
    match find(stem, '.') {
        Some(i) => {
            assert(crate::text::is_ascii_alnum(stem[i]));
        },
        None => {},
    }
    match rfind(stem, '.') {
        Some(i) => {
            assert(crate::text::is_ascii_alnum(stem[i]));
        },
        None => {},
    }
    assert(first_segment(stem) == stem);
    assert(crate::text::is_ascii_alnum(stem[0]));
    assert(!crate::path::is_plain_hidden(stem));
    assert(spec_file_extension(stem) is None);
    if ext.len() > 0 {
        let s = stem + seq!['.'] + ext;
        assert(s[p] == '.');
        assert forall|k: int| 0 <= k < s.len() && k != p implies #[trigger] s[k] != '.' by {
            if k < p {
                assert(s[k] == stem[k]);
                assert(crate::text::is_ascii_alnum(stem[k]));
            } else {
                assert(s[k] == ext[k - p - 1]);
                assert(crate::text::is_ascii_alnum(ext[k - p - 1]));
            }
        }
        lemma_find(s, '.');
        crate::text::lemma_rfind(s, '.');
        match find(s, '.') {
            Some(i) => {
                if i != p {
                    assert(s[i] != '.');
                }
            },
            None => {
                assert(s[p] != '.');
            },
        }
        match rfind(s, '.') {
            Some(i) => {
                if i != p {
                    assert(s[i] != '.');
                }
            },
            None => {
                assert(s[p] != '.');
            },
        }
        assert(first_segment(s) =~= stem);
        assert(s[0] == stem[0]);
        assert(!crate::path::is_plain_hidden(s));
        assert(s.skip(p + 1) =~= ext);
        assert(spec_file_extension(s) == Some(ext));
    }
}


/// `t[i]` is an ASCII letter or digit, or a period with an ASCII letter or digit on each side.
pub open spec fn alnum_or_inner_dot(t: Seq<char>, i: int) -> bool {
    ||| crate::text::is_ascii_alnum(t[i])
    ||| (t[i] == '.' && 0 < i < t.len() - 1 && crate::text::is_ascii_alnum(t[i - 1])
        && crate::text::is_ascii_alnum(t[i + 1]))
}

proof fn lemma_all_segments_cons(a: Seq<char>, rest: Seq<Seq<char>>)
    ensures
        all_alnum_segments(seq![a] + rest) <==> is_alnum_segment(a) && all_alnum_segments(rest),
{
    let segs = seq![a] + rest;
    if all_alnum_segments(segs) {
        assert(is_alnum_segment(segs[0]));
        assert forall|k: int| 0 <= k < rest.len() implies #[trigger] is_alnum_segment(rest[k]) by {
            assert(segs[k + 1] == rest[k]);
            assert(is_alnum_segment(segs[k + 1]));
        }
    }
    if is_alnum_segment(a) && all_alnum_segments(rest) {
        assert forall|k: int| 0 <= k < segs.len() implies #[trigger] is_alnum_segment(segs[k]) by {
            if k > 0 {
                assert(segs[k] == rest[k - 1]);
            }
        }
    }
}

/// The period-separated segments of `t` are all non-empty ASCII alphanumeric exactly when `t`
/// is non-empty and each character is an ASCII letter or digit, or a period between two.
pub proof fn lemma_segments_chars(t: Seq<char>)
    ensures
        all_alnum_segments(split_segments(t)) <==> (t.len() > 0 && forall|i: int|
            0 <= i < t.len() ==> #[trigger] alnum_or_inner_dot(t, i)),
    decreases t.len(),
{
    lemma_find(t, '.');
    match find(t, '.') {
        None => {
            assert(split_segments(t) == seq![t]);
            lemma_all_segments_cons(t, Seq::empty());
            assert(seq![t] + Seq::<Seq<char>>::empty() =~= seq![t]);
            if is_alnum_segment(t) {
                assert forall|i: int| 0 <= i < t.len() implies #[trigger] alnum_or_inner_dot(t, i) by {
                    assert(crate::text::is_ascii_alnum(t[i]));
                }
            }
            if t.len() > 0 && forall|i: int| 0 <= i < t.len() ==> #[trigger] alnum_or_inner_dot(t, i) {
                assert forall|i: int| 0 <= i < t.len() implies #[trigger] crate::text::is_ascii_alnum(t[i]) by {
                    assert(alnum_or_inner_dot(t, i));
                    assert(t[i] != '.');
                }
                assert(is_alnum_segment(t));
            }
            assert(all_alnum_segments(split_segments(t)) == is_alnum_segment(t));
        },
        Some(i) => {
            let a = t.take(i);
            let r = t.skip(i + 1);
            lemma_segments_chars(r);
            assert(split_segments(t) == seq![a] + split_segments(r));
            lemma_all_segments_cons(a, split_segments(r));
            let lhs = is_alnum_segment(a) && r.len() > 0 && forall|k: int| 0 <= k < r.len() ==> #[trigger] alnum_or_inner_dot(r, k);
            let rhs = t.len() > 0 && forall|j: int| 0 <= j < t.len() ==> #[trigger] alnum_or_inner_dot(t, j);
            assert(!crate::text::is_ascii_alnum('.'));
            if lhs {
                assert(crate::text::is_ascii_alnum(a[0]));
                assert(alnum_or_inner_dot(r, 0));
                assert forall|j: int| 0 <= j < t.len() implies #[trigger] alnum_or_inner_dot(t, j) by {
                    if j < i {
                        assert(a[j] == t[j]);
                    } else if j == i {
                        assert(a[i - 1] == t[i - 1]);
                        assert(r[0] == t[i + 1]);
                    } else {
                        let k = j - i - 1;
                        assert(alnum_or_inner_dot(r, k));
                        assert(r[k] == t[j]);
                        if 0 < k < r.len() - 1 {
                            assert(r[k - 1] == t[j - 1]);
                            assert(r[k + 1] == t[j + 1]);
                        }
                    }
                }
            }
            assert(all_alnum_segments(split_segments(t)) == (is_alnum_segment(a) && all_alnum_segments(split_segments(r))));
            if rhs {
                assert(alnum_or_inner_dot(t, i));
                assert forall|j: int| 0 <= j < a.len() implies #[trigger] crate::text::is_ascii_alnum(a[j]) by {
                    assert(a[j] == t[j]);
                    assert(alnum_or_inner_dot(t, j));
                }
                assert forall|k: int| 0 <= k < r.len() implies #[trigger] alnum_or_inner_dot(r, k) by {
                    let j = i + 1 + k;
                    assert(alnum_or_inner_dot(t, j));
                    assert(r[k] == t[j]);
                    if !crate::text::is_ascii_alnum(t[j]) {
                        assert(t[j - 1] == if k == 0 { t[i] } else { r[k - 1] });
                        if k > 0 {
                            assert(r[k - 1] == t[j - 1]);
                            assert(r[k + 1] == t[j + 1]);
                        }
                    }
                }
            }
        },
    }
}

/// Mode `ext` accepts exactly the non-empty names made of ASCII letters and digits in which
/// each period stands between two letters or digits.
pub proof fn lemma_ascii_alphanumeric_ext_chars(s: Seq<char>)
    ensures
        spec_ascii_alphanumeric_ext(s) <==> s.len() > 0 && forall|i: int|
            0 <= i < s.len() ==> #[trigger] alnum_or_inner_dot(s, i),
{
    lemma_segments_chars(s);
}

/// Mode `base` looks at the first period-separated segment `s[..e]`: a non-empty name passes
/// exactly when that segment is non-empty and all ASCII letters and digits.
pub proof fn lemma_ascii_alphanumeric_base_chars(s: Seq<char>, e: int)
    requires
        s.len() > 0,
        0 <= e <= s.len(),
        forall|k: int| 0 <= k < e ==> #[trigger] s[k] != '.',
        e == s.len() || s[e] == '.',
    ensures
        spec_ascii_alphanumeric_base(s) <==> e > 0 && forall|i: int| 0 <= i < e ==> crate::text::is_ascii_alnum(#[trigger] s[i]),
{
    lemma_find(s, '.');
    match find(s, '.') {
        Some(i) => {
            if i < e {
                assert(s[i] != '.');
            }
            if i > e {
                assert(s[e] != '.');
            }
        },
        None => {
            if e < s.len() {
                assert(s[e] != '.');
            }
            assert(s.take(s.len() as int) =~= s);
        },
    }
    let seg = s.take(e);
    assert(first_segment(s) =~= seg);
    assert forall|i: int| 0 <= i < e implies (crate::text::is_ascii_alnum(#[trigger] s[i]) <==> crate::text::is_ascii_alnum(seg[i])) by {
        assert(seg[i] == s[i]);
    }
}

/// Mode `on` accepts exactly the non-empty names made of ASCII letters and digits with at most
/// one period, which is neither the first nor the last character.
pub proof fn lemma_ascii_alphanumeric_on_chars(s: Seq<char>)
    ensures
        spec_ascii_alphanumeric_on(s) <==> s.len() > 0 && forall|i: int|
            0 <= i < s.len() ==> crate::text::is_ascii_alnum(#[trigger] s[i]) || (s[i] == '.' && 0 < i < s.len() - 1
                && forall|j: int| 0 <= j < s.len() && j != i ==> s[j] != '.'),
{
    let rhs = s.len() > 0 && forall|i: int|
        0 <= i < s.len() ==> crate::text::is_ascii_alnum(#[trigger] s[i]) || (s[i] == '.' && 0 < i < s.len() - 1
            && forall|j: int| 0 <= j < s.len() && j != i ==> s[j] != '.');
    assert(!crate::text::is_ascii_alnum('.'));
    if s.len() == 0 {
        return;
    }
    lemma_find(s, '.');
    crate::text::lemma_rfind(s, '.');
    match find(s, '.') {
        None => {
            assert(first_segment(s) == s);
            assert(rfind(s, '.') is None) by {
                match rfind(s, '.') {
                    Some(q) => { assert(s[q] != '.'); },
                    None => {},
                }
            }
            assert forall|k: int| 0 < k < s.len() implies #[trigger] s[k] != '.' by {}
            crate::path::lemma_no_extension(s);
            if rhs {
                assert forall|i: int| 0 <= i < s.len() implies #[trigger] crate::text::is_ascii_alnum(s[i]) by {
                    assert(s[i] != '.');
                }
            }
        },
        Some(p) => {
            if rhs {
                assert(!crate::text::is_ascii_alnum(s[p]));
                assert(0 < p < s.len() - 1);
                assert forall|k: int| p < k < s.len() implies #[trigger] s[k] != '.' by {}
                let stem = s.take(p);
                let ext = s.skip(p + 1);
                assert forall|i: int| 0 <= i < stem.len() implies crate::text::is_ascii_alnum(#[trigger] stem[i]) by {
                    assert(stem[i] == s[i]);
                    assert(s[i] != '.');
                }
                assert forall|i: int| 0 <= i < ext.len() implies crate::text::is_ascii_alnum(#[trigger] ext[i]) by {
                    assert(ext[i] == s[p + 1 + i]);
                    assert(s[p + 1 + i] != '.');
                }
                lemma_on_accepts_stem_dot_ext(stem, ext);
                assert(stem + seq!['.'] + ext =~= s);
            }
            if spec_ascii_alphanumeric_on(s) {
                assert(rfind(s, '.') == Some(p));
                assert(first_segment(s) == s.take(p));
                assert(p > 0);
                assert(s.take(p)[0] == s[0]);
                assert(crate::text::is_ascii_alnum(s[0]));
                assert(!crate::path::is_plain_hidden(s));
                crate::path::lemma_split_at_last_dot(s, p);
                let stem = s.take(p);
                let ext = s.skip(p + 1);
                assert(ext.len() > 0);
                assert forall|i: int| 0 <= i < s.len() implies crate::text::is_ascii_alnum(#[trigger] s[i]) || (s[i] == '.' && 0 < i < s.len() - 1
                    && forall|j: int| 0 <= j < s.len() && j != i ==> s[j] != '.') by {
                    if i < p {
                        assert(stem[i] == s[i]);
                    } else if i > p {
                        assert(ext[i - p - 1] == s[i]);
                    } else {
                        assert forall|j: int| 0 <= j < s.len() && j != i implies s[j] != '.' by {
                            if j < p {
                                assert(stem[j] == s[j]);
                                assert(crate::text::is_ascii_alnum(stem[j]));
                            } else {
                                assert(ext[j - p - 1] == s[j]);
                                assert(crate::text::is_ascii_alnum(ext[j - p - 1]));
                            }
                        }
                    }
                }
            }
        },
    }
}

} // verus!
