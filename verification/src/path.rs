//! Splitting a file name into stem and extension at its last period.
use vstd::prelude::*;
use crate::text::{has_char, find, rfind, lemma_find, lemma_rfind, find_char_from, rfind_char};

verus! {

/// A name that begins with a period and holds no other period (a hidden file such as `.bashrc`).
pub open spec fn is_plain_hidden(s: Seq<char>) -> bool {
    &&& s.len() > 0
    &&& s[0] == '.'
    &&& forall|i: int| 0 < i < s.len() ==> s[i] != '.'
}

/// The view of an optional string slice.
pub open spec fn opt_view(o: Option<&str>) -> Option<Seq<char>> {
    match o {
        Some(t) => Some(t@),
        None => None,
    }
}

/// The stem of a name: nothing for the empty name; the whole name when it has no period,
/// or when it is a plain hidden name; otherwise everything before the last period.
pub open spec fn spec_file_stem(s: Seq<char>) -> Option<Seq<char>> {
    if s.len() == 0 {
        None
    } else if !has_char(s, '.') || is_plain_hidden(s) {
        Some(s)
    } else {
        Some(s.take(rfind(s, '.')->0))
    }
}

/// The extension of a name: everything after the last period; nothing for the empty name,
/// for a name without a period, and for a plain hidden name.
pub open spec fn spec_file_extension(s: Seq<char>) -> Option<Seq<char>> {
    if s.len() == 0 || is_plain_hidden(s) {
        None
    } else {
        match rfind(s, '.') {
            Some(p) => Some(s.skip(p + 1)),
            None => None,
        }
    }
}

/// The last period of a non-empty name is at index 0 exactly when the name is plain hidden.
proof fn lemma_last_dot_at_start(s: Seq<char>)
    requires
        s.len() > 0,
    ensures
        rfind(s, '.') == Some(0int) <==> is_plain_hidden(s),
        rfind(s, '.') is None <==> !has_char(s, '.'),
{
    lemma_rfind(s, '.');
    if is_plain_hidden(s) {
        match rfind(s, '.') {
            Some(p) => {
                if p > 0 {
                    assert(s[p] != '.');
                }
            },
            None => {
                assert(s[0] != '.');
            },
        }
    }
    if has_char(s, '.') {
        let i = choose|i: int| 0 <= i < s.len() && s[i] == '.';
        assert(s[i] == '.');
    }
}

/// Returns the stem: the part of the filename before the last period.
/// Returns None if the input is empty.
/// Returns the entire filename if there are no dots.
/// Returns the entire filename if it begins with . and has no other dots within.
/// Otherwise returns the portion before the final dot.
pub fn file_stem(input: &str) -> (r: Option<&str>)
    ensures
        opt_view(r) == spec_file_stem(input@),
{
    if input.is_empty() {
        return None;
    }
    let len = input.unicode_len();
    proof {
        lemma_last_dot_at_start(input@);
    }
    match rfind_char(input, len, '.') {
        None => Some(input),
        Some(p) => {
            if p == 0 {
                Some(input)
            } else {
                let stem = input.substring_char(0, p);
                assert(stem@ =~= input@.take(p as int));
                Some(stem)
            }
        },
    }
}

/// Returns the extension: the part of the filename after the last period,
/// or None if there is no period or if the filename is all extension (starts with . and has one dot).
pub fn file_extension(input: &str) -> (r: Option<&str>)
    ensures
        opt_view(r) == spec_file_extension(input@),
{
    if input.is_empty() {
        return None;
    }
    let len = input.unicode_len();
    proof {
        lemma_last_dot_at_start(input@);
    }
    match rfind_char(input, len, '.') {
        None => None,
        Some(p) => {
            if p == 0 {
                None
            } else {
                let ext = input.substring_char(p + 1, len);
                assert(ext@ =~= input@.skip(p + 1));
                Some(ext)
            }
        },
    }
}

/// Stem and extension put the name back together: where there is an extension, the stem,
/// a period and the extension spell the name; where there is none, the stem is the whole
/// name, or both are absent for the empty name.
pub proof fn lemma_stem_extension_reconstruct(s: Seq<char>)
    ensures
        match spec_file_extension(s) {
            Some(e) => spec_file_stem(s) matches Some(st) && st + seq!['.'] + e == s,
            None => (s.len() == 0 && spec_file_stem(s) is None) || spec_file_stem(s) == Some(s),
        },
{
    if s.len() > 0 {
        lemma_last_dot_at_start(s);
        lemma_rfind(s, '.');
        match rfind(s, '.') {
            Some(p) => {
                if p != 0 {
                    assert(s.take(p) + seq!['.'] + s.skip(p + 1) =~= s);
                }
            },
            None => {},
        }
    }
}


/// The first period-separated segment of a name: everything before its first period.
pub open spec fn first_segment(s: Seq<char>) -> Seq<char> {
    match find(s, '.') {
        Some(i) => s.take(i),
        None => s,
    }
}

/// The period-separated segments of a name, in order (a name without a period is one segment).
pub open spec fn split_segments(s: Seq<char>) -> Seq<Seq<char>>
    decreases s.len(),
{
    match find(s, '.') {
        Some(i) => {
            proof {
                lemma_find(s, '.');
            }
            seq![s.take(i)] + split_segments(s.skip(i + 1))
        },
        None => seq![s],
    }
}

/// The first segment of a split is the first segment of the name.
pub proof fn lemma_split_first(s: Seq<char>)
    ensures
        split_segments(s).len() > 0,
        split_segments(s)[0] == first_segment(s),
{
    match find(s, '.') {
        Some(i) => {
            lemma_find(s, '.');
        },
        None => {},
    }
}

/// The end of the first segment of `input`.
pub fn first_segment_end(input: &str, len: usize) -> (r: usize)
    requires
        len == input@.len(),
    ensures
        r <= len,
        first_segment(input@) == input@.take(r as int),
{
    assert(input@.skip(0) =~= input@);
    match find_char_from(input, len, '.', 0) {
        Some(i) => i,
        None => {
            assert(input@.take(len as int) =~= input@);
            len
        },
    }
}


/// When the last period of a name stands at `p > 0`, the stem is everything before it and the
/// extension everything after it.
pub proof fn lemma_split_at_last_dot(s: Seq<char>, p: int)
    requires
        0 < p < s.len(),
        s[p] == '.',
        forall|k: int| p < k < s.len() ==> #[trigger] s[k] != '.',
    ensures
        spec_file_stem(s) == Some(s.take(p)),
        spec_file_extension(s) == Some(s.skip(p + 1)),
{
    lemma_last_dot_at_start(s);
    lemma_rfind(s, '.');
    match rfind(s, '.') {
        Some(q) => {
            if q < p {
                assert(s[p] != '.');
            }
            if q > p {
                assert(s[q] != '.');
            }
        },
        None => {
            assert(s[p] != '.');
        },
    }
}

/// A non-empty name without a period, or whose only period is its first character, is all
/// stem and has no extension.
pub proof fn lemma_no_extension(s: Seq<char>)
    requires
        s.len() > 0,
        forall|k: int| 0 < k < s.len() ==> #[trigger] s[k] != '.',
    ensures
        spec_file_stem(s) == Some(s),
        spec_file_extension(s) is None,
{
    lemma_last_dot_at_start(s);
    lemma_rfind(s, '.');
    if s[0] != '.' {
        assert forall|k: int| 0 <= k < s.len() implies s[k] != '.' by {
            if k > 0 {
                assert(s[k] != '.');
            }
        }
        assert(!has_char(s, '.'));
    }
}

} // verus!
