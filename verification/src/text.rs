//! Character classes and string helpers shared by the naming rules.
//!
//! Strings are modelled by their view, a `Seq<char>` of Unicode scalar values.
use vstd::prelude::*;

verus! {

/// ASCII letters and digits: `A-Z`, `a-z`, `0-9`.
pub open spec fn is_ascii_alnum(c: char) -> bool {
    ||| ('0' <= c && c <= '9')
    ||| ('A' <= c && c <= 'Z')
    ||| ('a' <= c && c <= 'z')
}

/// ASCII upper-case letters `A-Z`.
pub open spec fn is_ascii_upper(c: char) -> bool {
    'A' <= c && c <= 'Z'
}

/// Printable ASCII other than space: `U+0021..=U+007E`.
pub open spec fn is_ascii_graphic(c: char) -> bool {
    '!' <= c && c <= '~'
}

/// The Unicode `White_Space` property (PropList.txt).
pub open spec fn is_white_space(c: char) -> bool {
    ||| ('\u{9}' <= c && c <= '\u{d}')
    ||| c == ' '
    ||| c == '\u{85}'
    ||| c == '\u{a0}'
    ||| c == '\u{1680}'
    ||| ('\u{2000}' <= c && c <= '\u{200a}')
    ||| c == '\u{2028}'
    ||| c == '\u{2029}'
    ||| c == '\u{202f}'
    ||| c == '\u{205f}'
    ||| c == '\u{3000}'
}

/// Every character of `s` is an ASCII letter or digit (true of the empty sequence).
pub open spec fn all_ascii_alnum(s: Seq<char>) -> bool {
    forall|i: int| 0 <= i < s.len() ==> #[trigger] is_ascii_alnum(s[i])
}

/// No character of `s` is white space.
pub open spec fn no_white_space(s: Seq<char>) -> bool {
    forall|i: int| 0 <= i < s.len() ==> !#[trigger] is_white_space(s[i])
}

/// `s` contains the character `c`.
pub open spec fn has_char(s: Seq<char>, c: char) -> bool {
    exists|i: int| 0 <= i < s.len() && s[i] == c
}

/// `s` with leading white space removed.
pub open spec fn trim_start(s: Seq<char>) -> Seq<char>
    decreases s.len(),
{
    if s.len() > 0 && is_white_space(s[0]) {
        trim_start(s.drop_first())
    } else {
        s
    }
}

/// `s` with trailing white space removed.
pub open spec fn trim_end(s: Seq<char>) -> Seq<char>
    decreases s.len(),
{
    if s.len() > 0 && is_white_space(s.last()) {
        trim_end(s.drop_last())
    } else {
        s
    }
}

/// `s` with leading and trailing white space removed.
pub open spec fn trim(s: Seq<char>) -> Seq<char> {
    trim_end(trim_start(s))
}

/// The ASCII lower-case form of one character: `A-Z` become `a-z`, all else is kept.
pub open spec fn ascii_lower_char(c: char) -> char {
    if is_ascii_upper(c) {
        ((c as u32) + 32) as char
    } else {
        c
    }
}

/// The ASCII lower-case form of a string.
pub open spec fn ascii_lower(s: Seq<char>) -> Seq<char> {
    s.map_values(|c: char| ascii_lower_char(c))
}

/// A parameter value as the rules read it: trimmed and ASCII lower-cased.
pub open spec fn normalize(s: Seq<char>) -> Seq<char> {
    ascii_lower(trim(s))
}

pub proof fn lemma_trim_start_len(s: Seq<char>)
    ensures
        trim_start(s).len() <= s.len(),
        s.len() > 0 && is_white_space(s[0]) ==> trim_start(s).len() < s.len(),
    decreases s.len(),
{
    if s.len() > 0 && is_white_space(s[0]) {
        lemma_trim_start_len(s.drop_first());
    }
}

pub proof fn lemma_trim_end_len(s: Seq<char>)
    ensures
        trim_end(s).len() <= s.len(),
        s.len() > 0 && is_white_space(s.last()) ==> trim_end(s).len() < s.len(),
    decreases s.len(),
{
    if s.len() > 0 && is_white_space(s.last()) {
        lemma_trim_end_len(s.drop_last());
    }
}

/// A string is its own trim exactly when it is empty or neither ends with white space.
pub proof fn lemma_trim_fixed(s: Seq<char>)
    ensures
        (trim(s) == s) <==> (s.len() == 0 || (!is_white_space(s[0]) && !is_white_space(
            s.last(),
        ))),
{
    lemma_trim_start_len(s);
    lemma_trim_end_len(trim_start(s));
}

/// When the first `a` characters are white space and the next is not, trimming the start drops them.
pub proof fn lemma_trim_start_skip(s: Seq<char>, a: int)
    requires
        0 <= a <= s.len(),
        forall|k: int| 0 <= k < a ==> is_white_space(#[trigger] s[k]),
        a < s.len() ==> !is_white_space(s[a]),
    ensures
        trim_start(s) == s.skip(a),
    decreases a,
{
    if a == 0 {
        assert(s.skip(0) =~= s);
    } else {
        let t = s.drop_first();
        assert forall|k: int| 0 <= k < a - 1 implies is_white_space(#[trigger] t[k]) by {
            assert(t[k] == s[k + 1]);
        }
        if a - 1 < t.len() {
            assert(t[a - 1] == s[a]);
        }
        lemma_trim_start_skip(t, a - 1);
        assert(t.skip(a - 1) =~= s.skip(a));
    }
}

/// When the characters from `b` on are white space and the one before is not, trimming the end keeps `s[..b]`.
pub proof fn lemma_trim_end_take(s: Seq<char>, b: int)
    requires
        0 <= b <= s.len(),
        forall|k: int| b <= k < s.len() ==> is_white_space(#[trigger] s[k]),
        b > 0 ==> !is_white_space(s[b - 1]),
    ensures
        trim_end(s) == s.take(b),
    decreases s.len() - b,
{
    if b == s.len() {
        assert(s.take(b) =~= s);
    } else {
        let t = s.drop_last();
        assert(is_white_space(s[s.len() - 1]));
        assert forall|k: int| b <= k < t.len() implies is_white_space(#[trigger] t[k]) by {
            assert(t[k] == s[k]);
        }
        if b > 0 {
            assert(t[b - 1] == s[b - 1]);
        }
        lemma_trim_end_take(t, b);
        assert(t.take(b) =~= s.take(b));
    }
}

/// The trim of `s` is the range between its first and last non-white-space characters.
pub proof fn lemma_trim_range(s: Seq<char>, a: int, b: int)
    requires
        0 <= a <= b <= s.len(),
        forall|k: int| 0 <= k < a ==> is_white_space(#[trigger] s[k]),
        forall|k: int| b <= k < s.len() ==> is_white_space(#[trigger] s[k]),
        a < b ==> !is_white_space(s[a]) && !is_white_space(s[b - 1]),
        a == b ==> forall|k: int| 0 <= k < s.len() ==> is_white_space(#[trigger] s[k]),
    ensures
        trim(s) == s.subrange(a, b),
{
    if a == b {
        assert forall|k: int| 0 <= k < s.len() implies is_white_space(#[trigger] s[k]) by {}
        lemma_trim_start_skip(s, s.len() as int);
        assert(s.skip(s.len() as int) =~= Seq::<char>::empty());
        assert(trim_start(s) =~= Seq::<char>::empty());
        assert(trim_end(Seq::<char>::empty()) == Seq::<char>::empty());
        assert(s.subrange(a, b) =~= Seq::<char>::empty());
    } else {
        lemma_trim_start_skip(s, a);
        let t = s.skip(a);
        assert forall|k: int| b - a <= k < t.len() implies is_white_space(#[trigger] t[k]) by {
            assert(t[k] == s[k + a]);
        }
        assert(t[b - a - 1] == s[b - 1]);
        lemma_trim_end_take(t, b - a);
        assert(t.take(b - a) =~= s.subrange(a, b));
    }
}

/// Whether `c` is an ASCII letter or digit.
pub fn char_is_ascii_alphanumeric(c: char) -> (r: bool)
    ensures
        r == is_ascii_alnum(c),
{
    ('0' <= c && c <= '9') || ('A' <= c && c <= 'Z') || ('a' <= c && c <= 'z')
}

/// Whether `c` is printable ASCII other than space.
pub fn char_is_ascii_graphic(c: char) -> (r: bool)
    ensures
        r == is_ascii_graphic(c),
{
    '!' <= c && c <= '~'
}

/// Whether `c` has the Unicode `White_Space` property.
pub fn char_is_whitespace(c: char) -> (r: bool)
    ensures
        r == is_white_space(c),
{
    ('\u{9}' <= c && c <= '\u{d}') || c == ' ' || c == '\u{85}' || c == '\u{a0}' || c
        == '\u{1680}' || ('\u{2000}' <= c && c <= '\u{200a}') || c == '\u{2028}' || c
        == '\u{2029}' || c == '\u{202f}' || c == '\u{205f}' || c == '\u{3000}'
}

/// Whether `c`, lower-cased in the ASCII range, is `w`.
pub fn lower_char_is(c: char, w: char) -> (r: bool)
    ensures
        r == (ascii_lower_char(c) == w),
{
    if 'A' <= c && c <= 'Z' {
        let code: u32 = c as u32;
        let lowered: u32 = code + 32;
        assert(('A' as u32) <= code <= ('Z' as u32));
        let ghost lc = ascii_lower_char(c);
        assert(lc == ((code + 32) as char));
        assert((lc as u32) == code + 32);
        lowered == (w as u32)
    } else {
        c == w
    }
}


/// The index of the first occurrence of `c` in `s`, if any.
pub open spec fn find(s: Seq<char>, c: char) -> Option<int>
    decreases s.len(),
{
    if s.len() == 0 {
        None
    } else if s[0] == c {
        Some(0)
    } else {
        match find(s.drop_first(), c) {
            Some(i) => Some(i + 1),
            None => None,
        }
    }
}

/// The index of the last occurrence of `c` in `s`, if any.
pub open spec fn rfind(s: Seq<char>, c: char) -> Option<int>
    decreases s.len(),
{
    if s.len() == 0 {
        None
    } else if s.last() == c {
        Some(s.len() - 1)
    } else {
        rfind(s.drop_last(), c)
    }
}

/// What `find` returns, stated by the characters around the index.
pub proof fn lemma_find(s: Seq<char>, c: char)
    ensures
        match find(s, c) {
            Some(i) => 0 <= i < s.len() && s[i] == c && forall|k: int|
                0 <= k < i ==> #[trigger] s[k] != c,
            None => forall|k: int| 0 <= k < s.len() ==> #[trigger] s[k] != c,
        },
    decreases s.len(),
{
    if s.len() > 0 && s[0] != c {
        let t = s.drop_first();
        lemma_find(t, c);
        match find(t, c) {
            Some(i) => {
                assert forall|k: int| 0 <= k < i + 1 implies #[trigger] s[k] != c by {
                    if k > 0 {
                        assert(s[k] == t[k - 1]);
                    }
                }
            },
            None => {
                assert forall|k: int| 0 <= k < s.len() implies #[trigger] s[k] != c by {
                    if k > 0 {
                        assert(s[k] == t[k - 1]);
                    }
                }
            },
        }
    }
}

/// What `rfind` returns, stated by the characters around the index.
pub proof fn lemma_rfind(s: Seq<char>, c: char)
    ensures
        match rfind(s, c) {
            Some(i) => 0 <= i < s.len() && s[i] == c && forall|k: int|
                i < k < s.len() ==> #[trigger] s[k] != c,
            None => forall|k: int| 0 <= k < s.len() ==> #[trigger] s[k] != c,
        },
    decreases s.len(),
{
    if s.len() > 0 && s.last() != c {
        let t = s.drop_last();
        lemma_rfind(t, c);
        match rfind(t, c) {
            Some(i) => {
                assert forall|k: int| i < k < s.len() implies #[trigger] s[k] != c by {
                    if k < t.len() {
                        assert(s[k] == t[k]);
                    }
                }
            },
            None => {
                assert forall|k: int| 0 <= k < s.len() implies #[trigger] s[k] != c by {
                    if k < t.len() {
                        assert(s[k] == t[k]);
                    }
                }
            },
        }
    }
}

/// The first index in `s@[from..]` at which `c` occurs, counted from the start of `s`.
pub fn find_char_from(s: &str, len: usize, c: char, from: usize) -> (r: Option<usize>)
    requires
        len == s@.len(),
        from <= len,
    ensures
        match r {
            Some(i) => from <= i < len && find(s@.skip(from as int), c) == Some(i - from),
            None => find(s@.skip(from as int), c) is None,
        },
{
    let ghost t = s@.skip(from as int);
    let mut j: usize = from;
    while j < len
        invariant
            from <= j <= len,
            len == s@.len(),
            t == s@.skip(from as int),
            forall|k: int| from <= k < j ==> #[trigger] s@[k] != c,
        decreases len - j,
    {
        if s.get_char(j) == c {
            proof {
                lemma_find(t, c);
                assert(t[j - from] == c);
                assert forall|k: int| 0 <= k < j - from implies #[trigger] t[k] != c by {
                    assert(t[k] == s@[k + from]);
                }
                match find(t, c) {
                    Some(i) => {
                        if i < j - from {
                            assert(t[i] == c);
                        }
                        if i > j - from {
                            assert(t[j - from] != c);
                        }
                    },
                    None => {
                        assert(t[j - from] != c);
                    },
                }
            }
            return Some(j);
        }
        j = j + 1;
    }
    proof {
        lemma_find(t, c);
        match find(t, c) {
            Some(i) => {
                assert(t[i] == s@[i + from]);
            },
            None => {},
        }
    }
    None
}

/// The last index of `c` in `s`.
pub fn rfind_char(s: &str, len: usize, c: char) -> (r: Option<usize>)
    requires
        len == s@.len(),
    ensures
        match r {
            Some(i) => i < len && rfind(s@, c) == Some(i as int),
            None => rfind(s@, c) is None,
        },
{
    let mut j: usize = len;
    while j > 0
        invariant
            j <= len,
            len == s@.len(),
            forall|k: int| j <= k < len ==> #[trigger] s@[k] != c,
        decreases j,
    {
        if s.get_char(j - 1) == c {
            proof {
                lemma_rfind(s@, c);
                match rfind(s@, c) {
                    Some(i) => {
                        if i < j - 1 {
                            assert(s@[j - 1] != c);
                        }
                    },
                    None => {
                        assert(s@[j - 1] != c);
                    },
                }
            }
            return Some(j - 1);
        }
        j = j - 1;
    }
    proof {
        lemma_rfind(s@, c);
    }
    None
}

/// The range `[a, b)` of `s` that its trim keeps.
pub fn trim_bounds(s: &str) -> (r: (usize, usize))
    ensures
        r.0 <= r.1 <= s@.len(),
        trim(s@) == s@.subrange(r.0 as int, r.1 as int),
{
    let len = s.unicode_len();
    let mut a: usize = 0;
    while a < len && char_is_whitespace(s.get_char(a))
        invariant
            a <= len,
            len == s@.len(),
            forall|k: int| 0 <= k < a ==> is_white_space(#[trigger] s@[k]),
        decreases len - a,
    {
        a = a + 1;
    }
    let mut b: usize = len;
    while b > a && char_is_whitespace(s.get_char(b - 1))
        invariant
            a <= b <= len,
            len == s@.len(),
            forall|k: int| b <= k < len ==> is_white_space(#[trigger] s@[k]),
        decreases b,
    {
        b = b - 1;
    }
    proof {
        if a == b {
            assert forall|k: int| 0 <= k < s@.len() implies is_white_space(#[trigger] s@[k]) by {
                if k >= a {
                }
            }
        }
        lemma_trim_range(s@, a as int, b as int);
    }
    (a, b)
}

/// Whether the trimmed, ASCII lower-cased form of `raw` is `word`.
pub fn normalized_equals(raw: &str, word: &str) -> (r: bool)
    ensures
        r == (normalize(raw@) == word@),
{
    let (a, b) = trim_bounds(raw);
    let wlen = word.unicode_len();
    let ghost n = normalize(raw@);
    assert(n =~= raw@.subrange(a as int, b as int).map_values(|c: char| ascii_lower_char(c)));
    if b - a != wlen {
        assert(n.len() != word@.len());
        return false;
    }
    let mut k: usize = 0;
    while k < wlen
        invariant
            k <= wlen,
            wlen == word@.len(),
            b - a == wlen,
            a <= b <= raw@.len(),
            n == normalize(raw@),
            n.len() == wlen,
            forall|j: int| 0 <= j < n.len() ==> #[trigger] n[j] == ascii_lower_char(raw@[a + j]),
            forall|j: int| 0 <= j < k ==> #[trigger] n[j] == word@[j],
        decreases wlen - k,
    {
        if !lower_char_is(raw.get_char(a + k), word.get_char(k)) {
            assert(n[k as int] != word@[k as int]);
            return false;
        }
        k = k + 1;
    }
    assert(n =~= word@);
    true
}


/// Whether `s` is its own trim: it has no leading or trailing white space.
pub fn str_is_trimmed(s: &str) -> (r: bool)
    ensures
        r == (trim(s@) == s@),
{
    proof {
        lemma_trim_fixed(s@);
    }
    let len = s.unicode_len();
    if len == 0 {
        return true;
    }
    !char_is_whitespace(s.get_char(0)) && !char_is_whitespace(s.get_char(len - 1))
}

/// Whether no character of `s` is white space.
pub fn str_has_no_whitespace(s: &str) -> (r: bool)
    ensures
        r == no_white_space(s@),
{
    let len = s.unicode_len();
    let mut i: usize = 0;
    while i < len
        invariant
            i <= len,
            len == s@.len(),
            forall|k: int| 0 <= k < i ==> !#[trigger] is_white_space(s@[k]),
        decreases len - i,
    {
        if char_is_whitespace(s.get_char(i)) {
            return false;
        }
        i = i + 1;
    }
    true
}

/// Whether every character of `s@[from..to]` is an ASCII letter or digit.
pub fn all_alnum_range(s: &str, from: usize, to: usize) -> (r: bool)
    requires
        from <= to <= s@.len(),
    ensures
        r == all_ascii_alnum(s@.subrange(from as int, to as int)),
{
    let ghost t = s@.subrange(from as int, to as int);
    let mut i: usize = from;
    while i < to
        invariant
            from <= i <= to <= s@.len(),
            t == s@.subrange(from as int, to as int),
            forall|k: int| from <= k < i ==> #[trigger] is_ascii_alnum(s@[k]),
        decreases to - i,
    {
        if !char_is_ascii_alphanumeric(s.get_char(i)) {
            assert(!is_ascii_alnum(t[i - from]));
            return false;
        }
        i = i + 1;
    }
    assert forall|k: int| 0 <= k < t.len() implies #[trigger] is_ascii_alnum(t[k]) by {
        assert(t[k] == s@[k + from]);
    }
    true
}


/// Whether two strings hold the same characters.
pub fn str_equals(a: &str, b: &str) -> (r: bool)
    ensures
        r == (a@ == b@),
{
    let alen = a.unicode_len();
    let blen = b.unicode_len();
    if alen != blen {
        return false;
    }
    let mut i: usize = 0;
    while i < alen
        invariant
            i <= alen,
            alen == a@.len(),
            blen == b@.len(),
            alen == blen,
            forall|k: int| 0 <= k < i ==> #[trigger] a@[k] == b@[k],
        decreases alen - i,
    {
        if a.get_char(i) != b.get_char(i) {
            return false;
        }
        i = i + 1;
    }
    assert(a@ =~= b@);
    true
}

} // verus!
