//! Repairing names that hold null bytes or invalid UTF-8.
use vstd::prelude::*;
use crate::text::{has_char, is_ascii_graphic, rfind, lemma_rfind, rfind_char, char_is_ascii_graphic};

verus! {

/// What is wrong with a name.
#[derive(Clone, Copy, Debug, PartialEq, Eq, Structural)]
pub struct Issues {
    pub has_null: bool,
    pub has_non_utf8: bool,
}

/// The replacement of one character: a null becomes `0`, printable ASCII and space stay,
/// everything else becomes `X`.
pub open spec fn fixed_char(c: char) -> char {
    if c == '\0' {
        '0'
    } else if is_ascii_graphic(c) || c == ' ' {
        c
    } else {
        'X'
    }
}

/// A name with every character replaced as `fixed_char` says.
pub open spec fn fixed_name(s: Seq<char>) -> Seq<char> {
    s.map_values(|c: char| fixed_char(c))
}

/// Whether a name needs a fix, and the fix: `name` is the name read leniently (each invalid
/// UTF-8 sequence read as U+FFFD) and `is_valid_utf8` says whether it was valid. A name that
/// holds no null and was valid UTF-8 needs none; otherwise the fixed name is offered when it
/// differs from the name.
pub open spec fn spec_check_and_fix_name(is_valid_utf8: bool, name: Seq<char>) -> Option<(Seq<char>, Issues)> {
    let issues = Issues { has_null: has_char(name, '\0'), has_non_utf8: !is_valid_utf8 };
    if !issues.has_null && !issues.has_non_utf8 {
        None
    } else if fixed_name(name) != name {
        Some((fixed_name(name), issues))
    } else {
        None
    }
}

/// The view of a fix.
pub open spec fn fix_view(r: Option<(String, Issues)>) -> Option<(Seq<char>, Issues)> {
    match r {
        Some((f, i)) => Some((f@, i)),
        None => None,
    }
}

/// Check if a filename needs fixing and return the new name if so.
pub fn check_and_fix_name(is_valid_utf8: bool, current_name: &str) -> (r: Option<(String, Issues)>)
    ensures
        fix_view(r) == spec_check_and_fix_name(is_valid_utf8, current_name@),
        !is_valid_utf8 && has_char(current_name@, '\u{fffd}') ==> r is Some,
{
    let len = current_name.unicode_len();
    let ghost s = current_name@;
    let mut fixed = String::new();
    let mut has_null = false;
    let mut changed = false;
    let mut i: usize = 0;
    assert(fixed_name(s.take(0)) =~= s.take(0));
    while i < len
        invariant
            i <= len,
            len == s.len(),
            s == current_name@,
            fixed@ == fixed_name(s.take(i as int)),
            has_null == has_char(s.take(i as int), '\0'),
            changed == (fixed_name(s.take(i as int)) != s.take(i as int)),
        decreases len - i,
    {
        let c = current_name.get_char(i);
        let ghost prev = s.take(i as int);
        let ghost next = s.take(i + 1);
        assert(next =~= prev.push(c));
        assert(fixed_name(next) =~= fixed_name(prev).push(fixed_char(c)));
        let ghost before = fixed@;
        proof {
            reveal_strlit("0");
            reveal_strlit("X");
        }
        if c == '\0' {
            fixed.append("0");
            has_null = true;
            assert(next[i as int] == '\0');
        } else if char_is_ascii_graphic(c) || c == ' ' {
            let one = current_name.substring_char(i, i + 1);
            assert(one@ =~= seq![c]);
            fixed.append(one);
        } else {
            fixed.append("X");
        }
        assert(fixed@ =~= before.push(fixed_char(c)));
        proof {
            if has_char(next, '\0') && !has_char(prev, '\0') {
                let k = choose|k: int| 0 <= k < next.len() && next[k] == '\0';
                if k < i {
                    assert(prev[k] == next[k]);
                }
            }
            if has_char(prev, '\0') {
                let k = choose|k: int| 0 <= k < prev.len() && prev[k] == '\0';
                assert(next[k] == prev[k]);
            }
            if fixed_char(c) != c {
                assert(fixed_name(next)[i as int] != next[i as int]);
            } else if fixed_name(prev) != prev {
                assert(!(fixed_name(prev) =~= prev));
                let k = choose|k: int| 0 <= k < prev.len() && fixed_name(prev)[k] != prev[k];
                assert(fixed_name(next)[k] != next[k]);
            } else {
                assert(fixed_name(next) =~= next);
            }
        }
        if fixed_char_differs(c) {
            changed = true;
        }
        i = i + 1;
    }
    assert(s.take(len as int) =~= s);
    proof {
        if has_char(s, '\u{fffd}') {
            let k = choose|k: int| 0 <= k < s.len() && s[k] == '\u{fffd}';
            assert(fixed_name(s)[k] != s[k]);
        }
    }
    if !has_null && is_valid_utf8 {
        return None;
    }
    if changed {
        Some((fixed, Issues { has_null, has_non_utf8: !is_valid_utf8 }))
    } else {
        None
    }
}

/// Whether a character is replaced by the fix.
fn fixed_char_differs(c: char) -> (r: bool)
    ensures
        r == (fixed_char(c) != c),
{
    !(c != '\0' && (char_is_ascii_graphic(c) || c == ' '))
}

/// A fixed name needs no further fix: every character is printable ASCII or a space, and
/// fixing it again leaves it as it is.
pub proof fn lemma_fixed_name_is_final(s: Seq<char>)
    ensures
        forall|i: int|
            0 <= i < fixed_name(s).len() ==> is_ascii_graphic(#[trigger] fixed_name(s)[i])
                || fixed_name(s)[i] == ' ',
        fixed_name(fixed_name(s)) == fixed_name(s),
        spec_check_and_fix_name(true, fixed_name(s)) is None,
{
    assert(fixed_name(fixed_name(s)) =~= fixed_name(s));
    if has_char(fixed_name(s), '\0') {
        let k = choose|k: int| 0 <= k < fixed_name(s).len() && fixed_name(s)[k] == '\0';
        assert(fixed_name(s)[k] == fixed_char(s[k]));
    }
}

/// The name and extension of a file name: split at the last period when that period is
/// neither the first nor the last character; otherwise the whole name and no extension.
pub open spec fn spec_split_name_ext(s: Seq<char>) -> (Seq<char>, Seq<char>) {
    match rfind(s, '.') {
        Some(p) => if 0 < p && p < s.len() - 1 {
            (s.take(p), s.skip(p + 1))
        } else {
            (s, Seq::empty())
        },
        None => (s, Seq::empty()),
    }
}

/// Split filename into name and extension.
pub fn split_name_ext(file_name: &str) -> (r: (String, String))
    ensures
        (r.0@, r.1@) == spec_split_name_ext(file_name@),
        r.1@.len() > 0 ==> r.0@ + seq!['.'] + r.1@ == file_name@,
        r.1@.len() == 0 ==> r.0@ == file_name@,
{
    let len = file_name.unicode_len();
    proof {
        lemma_rfind(file_name@, '.');
    }
    if let Some(dot_pos) = rfind_char(file_name, len, '.') {
        if dot_pos > 0 && dot_pos < len - 1 {
            let name = String::from_str(file_name.substring_char(0, dot_pos));
            let ext = String::from_str(file_name.substring_char(dot_pos + 1, len));
            assert(name@ =~= file_name@.take(dot_pos as int));
            assert(ext@ =~= file_name@.skip(dot_pos + 1));
            assert(name@ + seq!['.'] + ext@ =~= file_name@);
            return (name, ext);
        }
    }
    (String::from_str(file_name), String::new())
}

/// The character of a decimal digit.
pub open spec fn digit_char(d: nat) -> char {
    ((d + 48) as u32) as char
}

/// The decimal numeral of `n`, without leading zeros.
pub open spec fn decimal(n: nat) -> Seq<char>
    decreases n,
{
    if n < 10 {
        seq![digit_char(n)]
    } else {
        decimal(n / 10) + seq![digit_char(n % 10)]
    }
}

/// The numeral of one digit.
fn digit_str(d: u64) -> (r: &'static str)
    requires
        d < 10,
    ensures
        r@ == seq![digit_char(d as nat)],
{
    proof {
        reveal_strlit("0");
        reveal_strlit("1");
        reveal_strlit("2");
        reveal_strlit("3");
        reveal_strlit("4");
        reveal_strlit("5");
        reveal_strlit("6");
        reveal_strlit("7");
        reveal_strlit("8");
        reveal_strlit("9");
    }
    match d {
        0 => "0",
        1 => "1",
        2 => "2",
        3 => "3",
        4 => "4",
        5 => "5",
        6 => "6",
        7 => "7",
        8 => "8",
        _ => "9",
    }
}

/// The decimal numeral of `n`.
pub fn decimal_string(n: u64) -> (r: String)
    ensures
        r@ == decimal(n as nat),
    decreases n,
{
    if n < 10 {
        String::from_str(digit_str(n))
    } else {
        let mut s = decimal_string(n / 10);
        s.append(digit_str(n % 10));
        s
    }
}

/// The name tried for a fixed file when `new_name` is taken: the name part, an underscore
/// and the suffix, then an underscore and the extension where there is one.
pub open spec fn spec_fix_candidate_name(new_name: Seq<char>, suffix: nat) -> Seq<char> {
    let (name, ext) = spec_split_name_ext(new_name);
    if ext.len() == 0 {
        name + seq!['_'] + decimal(suffix)
    } else {
        name + seq!['_'] + decimal(suffix) + seq!['_'] + ext
    }
}

/// The candidate name with numeric suffix `suffix` for a fixed file whose name is taken.
pub fn fix_candidate_name(new_name: &str, suffix: u64) -> (r: String)
    ensures
        r@ == spec_fix_candidate_name(new_name@, suffix as nat),
{
    proof {
        reveal_strlit("_");
    }
    let (name, ext) = split_name_ext(new_name);
    let mut candidate = name;
    candidate.append("_");
    let digits = decimal_string(suffix);
    candidate.append(digits.as_str());
    if ext.unicode_len() > 0 {
        candidate.append("_");
        candidate.append(ext.as_str());
    }
    candidate
}


/// What to do with an entry: nothing, report the fix, or rename it.
#[derive(Clone, Copy, Debug, PartialEq, Eq, Structural)]
pub enum FixPlan {
    Leave,
    Preview,
    Rename,
}

/// An entry needing no fix is left alone; in a dry run a needed fix is only reported;
/// otherwise the entry is renamed.
pub open spec fn spec_fix_plan(dry_run: bool, needs_fix: bool) -> FixPlan {
    if !needs_fix {
        FixPlan::Leave
    } else if dry_run {
        FixPlan::Preview
    } else {
        FixPlan::Rename
    }
}

/// Decides what to do with an entry.
pub fn fix_plan(dry_run: bool, needs_fix: bool) -> (r: FixPlan)
    ensures
        r == spec_fix_plan(dry_run, needs_fix),
{
    if !needs_fix {
        FixPlan::Leave
    } else if dry_run {
        FixPlan::Preview
    } else {
        FixPlan::Rename
    }
}

/// What happened to an entry, with the issues of a name that needed a fix.
#[derive(Clone, Copy, Debug, PartialEq, Eq, Structural)]
pub enum FixOutcome {
    Clean,
    Previewed(Issues),
    Renamed(Issues),
    RenameFailed(Issues),
}

/// The counts of a repair run.
#[derive(Clone, Copy, Debug, PartialEq, Eq, Structural)]
pub struct FixStats {
    pub total_checked: usize,
    pub total_fixed: usize,
    pub has_null_byte: usize,
    pub not_utf8: usize,
}

/// 1 for true, 0 for false.
pub open spec fn count_of(b: bool) -> int {
    if b {
        1
    } else {
        0
    }
}

impl FixStats {
    /// No count exceeds the number of names checked.
    pub open spec fn wf(self) -> bool {
        &&& self.total_fixed <= self.total_checked
        &&& self.has_null_byte <= self.total_checked
        &&& self.not_utf8 <= self.total_checked
    }

    /// All counts zero.
    pub fn new() -> (r: FixStats)
        ensures
            r == (FixStats { total_checked: 0, total_fixed: 0, has_null_byte: 0, not_utf8: 0 }),
            r.wf(),
    {
        FixStats { total_checked: 0, total_fixed: 0, has_null_byte: 0, not_utf8: 0 }
    }

    /// Counts one checked entry by its outcome: every entry is checked; a name that needed a
    /// fix counts its null byte and its invalid UTF-8; a reported or completed fix counts as
    /// fixed. The result says whether to walk into the entry: any directory except one whose
    /// rename failed, so that a dry run walks into a directory it would rename (under its
    /// current path) and reports the count a real run fixes (`is_dir` is asked of the path the
    /// entry has after the outcome).
    pub fn record(&mut self, outcome: FixOutcome, is_dir: bool) -> (descend: bool)
        requires
            old(self).wf(),
            old(self).total_checked < usize::MAX,
        ensures
            final(self).wf(),
            final(self).total_checked == old(self).total_checked + 1,
            final(self).has_null_byte == old(self).has_null_byte + match outcome {
                FixOutcome::Clean => 0,
                FixOutcome::Previewed(i) | FixOutcome::Renamed(i) | FixOutcome::RenameFailed(i) => count_of(i.has_null),
            },
            final(self).not_utf8 == old(self).not_utf8 + match outcome {
                FixOutcome::Clean => 0,
                FixOutcome::Previewed(i) | FixOutcome::Renamed(i) | FixOutcome::RenameFailed(i) => count_of(i.has_non_utf8),
            },
            final(self).total_fixed == old(self).total_fixed + match outcome {
                FixOutcome::Previewed(_) | FixOutcome::Renamed(_) => 1int,
                _ => 0,
            },
            descend == (is_dir && !(outcome is RenameFailed)),
    {
        self.total_checked = self.total_checked + 1;
        match outcome {
            FixOutcome::Clean => is_dir,
            FixOutcome::Previewed(issues) => {
                self.count_issues(issues);
                self.total_fixed = self.total_fixed + 1;
                is_dir
            },
            FixOutcome::Renamed(issues) => {
                self.count_issues(issues);
                self.total_fixed = self.total_fixed + 1;
                is_dir
            },
            FixOutcome::RenameFailed(issues) => {
                self.count_issues(issues);
                false
            },
        }
    }

    fn count_issues(&mut self, issues: Issues)
        requires
            old(self).has_null_byte < old(self).total_checked,
            old(self).not_utf8 < old(self).total_checked,
        ensures
            *final(self) == (FixStats {
                has_null_byte: (old(self).has_null_byte + count_of(issues.has_null)) as usize,
                not_utf8: (old(self).not_utf8 + count_of(issues.has_non_utf8)) as usize,
                ..*old(self)
            }),
    {
        if issues.has_null {
            self.has_null_byte = self.has_null_byte + 1;
        }
        if issues.has_non_utf8 {
            self.not_utf8 = self.not_utf8 + 1;
        }
    }
}


/// What the fix does to each character: a null becomes `0`; a printable ASCII character or a
/// space stays; any other character becomes `X`. The issues record whether the name held a
/// null and whether it was invalid UTF-8; no fix is offered for a valid name without a null,
/// nor for a name that every character already survives.
pub proof fn lemma_fix_chars(is_valid_utf8: bool, name: Seq<char>)
    ensures
        match spec_check_and_fix_name(is_valid_utf8, name) {
            Some((f, issues)) => {
                &&& f.len() == name.len()
                &&& f != name
                &&& forall|i: int| 0 <= i < name.len() ==> #[trigger] f[i] == (if name[i] == '\0' {
                    '0'
                } else if '!' <= name[i] <= '~' || name[i] == ' ' {
                    name[i]
                } else {
                    'X'
                })
                &&& issues.has_null == exists|i: int| 0 <= i < name.len() && #[trigger] name[i] == '\0'
                &&& issues.has_non_utf8 == !is_valid_utf8
            },
            None => {
                ||| is_valid_utf8 && forall|i: int| 0 <= i < name.len() ==> #[trigger] name[i] != '\0'
                ||| forall|i: int| 0 <= i < name.len() ==> #[trigger] name[i] != '\0' && ('!' <= name[i] <= '~' || name[i] == ' ')
            },
        },
{
    let f = fixed_name(name);
    match spec_check_and_fix_name(is_valid_utf8, name) {
        Some(_) => {
            assert forall|i: int| 0 <= i < name.len() implies #[trigger] f[i] == (if name[i] == '\0' {
                '0'
            } else if '!' <= name[i] <= '~' || name[i] == ' ' {
                name[i]
            } else {
                'X'
            }) by {}
        },
        None => {
            if !(is_valid_utf8 && !has_char(name, '\0')) {
                assert(f =~= name);
                assert forall|i: int| 0 <= i < name.len() implies #[trigger] name[i] != '\0' && ('!' <= name[i] <= '~' || name[i] == ' ') by {
                    assert(f[i] == fixed_char(name[i]));
                }
            } else {
                assert forall|i: int| 0 <= i < name.len() implies #[trigger] name[i] != '\0' by {}
            }
        },
    }
}

/// `split_name_ext` splits at the last period `s[p]` (`p == -1` when there is none) exactly
/// when that period is neither the first nor the last character; otherwise the whole name is
/// the name part and the extension is empty.
pub proof fn lemma_split_name_ext_at_last_dot(s: Seq<char>, p: int)
    requires
        (p == -1 && forall|k: int| 0 <= k < s.len() ==> #[trigger] s[k] != '.') || (0 <= p < s.len()
            && s[p] == '.' && forall|k: int| p < k < s.len() ==> #[trigger] s[k] != '.'),
    ensures
        0 < p < s.len() - 1 ==> spec_split_name_ext(s) == (s.take(p), s.skip(p + 1)),
        !(0 < p < s.len() - 1) ==> spec_split_name_ext(s) == (s, Seq::<char>::empty()),
{
    lemma_rfind(s, '.');
    match rfind(s, '.') {
        Some(q) => {
            if p == -1 {
                assert(s[q] != '.');
            } else {
                if q < p {
                    assert(s[p] != '.');
                }
                if q > p {
                    assert(s[q] != '.');
                }
            }
        },
        None => {
            if p >= 0 {
                assert(s[p] != '.');
            }
        },
    }
}

/// The number that a string of decimal digits spells.
pub open spec fn digits_value(s: Seq<char>) -> int
    decreases s.len(),
{
    if s.len() == 0 {
        0
    } else {
        digits_value(s.drop_last()) * 10 + ((s.last() as int) - ('0' as int))
    }
}

/// The numeral of `n` is a non-empty string of decimal digits, without a leading zero unless
/// it is `0` itself, and it spells `n`.
pub proof fn lemma_decimal_spells(n: nat)
    ensures
        decimal(n).len() > 0,
        forall|i: int| 0 <= i < decimal(n).len() ==> '0' <= #[trigger] decimal(n)[i] <= '9',
        decimal(n).len() > 1 ==> decimal(n)[0] != '0',
        n >= 10 ==> decimal(n).len() > 1,
        digits_value(decimal(n)) == n,
    decreases n,
{
    if n < 10 {
        assert(decimal(n) == seq![digit_char(n)]);
        assert((digit_char(n) as int) == n + 48);
        assert(seq![digit_char(n)].drop_last() =~= Seq::<char>::empty());
        assert(('0' as int) == 48);
        assert(decimal(n).last() == digit_char(n));
        assert(digits_value(Seq::<char>::empty()) == 0);
        assert(digits_value(decimal(n)) == digits_value(decimal(n).drop_last()) * 10 + ((decimal(n).last() as int) - ('0' as int)));
    } else {
        let q = n / 10;
        let r = n % 10;
        lemma_decimal_spells(q);
        let d = decimal(n);
        assert(d == decimal(q) + seq![digit_char(r)]);
        assert(d.drop_last() =~= decimal(q));
        assert((digit_char(r) as int) == r + 48);
        assert(d[0] == decimal(q)[0]);
        assert forall|i: int| 0 <= i < d.len() implies '0' <= #[trigger] d[i] <= '9' by {
            if i < decimal(q).len() {
                assert(d[i] == decimal(q)[i]);
            }
        }
        assert(('0' as int) == 48);
        if q < 10 {
            assert(decimal(q) == seq![digit_char(q)]);
            assert((digit_char(q) as int) == q + 48);
            assert(q > 0);
            assert(decimal(q)[0] == digit_char(q));
        }
        assert(d.last() == digit_char(r));
        assert(digits_value(d) == digits_value(decimal(q)) * 10 + ((d.last() as int) - ('0' as int)));
        assert(n == q * 10 + r);
    }
}

/// Different suffixes give different candidate names, so the search for a free name never
/// tries the same name twice.
pub proof fn lemma_fix_candidates_distinct(new_name: Seq<char>, a: nat, b: nat)
    requires
        a != b,
    ensures
        spec_fix_candidate_name(new_name, a) != spec_fix_candidate_name(new_name, b),
{
    lemma_decimal_spells(a);
    lemma_decimal_spells(b);
    let (name, ext) = spec_split_name_ext(new_name);
    let pre = name + seq!['_'];
    let da = decimal(a);
    let db = decimal(b);
    if spec_fix_candidate_name(new_name, a) == spec_fix_candidate_name(new_name, b) {
        let ca = spec_fix_candidate_name(new_name, a);
        let cb = spec_fix_candidate_name(new_name, b);
        if ext.len() == 0 {
            assert(ca == pre + da);
            assert(cb == pre + db);
            assert(da =~= ca.skip(pre.len() as int));
            assert(db =~= cb.skip(pre.len() as int));
        } else {
            let post = seq!['_'] + ext;
            assert(ca =~= pre + da + post);
            assert(cb =~= pre + db + post);
            assert(da.len() == db.len());
            assert(da =~= ca.subrange(pre.len() as int, (pre.len() + da.len()) as int));
            assert(db =~= cb.subrange(pre.len() as int, (pre.len() + db.len()) as int));
        }
        assert(digits_value(da) == digits_value(db));
    }
}

/// A dry run never renames; a name that needs no fix is left alone; outside a dry run a needed
/// fix renames.
pub proof fn lemma_fix_plan_choices(dry_run: bool, needs_fix: bool)
    ensures
        dry_run ==> spec_fix_plan(dry_run, needs_fix) != FixPlan::Rename,
        !needs_fix ==> spec_fix_plan(dry_run, needs_fix) == FixPlan::Leave,
        needs_fix && !dry_run ==> spec_fix_plan(dry_run, needs_fix) == FixPlan::Rename,
        needs_fix && dry_run ==> spec_fix_plan(dry_run, needs_fix) == FixPlan::Preview,
{
}

} // verus!
