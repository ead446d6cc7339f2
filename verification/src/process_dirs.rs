//! Choosing which directory entries the rules are applied to.
use vstd::prelude::*;
use crate::text::str_equals;

verus! {

/// Which directory entries are checked.
#[derive(Copy, Clone, Debug, Eq, PartialEq, Structural)]
pub enum EntryType {
    Dir,
    File,
    Both,
}

/// What to do with one directory entry.
#[derive(Copy, Clone, Debug, Eq, PartialEq, Structural)]
pub struct EntryDecision {
    /// Run the rules on its name.
    pub check: bool,
    /// Walk into it.
    pub descend: bool,
}

/// `name` is one of `list`.
pub open spec fn listed(list: Seq<String>, name: Seq<char>) -> bool {
    exists|i: int| 0 <= i < list.len() && #[trigger] list[i]@ == name
}

/// A directory named in `skip_dirs` is neither checked nor walked into; another directory is
/// walked into and checked when directories are checked. A file named in `skip_files` is
/// passed over; another file is checked when files are checked.
pub open spec fn spec_classify_entry(
    is_dir: bool,
    name: Seq<char>,
    entry_type: EntryType,
    skip_dirs: Seq<String>,
    skip_files: Seq<String>,
) -> EntryDecision {
    if is_dir {
        if listed(skip_dirs, name) {
            EntryDecision { check: false, descend: false }
        } else {
            EntryDecision { check: entry_type == EntryType::Dir || entry_type == EntryType::Both, descend: true }
        }
    } else if listed(skip_files, name) {
        EntryDecision { check: false, descend: false }
    } else {
        EntryDecision { check: entry_type == EntryType::File || entry_type == EntryType::Both, descend: false }
    }
}

fn is_listed(list: &[String], name: &str) -> (r: bool)
    ensures
        r == listed(list@, name@),
{
    let n = list.len();
    let mut i: usize = 0;
    while i < n
        invariant
            i <= n,
            n == list@.len(),
            forall|k: int| 0 <= k < i ==> #[trigger] list@[k]@ != name@,
        decreases n - i,
    {
        if str_equals(list[i].as_str(), name) {
            return true;
        }
        i = i + 1;
    }
    false
}

/// Decides what to do with a directory entry.
pub fn classify_entry(
    is_dir: bool,
    name: &str,
    entry_type: EntryType,
    skip_dirs: &[String],
    skip_files: &[String],
) -> (r: EntryDecision)
    ensures
        r == spec_classify_entry(is_dir, name@, entry_type, skip_dirs@, skip_files@),
{
    if is_dir {
        if is_listed(skip_dirs, name) {
            return EntryDecision { check: false, descend: false };
        }
        return EntryDecision { check: entry_type == EntryType::Dir || entry_type == EntryType::Both, descend: true };
    }
    if is_listed(skip_files, name) {
        return EntryDecision { check: false, descend: false };
    }
    EntryDecision { check: entry_type == EntryType::File || entry_type == EntryType::Both, descend: false }
}


/// Which entries are checked and walked into, for every entry type: a directory not named in
/// `skip_dirs` is walked into and checked under `Dir` and `Both`; a file not named in
/// `skip_files` is checked under `File` and `Both` and never walked into; a named entry is
/// neither checked nor walked into.
pub proof fn lemma_classify_entry_choices(
    name: Seq<char>,
    entry_type: EntryType,
    skip_dirs: Seq<String>,
    skip_files: Seq<String>,
)
    ensures
        (forall|i: int| 0 <= i < skip_dirs.len() ==> (#[trigger] skip_dirs[i])@ != name) ==> {
            &&& spec_classify_entry(true, name, entry_type, skip_dirs, skip_files).descend
            &&& spec_classify_entry(true, name, entry_type, skip_dirs, skip_files).check
                <==> (entry_type == EntryType::Dir || entry_type == EntryType::Both)
        },
        (forall|i: int| 0 <= i < skip_files.len() ==> (#[trigger] skip_files[i])@ != name) ==> {
            &&& !spec_classify_entry(false, name, entry_type, skip_dirs, skip_files).descend
            &&& spec_classify_entry(false, name, entry_type, skip_dirs, skip_files).check
                <==> (entry_type == EntryType::File || entry_type == EntryType::Both)
        },
        (exists|i: int| 0 <= i < skip_dirs.len() && (#[trigger] skip_dirs[i])@ == name) ==> {
            &&& !spec_classify_entry(true, name, entry_type, skip_dirs, skip_files).descend
            &&& !spec_classify_entry(true, name, entry_type, skip_dirs, skip_files).check
        },
        (exists|i: int| 0 <= i < skip_files.len() && (#[trigger] skip_files[i])@ == name) ==> {
            &&& !spec_classify_entry(false, name, entry_type, skip_dirs, skip_files).descend
            &&& !spec_classify_entry(false, name, entry_type, skip_dirs, skip_files).check
        },
{
}

} // verus!
