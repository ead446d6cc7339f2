//! Which directories the command line asks for.
use vstd::prelude::*;
use crate::text::str_equals;

verus! {

/// A directory asked for on the command line.
#[derive(Clone, Debug)]
pub enum DirRequest {
    /// The current working directory.
    Current,
    /// A path as given.
    Path(String),
}

/// The request a command-line path makes: `.` asks for the current directory, anything
/// else for the path as given.
pub open spec fn is_request_for(r: DirRequest, path: Seq<char>) -> bool {
    match r {
        DirRequest::Current => path == "."@,
        DirRequest::Path(p) => path != "."@ && p@ == path,
    }
}

/// The directories asked for: the current directory when no path, or an empty list, is
/// given; otherwise one request per path, in order.
pub fn requested_dirs(raw_paths: Option<Vec<String>>) -> (r: Vec<DirRequest>)
    ensures
        match raw_paths {
            Some(paths) if paths@.len() > 0 => {
                &&& r@.len() == paths@.len()
                &&& forall|i: int| 0 <= i < r@.len() ==> is_request_for(#[trigger] r@[i], paths@[i]@)
            },
            _ => r@.len() == 1 && r@[0] is Current,
        },
{
    match raw_paths {
        None => vec![DirRequest::Current],
        Some(paths) => {
            if paths.len() == 0 {
                return vec![DirRequest::Current];
            }
            let mut dirs: Vec<DirRequest> = Vec::new();
            let n = paths.len();
            let mut i: usize = 0;
            while i < n
                invariant
                    i <= n,
                    n == paths@.len(),
                    dirs@.len() == i,
                    forall|k: int| 0 <= k < i ==> is_request_for(#[trigger] dirs@[k], paths@[k]@),
                decreases n - i,
            {
                let s = &paths[i];
                if str_equals(s.as_str(), ".") {
                    dirs.push(DirRequest::Current);
                } else {
                    dirs.push(DirRequest::Path(s.clone()));
                }
                i = i + 1;
            }
            dirs
        },
    }
}

} // verus!
