use vstd::prelude::*;
use vstd::string::*;
use crate::error::LogError;

verus! {

pub open spec fn is_separator(c: char) -> bool {
    c == '/' || c == '\\'
}

/// `s` has a `..` component: two dots bounded on each side by a separator or
/// an end of the name.
pub open spec fn has_parent_segment(s: Seq<char>) -> bool {
    exists|i: int| parent_segment_at(s, i)
}

/// A `..` component starts at position `i` of `s`.
pub open spec fn parent_segment_at(s: Seq<char>, i: int) -> bool {
    &&& 0 <= i && i + 1 < s.len()
    &&& s[i] == '.' && s[i + 1] == '.'
    &&& i == 0 || is_separator(s[i - 1])
    &&& i + 2 == s.len() || is_separator(s[i + 2])
}

/// A `.` component stands at position `i` of `s`.
pub open spec fn current_dir_at(s: Seq<char>, i: int) -> bool {
    &&& 0 <= i < s.len()
    &&& s[i] == '.'
    &&& i == 0 || is_separator(s[i - 1])
    &&& i + 1 == s.len() || is_separator(s[i + 1])
}

/// Position `i` of `s` belongs to a component other than an empty one or `.`.
pub open spec fn names_something_at(s: Seq<char>, i: int) -> bool {
    0 <= i < s.len() && !is_separator(s[i]) && !current_dir_at(s, i)
}

/// A name that stays inside the log directory once joined to it and names
/// something below it: not rooted, without a drive or stream marker (`:`),
/// without `..`, and with a component that is neither empty nor `.` (so not
/// `""`, `"."` or `"./"`, which name the directory itself).
pub open spec fn stays_in_log_dir(s: Seq<char>) -> bool {
    &&& s.len() > 0
    &&& !is_separator(s[0])
    &&& exists|i: int| names_something_at(s, i)
    &&& forall|i: int| 0 <= i < s.len() ==> s[i] != ':'
    &&& !has_parent_segment(s)
}

/// Refuses a requested file name that could reach outside the log directory;
/// this is decided on the name alone, before the file system is touched.
pub fn check_log_path(file_name: &str) -> (r: Result<(), LogError>)
    ensures
        r is Ok <==> stays_in_log_dir(file_name@),
        r is Err ==> r->Err_0 is InvalidPath,
{
    let n = file_name.unicode_len();
    if n == 0 {
        return Err(LogError::InvalidPath);
    }
    let first = file_name.get_char(0);
    if first == '/' || first == '\\' {
        return Err(LogError::InvalidPath);
    }
    let mut i: usize = 0;
    let mut something = false;
    while i < n
        invariant
            n == file_name@.len(),
            i <= n,
            something <==> exists|k: int| 0 <= k < i && #[trigger] names_something_at(file_name@, k),
            forall|k: int| 0 <= k < i ==> file_name@[k] != ':',
            forall|k: int| 0 <= k < i ==> !#[trigger] parent_segment_at(file_name@, k),
        decreases n - i,
    {
        let c = file_name.get_char(i);
        if c == ':' {
            return Err(LogError::InvalidPath);
        }
        if c == '.' && i + 1 < n {
            let d = file_name.get_char(i + 1);
            let opens = i == 0 || {
                let b = file_name.get_char(i - 1);
                b == '/' || b == '\\'
            };
            let closes = i + 2 == n || {
                let e = file_name.get_char(i + 2);
                e == '/' || e == '\\'
            };
            if d == '.' && opens && closes {
                assert(parent_segment_at(file_name@, i as int));
                return Err(LogError::InvalidPath);
            }
        }
        if c != '/' && c != '\\' {
            let alone = c == '.' && (i == 0 || {
                let b = file_name.get_char(i - 1);
                b == '/' || b == '\\'
            }) && (i + 1 == n || {
                let e = file_name.get_char(i + 1);
                e == '/' || e == '\\'
            });
            if !alone {
                assert(names_something_at(file_name@, i as int));
                something = true;
            }
        }
        i = i + 1;
    }
    if !something {
        return Err(LogError::InvalidPath);
    }
    Ok(())
}

} // verus!
