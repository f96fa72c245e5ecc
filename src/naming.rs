use vstd::prelude::*;
use vstd::string::*;

verus! {

/// `frontend-`: the prefix shared by every file of the stream.
pub open spec fn log_prefix() -> Seq<char> {
    seq!['f', 'r', 'o', 'n', 't', 'e', 'n', 'd', '-']
}

/// `.log`: the extension shared by every file of the stream.
pub open spec fn log_ext() -> Seq<char> {
    seq!['.', 'l', 'o', 'g']
}

/// A name belongs to the stream when it starts with the prefix and ends with
/// the extension.
pub open spec fn is_log_name(s: Seq<char>) -> bool {
    &&& log_prefix().is_prefix_of(s)
    &&& s.len() >= log_ext().len()
    &&& s.subrange(s.len() - log_ext().len(), s.len() as int) == log_ext()
}

/// `frontend-<date>.log`
pub open spec fn current_name_of(date: Seq<char>) -> Seq<char> {
    log_prefix() + date + log_ext()
}

/// `frontend-<date>-<stamp>.log`
pub open spec fn rotated_name_of(date: Seq<char>, stamp: Seq<char>) -> Seq<char> {
    log_prefix() + date + seq!['-'] + stamp + log_ext()
}

/// Name of the file that receives today's entries.
pub fn current_file_name(date: &str) -> (r: String)
    ensures
        r@ == current_name_of(date@),
{
    proof {
        reveal_strlit("frontend-");
        reveal_strlit(".log");
    }
    let mut r = String::from_str("frontend-");
    r.append(date);
    r.append(".log");
    r
}

/// Name under which an oversized current file is set aside.
pub fn rotated_file_name(date: &str, stamp: &str) -> (r: String)
    ensures
        r@ == rotated_name_of(date@, stamp@),
{
    proof {
        reveal_strlit("frontend-");
        reveal_strlit("-");
        reveal_strlit(".log");
    }
    let mut r = String::from_str("frontend-");
    r.append(date);
    r.append("-");
    r.append(stamp);
    r.append(".log");
    r
}

/// Whether `name` follows the stream's naming convention.
pub fn is_log_file_name(name: &str) -> (r: bool)
    ensures
        r == is_log_name(name@),
{
    proof {
        reveal_strlit("frontend-");
        reveal_strlit(".log");
    }
    let prefix = "frontend-";
    let ext = ".log";
    let n = name.unicode_len();
    let pn = prefix.unicode_len();
    let en = ext.unicode_len();
    if n < pn || n < en {
        return false;
    }
    let mut i: usize = 0;
    while i < pn
        invariant
            pn == log_prefix().len(),
            prefix@ == log_prefix(),
            n == name@.len(),
            pn <= n,
            i <= pn,
            forall|k: int| 0 <= k < i ==> name@[k] == log_prefix()[k],
        decreases pn - i,
    {
        if name.get_char(i) != prefix.get_char(i) {
            return false;
        }
        i = i + 1;
    }
    let mut j: usize = 0;
    while j < en
        invariant
            en == log_ext().len(),
            ext@ == log_ext(),
            n == name@.len(),
            en <= n,
            j <= en,
            log_prefix().is_prefix_of(name@),
            forall|k: int| 0 <= k < j ==> name@[n - en + k] == log_ext()[k],
        decreases en - j,
    {
        if name.get_char(n - en + j) != ext.get_char(j) {
            assert(name@.subrange(n - en, n as int)[j as int] != log_ext()[j as int]);
            return false;
        }
        j = j + 1;
    }
    assert(name@.subrange(n - en, n as int) =~= log_ext());
    true
}

} // verus!
