use vstd::prelude::*;
use vstd::seq_lib::*;
use crate::naming::{is_log_name, is_log_file_name};
use crate::order::{name_less, name_lt, lemma_name_lt_asymmetric, lemma_name_not_lt_transitive};

verus! {

broadcast use {group_to_multiset_ensures, group_filter_ensures};

/// Bytes in a megabyte.
pub const BYTES_PER_MB: i128 = 1_048_576;

/// A file of the stream as seen in the log directory: its name and its last
/// modification time (nanoseconds since the Unix epoch; 0 where unknown).
#[derive(Debug)]
pub struct FileStat {
    pub name: String,
    pub modified: u64,
}

/// A file of `size` bytes is over a threshold of `micro_mb` millionths of a
/// megabyte: `size / 2^20 > micro_mb / 10^6`, compared exactly.
pub open spec fn exceeds(size: int, micro_mb: int) -> bool {
    size * 1_000_000 > micro_mb * 1_048_576
}

/// Whether a current file of `size_bytes` bytes must be rotated. A file
/// exactly at the threshold is not.
pub fn should_rotate(size_bytes: u64, max_size_micro_mb: i64) -> (r: bool)
    ensures
        r == exceeds(size_bytes as int, max_size_micro_mb as int),
{
    let lhs: i128 = size_bytes as i128 * 1_000_000;
    let rhs: i128 = max_size_micro_mb as i128 * BYTES_PER_MB;
    lhs > rhs
}

/// `a` ranks before `b` newest-first: later modification time, and on equal
/// times the greater name.
pub open spec fn newer(a: FileStat, b: FileStat) -> bool {
    a.modified > b.modified || (a.modified == b.modified && name_lt(b.name@, a.name@))
}

/// No file is newer than one that comes before it.
pub open spec fn newest_first(s: Seq<FileStat>) -> bool {
    forall|i: int, j: int| 0 <= i < j < s.len() ==> !newer(#[trigger] s[j], #[trigger] s[i])
}

proof fn lemma_newer_asymmetric(a: FileStat, b: FileStat)
    ensures
        newer(a, b) ==> !newer(b, a),
{
    lemma_name_lt_asymmetric(a.name@, b.name@);
}

proof fn lemma_not_newer_transitive(a: FileStat, b: FileStat, c: FileStat)
    ensures
        !newer(a, b) && !newer(b, c) ==> !newer(a, c),
{
    lemma_name_not_lt_transitive(a.name@, b.name@, c.name@);
}

fn newer_exec(a: &FileStat, b: &FileStat) -> (r: bool)
    ensures
        r == newer(*a, *b),
{
    a.modified > b.modified || (a.modified == b.modified && name_less(b.name.as_str(), a.name.as_str()))
}

/// Orders files newest-first; the files themselves are kept as they are.
pub fn sort_newest_first(files: Vec<FileStat>) -> (r: Vec<FileStat>)
    ensures
        newest_first(r@),
        r@.to_multiset() == files@.to_multiset(),
{
    let ghost all = files@;
    let mut rest = files;
    let mut sorted: Vec<FileStat> = Vec::new();
    while rest.len() > 0
        invariant
            newest_first(sorted@),
            sorted@.to_multiset().add(rest@.to_multiset()) == all.to_multiset(),
        decreases rest.len(),
    {
        let ghost before = rest@;
        let x = rest.pop().unwrap();
        proof {
            assert(before =~= rest@.push(x));
        }
        let mut p: usize = 0;
        while p < sorted.len() && newer_exec(&sorted[p], &x)
            invariant
                p <= sorted.len(),
                forall|k: int| 0 <= k < p ==> newer(sorted@[k], x),
            decreases sorted.len() - p,
        {
            p = p + 1;
        }
        let ghost s = sorted@;
        sorted.insert(p, x);
        proof {
            let t = sorted@;
            assert(t =~= s.insert(p as int, x));
            assert forall|i: int, j: int| 0 <= i < j < t.len() implies !newer(
                #[trigger] t[j],
                #[trigger] t[i],
            ) by {
                if j < p {
                } else if j == p {
                    lemma_newer_asymmetric(s[i], x);
                } else if i < p {
                    assert(t[j] == s[j - 1]);
                } else if i == p {
                    assert(!newer(s[p as int], x));
                    if j - 1 > p {
                        assert(!newer(s[j - 1], s[p as int]));
                    }
                    lemma_not_newer_transitive(s[j - 1], s[p as int], x);
                } else {
                    assert(t[i] == s[i - 1] && t[j] == s[j - 1]);
                }
            }
            assert(sorted@.to_multiset().add(rest@.to_multiset()) =~= all.to_multiset());
        }
    }
    proof {
        assert(rest@ =~= Seq::<FileStat>::empty());
        assert(sorted@.to_multiset().add(rest@.to_multiset()) =~= sorted@.to_multiset());
    }
    sorted
}

/// What retention does with a directory's files: the newest `max_files` stay,
/// the rest are deleted.
pub struct RetentionPlan {
    pub keep: Vec<FileStat>,
    pub evict: Vec<FileStat>,
}

/// `keep` followed by `evict` is `files` ordered newest-first, and `keep` holds
/// the first `max_files` of them (all, where there are no more).
pub open spec fn is_retention_plan(
    files: Seq<FileStat>,
    max_files: nat,
    keep: Seq<FileStat>,
    evict: Seq<FileStat>,
) -> bool {
    &&& newest_first(keep + evict)
    &&& (keep + evict).to_multiset() == files.to_multiset()
    &&& keep.len() == if files.len() <= max_files { files.len() } else { max_files }
}

/// Splits the stream's files into those that retention keeps and those it
/// deletes: nothing is deleted while there are at most `max_files`.
pub fn select_for_eviction(files: Vec<FileStat>, max_files: usize) -> (r: RetentionPlan)
    ensures
        is_retention_plan(files@, max_files as nat, r.keep@, r.evict@),
{
    let ghost input = files@;
    let mut keep = sort_newest_first(files);
    let ghost sorted = keep@;
    proof {
        to_multiset_len(sorted);
        to_multiset_len(input);
    }
    let evict = if keep.len() > max_files {
        keep.split_off(max_files)
    } else {
        Vec::new()
    };
    proof {
        assert(keep@ + evict@ =~= sorted);
    }
    RetentionPlan { keep, evict }
}

/// Retention bound: once the files a plan evicts are deleted, at most
/// `max_files` of the stream's files are left, exactly those kept, and none
/// of the deleted ones is newer than one kept.
pub proof fn lemma_retention_bound(
    files: Seq<FileStat>,
    max_files: nat,
    keep: Seq<FileStat>,
    evict: Seq<FileStat>,
)
    requires
        is_retention_plan(files, max_files, keep, evict),
    ensures
        files.to_multiset().sub(evict.to_multiset()) == keep.to_multiset(),
        files.to_multiset().sub(evict.to_multiset()).len() <= max_files,
        forall|i: int, j: int|
            0 <= i < keep.len() && 0 <= j < evict.len() ==> !newer(
                #[trigger] evict[j],
                #[trigger] keep[i],
            ),
{
    lemma_multiset_commutative(keep, evict);
    assert(files.to_multiset().sub(evict.to_multiset()) =~= keep.to_multiset());
    assert forall|i: int, j: int|
        0 <= i < keep.len() && 0 <= j < evict.len() implies !newer(
            #[trigger] evict[j],
            #[trigger] keep[i],
        ) by {
        let s = keep + evict;
        assert(s[i] == keep[i] && s[keep.len() + j] == evict[j]);
    }
}

/// The files of the stream in `files` other than the current file `current`:
/// the candidates for retention during an append.
pub open spec fn eviction_candidates(files: Seq<FileStat>, current: Seq<char>) -> Seq<FileStat> {
    files.filter(|f: FileStat| is_log_name(f.name@) && f.name@ != current)
}

proof fn lemma_candidates_push(files: Seq<FileStat>, current: Seq<char>, x: FileStat)
    ensures
        eviction_candidates(files.push(x), current) == if is_log_name(x.name@) && x.name@
            != current {
            eviction_candidates(files, current).push(x)
        } else {
            eviction_candidates(files, current)
        },
{
    reveal_with_fuel(Seq::filter, 1);
    assert(files.push(x).drop_last() =~= files);
}

fn take_candidates(files: Vec<FileStat>, current: &String) -> (r: Vec<FileStat>)
    ensures
        r@.to_multiset() == eviction_candidates(files@, current@).to_multiset(),
{
    let ghost all = files@;
    let mut rest = files;
    let mut out: Vec<FileStat> = Vec::new();
    while rest.len() > 0
        invariant
            out@.to_multiset().add(eviction_candidates(rest@, current@).to_multiset())
                == eviction_candidates(all, current@).to_multiset(),
        decreases rest.len(),
    {
        let ghost before = rest@;
        let x = rest.pop().unwrap();
        proof {
            assert(before =~= rest@.push(x));
            lemma_candidates_push(rest@, current@, x);
        }
        if is_log_file_name(x.name.as_str()) && x.name != *current {
            out.push(x);
        }
        proof {
            assert(out@.to_multiset().add(eviction_candidates(rest@, current@).to_multiset())
                =~= eviction_candidates(all, current@).to_multiset());
        }
    }
    proof {
        reveal_with_fuel(Seq::filter, 1);
        assert(eviction_candidates(rest@, current@) =~= Seq::<FileStat>::empty());
        assert(out@.to_multiset().add(eviction_candidates(rest@, current@).to_multiset())
            =~= out@.to_multiset());
    }
    out
}

/// Retention for an append to `current`, given every entry of the log
/// directory: the current file is neither counted nor touched, and of the
/// stream's other files the newest `max_files - 1` stay, so that with the
/// current file at most `max_files` remain. Files outside the stream are
/// never evicted.
pub fn plan_retention(files: Vec<FileStat>, current: &String, max_files: usize) -> (r:
    RetentionPlan)
    requires
        max_files >= 1,
    ensures
        is_retention_plan(
            eviction_candidates(files@, current@),
            (max_files - 1) as nat,
            r.keep@,
            r.evict@,
        ),
{
    let candidates = take_candidates(files, current);
    let ghost c = candidates@;
    let plan = select_for_eviction(candidates, max_files - 1);
    proof {
        let target = eviction_candidates(files@, current@);
        to_multiset_len(c);
        to_multiset_len(target);
    }
    plan
}

/// Retention bound of an append: once the plan's files are deleted and the
/// current file is written, the stream holds the kept files and the current
/// one, at most `max_files` in all; no evicted file is newer than a kept one;
/// every evicted file belongs to the stream and is not the current file.
pub proof fn lemma_append_retention_bound(
    files: Seq<FileStat>,
    current: Seq<char>,
    max_files: nat,
    keep: Seq<FileStat>,
    evict: Seq<FileStat>,
)
    requires
        max_files >= 1,
        is_retention_plan(eviction_candidates(files, current), (max_files - 1) as nat, keep, evict),
    ensures
        eviction_candidates(files, current).to_multiset().sub(evict.to_multiset())
            == keep.to_multiset(),
        keep.len() + 1 <= max_files,
        forall|i: int, j: int|
            0 <= i < keep.len() && 0 <= j < evict.len() ==> !newer(
                #[trigger] evict[j],
                #[trigger] keep[i],
            ),
        forall|j: int|
            0 <= j < evict.len() ==> is_log_name(#[trigger] evict[j].name@) && evict[j].name@
                != current,
{
    let cands = eviction_candidates(files, current);
    lemma_retention_bound(cands, (max_files - 1) as nat, keep, evict);
    lemma_multiset_commutative(keep, evict);
    assert forall|j: int| 0 <= j < evict.len() implies is_log_name(
        #[trigger] evict[j].name@,
    ) && evict[j].name@ != current by {
        let x = evict[j];
        assert(evict.to_multiset().count(x) > 0);
        assert((keep + evict).to_multiset().count(x) > 0);
        assert(cands.to_multiset().count(x) > 0);
        assert(cands.contains(x));
    }
}

} // verus!
