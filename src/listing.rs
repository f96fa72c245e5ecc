use vstd::prelude::*;
use vstd::seq_lib::*;
use crate::naming::{is_log_name, is_log_file_name};
use crate::order::{name_less, name_lt, lemma_name_lt_asymmetric, lemma_name_not_lt_transitive};

verus! {

broadcast use group_to_multiset_ensures;

/// The names of `names` that follow the stream's naming convention, in their
/// order.
pub open spec fn log_names(names: Seq<String>) -> Seq<String> {
    names.filter(|n: String| is_log_name(n@))
}

/// Each name is lexicographically no smaller than the ones after it.
pub open spec fn names_descending(s: Seq<String>) -> bool {
    forall|i: int, j: int| 0 <= i < j < s.len() ==> !name_lt(#[trigger] s[i]@, #[trigger] s[j]@)
}

proof fn lemma_log_names_push(s: Seq<String>, x: String)
    ensures
        log_names(s.push(x)) == if is_log_name(x@) {
            log_names(s).push(x)
        } else {
            log_names(s)
        },
{
    reveal_with_fuel(Seq::filter, 1);
    assert(s.push(x).drop_last() =~= s);
}

/// The stream's files among `names`, most recent first (lexicographically
/// descending). Other names are left out.
///
/// The order is that of the names alone. Dates compare correctly as text, and
/// a day's current file (`.` after the date) sorts just above the files rotated
/// out of it that day (`-` after the date), which sort among themselves by
/// their stamps, newest first.
pub fn list_log_files(names: Vec<String>) -> (r: Vec<String>)
    ensures
        names_descending(r@),
        r@.to_multiset() == log_names(names@).to_multiset(),
{
    let ghost all = names@;
    let mut rest = names;
    let mut sorted: Vec<String> = Vec::new();
    proof {
        assert(rest@.to_multiset().len() == rest@.len());
    }
    while rest.len() > 0
        invariant
            names_descending(sorted@),
            sorted@.to_multiset().add(log_names(rest@).to_multiset()) == log_names(all).to_multiset(),
        decreases rest.len(),
    {
        let ghost before = rest@;
        let x = rest.pop().unwrap();
        proof {
            assert(before =~= rest@.push(x));
            lemma_log_names_push(rest@, x);
        }
        if is_log_file_name(x.as_str()) {
            let mut p: usize = 0;
            while p < sorted.len() && name_less(x.as_str(), sorted[p].as_str())
                invariant
                    p <= sorted.len(),
                    forall|k: int| 0 <= k < p ==> name_lt(x@, #[trigger] sorted@[k]@),
                decreases sorted.len() - p,
            {
                p = p + 1;
            }
            let ghost s = sorted@;
            sorted.insert(p, x);
            proof {
                let t = sorted@;
                assert(t =~= s.insert(p as int, x));
                assert forall|i: int, j: int| 0 <= i < j < t.len() implies !name_lt(
                    #[trigger] t[i]@,
                    #[trigger] t[j]@,
                ) by {
                    if j < p {
                    } else if j == p {
                        lemma_name_lt_asymmetric(x@, s[i]@);
                    } else if i < p {
                        assert(t[j] == s[j - 1]);
                    } else if i == p {
                        if j - 1 > p {
                            assert(!name_lt(s[p as int]@, s[j - 1]@));
                        }
                        lemma_name_not_lt_transitive(s[j - 1]@, s[p as int]@, x@);
                    } else {
                        assert(t[i] == s[i - 1] && t[j] == s[j - 1]);
                    }
                }
                assert(sorted@.to_multiset().add(log_names(rest@).to_multiset())
                    =~= log_names(all).to_multiset());
            }
        } else {
            proof {
                assert(sorted@.to_multiset().add(log_names(rest@).to_multiset())
                    =~= log_names(all).to_multiset());
            }
        }
    }
    proof {
        reveal_with_fuel(Seq::filter, 1);
        assert(log_names(rest@) =~= Seq::<String>::empty());
        assert(sorted@.to_multiset().add(log_names(rest@).to_multiset()) =~= sorted@.to_multiset());
    }
    sorted
}

proof fn lemma_log_names_count(s: Seq<String>, x: String)
    ensures
        log_names(s).to_multiset().count(x) == if is_log_name(x@) {
            s.to_multiset().count(x)
        } else {
            0
        },
    decreases s.len(),
{
    if s.len() == 0 {
        reveal_with_fuel(Seq::filter, 1);
    } else {
        let init = s.drop_last();
        lemma_log_names_count(init, x);
        lemma_log_names_push(init, s.last());
        assert(init.push(s.last()) =~= s);
    }
}

proof fn lemma_log_names_none(s: Seq<String>)
    requires
        forall|i: int| 0 <= i < s.len() ==> !is_log_name(#[trigger] s[i]@),
    ensures
        log_names(s).len() == 0,
    decreases s.len(),
{
    if s.len() > 0 {
        let init = s.drop_last();
        lemma_log_names_none(init);
        lemma_log_names_push(init, s.last());
        assert(init.push(s.last()) =~= s);
    } else {
        reveal_with_fuel(Seq::filter, 1);
    }
}

/// Clearing: once every listed file is deleted, none of the names left follows
/// the naming convention, so listing again yields nothing and a second clear
/// deletes nothing.
pub proof fn lemma_clear_leaves_none(names: Seq<String>, listed: Seq<String>, left: Seq<String>)
    requires
        listed.to_multiset() == log_names(names).to_multiset(),
        left.to_multiset() == names.to_multiset().sub(listed.to_multiset()),
    ensures
        forall|i: int| 0 <= i < left.len() ==> !is_log_name(#[trigger] left[i]@),
        log_names(left).len() == 0,
{
    assert forall|i: int| 0 <= i < left.len() implies !is_log_name(#[trigger] left[i]@) by {
        let x = left[i];
        assert(left.to_multiset().count(x) > 0);
        lemma_log_names_count(names, x);
    }
    lemma_log_names_none(left);
}

} // verus!
