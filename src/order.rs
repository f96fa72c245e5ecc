use vstd::prelude::*;
use vstd::string::*;

verus! {

/// Strict lexicographic order on names, character by character (the order
/// of `str`'s `Ord`, which compares code points).
pub open spec fn name_lt(a: Seq<char>, b: Seq<char>) -> bool
    decreases a.len(),
{
    if a.len() == 0 {
        b.len() > 0
    } else if b.len() == 0 {
        false
    } else if a[0] != b[0] {
        (a[0] as int) < (b[0] as int)
    } else {
        name_lt(a.drop_first(), b.drop_first())
    }
}

pub proof fn lemma_name_lt_irreflexive(a: Seq<char>)
    ensures
        !name_lt(a, a),
    decreases a.len(),
{
    if a.len() > 0 {
        lemma_name_lt_irreflexive(a.drop_first());
    }
}

pub proof fn lemma_name_lt_asymmetric(a: Seq<char>, b: Seq<char>)
    ensures
        name_lt(a, b) ==> !name_lt(b, a),
    decreases a.len(),
{
    if a.len() > 0 && b.len() > 0 && a[0] == b[0] {
        lemma_name_lt_asymmetric(a.drop_first(), b.drop_first());
    }
}

pub proof fn lemma_name_lt_transitive(a: Seq<char>, b: Seq<char>, c: Seq<char>)
    ensures
        name_lt(a, b) && name_lt(b, c) ==> name_lt(a, c),
    decreases a.len(),
{
    if a.len() > 0 && b.len() > 0 && c.len() > 0 {
        lemma_name_lt_transitive(a.drop_first(), b.drop_first(), c.drop_first());
    }
}

pub proof fn lemma_name_lt_total(a: Seq<char>, b: Seq<char>)
    ensures
        a != b ==> name_lt(a, b) || name_lt(b, a),
    decreases a.len(),
{
    if a.len() > 0 && b.len() > 0 && a[0] == b[0] {
        lemma_name_lt_total(a.drop_first(), b.drop_first());
        if a.drop_first() == b.drop_first() {
            assert(a =~= seq![a[0]] + a.drop_first());
            assert(b =~= seq![b[0]] + b.drop_first());
        }
    } else if a.len() == 0 && b.len() == 0 {
        assert(a =~= b);
    } else if a.len() > 0 && b.len() > 0 {
        assert((a[0] as int) != (b[0] as int));
    }
}

/// Not being above is transitive.
pub proof fn lemma_name_not_lt_transitive(a: Seq<char>, b: Seq<char>, c: Seq<char>)
    ensures
        !name_lt(b, a) && !name_lt(c, b) ==> !name_lt(c, a),
{
    lemma_name_lt_total(a, b);
    lemma_name_lt_total(b, c);
    lemma_name_lt_transitive(a, b, c);
    lemma_name_lt_asymmetric(a, c);
    lemma_name_lt_irreflexive(a);
}

proof fn lemma_name_lt_skip(a: Seq<char>, b: Seq<char>, i: int)
    requires
        0 <= i <= a.len(),
        i <= b.len(),
        forall|k: int| 0 <= k < i ==> a[k] == b[k],
    ensures
        name_lt(a, b) == name_lt(a.subrange(i, a.len() as int), b.subrange(i, b.len() as int)),
    decreases i,
{
    if i > 0 {
        lemma_name_lt_skip(a.drop_first(), b.drop_first(), i - 1);
        assert(a.drop_first().subrange(i - 1, a.len() - 1) =~= a.subrange(i, a.len() as int));
        assert(b.drop_first().subrange(i - 1, b.len() - 1) =~= b.subrange(i, b.len() as int));
    } else {
        assert(a.subrange(0, a.len() as int) =~= a);
        assert(b.subrange(0, b.len() as int) =~= b);
    }
}

/// Whether `a` comes strictly before `b` in lexicographic order.
pub fn name_less(a: &str, b: &str) -> (r: bool)
    ensures
        r == name_lt(a@, b@),
{
    let an = a.unicode_len();
    let bn = b.unicode_len();
    let mut i: usize = 0;
    while i < an && i < bn
        invariant
            an == a@.len(),
            bn == b@.len(),
            i <= an,
            i <= bn,
            forall|k: int| 0 <= k < i ==> a@[k] == b@[k],
        decreases an - i,
    {
        let ca = a.get_char(i);
        let cb = b.get_char(i);
        if ca != cb {
            proof {
                lemma_name_lt_skip(a@, b@, i as int);
                let sa = a@.subrange(i as int, an as int);
                assert(sa[0] == ca);
            }
            return (ca as u32) < (cb as u32);
        }
        i = i + 1;
    }
    proof {
        lemma_name_lt_skip(a@, b@, i as int);
    }
    i < bn
}

} // verus!
