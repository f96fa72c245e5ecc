use vstd::prelude::*;
use vstd::string::*;

verus! {

/// Drops the `\r` of a `\r\n` line ending.
pub open spec fn strip_cr(l: Seq<char>) -> Seq<char> {
    if l.len() > 0 && l.last() == '\r' {
        l.drop_last()
    } else {
        l
    }
}

/// Splitting the first `i` characters of `s` at `\n`: the lines ended so far
/// and the line under way.
pub open spec fn split_prefix(s: Seq<char>, i: nat) -> (Seq<Seq<char>>, Seq<char>)
    decreases i,
{
    if i == 0 || i > s.len() {
        (Seq::empty(), Seq::empty())
    } else {
        let (done, cur) = split_prefix(s, (i - 1) as nat);
        if s[i - 1] == '\n' {
            (done.push(strip_cr(cur)), Seq::empty())
        } else {
            (done, cur.push(s[i - 1]))
        }
    }
}

/// The lines of `s`: split at `\n`, a `\r` before a `\n` dropped, a last
/// line counted only when it is not empty.
pub open spec fn lines_of(s: Seq<char>) -> Seq<Seq<char>> {
    let (done, cur) = split_prefix(s, s.len());
    if cur.len() > 0 {
        done.push(cur)
    } else {
        done
    }
}

/// Lines joined with `\n` between them.
pub open spec fn join_lines(ls: Seq<Seq<char>>) -> Seq<char>
    decreases ls.len(),
{
    if ls.len() == 0 {
        Seq::empty()
    } else if ls.len() == 1 {
        ls[0]
    } else {
        join_lines(ls.drop_last()) + seq!['\n'] + ls.last()
    }
}

/// The last `n` of `ls`, or all of them where there are fewer.
pub open spec fn last_lines(ls: Seq<Seq<char>>, n: nat) -> Seq<Seq<char>> {
    if ls.len() <= n {
        ls
    } else {
        ls.subrange(ls.len() - n, ls.len() as int)
    }
}

/// A tail read keeps the last `n` lines, in their order: exactly `n` of them
/// where there are at least `n`, and every line where there are fewer.
pub proof fn lemma_last_lines(ls: Seq<Seq<char>>, n: nat)
    ensures
        ls.len() >= n ==> last_lines(ls, n).len() == n,
        ls.len() < n ==> last_lines(ls, n) == ls,
        forall|i: int|
            0 <= i < last_lines(ls, n).len() ==> #[trigger] last_lines(ls, n)[i] == ls[ls.len()
                - last_lines(ls, n).len() + i],
{
}

/// What a read returns for a file holding `content`.
pub open spec fn tail_view(content: Seq<char>, max_lines: Option<usize>) -> Seq<char> {
    match max_lines {
        None => content,
        Some(n) => join_lines(last_lines(lines_of(content), n as nat)),
    }
}

/// The characters of each line.
pub open spec fn line_views(v: Seq<Vec<char>>) -> Seq<Seq<char>> {
    Seq::new(v.len(), |i: int| v[i]@)
}

/// Relies on `String`'s `FromIterator<&char>`: the string holds the
/// characters in order.
#[verifier::external_body]
fn string_from_chars(v: &Vec<char>) -> (r: String)
    ensures
        r@ == v@,
{
    String::from_iter(v.iter())
}

fn chars_of(s: &str) -> (r: Vec<char>)
    ensures
        r@ == s@,
{
    let mut r: Vec<char> = Vec::new();
    for c in it: s.chars()
        invariant
            r@ == it.seq().subrange(0, it.index() as int),
    {
        r.push(c);
    }
    r
}

/// The text a read returns: the whole content, or with `Some(n)` its last
/// `n` lines joined by `\n` (all of them where there are fewer).
pub fn read_tail(content: &str, max_lines: Option<usize>) -> (r: String)
    ensures
        r@ == tail_view(content@, max_lines),
{
    match max_lines {
        None => String::from_str(content),
        Some(n) => {
            let cs = chars_of(content);
            let total = cs.len();
            let mut done: Vec<Vec<char>> = Vec::new();
            let mut cur: Vec<char> = Vec::new();
            let mut i: usize = 0;
            while i < total
                invariant
                    total == cs@.len(),
                    cs@ == content@,
                    i <= total,
                    (line_views(done@), cur@) == split_prefix(cs@, i as nat),
                decreases total - i,
            {
                let c = cs[i];
                if c == '\n' {
                    let ghost before = line_views(done@);
                    let ghost cur_before = cur@;
                    if cur.len() > 0 && cur[cur.len() - 1] == '\r' {
                        cur.pop();
                    }
                    let finished = cur;
                    done.push(finished);
                    cur = Vec::new();
                    proof {
                        assert(line_views(done@) =~= before.push(strip_cr(cur_before)));
                    }
                } else {
                    cur.push(c);
                }
                i = i + 1;
            }
            if cur.len() > 0 {
                let ghost before = line_views(done@);
                let ghost last = cur@;
                done.push(cur);
                proof {
                    assert(line_views(done@) =~= before.push(last));
                }
            }
            let ghost all = line_views(done@);
            assert(all == lines_of(content@));
            let count = done.len();
            let start: usize = if count <= n { 0 } else { count - n };
            proof {
                assert(last_lines(all, n as nat) =~= all.subrange(start as int, count as int));
            }
            let mut out: Vec<char> = Vec::new();
            let mut k: usize = start;
            while k < count
                invariant
                    count == done.len(),
                    all == line_views(done@),
                    start <= k <= count,
                    out@ == join_lines(all.subrange(start as int, k as int)),
                decreases count - k,
            {
                proof {
                    let part = all.subrange(start as int, k + 1);
                    assert(part.drop_last() =~= all.subrange(start as int, k as int));
                    assert(part.last() == done[k as int]@);
                }
                if k > start {
                    out.push('\n');
                }
                let line = &done[k];
                let mut j: usize = 0;
                let ghost base = out@;
                while j < line.len()
                    invariant
                        j <= line.len(),
                        out@ == base + line@.subrange(0, j as int),
                    decreases line.len() - j,
                {
                    out.push(line[j]);
                    j = j + 1;
                }
                proof {
                    assert(line@.subrange(0, j as int) =~= line@);
                    let part = all.subrange(start as int, k + 1);
                    if k == start {
                        assert(out@ =~= part[0]);
                    } else {
                        assert(out@ =~= join_lines(part.drop_last()) + seq!['\n'] + part.last());
                    }
                }
                k = k + 1;
            }
            string_from_chars(&out)
        },
    }
}

} // verus!
