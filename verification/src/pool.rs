//! The answer of the parallel per-file hash, assembled from its workers' reports.
//!
//! Each worker pulls indices from one shared counter, hashes the file at each, and reports the
//! files it finished and the index it failed on, if any. The pool then answers as a serial
//! loop would: the first failing index when any file failed, else every file in ascending
//! index order, so the caller folds the digests in exactly the order of its path list.

use vstd::prelude::*;
use vstd::multiset::Multiset;
use vstd::seq_lib::*;

verus! {

/// Everything the workers hashed, worker after worker, each in the order it hashed:
/// `(index, sha256, length)` per file.
pub open spec fn joined(reports: Seq<Vec<(usize, [u8; 32], u64)>>) -> Seq<(usize, [u8; 32], u64)>
    decreases reports.len(),
{
    if reports.len() == 0 {
        seq![]
    } else {
        joined(reports.drop_last()) + reports.last()@
    }
}

/// The entries are in ascending index order.
pub open spec fn index_sorted(s: Seq<(usize, [u8; 32], u64)>) -> bool {
    forall|i: int, j: int| 0 <= i <= j < s.len() ==> s[i].0 <= s[j].0
}

/// The least index any worker failed on, or `None` when none failed.
pub open spec fn least_failure(failed: Seq<Option<usize>>) -> Option<usize>
    decreases failed.len(),
{
    if failed.len() == 0 {
        None
    } else {
        match (least_failure(failed.drop_last()), failed.last()) {
            (Some(a), Some(b)) => Some(if a <= b { a } else { b }),
            (Some(a), None) => Some(a),
            (None, b) => b,
        }
    }
}

/// Inserts `e` into the index-sorted `out`, after every entry whose index is not greater.
fn insert_by_index(out: &mut Vec<(usize, [u8; 32], u64)>, e: (usize, [u8; 32], u64))
    requires
        index_sorted(old(out)@),
    ensures
        index_sorted(final(out)@),
        final(out)@.to_multiset() == old(out)@.to_multiset().insert(e),
{
    let mut p = out.len();
    while p > 0 && out[p - 1].0 > e.0
        invariant
            p <= out@.len(),
            index_sorted(out@),
            forall|j: int| p <= j < out@.len() ==> out@[j].0 > e.0,
        decreases p,
    {
        p = p - 1;
    }
    let ghost s = out@;
    out.insert(p, e);
    proof {
        s.insert_ensures(p as int, e);
        to_multiset_insert(s, p as int, e);
        let t = out@;
        assert forall|i: int, j: int| 0 <= i <= j < t.len() implies t[i].0 <= t[j].0 by {
            if i < p && j < p {
            } else if i < p && j == p {
                assert(s[i].0 <= s[p - 1].0);
            } else if i < p {
                assert(t[j] == s[j - 1]);
            } else if i == p && j > p {
                assert(t[j] == s[j - 1]);
            } else if i > p {
                assert(t[i] == s[i - 1]);
                assert(t[j] == s[j - 1]);
            }
        }
    }
}

/// The pool's answer from its workers' reports: `done[w]` holds the `(index, sha256, length)`
/// of each file worker `w` finished and `failed[w]` the index it failed on. When any worker
/// failed, the least failing index; otherwise every hashed file, in ascending index order.
pub fn gather_pool(
    done: &Vec<Vec<(usize, [u8; 32], u64)>>,
    failed: &Vec<Option<usize>>,
) -> (r: Result<Vec<(usize, [u8; 32], u64)>, usize>)
    ensures
        match least_failure(failed@) {
            Some(i) => r == Err::<Vec<(usize, [u8; 32], u64)>, usize>(i),
            None => match r {
                Ok(v) => {
                    &&& index_sorted(v@)
                    &&& v@.to_multiset() == joined(done@).to_multiset()
                    &&& distinct_indices(joined(done@)) ==> v@ == index_order(joined(done@).to_multiset())
                },
                Err(_) => false,
            },
        },
{
    let mut first: Option<usize> = None;
    let mut w: usize = 0;
    while w < failed.len()
        invariant
            w <= failed@.len(),
            first == least_failure(failed@.take(w as int)),
        decreases failed@.len() - w,
    {
        assert(failed@.take(w + 1).drop_last() =~= failed@.take(w as int));
        match failed[w] {
            Some(idx) => {
                first = match first {
                    Some(seen) => if seen <= idx { Some(seen) } else { Some(idx) },
                    None => Some(idx),
                };
            },
            None => {},
        }
        w = w + 1;
    }
    assert(failed@.take(failed@.len() as int) =~= failed@);
    if let Some(idx) = first {
        return Err(idx);
    }
    let mut out: Vec<(usize, [u8; 32], u64)> = Vec::new();
    let mut k: usize = 0;
    while k < done.len()
        invariant
            k <= done@.len(),
            index_sorted(out@),
            out@.to_multiset() == joined(done@.take(k as int)).to_multiset(),
        decreases done@.len() - k,
    {
        let report = &done[k];
        let mut m: usize = 0;
        while m < report.len()
            invariant
                k < done@.len(),
                *report == done@[k as int],
                m <= report@.len(),
                index_sorted(out@),
                out@.to_multiset() == (joined(done@.take(k as int)) + report@.take(m as int)).to_multiset(),
            decreases report@.len() - m,
        {
            let e = report[m];
            insert_by_index(&mut out, e);
            proof {
                let a = joined(done@.take(k as int)) + report@.take(m as int);
                assert(a.push(e) =~= joined(done@.take(k as int)) + report@.take(m + 1));
                to_multiset_build(a, e);
            }
            m = m + 1;
        }
        proof {
            assert(report@.take(report@.len() as int) =~= report@);
            assert(done@.take(k + 1).drop_last() =~= done@.take(k as int));
        }
        k = k + 1;
    }
    assert(done@.take(done@.len() as int) =~= done@);
    proof {
        if distinct_indices(joined(done@)) {
            lemma_the_index_order(out@, joined(done@));
        }
    }
    Ok(out)
}


/// No two entries share an index.
pub open spec fn distinct_indices(s: Seq<(usize, [u8; 32], u64)>) -> bool {
    forall|i: int, j: int| 0 <= i < s.len() && 0 <= j < s.len() && i != j ==> s[i].0 != s[j].0
}

/// The index-ordered arrangement of a set of hashed entries.
pub open spec fn index_order(m: Multiset<(usize, [u8; 32], u64)>) -> Seq<(usize, [u8; 32], u64)> {
    choose|s: Seq<(usize, [u8; 32], u64)>| index_sorted(s) && s.to_multiset() == m
}

/// Two index-ordered arrangements of the same entries are one sequence when no two of the
/// entries (as `c` holds them) share an index.
pub proof fn lemma_sorted_arrangements_agree(
    a: Seq<(usize, [u8; 32], u64)>,
    b: Seq<(usize, [u8; 32], u64)>,
    c: Seq<(usize, [u8; 32], u64)>,
)
    requires
        index_sorted(a),
        index_sorted(b),
        a.to_multiset() == b.to_multiset(),
        c.to_multiset() == a.to_multiset(),
        distinct_indices(c),
    ensures
        a == b,
    decreases a.len(),
{
    broadcast use group_to_multiset_ensures;
    if a.len() == 0 {
        assert(b.to_multiset().len() == 0);
        assert(b.len() == 0);
        assert(a =~= b);
    } else {
        assert(b.to_multiset().len() == a.len());
        assert(b.len() > 0);
        assert(a.to_multiset().count(a[0]) > 0);
        assert(b.contains(a[0]));
        let j = choose|j: int| 0 <= j < b.len() && b[j] == a[0];
        assert(b.to_multiset().count(b[0]) > 0);
        assert(a.contains(b[0]));
        let i = choose|i: int| 0 <= i < a.len() && a[i] == b[0];
        assert(b[0].0 <= b[j].0);
        assert(a[0].0 <= a[i].0);
        assert(a[0].0 == b[0].0);
        assert(c.to_multiset().count(a[0]) > 0);
        assert(c.contains(a[0]));
        let p = choose|p: int| 0 <= p < c.len() && c[p] == a[0];
        if a[0] != b[0] {
            assert(c.to_multiset().count(b[0]) > 0);
            assert(c.contains(b[0]));
            let q = choose|q: int| 0 <= q < c.len() && c[q] == b[0];
            assert(p != q);
            assert(c[p].0 == c[q].0);
        }
        assert(a[0] == b[0]);
        to_multiset_remove(a, 0);
        to_multiset_remove(b, 0);
        to_multiset_remove(c, p);
        assert(a.remove(0) =~= a.drop_first());
        assert(b.remove(0) =~= b.drop_first());
        let a2 = a.drop_first();
        let b2 = b.drop_first();
        let c2 = c.remove(p);
        assert forall|x: int, y: int| 0 <= x <= y < a2.len() implies a2[x].0 <= a2[y].0 by {
            assert(a2[x] == a[x + 1]);
            assert(a2[y] == a[y + 1]);
        }
        assert forall|x: int, y: int| 0 <= x <= y < b2.len() implies b2[x].0 <= b2[y].0 by {
            assert(b2[x] == b[x + 1]);
            assert(b2[y] == b[y + 1]);
        }
        assert forall|x: int, y: int| 0 <= x < c2.len() && 0 <= y < c2.len() && x != y implies c2[x].0 != c2[y].0 by {
            let x0 = if x < p { x } else { x + 1 };
            let y0 = if y < p { y } else { y + 1 };
            assert(c2[x] == c[x0]);
            assert(c2[y] == c[y0]);
        }
        lemma_sorted_arrangements_agree(a2, b2, c2);
        assert(a.len() == b.len());
        assert forall|k: int| 0 <= k < a.len() implies a[k] == b[k] by {
            if k > 0 {
                assert(a[k] == a2[k - 1]);
                assert(b[k] == b2[k - 1]);
            }
        }
        assert(a =~= b);
    }
}

/// An index-ordered arrangement of entries no two of which share an index is their
/// [`index_order`].
pub proof fn lemma_the_index_order(s: Seq<(usize, [u8; 32], u64)>, c: Seq<(usize, [u8; 32], u64)>)
    requires
        index_sorted(s),
        s.to_multiset() == c.to_multiset(),
        distinct_indices(c),
    ensures
        s == index_order(c.to_multiset()),
{
    let o = index_order(c.to_multiset());
    assert(index_sorted(o) && o.to_multiset() == c.to_multiset());
    lemma_sorted_arrangements_agree(s, o, c);
}

/// THE POOL'S ANSWER DOES NOT DEPEND ON THE SPLIT: when no file was hashed twice, any two
/// answers that [`gather_pool`] can give (index-ordered, holding exactly the entries of the
/// reports) for two sets of reports holding the same entries are the same sequence, however
/// many workers there were and whichever worker took which file.
pub proof fn the_answer_ignores_how_the_files_were_split(
    d1: Seq<Vec<(usize, [u8; 32], u64)>>,
    d2: Seq<Vec<(usize, [u8; 32], u64)>>,
    r1: Seq<(usize, [u8; 32], u64)>,
    r2: Seq<(usize, [u8; 32], u64)>,
)
    requires
        joined(d1).to_multiset() == joined(d2).to_multiset(),
        distinct_indices(joined(d1)),
        index_sorted(r1),
        r1.to_multiset() == joined(d1).to_multiset(),
        index_sorted(r2),
        r2.to_multiset() == joined(d2).to_multiset(),
    ensures
        r1 == r2,
{
    lemma_sorted_arrangements_agree(r1, r2, joined(d1));
}

} // verus!
