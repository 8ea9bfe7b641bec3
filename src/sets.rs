//! Boolean rows that represent FIRST and FOLLOW sets, and the operations on
//! them.
//!
//! A row has one entry per terminal id and one more at index `n_terminals`,
//! which stands for ε in a FIRST set and for `$` in a FOLLOW set.
use vstd::prelude::*;

verus! {

/// The views of a vector of rows.
pub open spec fn rows(v: Seq<Vec<bool>>) -> Seq<Seq<bool>> {
    Seq::new(v.len(), |i: int| v[i]@)
}

/// `n` rows of `width` entries each.
pub open spec fn shaped(s: Seq<Seq<bool>>, n: int, width: int) -> bool {
    &&& s.len() == n
    &&& forall|a: int| 0 <= a < n ==> #[trigger] s[a].len() == width
}

/// Every entry set in `s1` is set in `s2`; both have the same shape.
pub open spec fn rows_le(s1: Seq<Seq<bool>>, s2: Seq<Seq<bool>>) -> bool {
    &&& s1.len() == s2.len()
    &&& forall|a: int| 0 <= a < s1.len() ==> #[trigger] s1[a].len() == s2[a].len()
    &&& forall|a: int, e: int| 0 <= a < s1.len() && 0 <= e < s1[a].len() && #[trigger] s1[a][e] ==> s2[a][e]
}

/// The number of unset entries of a row.
pub open spec fn row_false(r: Seq<bool>) -> nat
    decreases r.len(),
{
    if r.len() == 0 {
        0
    } else {
        row_false(r.drop_last()) + if r.last() { 0nat } else { 1nat }
    }
}

/// The number of unset entries of all rows.
pub open spec fn count_false(s: Seq<Seq<bool>>) -> nat
    decreases s.len(),
{
    if s.len() == 0 {
        0
    } else {
        count_false(s.drop_last()) + row_false(s.last())
    }
}

/// `n` rows of `width` unset entries.
pub open spec fn all_false(n: nat, width: nat) -> Seq<Seq<bool>> {
    Seq::new(n, |a: int| Seq::new(width, |e: int| false))
}

proof fn lemma_row_false_le(r1: Seq<bool>, r2: Seq<bool>)
    requires
        r1.len() == r2.len(),
        forall|e: int| 0 <= e < r1.len() && #[trigger] r1[e] ==> r2[e],
    ensures
        row_false(r2) <= row_false(r1),
        (exists|e: int| 0 <= e < r1.len() && r1[e] != r2[e]) ==> row_false(r2) < row_false(r1),
    decreases r1.len(),
{
    if r1.len() > 0 {
        let (d1, d2) = (r1.drop_last(), r2.drop_last());
        assert forall|e: int| 0 <= e < d1.len() && #[trigger] d1[e] implies d2[e] by {
            assert(r1[e]);
        }
        lemma_row_false_le(d1, d2);
        if exists|e: int| 0 <= e < r1.len() && r1[e] != r2[e] {
            let e = choose|e: int| 0 <= e < r1.len() && r1[e] != r2[e];
            if e < d1.len() {
                assert(d1[e] != d2[e]);
            }
        }
    }
}

/// Growing a set of rows that changes strictly lowers the number of unset
/// entries.
pub proof fn lemma_count_false_le(s1: Seq<Seq<bool>>, s2: Seq<Seq<bool>>)
    requires
        rows_le(s1, s2),
    ensures
        count_false(s2) <= count_false(s1),
        s1 != s2 ==> count_false(s2) < count_false(s1),
    decreases s1.len(),
{
    if s1.len() == 0 {
        assert(s1 =~= s2);
    } else {
        let (d1, d2) = (s1.drop_last(), s2.drop_last());
        let l = s1.len() - 1;
        assert(rows_le(d1, d2)) by {
            assert forall|a: int, e: int| 0 <= a < d1.len() && 0 <= e < d1[a].len() && #[trigger] d1[a][e] implies d2[a][e] by {
                assert(s1[a][e]);
            }
        }
        lemma_count_false_le(d1, d2);
        assert forall|e: int| 0 <= e < s1.last().len() && #[trigger] s1.last()[e] implies s2.last()[e] by {
            assert(s1[l][e]);
        }
        lemma_row_false_le(s1.last(), s2.last());
        if s1 != s2 {
            if d1 == d2 {
                assert(s1.last() != s2.last()) by {
                    if s1.last() == s2.last() {
                        assert(s1 =~= d1.push(s1.last()));
                        assert(s2 =~= d2.push(s2.last()));
                    }
                }
                assert(exists|e: int| 0 <= e < s1.last().len() && s1.last()[e] != s2.last()[e]) by {
                    if !exists|e: int| 0 <= e < s1.last().len() && s1.last()[e] != s2.last()[e] {
                        assert(s1.last() =~= s2.last());
                    }
                }
            }
        }
    }
}

/// `rows_le` is transitive.
pub proof fn lemma_rows_le_trans(s1: Seq<Seq<bool>>, s2: Seq<Seq<bool>>, s3: Seq<Seq<bool>>)
    requires
        rows_le(s1, s2),
        rows_le(s2, s3),
    ensures
        rows_le(s1, s3),
{
    assert forall|a: int, e: int| 0 <= a < s1.len() && 0 <= e < s1[a].len() && #[trigger] s1[a][e] implies s3[a][e] by {
        assert(s2[a][e]);
    }
}

/// The empty sets lie below any sets of the same shape.
pub proof fn lemma_all_false_le(s: Seq<Seq<bool>>, n: nat, width: nat)
    requires
        s.len() == n,
        forall|a: int| 0 <= a < n ==> #[trigger] s[a].len() == width,
    ensures
        rows_le(all_false(n, width), s),
{
}

/// A row of `width` unset entries.
pub fn empty_row(width: usize) -> (r: Vec<bool>)
    ensures
        r@ == Seq::new(width as nat, |e: int| false),
{
    let mut r: Vec<bool> = Vec::new();
    let mut i: usize = 0;
    while i < width
        invariant
            i <= width,
            r@ == Seq::new(i as nat, |e: int| false),
        decreases width - i,
    {
        r.push(false);
        i += 1;
        proof {
            assert(r@ =~= Seq::new(i as nat, |e: int| false));
        }
    }
    r
}

/// A copy of `src`.
pub fn copy_row(src: &Vec<bool>) -> (r: Vec<bool>)
    ensures
        r@ == src@,
{
    let mut r: Vec<bool> = Vec::new();
    let mut i: usize = 0;
    while i < src.len()
        invariant
            i <= src.len(),
            r@ == src@.subrange(0, i as int),
        decreases src.len() - i,
    {
        r.push(src[i]);
        i += 1;
        proof {
            assert(r@ =~= src@.subrange(0, i as int));
        }
    }
    proof {
        assert(src@.subrange(0, src@.len() as int) =~= src@);
    }
    r
}

/// Sets in `dst` every entry set in `src`, but the last one when `skip_last`.
pub fn or_into(dst: &mut Vec<bool>, src: &Vec<bool>, skip_last: bool)
    requires
        old(dst)@.len() == src@.len(),
    ensures
        final(dst)@.len() == src@.len(),
        forall|e: int| 0 <= e < src@.len() ==> #[trigger] final(dst)@[e] == (old(dst)@[e] || (src@[e]
            && !(skip_last && e == src@.len() - 1))),
{
    let n = src.len();
    let mut i: usize = 0;
    while i < n
        invariant
            n == src@.len(),
            i <= n,
            dst@.len() == n,
            forall|e: int| 0 <= e < i ==> #[trigger] dst@[e] == (old(dst)@[e] || (src@[e]
                && !(skip_last && e == n - 1))),
            forall|e: int| i <= e < n ==> #[trigger] dst@[e] == old(dst)@[e],
        decreases n - i,
    {
        if src[i] && !(skip_last && i == n - 1) {
            dst.set(i, true);
        }
        i += 1;
    }
}

/// Whether two row vectors are equal.
pub fn rows_equal(a: &Vec<Vec<bool>>, b: &Vec<Vec<bool>>) -> (r: bool)
    ensures
        r == (rows(a@) == rows(b@)),
{
    if a.len() != b.len() {
        proof {
            assert(rows(a@).len() != rows(b@).len());
        }
        return false;
    }
    let mut i: usize = 0;
    while i < a.len()
        invariant
            a.len() == b.len(),
            i <= a.len(),
            forall|k: int| 0 <= k < i ==> #[trigger] a@[k]@ == b@[k]@,
        decreases a.len() - i,
    {
        if a[i].len() != b[i].len() {
            proof {
                assert(rows(a@)[i as int] != rows(b@)[i as int]);
            }
            return false;
        }
        let mut j: usize = 0;
        while j < a[i].len()
            invariant
                a.len() == b.len(),
                i < a.len(),
                a@[i as int]@.len() == b@[i as int]@.len(),
                j <= a@[i as int]@.len(),
                forall|e: int| 0 <= e < j ==> #[trigger] a@[i as int]@[e] == b@[i as int]@[e],
            decreases a@[i as int]@.len() - j,
        {
            if a[i][j] != b[i][j] {
                proof {
                    assert(rows(a@)[i as int][j as int] != rows(b@)[i as int][j as int]);
                }
                return false;
            }
            j += 1;
        }
        proof {
            assert(a@[i as int]@ =~= b@[i as int]@);
        }
        i += 1;
    }
    proof {
        assert(rows(a@) =~= rows(b@)) by {
            assert forall|k: int| 0 <= k < a@.len() implies rows(a@)[k] == rows(b@)[k] by {
                assert(a@[k]@ == b@[k]@);
            }
        }
    }
    true
}

/// `n` rows of `width` unset entries.
pub fn empty_rows(n: usize, width: usize) -> (r: Vec<Vec<bool>>)
    ensures
        rows(r@) == all_false(n as nat, width as nat),
{
    let mut r: Vec<Vec<bool>> = Vec::new();
    let mut i: usize = 0;
    while i < n
        invariant
            i <= n,
            rows(r@) == all_false(i as nat, width as nat),
        decreases n - i,
    {
        let row = empty_row(width);
        let ghost r0 = r@;
        r.push(row);
        i += 1;
        proof {
            assert(r@ == r0.push(row));
            assert(rows(r0).len() == r0.len());
            assert(rows(r0) == all_false((i - 1) as nat, width as nat));
            assert(r0.len() == i - 1);
            assert(rows(r@) =~= all_false(i as nat, width as nat)) by {
                assert forall|k: int| 0 <= k < i implies rows(r@)[k] == all_false(i as nat, width as nat)[k] by {
                    if k < i - 1 {
                        assert(rows(r0)[k] == r0[k]@);
                        assert(all_false((i - 1) as nat, width as nat)[k] =~= all_false(i as nat, width as nat)[k]);
                    } else {
                        assert(r@[k] == row);
                        assert(rows(r@)[k] =~= all_false(i as nat, width as nat)[k]);
                    }
                }
            }
        }
    }
    r
}

} // verus!
