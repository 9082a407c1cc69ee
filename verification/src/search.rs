//! Brute-force byte-pattern search: every match offset, overlaps included.

use vstd::prelude::*;

verus! {

/// Whether the pattern occurs in the buffer at offset `i`.
pub open spec fn matches_at(buf: Seq<u8>, pat: Seq<u8>, i: int) -> bool {
    &&& 0 <= i
    &&& i + pat.len() <= buf.len()
    &&& buf.subrange(i, i + pat.len()) == pat
}

/// Whether the buffer bytes starting at `i` equal the pattern.
fn range_eq(buf: &[u8], i: usize, pat: &[u8]) -> (r: bool)
    requires
        i + pat@.len() <= buf@.len(),
    ensures
        r == matches_at(buf@, pat@, i as int),
{
    let m = pat.len();
    let n = buf.len();
    let mut j: usize = 0;
    while j < m
        invariant
            j <= m == pat@.len(),
            i + m <= n == buf@.len(),
            forall|k: int| 0 <= k < j ==> buf@[i + k] == pat@[k],
        decreases m - j,
    {
        if buf[i + j] != pat[j] {
            proof {
                assert(buf@.subrange(i as int, i + pat@.len())[j as int] != pat@[j as int]);
            }
            return false;
        }
        j += 1;
    }
    proof {
        assert(buf@.subrange(i as int, i + pat@.len()) =~= pat@);
    }
    true
}

/// Every offset at which the pattern occurs in the buffer, in ascending
/// order, overlapping occurrences included.  An empty pattern yields no
/// matches.
pub fn find_matches(buf: &[u8], pat: &[u8]) -> (r: Vec<usize>)
    ensures
        forall|k: int| 0 <= k < r@.len() ==> matches_at(buf@, pat@, r@[k] as int),
        forall|k1: int, k2: int| 0 <= k1 < k2 < r@.len() ==> r@[k1] < r@[k2],
        pat@.len() > 0 ==> (forall|i: usize|
            matches_at(buf@, pat@, i as int) ==> #[trigger] r@.contains(i)),
        pat@.len() == 0 ==> r@ == Seq::<usize>::empty(),
{
    let mut r: Vec<usize> = Vec::new();
    let m = pat.len();
    let n = buf.len();
    if m == 0 || m > n {
        proof {
            assert(r@ =~= Seq::<usize>::empty());
        }
        return r;
    }
    let mut i: usize = 0;
    while i <= n - m
        invariant
            0 < m <= n == buf@.len(),
            m == pat@.len(),
            i <= n - m + 1,
            forall|k: int| 0 <= k < r@.len() ==> matches_at(buf@, pat@, r@[k] as int),
            forall|k: int| 0 <= k < r@.len() ==> r@[k] < i,
            forall|k1: int, k2: int| 0 <= k1 < k2 < r@.len() ==> r@[k1] < r@[k2],
            forall|i0: usize|
                i0 < i && matches_at(buf@, pat@, i0 as int) ==> #[trigger] r@.contains(i0),
        decreases n - m - i + 1,
    {
        if range_eq(buf, i, pat) {
            let ghost old_r = r@;
            r.push(i);
            proof {
                assert forall|i0: usize|
                    i0 < i + 1 && matches_at(buf@, pat@, i0 as int) implies #[trigger] r@.contains(
                    i0,
                ) by {
                    if i0 < i {
                        assert(old_r.contains(i0));
                        let k = choose|k: int| 0 <= k < old_r.len() && old_r[k] == i0;
                        assert(r@[k] == i0);
                    } else {
                        assert(r@[r@.len() - 1] == i0);
                    }
                }
            }
        } else {
            proof {
                assert forall|i0: usize|
                    i0 < i + 1 && matches_at(buf@, pat@, i0 as int) implies #[trigger] r@.contains(
                    i0,
                ) by {
                    assert(i0 < i || i0 == i);
                }
            }
        }
        i += 1;
    }
    proof {
        assert forall|i0: usize| matches_at(buf@, pat@, i0 as int) implies #[trigger] r@.contains(
            i0,
        ) by {
            assert(i0 + pat@.len() <= buf@.len());
            assert(i0 < (n - m + 1) as usize);
        }
    }
    r
}

} // verus!
