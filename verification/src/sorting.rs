//! Stable sort of fixes by time: an insertion sort over (time, source
//! index) pairs. The rearrangement is returned as a witness sequence, so a
//! caller's contract can say both that the result is time-ordered and that
//! fixes with equal times keep their source order.

use vstd::prelude::*;
use crate::timepoint::{TimePoint, sorted_by_time};

verus! {

/// `p` maps each position of `b` back to a distinct position of `a`
/// holding the same element: `b` is a rearrangement of `a`.
pub open spec fn is_perm_witness(a: Seq<TimePoint>, b: Seq<TimePoint>, p: Seq<int>) -> bool {
    &&& p.len() == a.len()
    &&& b.len() == a.len()
    &&& forall|k: int| 0 <= k < p.len() ==> 0 <= #[trigger] p[k] < a.len()
    &&& forall|k1: int, k2: int| 0 <= k1 < k2 < p.len() ==> p[k1] != p[k2]
    &&& forall|k: int| 0 <= k < p.len() ==> b[k] == a[#[trigger] p[k]]
}

/// A rearrangement witness for a stable time sort: positions whose times
/// are equal keep their source order.
pub open spec fn is_stable_sort_witness(a: Seq<TimePoint>, b: Seq<TimePoint>, p: Seq<int>) -> bool {
    &&& is_perm_witness(a, b, p)
    &&& forall|k1: int, k2: int|
        0 <= k1 < k2 < b.len() && b[k1].time == b[k2].time ==> p[k1] < p[k2]
}

/// Order on (source index, fix) pairs: by time, then by source index.
pub open spec fn lex_le(a: (usize, TimePoint), b: (usize, TimePoint)) -> bool {
    ||| a.1.time < b.1.time
    ||| (a.1.time == b.1.time && a.0 <= b.0)
}

/// Strict reverse of `lex_le`: `a` sorts strictly after `b`.
fn lex_gt(a: &(usize, TimePoint), b: &(usize, TimePoint)) -> (r: bool)
    ensures
        r == !lex_le(*a, *b),
{
    a.1.time > b.1.time || (a.1.time == b.1.time && a.0 > b.0)
}

/// Sorts fixes ascending by time, stably: equal times keep source order.
pub fn sort_points(v: &Vec<TimePoint>) -> (r: Vec<TimePoint>)
    ensures
        sorted_by_time(r@),
        exists|p: Seq<int>| is_stable_sort_witness(v@, r@, p),
{
    let n: usize = v.len();
    let mut pairs: Vec<(usize, TimePoint)> = Vec::new();
    let mut k: usize = 0;
    while k < n
        invariant
            n == v@.len(),
            k <= n,
            pairs@.len() == k,
            forall|j: int| 0 <= j < k ==> #[trigger] pairs@[j] == (j as usize, v@[j]),
        decreases n - k,
    {
        pairs.push((k, v[k]));
        k += 1;
    }
    let mut i: usize = 1;
    while i < n
        invariant
            n == v@.len(),
            pairs@.len() == n,
            1 <= i,
            n == 0 || i <= n,
            forall|j: int| 0 <= j < n
                ==> (#[trigger] pairs@[j]).0 < n && pairs@[j].1 == v@[pairs@[j].0 as int],
            forall|j1: int, j2: int| 0 <= j1 < j2 < n
                ==> (#[trigger] pairs@[j1]).0 != (#[trigger] pairs@[j2]).0,
            forall|j1: int, j2: int| 0 <= j1 <= j2 < i && j2 < n
                ==> lex_le(#[trigger] pairs@[j1], #[trigger] pairs@[j2]),
        decreases n - i,
    {
        let x: (usize, TimePoint) = pairs[i];
        let ghost snap: Seq<(usize, TimePoint)> = pairs@;
        let mut j: usize = i;
        while j > 0 && lex_gt(&pairs[j - 1], &x)
            invariant
                j <= i < n,
                n == pairs@.len(),
                n == snap.len(),
                x == snap[i as int],
                forall|k2: int| 0 <= k2 < j ==> #[trigger] pairs@[k2] == snap[k2],
                forall|k2: int| j < k2 <= i ==> #[trigger] pairs@[k2] == snap[k2 - 1],
                forall|k2: int| i < k2 < n ==> #[trigger] pairs@[k2] == snap[k2],
                forall|k2: int| j <= k2 < i ==> !lex_le(#[trigger] snap[k2], x),
            decreases j,
        {
            let y: (usize, TimePoint) = pairs[j - 1];
            pairs[j] = y;
            j -= 1;
        }
        pairs[j] = x;
        proof {
            let prev = snap;
            let cur = pairs@;
            let ji = j as int;
            let ii = i as int;
            // cur is prev with the element at i moved down to j
            assert(forall|k2: int| 0 <= k2 < ji ==> #[trigger] cur[k2] == prev[k2]);
            assert(cur[ji] == prev[ii]);
            assert(forall|k2: int| ji < k2 <= ii ==> #[trigger] cur[k2] == prev[k2 - 1]);
            assert(forall|k2: int| ii < k2 < n ==> #[trigger] cur[k2] == prev[k2]);
            assert forall|j1: int, j2: int| 0 <= j1 < j2 < n implies
                (#[trigger] cur[j1]).0 != (#[trigger] cur[j2]).0 by {
                let s1: int = if j1 < ji { j1 } else if j1 == ji { ii } else if j1 <= ii { j1 - 1 } else { j1 };
                let s2: int = if j2 < ji { j2 } else if j2 == ji { ii } else if j2 <= ii { j2 - 1 } else { j2 };
                assert(cur[j1] == prev[s1]);
                assert(cur[j2] == prev[s2]);
                assert(s1 != s2);
            }
            assert forall|j1: int, j2: int| 0 <= j1 <= j2 < i + 1 && j2 < n implies
                lex_le(#[trigger] cur[j1], #[trigger] cur[j2]) by {
                if j > 0 {
                    assert(lex_le(prev[ji - 1], x));
                }
            }
        }
        i += 1;
    }
    let mut out: Vec<TimePoint> = Vec::new();
    let mut m: usize = 0;
    while m < n
        invariant
            n == v@.len(),
            pairs@.len() == n,
            out@.len() == m,
            m <= n,
            forall|j: int| 0 <= j < m ==> #[trigger] out@[j] == pairs@[j].1,
        decreases n - m,
    {
        out.push(pairs[m].1);
        m += 1;
    }
    proof {
        let ghost perm: Seq<int> = Seq::new(n as nat, |k2: int| pairs@[k2].0 as int);
        assert forall|j1: int, j2: int| 0 <= j1 <= j2 < n implies
            lex_le(pairs@[j1], pairs@[j2]) by {}
        assert(is_stable_sort_witness(v@, out@, perm));
    }
    out
}

} // verus!
