//! Enumeration of the sample pairs that the rigid-registration fit uses.
//!
//! Every unordered pair of distinct samples is written `(i, j)` with
//! `j < i`, and pairs come in the order `(1, 0), (2, 0), (2, 1), (3, 0), ...`.
use vstd::prelude::*;

verus! {

/// `p` is a pair of distinct sample indices below `n`, the larger first.
pub open spec fn is_pair(p: (usize, usize), n: usize) -> bool {
    p.1 < p.0 < n
}

/// `p` comes before `q` in the enumeration order.
pub open spec fn before(p: (usize, usize), q: (usize, usize)) -> bool {
    p.0 < q.0 || (p.0 == q.0 && p.1 < q.1)
}

/// The pairs of `s` are in enumeration order, each once.
pub open spec fn ordered(s: Seq<(usize, usize)>) -> bool {
    forall|k: int, l: int| 0 <= k < l < s.len() ==> before(#[trigger] s[k], #[trigger] s[l])
}

/// Every pair of `n` samples, in enumeration order.
pub fn all_pairs(n: usize) -> (r: Vec<(usize, usize)>)
    ensures
        ordered(r@),
        forall|k: int| 0 <= k < r@.len() ==> is_pair(#[trigger] r@[k], n),
        forall|i: usize, j: usize| j < i < n ==> r@.contains((i, j)),
{
    let mut r: Vec<(usize, usize)> = Vec::new();
    let mut i: usize = 0;
    while i < n
        invariant
            i <= n,
            ordered(r@),
            forall|k: int| 0 <= k < r@.len() ==> is_pair(#[trigger] r@[k], n) && r@[k].0 < i,
            forall|a: usize, b: usize| b < a < i ==> r@.contains((a, b)),
        decreases n - i,
    {
        let mut j: usize = 0;
        while j < i
            invariant
                i < n,
                j <= i,
                ordered(r@),
                forall|k: int|
                    0 <= k < r@.len() ==> is_pair(#[trigger] r@[k], n) && before(r@[k], (i, j)),
                forall|a: usize, b: usize| b < a < i ==> r@.contains((a, b)),
                forall|b: usize| b < j ==> r@.contains((i, b)),
            decreases i - j,
        {
            let ghost old_r = r@;
            r.push((i, j));
            assert forall|a: usize, b: usize| b < a < i implies r@.contains((a, b)) by {
                assert(old_r.contains((a, b)));
                let k = choose|k: int| 0 <= k < old_r.len() && old_r[k] == (a, b);
                assert(r@[k] == (a, b));
            }
            assert forall|b: usize| b <= j implies r@.contains((i, b)) by {
                if b < j {
                    assert(old_r.contains((i, b)));
                    let k = choose|k: int| 0 <= k < old_r.len() && old_r[k] == (i, b);
                    assert(r@[k] == (i, b));
                } else {
                    assert(r@[old_r.len() as int] == (i, b));
                }
            }
            j = j + 1;
        }
        i = i + 1;
    }
    r
}

/// The pairs of `n` samples that `usable` accepts, in enumeration order.
///
/// `usable` is asked once about each pair. A pair is in the result exactly
/// when the answer was `true`: a pair that was rejected never reaches the
/// fit, and when no pair can be accepted the result is empty.
pub fn usable_pairs<F: Fn(usize, usize) -> bool>(n: usize, usable: F) -> (r: Vec<(usize, usize)>)
    requires
        forall|i: usize, j: usize| j < i < n ==> usable.requires((i, j)),
    ensures
        ordered(r@),
        forall|k: int|
            0 <= k < r@.len() ==> is_pair(#[trigger] r@[k], n) && usable.ensures(
                (r@[k].0, r@[k].1),
                true,
            ),
        forall|i: usize, j: usize|
            j < i < n && !r@.contains((i, j)) ==> usable.ensures((i, j), false),
        (forall|i: usize, j: usize| j < i < n ==> !usable.ensures((i, j), true)) ==> r@.len()
            == 0,
{
    let mut r: Vec<(usize, usize)> = Vec::new();
    let mut i: usize = 0;
    while i < n
        invariant
            i <= n,
            forall|i: usize, j: usize| j < i < n ==> usable.requires((i, j)),
            ordered(r@),
            forall|k: int|
                0 <= k < r@.len() ==> is_pair(#[trigger] r@[k], n) && r@[k].0 < i
                    && usable.ensures((r@[k].0, r@[k].1), true),
            forall|a: usize, b: usize|
                b < a < i && !r@.contains((a, b)) ==> usable.ensures((a, b), false),
        decreases n - i,
    {
        let mut j: usize = 0;
        while j < i
            invariant
                i < n,
                j <= i,
                forall|i: usize, j: usize| j < i < n ==> usable.requires((i, j)),
                ordered(r@),
                forall|k: int|
                    0 <= k < r@.len() ==> is_pair(#[trigger] r@[k], n) && before(r@[k], (i, j))
                        && usable.ensures((r@[k].0, r@[k].1), true),
                forall|a: usize, b: usize|
                    b < a < i && !r@.contains((a, b)) ==> usable.ensures((a, b), false),
                forall|b: usize| b < j && !r@.contains((i, b)) ==> usable.ensures((i, b), false),
            decreases i - j,
        {
            let ghost old_r = r@;
            let keep = usable(i, j);
            if keep {
                r.push((i, j));
            }
            assert forall|a: usize, b: usize|
                (b < a < i || (a == i && b <= j)) && !r@.contains((a, b)) implies usable.ensures(
                (a, b),
                false,
            ) by {
                if a == i && b == j {
                    if keep {
                        assert(r@[old_r.len() as int] == (i, j));
                    }
                } else if old_r.contains((a, b)) {
                    let k = choose|k: int| 0 <= k < old_r.len() && old_r[k] == (a, b);
                    assert(r@[k] == (a, b));
                }
            }
            j = j + 1;
        }
        i = i + 1;
    }
    if r.len() > 0 {
        assert(usable.ensures((r@[0].0, r@[0].1), true));
    }
    r
}

} // verus!
