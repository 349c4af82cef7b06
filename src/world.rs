//! Choosing the nearest intersection among the surfaces of a world.
//!
//! Each surface reports its own intersection with a ray, if any, as a key that
//! orders as distances along the ray do (for a positive distance, the bits of
//! its IEEE single-precision form). A surface tested against a shrunken
//! interval `(t_min, c)` reports exactly its hit on the full interval when that
//! hit lies below `c`, and nothing otherwise; so the world's scan, which
//! shrinks the interval to each hit found, is a scan over these keys.

use vstd::prelude::*;

verus! {

/// The keys below `bound` that some surface reports.
pub open spec fn reached(hits: Seq<Option<u32>>, bound: u32) -> Set<u32> {
    Set::new(|k: u32| k < bound && hits.contains(Some(k)))
}

/// `k` is the least element of `ks`.
pub open spec fn is_least(ks: Set<u32>, k: u32) -> bool {
    ks.contains(k) && forall|j: u32| ks.contains(j) ==> k <= j
}

/// The least element of `ks`, if it has one.
pub open spec fn least(ks: Set<u32>) -> Option<u32> {
    if exists|k: u32| is_least(ks, k) {
        Some(choose|k: u32| is_least(ks, k))
    } else {
        None
    }
}

/// The key of the nearest hit below `bound`, if any surface reports one.
pub open spec fn nearest(hits: Seq<Option<u32>>, bound: u32) -> Option<u32> {
    least(reached(hits, bound))
}

proof fn lemma_least_is(ks: Set<u32>, k: u32)
    requires
        is_least(ks, k),
    ensures
        least(ks) == Some(k),
{
    let c = choose|x: u32| is_least(ks, x);
    assert(is_least(ks, c));
    assert(c <= k && k <= c);
}

/// Scans the surfaces' hits in order, keeping the nearest one below the
/// current bound, which starts at `bound` and shrinks to each hit kept. The
/// result is the index of the first surface whose hit is the nearest.
pub fn closest_hit(hits: &Vec<Option<u32>>, bound: u32) -> (r: Option<usize>)
    ensures
        r is None <==> nearest(hits@, bound) is None,
        r matches Some(i) ==> {
            &&& i < hits@.len()
            &&& hits@[i as int] == nearest(hits@, bound)
            &&& forall|j: int| 0 <= j < i ==> hits@[j] != hits@[i as int]
        },
{
    let mut best: Option<usize> = None;
    let mut closest: u32 = bound;
    let mut i: usize = 0;
    while i < hits.len()
        invariant
            i <= hits@.len(),
            best is None ==> closest == bound,
            best is None ==> forall|j: int|
                0 <= j < i ==> !(#[trigger] hits@[j] matches Some(k) && k < bound),
            best matches Some(b) ==> {
                &&& b < i
                &&& hits@[b as int] == Some(closest)
                &&& closest < bound
                &&& forall|j: int| 0 <= j < i ==> (#[trigger] hits@[j] matches Some(k) ==> k < bound ==> closest <= k)
                &&& forall|j: int| 0 <= j < b ==> hits@[j] != hits@[b as int]
            },
        decreases hits@.len() - i,
    {
        match hits[i] {
            Some(k) => {
                if k < closest {
                    closest = k;
                    best = Some(i);
                }
            },
            None => {},
        }
        i = i + 1;
    }
    proof {
        let ks = reached(hits@, bound);
        match best {
            Some(b) => {
                assert(ks.contains(closest)) by {
                    assert(hits@[b as int] == Some(closest));
                }
                assert forall|j: u32| ks.contains(j) implies closest <= j by {
                    let x = choose|x: int| 0 <= x < hits@.len() && hits@[x] == Some(j);
                    assert(hits@[x] matches Some(k) && k < bound);
                }
                lemma_least_is(ks, closest);
            },
            None => {
                assert forall|k: u32| !is_least(ks, k) by {
                    if ks.contains(k) {
                        let x = choose|x: int| 0 <= x < hits@.len() && hits@[x] == Some(k);
                        assert(hits@[x] matches Some(k2) && k2 < bound);
                    }
                }
            },
        }
    }
    best
}

/// The nearest hit depends only on which hits the surfaces report, not on the
/// order of the surfaces: reordering them, or repeating one, leaves it the same.
pub proof fn lemma_nearest_ignores_order(a: Seq<Option<u32>>, b: Seq<Option<u32>>, bound: u32)
    requires
        a.to_set() == b.to_set(),
    ensures
        nearest(a, bound) == nearest(b, bound),
{
    assert forall|x: Option<u32>| a.contains(x) <==> b.contains(x) by {
        assert(a.to_set().contains(x) <==> a.contains(x));
        assert(b.to_set().contains(x) <==> b.contains(x));
    }
    assert(reached(a, bound) =~= reached(b, bound));
}

} // verus!
