//! Nearest-hit selection over the objects of a scene.
//!
//! Each object of the scene is asked for its own intersection with a ray; the
//! scene then reports the one that lies nearest along the ray. A hit is given
//! here by its distance key: an integer whose order is the order of the hit
//! distances along the ray (for IEEE doubles, the total-order key of `t`).

use vstd::prelude::*;

verus! {

/// `k` indexes a hit whose distance is no larger than that of any other hit,
/// and strictly smaller than that of every hit listed before it.
pub open spec fn is_nearest(hits: Seq<Option<i64>>, k: int) -> bool {
    &&& 0 <= k < hits.len()
    &&& hits[k] is Some
    &&& forall|j: int|
        0 <= j < hits.len() && hits[j] is Some ==> hits[k]->0 <= (#[trigger] hits[j])->0
    &&& forall|j: int| 0 <= j < k && hits[j] is Some ==> hits[k]->0 < (#[trigger] hits[j])->0
}

/// No object of the scene was hit.
pub open spec fn all_missed(hits: Seq<Option<i64>>) -> bool {
    forall|j: int| 0 <= j < hits.len() ==> (#[trigger] hits[j]) is None
}

/// Returns the index of the nearest hit among the objects' hits, or `None`
/// when every object was missed. Of several hits at the same distance, the
/// first one listed wins.
pub fn nearest_hit(hits: &Vec<Option<i64>>) -> (r: Option<usize>)
    ensures
        r is None <==> all_missed(hits@),
        r matches Some(k) ==> is_nearest(hits@, k as int),
{
    let mut best: Option<usize> = None;
    let mut closest: i64 = 0;
    let mut i: usize = 0;
    while i < hits.len()
        invariant
            i <= hits.len(),
            best is None <==> all_missed(hits@.subrange(0, i as int)),
            best matches Some(k) ==> {
                &&& is_nearest(hits@.subrange(0, i as int), k as int)
                &&& hits@[k as int] == Some(closest)
            },
        decreases hits.len() - i,
    {
        if let Some(t) = hits[i] {
            let closer = match best {
                None => true,
                Some(_) => t < closest,
            };
            if closer {
                best = Some(i);
                closest = t;
            }
        }
        i = i + 1;
        proof {
            let prefix = hits@.subrange(0, i as int);
            assert(forall|j: int| 0 <= j < i ==> prefix[j] == hits@[j]);
        }
    }
    assert(hits@.subrange(0, hits.len() as int) =~= hits@);
    best
}

} // verus!
