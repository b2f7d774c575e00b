//! The scene: an ordered list of shared objects, and the choice of the
//! closest of their hits.
use vstd::prelude::*;
use std::sync::Arc;

verus! {

/// The objects of a scene, in insertion order. Objects are shared, so many
/// lists (and the workers of a render) may hold the same one.
#[derive(Clone)]
#[verifier::reject_recursive_types(O)]
pub struct HittableList<O> {
    pub objects: Vec<Arc<O>>,
}

impl<O> HittableList<O> {
    /// An empty scene.
    pub fn new() -> (list: Self)
        ensures
            list.objects@ == Seq::<Arc<O>>::empty(),
    {
        HittableList { objects: Vec::new() }
    }

    /// A scene holding `object` alone.
    pub fn from_object(object: Arc<O>) -> (list: Self)
        ensures
            list.objects@ == seq![object],
    {
        let mut objects: Vec<Arc<O>> = Vec::new();
        objects.push(object);
        HittableList { objects }
    }

    /// Removes every object.
    pub fn clear(&mut self)
        ensures
            final(self).objects@ == Seq::<Arc<O>>::empty(),
    {
        self.objects.clear();
    }

    /// Appends `object` after the objects already there.
    pub fn add(&mut self, object: Arc<O>)
        ensures
            final(self).objects@ == old(self).objects@.push(object),
    {
        self.objects.push(object);
    }
}

impl<O> Default for HittableList<O> {
    fn default() -> (list: Self)
        ensures
            list.objects@ == Seq::<Arc<O>>::empty(),
    {
        HittableList::new()
    }
}

/// Whether position `k` holds the closest hit of `hits`: a hit whose distance
/// no other hit undercuts, and which no earlier hit equals.
pub open spec fn is_closest(hits: Seq<Option<u64>>, k: int) -> bool {
    &&& 0 <= k < hits.len()
    &&& hits[k] is Some
    &&& forall|j: int|
        0 <= j < hits.len() && #[trigger] hits[j] is Some ==> hits[k]->0 <= hits[j]->0
    &&& forall|j: int| 0 <= j < k && #[trigger] hits[j] is Some ==> hits[k]->0 < hits[j]->0
}

/// The outcome of scanning the objects in order while each one is tested
/// only below the closest distance found before it: the position and the
/// distance of the last hit so reported, if any.
pub open spec fn pruned_scan(hits: Seq<Option<u64>>) -> Option<(int, u64)>
    decreases hits.len(),
{
    if hits.len() == 0 {
        None
    } else {
        let before = pruned_scan(hits.drop_last());
        match hits.last() {
            None => before,
            Some(t) => match before {
                Some((b, c)) => if t < c {
                    Some((hits.len() - 1, t))
                } else {
                    before
                },
                None => Some((hits.len() - 1, t)),
            },
        }
    }
}

/// Testing each object only below the closest distance found before it finds
/// the same hit as testing every object on its own and taking the first of
/// the closest: it finds none exactly when no object is hit, and otherwise
/// the closest hit.
pub proof fn lemma_pruned_scan_is_closest(hits: Seq<Option<u64>>)
    ensures
        pruned_scan(hits) is None <==> forall|j: int| 0 <= j < hits.len() ==> #[trigger] hits[j] is None,
        pruned_scan(hits) matches Some((k, t)) ==> is_closest(hits, k) && hits[k] == Some(t),
    decreases hits.len(),
{
    if hits.len() > 0 {
        let init = hits.drop_last();
        lemma_pruned_scan_is_closest(init);
        let n = init.len() as int;
        assert forall|j: int| 0 <= j < n implies #[trigger] init[j] == hits[j] by {}
        match hits.last() {
            None => {
                if pruned_scan(init) is None {
                    assert forall|j: int| 0 <= j < hits.len() implies #[trigger] hits[j] is None by {
                        if j < n {
                            assert(init[j] is None);
                        }
                    }
                } else {
                    let (k, t) = pruned_scan(init)->0;
                    assert(hits[k] == init[k]);
                    assert(!(hits[k] is None));
                    assert forall|j: int|
                        0 <= j < hits.len() && #[trigger] hits[j] is Some implies t <= hits[j]->0 by {
                        if j < n {
                            assert(init[j] is Some);
                        }
                    }
                    assert forall|j: int| 0 <= j < k && #[trigger] hits[j] is Some implies t
                        < hits[j]->0 by {
                        assert(init[j] is Some);
                    }
                }
            },
            Some(t) => {
                assert(!(hits[n] is None));
                match pruned_scan(init) {
                    None => {
                        assert forall|j: int|
                            0 <= j < hits.len() && #[trigger] hits[j] is Some implies t
                            <= hits[j]->0 by {
                            if j < n {
                                assert(init[j] is None);
                            }
                        }
                        assert forall|j: int| 0 <= j < n && #[trigger] hits[j] is Some implies t
                            < hits[j]->0 by {
                            assert(init[j] is None);
                        }
                    },
                    Some((b, c)) => {
                        assert(hits[b] == init[b]);
                        if t < c {
                            assert forall|j: int|
                                0 <= j < hits.len() && #[trigger] hits[j] is Some implies t
                                <= hits[j]->0 by {
                                if j < n {
                                    assert(init[j] is Some);
                                }
                            }
                            assert forall|j: int|
                                0 <= j < n && #[trigger] hits[j] is Some implies t
                                < hits[j]->0 by {
                                assert(init[j] is Some);
                            }
                        } else {
                            assert forall|j: int|
                                0 <= j < hits.len() && #[trigger] hits[j] is Some implies c
                                <= hits[j]->0 by {
                                if j < n {
                                    assert(init[j] is Some);
                                }
                            }
                            assert forall|j: int|
                                0 <= j < b && #[trigger] hits[j] is Some implies c
                                < hits[j]->0 by {
                                assert(init[j] is Some);
                            }
                        }
                    },
                }
            },
        }
    }
}

/// Picks the closest of the hits that the objects of a scene reported, each
/// tested on its own over the same distance interval: `hits[k]` is the
/// distance at which object `k` was hit, as a key ordered as the distances
/// are, or `None` where it was missed.
///
/// The scan keeps the closest distance so far as the upper bound that a later
/// hit must beat, so of equally close hits the first is kept, exactly as when
/// each object is tested only below the closest distance found before it.
pub fn closest_hit(hits: &Vec<Option<u64>>) -> (r: Option<usize>)
    ensures
        r is None <==> forall|j: int| 0 <= j < hits@.len() ==> #[trigger] hits@[j] is None,
        r matches Some(k) ==> is_closest(hits@, k as int),
        pruned_scan(hits@) == (match r {
            Some(k) => Some((k as int, hits@[k as int]->0)),
            None => None,
        }),
{
    let mut best: Option<usize> = None;
    let mut bound: u64 = 0;
    let mut k: usize = 0;
    while k < hits.len()
        invariant
            k <= hits@.len(),
            pruned_scan(hits@.subrange(0, k as int)) == (match best {
                Some(b) => Some((b as int, bound)),
                None => None,
            }),
        decreases hits@.len() - k,
    {
        proof {
            assert(hits@.subrange(0, k + 1).drop_last() =~= hits@.subrange(0, k as int));
        }
        if let Some(t) = hits[k] {
            if best.is_none() || t < bound {
                best = Some(k);
                bound = t;
            }
        }
        k = k + 1;
    }
    proof {
        assert(hits@.subrange(0, k as int) =~= hits@);
        lemma_pruned_scan_is_closest(hits@);
    }
    best
}

} // verus!
