//! Choosing the nearest of the hits that the shapes of a world report.

use vstd::prelude::*;

verus! {

/// What one shape answers to a ray: nothing, or the distance along the ray
/// at which it is struck. Distances are given as keys that are ordered as the
/// distances are.
pub type Reply = Option<u64>;

/// The two places at which a ray meets a sphere's surface.
#[derive(Clone, Copy, Debug, PartialEq, Eq, Structural)]
pub enum Root {
    /// Where the ray enters the sphere.
    Near,
    /// Where it leaves again.
    Far,
}

/// The root that counts as the hit within `min` and `max`: the near one if it
/// lies within the bounds, else the far one if that does.
pub open spec fn root_within(near: u64, far: u64, min: u64, max: u64) -> Option<Root> {
    if min <= near <= max {
        Some(Root::Near)
    } else if min <= far <= max {
        Some(Root::Far)
    } else {
        None
    }
}

/// Tries the smaller root first and the larger one only if the smaller lies
/// outside the bounds; with both outside there is no hit. All four arguments
/// are distance keys.
pub fn choose_root(near: u64, far: u64, min: u64, max: u64) -> (root: Option<Root>)
    ensures
        root == root_within(near, far, min, max),
{
    if near < min || max < near {
        if far < min || max < far {
            return None;
        }
        return Some(Root::Far);
    }
    Some(Root::Near)
}

/// Whether shape `k` reports the nearest hit: no shape reports a smaller
/// distance, and of several shapes at that distance it is the last.
pub open spec fn is_nearest(replies: Seq<Reply>, k: int) -> bool {
    &&& 0 <= k < replies.len()
    &&& replies[k] is Some
    &&& forall|i: int|
        0 <= i < replies.len() && (#[trigger] replies[i]) is Some ==> replies[k]->0
            <= replies[i]->0
    &&& forall|i: int|
        k < i < replies.len() && (#[trigger] replies[i]) is Some ==> replies[k]->0
            < replies[i]->0
}

/// The smallest distance that any shape reports.
pub open spec fn nearest_distance(replies: Seq<Reply>) -> Option<u64>
    decreases replies.len(),
{
    if replies.len() == 0 {
        None
    } else {
        let before = nearest_distance(replies.drop_last());
        match (before, replies.last()) {
            (Some(near), Some(distance)) => Some(
                if distance <= near {
                    distance
                } else {
                    near
                },
            ),
            (Some(near), None) => Some(near),
            (None, reply) => reply,
        }
    }
}

/// Scans the replies of all shapes once and picks the shape with the nearest
/// hit, if any shape was hit at all.
pub fn nearest_hit(replies: &Vec<Reply>) -> (nearest: Option<usize>)
    ensures
        nearest is None <==> forall|i: int| 0 <= i < replies.len() ==> replies[i] is None,
        nearest matches Some(k) ==> is_nearest(replies@, k as int),
        nearest matches Some(k) ==> replies[k as int] == nearest_distance(replies@),
        nearest is None ==> nearest_distance(replies@) is None,
{
    let mut nearest: Option<usize> = None;
    let mut bound: u64 = u64::MAX;
    let mut index: usize = 0;
    assert(replies@.take(0) =~= Seq::<Reply>::empty());
    while index < replies.len()
        invariant
            index <= replies.len(),
            nearest is None <==> forall|i: int| 0 <= i < index ==> replies[i] is None,
            nearest is None ==> bound == u64::MAX,
            nearest matches Some(k) ==> is_nearest(replies@.take(index as int), k as int)
                && replies[k as int] == Some(bound),
            nearest_distance(replies@.take(index as int)) == match nearest {
                Some(k) => replies[k as int],
                None => None,
            },
        decreases replies.len() - index,
    {
        let ghost seen = replies@.take(index as int);
        let ghost next = replies@.take(index + 1);
        proof {
            assert(next.drop_last() =~= seen);
            assert(next.last() == replies[index as int]);
            assert forall|i: int| 0 <= i < seen.len() implies seen[i] == next[i] by {}
        }
        match replies[index] {
            Some(distance) => {
                if distance <= bound {
                    bound = distance;
                    nearest = Some(index);
                    proof {
                        assert forall|i: int|
                            0 <= i < next.len() && (#[trigger] next[i]) is Some implies distance
                            <= next[i]->0 by {
                            if i < index {
                                assert(seen[i] is Some);
                            }
                        }
                    }
                } else {
                    proof {
                        let k = nearest->0 as int;
                        assert forall|i: int|
                            0 <= i < next.len() && (#[trigger] next[i]) is Some implies next[k]->0
                            <= next[i]->0 by {
                            if i < index {
                                assert(seen[i] is Some);
                            }
                        }
                        assert forall|i: int|
                            k < i < next.len() && (#[trigger] next[i]) is Some implies next[k]->0
                            < next[i]->0 by {
                            if i < index {
                                assert(seen[i] is Some);
                            }
                        }
                    }
                }
            },
            None => {
                proof {
                    if nearest is Some {
                        let k = nearest->0 as int;
                        assert forall|i: int|
                            0 <= i < next.len() && (#[trigger] next[i]) is Some implies next[k]->0
                            <= next[i]->0 by {
                            if i < index {
                                assert(seen[i] is Some);
                            }
                        }
                        assert forall|i: int|
                            k < i < next.len() && (#[trigger] next[i]) is Some implies next[k]->0
                            < next[i]->0 by {
                            if i < index {
                                assert(seen[i] is Some);
                            }
                        }
                    }
                }
            },
        }
        index += 1;
    }
    assert(replies@.take(index as int) =~= replies@);
    nearest
}

/// The smallest reported distance is a reported distance that no other
/// undercuts; there is none exactly when no shape was hit.
pub proof fn lemma_nearest_distance(replies: Seq<Reply>)
    ensures
        nearest_distance(replies) is None <==> forall|i: int|
            0 <= i < replies.len() ==> (#[trigger] replies[i]) is None,
        nearest_distance(replies) is Some ==> replies.contains(nearest_distance(replies)),
        forall|i: int|
            0 <= i < replies.len() && (#[trigger] replies[i]) is Some ==> nearest_distance(
                replies,
            ) is Some && nearest_distance(replies)->0 <= replies[i]->0,
    decreases replies.len(),
{
    if replies.len() > 0 {
        let front = replies.drop_last();
        lemma_nearest_distance(front);
        assert forall|i: int| 0 <= i < front.len() implies front[i] == replies[i] by {}
        let near = nearest_distance(replies);
        if near is Some {
            if near == replies.last() {
                assert(replies[replies.len() - 1] == near);
            } else {
                let k = choose|k: int| 0 <= k < front.len() && front[k] == near;
                assert(replies[k] == near);
            }
        }
        assert forall|i: int| 0 <= i < replies.len() && (#[trigger] replies[i]) is Some implies near
            is Some && near->0 <= replies[i]->0 by {
            if i < front.len() {
                assert(front[i] is Some);
            }
        }
        if near is None {
            assert forall|i: int| 0 <= i < replies.len() implies (#[trigger] replies[i]) is None by {
                if i < front.len() {
                    assert(front[i] is None);
                }
            }
        }
    }
}

/// The order of the shapes in the world does not affect which distance is
/// the nearest: two worlds that hold the same replies, in any order, agree.
pub proof fn lemma_order_does_not_matter(first: Seq<Reply>, second: Seq<Reply>)
    requires
        first.to_multiset() == second.to_multiset(),
    ensures
        nearest_distance(first) == nearest_distance(second),
{
    first.to_multiset_ensures();
    second.to_multiset_ensures();
    lemma_nearest_distance(first);
    lemma_nearest_distance(second);
    let a = nearest_distance(first);
    let b = nearest_distance(second);
    if a is Some {
        assert(first.to_multiset().count(a) > 0);
        assert(second.to_multiset().count(a) > 0);
        assert(second.contains(a));
        let k = choose|k: int| 0 <= k < second.len() && second[k] == a;
        assert(second[k] is Some);
    }
    if b is Some {
        assert(second.to_multiset().count(b) > 0);
        assert(first.to_multiset().count(b) > 0);
        assert(first.contains(b));
        let k = choose|k: int| 0 <= k < first.len() && first[k] == b;
        assert(first[k] is Some);
    }
    if a is Some && b is Some {
        let i = choose|i: int| 0 <= i < second.len() && second[i] == a;
        let j = choose|j: int| 0 <= j < first.len() && first[j] == b;
        assert(second[i] is Some);
        assert(first[j] is Some);
    }
}

} // verus!
