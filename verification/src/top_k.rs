//! The nearest candidates seen so far.
use vstd::prelude::*;

use crate::TOP_K;

verus! {

/// A candidate: its squared distance to the query and its label.
#[derive(Clone, Copy, Debug, PartialEq, Eq, Structural)]
pub struct Neighbor {
    pub distance: u32,
    pub label: u8,
}

/// The nearest candidates offered so far, at most [`TOP_K`] of them, in the
/// slots that they were put into.
#[derive(Debug)]
pub struct TopK {
    entries: [Neighbor; TOP_K],
    len: usize,
}

/// The first slot, among the first `count`, that no other slot exceeds in
/// distance.
pub open spec fn worst_slot(kept: Seq<Neighbor>, count: nat) -> int
    decreases count,
{
    if count <= 1 {
        0
    } else {
        let before = worst_slot(kept, (count - 1) as nat);
        if kept[count - 1].distance > kept[before].distance {
            count - 1
        } else {
            before
        }
    }
}

/// What is kept once `candidate` has been offered: it fills a free slot, or it
/// takes the place of the farthest candidate if it is strictly nearer.
pub open spec fn offered(kept: Seq<Neighbor>, candidate: Neighbor) -> Seq<Neighbor> {
    let worst = worst_slot(kept, kept.len());
    if kept.len() < TOP_K {
        kept.push(candidate)
    } else if candidate.distance < kept[worst].distance {
        kept.update(worst, candidate)
    } else {
        kept
    }
}

/// What is kept once all candidates have been offered, one after the other.
pub open spec fn offered_all(kept: Seq<Neighbor>, candidates: Seq<Neighbor>) -> Seq<Neighbor>
    decreases candidates.len(),
{
    if candidates.len() == 0 {
        kept
    } else {
        offered(offered_all(kept, candidates.drop_last()), candidates.last())
    }
}

/// The labels of the kept candidates, `0` for a slot that is still free.
pub open spec fn slot_labels(kept: Seq<Neighbor>) -> Seq<u8> {
    Seq::new(
        TOP_K as nat,
        |slot: int|
            if slot < kept.len() {
                kept[slot].label
            } else {
                0u8
            },
    )
}

/// Whether `kept` holds as many of the nearest candidates as fit: nothing else
/// than candidates, and none farther than one that was left out.
pub open spec fn holds_nearest(kept: Seq<Neighbor>, candidates: Seq<Neighbor>) -> bool {
    let left_out = candidates.to_multiset().sub(kept.to_multiset());
    &&& kept.len() == if candidates.len() < TOP_K {
        candidates.len()
    } else {
        TOP_K as nat
    }
    &&& kept.to_multiset().subset_of(candidates.to_multiset())
    &&& forall|other: Neighbor, slot: int|
        #![trigger left_out.count(other), kept[slot]]
        left_out.count(other) > 0 && 0 <= slot < kept.len() ==> kept[slot].distance
            <= other.distance
}

impl TopK {
    /// The occupied slots.
    pub closed spec fn view(&self) -> Seq<Neighbor> {
        self.entries@.take(self.len as int)
    }

    /// No more slots are occupied than there are, and the free ones are blank.
    pub closed spec fn wf(&self) -> bool {
        &&& self.len <= TOP_K
        &&& forall|slot: int|
            self.len <= slot < TOP_K ==> #[trigger] self.entries@[slot] == (Neighbor {
                distance: u32::MAX,
                label: 0,
            })
    }

    /// No candidate yet.
    pub fn new() -> (result: TopK)
        ensures
            result.wf(),
            result@ == Seq::<Neighbor>::empty(),
    {
        TopK { entries: [Neighbor { distance: u32::MAX, label: 0 };TOP_K], len: 0 }
    }

    /// Number of candidates kept.
    pub fn len(&self) -> (result: usize)
        requires
            self.wf(),
        ensures
            result == self@.len(),
            result <= TOP_K,
    {
        self.len
    }

    /// Offers a candidate.
    pub fn insert(&mut self, distance: u32, label: u8)
        requires
            old(self).wf(),
        ensures
            final(self).wf(),
            final(self)@ == offered(old(self)@, (Neighbor { distance, label })),
    {
        if self.len < TOP_K {
            self.entries[self.len] = Neighbor { distance, label };
            self.len += 1;
            assert(self@ =~= old(self)@.push(Neighbor { distance, label }));
            return;
        }
        let mut worst_idx: usize = 0;
        for idx in 1..TOP_K
            invariant
                self.len == TOP_K,
                worst_idx < idx,
                idx <= TOP_K,
                worst_idx == worst_slot(self@, idx as nat),
                *self == *old(self),
        {
            if self.entries[idx].distance > self.entries[worst_idx].distance {
                worst_idx = idx;
            }
        }
        if distance < self.entries[worst_idx].distance {
            self.entries[worst_idx] = Neighbor { distance, label };
            assert(self@ =~= old(self)@.update(worst_idx as int, Neighbor { distance, label }));
        }
    }

    /// The labels, slot by slot.
    pub fn labels(&self) -> (labels: [u8; TOP_K])
        requires
            self.wf(),
        ensures
            labels@ == slot_labels(self@),
    {
        let mut labels: [u8; TOP_K] = [0;TOP_K];
        for idx in 0..TOP_K
            invariant
                self.wf(),
                forall|slot: int|
                    0 <= slot < idx ==> #[trigger] labels@[slot] == self.entries@[slot].label,
        {
            labels[idx] = self.entries[idx].label;
        }
        assert(labels@ =~= slot_labels(self@));
        labels
    }
}

/// The farthest slot exceeds every other one, those before it strictly.
pub proof fn lemma_worst_slot(kept: Seq<Neighbor>, count: nat)
    requires
        1 <= count <= kept.len(),
    ensures
        0 <= worst_slot(kept, count) < count,
        forall|slot: int|
            0 <= slot < count ==> #[trigger] kept[slot].distance <= kept[worst_slot(
                kept,
                count,
            )].distance,
        forall|slot: int|
            0 <= slot < worst_slot(kept, count) ==> #[trigger] kept[slot].distance
                < kept[worst_slot(kept, count)].distance,
    decreases count,
{
    if count > 1 {
        lemma_worst_slot(kept, (count - 1) as nat);
    }
}

/// Offering one more candidate keeps the nearest of all candidates so far.
proof fn lemma_offered_holds_nearest(
    kept: Seq<Neighbor>,
    candidates: Seq<Neighbor>,
    candidate: Neighbor,
)
    requires
        holds_nearest(kept, candidates),
    ensures
        holds_nearest(offered(kept, candidate), candidates.push(candidate)),
{
    broadcast use vstd::seq_lib::group_to_multiset_ensures;

    let more = candidates.push(candidate);
    let next = offered(kept, candidate);
    let before = candidates.to_multiset();
    let left_out = before.sub(kept.to_multiset());
    let left_out_next = more.to_multiset().sub(next.to_multiset());
    assert(more.to_multiset() =~= before.insert(candidate));
    if kept.len() < TOP_K {
        assert(next.to_multiset() =~= kept.to_multiset().insert(candidate));
        assert(left_out_next =~= left_out);
        assert(kept.to_multiset().len() == before.len());
        assert(left_out.len() == 0);
        assert forall|other: Neighbor| left_out_next.count(other) == 0 by {
            assert(left_out.count(other) == 0);
        }
    } else {
        let worst = worst_slot(kept, kept.len());
        lemma_worst_slot(kept, kept.len());
        if candidate.distance < kept[worst].distance {
            let farthest = kept[worst];
            assert(next.to_multiset() =~= kept.to_multiset().remove(farthest).insert(candidate))
                by {
                vstd::seq_lib::to_multiset_update(kept, worst, candidate);
            }
            assert(kept.to_multiset().count(farthest) > 0) by {
                assert(kept.contains(farthest));
            }
            assert(left_out_next =~= left_out.insert(farthest));
            assert forall|other: Neighbor, slot: int|
                #![trigger left_out_next.count(other), next[slot]]
                left_out_next.count(other) > 0 && 0 <= slot < next.len() implies next[slot].distance
                <= other.distance by {
                assert(kept[worst].distance <= other.distance) by {
                    if left_out.count(other) > 0 {
                        assert(kept[worst].distance <= other.distance);
                    } else {
                        assert(other == farthest);
                    }
                }
                if slot != worst {
                    assert(next[slot] == kept[slot]);
                }
            }
        } else {
            assert(left_out_next =~= left_out.insert(candidate));
            assert forall|other: Neighbor, slot: int|
                #![trigger left_out_next.count(other), next[slot]]
                left_out_next.count(other) > 0 && 0 <= slot < next.len() implies next[slot].distance
                <= other.distance by {
                if left_out.count(other) == 0 {
                    assert(other == candidate);
                }
            }
        }
    }
}

/// However many candidates are offered, and in whatever order, the nearest are
/// kept.
pub proof fn law_offering_keeps_nearest(candidates: Seq<Neighbor>)
    ensures
        holds_nearest(offered_all(Seq::empty(), candidates), candidates),
    decreases candidates.len(),
{
    if candidates.len() == 0 {
        assert(candidates =~= Seq::<Neighbor>::empty());
    } else {
        law_offering_keeps_nearest(candidates.drop_last());
        lemma_offered_holds_nearest(
            offered_all(Seq::empty(), candidates.drop_last()),
            candidates.drop_last(),
            candidates.last(),
        );
        assert(candidates.drop_last().push(candidates.last()) =~= candidates);
    }
}

/// Offering one batch after another is offering both at once.
pub proof fn lemma_offered_all_concat(kept: Seq<Neighbor>, a: Seq<Neighbor>, b: Seq<Neighbor>)
    ensures
        offered_all(offered_all(kept, a), b) == offered_all(kept, a + b),
    decreases b.len(),
{
    if b.len() == 0 {
        assert(a + b =~= a);
    } else {
        lemma_offered_all_concat(kept, a, b.drop_last());
        assert((a + b).drop_last() =~= a + b.drop_last());
    }
}

/// However many candidates are offered, five are kept, or all of fewer; they are among
/// the candidates, each as often as there; and no candidate that was left out is nearer
/// than one that is kept.
pub proof fn law_five_nearest_are_kept(candidates: Seq<Neighbor>)
    ensures
        ({
            let kept = offered_all(Seq::empty(), candidates);
            &&& kept.len() <= 5
            &&& candidates.len() >= 5 ==> kept.len() == 5
            &&& candidates.len() < 5 ==> kept.len() == candidates.len()
            &&& forall|x: Neighbor| #[trigger]
                kept.to_multiset().count(x) <= candidates.to_multiset().count(x)
            &&& forall|x: Neighbor, slot: int|
                #![trigger candidates.to_multiset().count(x), kept[slot]]
                kept.to_multiset().count(x) < candidates.to_multiset().count(x) && 0 <= slot
                    < kept.len() ==> kept[slot].distance <= x.distance
        }),
{
    let kept = offered_all(Seq::empty(), candidates);
    law_offering_keeps_nearest(candidates);
    let left_out = candidates.to_multiset().sub(kept.to_multiset());
    assert forall|x: Neighbor, slot: int|
        #![trigger candidates.to_multiset().count(x), kept[slot]]
        kept.to_multiset().count(x) < candidates.to_multiset().count(x) && 0 <= slot
            < kept.len() implies kept[slot].distance <= x.distance by {
        assert(left_out.count(x) > 0);
    }
}

/// A candidate takes a free slot; of five kept it takes the place of the first that is
/// farthest, and only if it is nearer than that one.
pub proof fn law_first_farthest_gives_way(kept: Seq<Neighbor>, candidate: Neighbor, slot: int)
    ensures
        kept.len() < 5 ==> offered(kept, candidate) == kept.push(candidate),
        kept.len() == 5 && (forall|i: int|
            0 <= i < 5 ==> (#[trigger] kept[i]).distance <= candidate.distance) ==> offered(
            kept,
            candidate,
        ) == kept,
        kept.len() == 5 && 0 <= slot < 5 && candidate.distance < kept[slot].distance && (forall|
            i: int,
        |
            0 <= i < 5 ==> (#[trigger] kept[i]).distance <= kept[slot].distance) && (forall|
            i: int,
        |
            0 <= i < slot ==> (#[trigger] kept[i]).distance < kept[slot].distance) ==> offered(
            kept,
            candidate,
        ) == kept.update(slot, candidate),
{
    if kept.len() == 5 {
        lemma_worst_slot(kept, 5);
        let worst = worst_slot(kept, 5);
        assert(kept[worst].distance <= kept[worst].distance);
        if 0 <= slot < 5 {
            assert(kept[slot].distance <= kept[slot].distance);
        }
    }
}

/// Candidates are offered one after the other.
pub proof fn law_candidates_are_offered_in_turn(
    kept: Seq<Neighbor>,
    candidates: Seq<Neighbor>,
    next: Neighbor,
)
    ensures
        offered_all(kept, Seq::empty()) == kept,
        offered_all(kept, candidates.push(next)) == offered(offered_all(kept, candidates), next),
{
    assert(candidates.push(next).drop_last() =~= candidates);
}

/// Every occupied slot tells its own label, and every free one zero.
pub proof fn law_slots_tell_their_labels(kept: Seq<Neighbor>, slot: int)
    ensures
        slot_labels(kept).len() == 5,
        0 <= slot < 5 && slot < kept.len() ==> slot_labels(kept)[slot] == kept[slot].label,
        kept.len() <= slot < 5 ==> slot_labels(kept)[slot] == 0,
{
}

} // verus!
