//! Piece queue: an ordered supply of upcoming piece identities, refilled
//! by whole shuffled sets of the seven types and consumed front first.
use vstd::prelude::*;
use vstd::multiset::Multiset;
use rand::seq::SliceRandom;
use rand::thread_rng;
use crate::config::MIN_QUEUE_MONO_COUNT;
use crate::tetrimono::{fig_wf, is_shape_for, Tetromino, TetrominoType};

verus! {

broadcast use vstd::seq_lib::group_to_multiset_ensures, vstd::multiset::group_multiset_axioms;

/// One of each of the seven piece types.
pub open spec fn full_set_multiset() -> Multiset<TetrominoType> {
    seq![
        TetrominoType::T,
        TetrominoType::L,
        TetrominoType::J,
        TetrominoType::O,
        TetrominoType::S,
        TetrominoType::Z,
        TetrominoType::I,
    ].to_multiset()
}

/// `post` is `pre` with some number of whole piece sets appended: the
/// old entries are untouched and every appended block of seven holds one
/// piece of each type, in some order.
pub open spec fn bags_appended(pre: Seq<TetrominoType>, post: Seq<TetrominoType>) -> bool {
    &&& post.len() >= pre.len()
    &&& (post.len() - pre.len()) % 7 == 0
    &&& post.subrange(0, pre.len() as int) == pre
    &&& forall|k: int|
        #![trigger post.subrange(pre.len() + 7 * k, pre.len() + 7 * k + 7)]
        0 <= k && pre.len() + 7 * k + 7 <= post.len() ==> post.subrange(
            pre.len() + 7 * k,
            pre.len() + 7 * k + 7,
        ).to_multiset() == full_set_multiset()
}

/// The queue of upcoming pieces, oldest entry first.
pub struct TetrimonoQueue {
    pub queue: Vec<TetrominoType>,
}

impl Default for TetrimonoQueue {
    fn default() -> (r: Self)
        ensures
            r.queue@.len() == 0,
    {
        TetrimonoQueue { queue: Vec::new() }
    }
}

/// Relies on rand::seq::SliceRandom::shuffle with rand::thread_rng: a
/// Fisher–Yates pass that reorders the slice in place by swaps; every
/// element is kept and none is added, whatever the drawn positions are.
#[verifier::external_body]
fn shuffle_in_place(v: &mut Vec<TetrominoType>)
    ensures
        final(v)@.len() == old(v)@.len(),
        final(v)@.to_multiset() == old(v)@.to_multiset(),
{
    v.shuffle(&mut thread_rng());
}

impl TetrimonoQueue {
    /// The queue holds at least the minimum reserve of upcoming pieces.
    pub fn is_enough_mono(&mut self) -> (r: bool)
        ensures
            *final(self) == *old(self),
            r == (old(self).queue@.len() >= MIN_QUEUE_MONO_COUNT),
    {
        self.queue.len() >= MIN_QUEUE_MONO_COUNT
    }

    /// Append one full set of the seven piece types, shuffled into a
    /// random order when `is_random` is set and kept in catalog order
    /// otherwise.
    pub fn add_set(&mut self, is_random: bool)
        ensures
            final(self).queue@.len() == old(self).queue@.len() + 7int,
            final(self).queue@.subrange(0, old(self).queue@.len() as int) == old(self).queue@,
            final(self).queue@.subrange(
                old(self).queue@.len() as int,
                old(self).queue@.len() + 7int,
            ).to_multiset() == full_set_multiset(),
            !is_random ==> final(self).queue@ == old(self).queue@ + seq![
                TetrominoType::T,
                TetrominoType::L,
                TetrominoType::J,
                TetrominoType::O,
                TetrominoType::S,
                TetrominoType::Z,
                TetrominoType::I,
            ],
    {
        let mut set_of_mono = TetrominoType::all();
        if is_random {
            shuffle_in_place(&mut set_of_mono);
        }
        proof {
            assert(set_of_mono@.to_multiset() == full_set_multiset());
        }
        let ghost pre = self.queue@;
        let ghost batch = set_of_mono@;
        self.queue.append(&mut set_of_mono);
        proof {
            assert(self.queue@.subrange(0, pre.len() as int) =~= pre);
            assert(self.queue@.subrange(pre.len() as int, pre.len() + 7int) =~= batch);
            if !is_random {
                assert(self.queue@ =~= pre + batch);
            }
        }
    }

    /// Remove the oldest entry and hand back its shape.  The queue must
    /// not be empty: callers keep it replenished.
    pub fn dequeue(&mut self) -> (r: Tetromino)
        requires
            old(self).queue@.len() >= 1,
        ensures
            final(self).queue@ == old(self).queue@.subrange(1, old(self).queue@.len() as int),
            is_shape_for(old(self).queue@[0], r),
            fig_wf(r),
    {
        let mono_typ = self.queue.remove(0);
        mono_typ.get_tetromono()
    }
}

/// Law of the bag refill: a freshly appended set of seven holds each
/// piece type exactly once — dequeuing those seven entries yields one
/// piece of every type, in some order.
pub proof fn lemma_bag_has_each_type_once(batch: Seq<TetrominoType>)
    requires
        batch.to_multiset() == full_set_multiset(),
    ensures
        batch.len() == 7,
        forall|t: TetrominoType| #[trigger] batch.to_multiset().count(t) == 1,
{
    let s = seq![
        TetrominoType::T,
        TetrominoType::L,
        TetrominoType::J,
        TetrominoType::O,
        TetrominoType::S,
        TetrominoType::Z,
        TetrominoType::I,
    ];
    assert(s =~= Seq::empty().push(TetrominoType::T).push(TetrominoType::L).push(
        TetrominoType::J,
    ).push(TetrominoType::O).push(TetrominoType::S).push(TetrominoType::Z).push(TetrominoType::I));
    assert(batch.len() == batch.to_multiset().len());
    assert(s.len() == s.to_multiset().len());
    assert(batch.len() == 7);
    assert forall|t: TetrominoType| #[trigger] batch.to_multiset().count(t) == 1 by {
        assert(Seq::<TetrominoType>::empty().to_multiset() =~= Multiset::empty());
        match t {
            TetrominoType::T => {},
            TetrominoType::L => {},
            TetrominoType::J => {},
            TetrominoType::O => {},
            TetrominoType::S => {},
            TetrominoType::Z => {},
            TetrominoType::I => {},
        }
    }
}

} // verus!
