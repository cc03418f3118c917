//! Gravity timer: an elapsed-tick counter with a configurable target.
//! A negative target means the timer never fires.
use vstd::prelude::*;
use crate::config::INITIAL_DROP_FRAMES;

verus! {

pub struct FrameCounter {
    pub elapsed: i64,
    pub target: i64,
}

/// The timer has fired: a non-negative target has been reached.
pub open spec fn spec_finished(c: FrameCounter) -> bool {
    c.target >= 0 && c.target <= c.elapsed
}

impl FrameCounter {
    pub fn default() -> (r: Self)
        ensures
            r.elapsed == 0,
            r.target == INITIAL_DROP_FRAMES,
    {
        FrameCounter { elapsed: 0, target: INITIAL_DROP_FRAMES }
    }

    pub fn tick(&mut self)
        requires
            old(self).elapsed < i64::MAX,
        ensures
            final(self).elapsed == old(self).elapsed + 1,
            final(self).target == old(self).target,
    {
        self.elapsed = self.elapsed + 1;
    }

    pub fn set_target(&mut self, tar: i64)
        ensures
            final(self).elapsed == old(self).elapsed,
            final(self).target == tar,
    {
        self.target = tar;
    }

    pub fn reset(&mut self)
        ensures
            final(self).elapsed == 0,
            final(self).target == old(self).target,
    {
        self.elapsed = 0;
    }

    pub fn is_finished(&mut self) -> (r: bool)
        ensures
            *final(self) == *old(self),
            r == spec_finished(*old(self)),
    {
        if self.target < 0 {
            return false;
        }
        self.target <= self.elapsed
    }

    pub fn force_finish(&mut self)
        ensures
            final(self).elapsed == old(self).target,
            final(self).target == old(self).target,
    {
        self.elapsed = self.target;
    }
}

/// Law of the gravity timer: right after a reset the timer has not fired
/// (for a strictly positive target), a negative target never fires, and a
/// non-negative target has fired exactly when the elapsed count has reached
/// it.  With a target of zero the timer fires at once, so the first clause
/// asks for a positive target.
pub proof fn lemma_gravity_timer(c: FrameCounter)
    ensures
        c.elapsed == 0 && c.target > 0 ==> !spec_finished(c),
        c.target < 0 ==> !spec_finished(c),
        c.target >= 0 ==> (spec_finished(c) <==> c.elapsed >= c.target),
{
}

} // verus!
