//! The frame synchronizer: a three-slot role assignment between the
//! rendering producer and the display consumer.
//!
//! The state is a permutation of the three physical buffer indices over the
//! roles ready / in-progress / presented, plus a staleness flag. The
//! producer renders into the in-progress buffer and then swaps it with the
//! ready slot, marking the frame fresh; the consumer, on a fresh frame,
//! swaps ready with presented and marks it consumed. Each transition is an
//! O(1) swap meant to run under a brief exclusive lock held by the caller;
//! no state here is touched while a frame is being rendered or copied out.

use vstd::prelude::*;

verus! {

/// Which physical buffer (0, 1 or 2) currently serves each role, and
/// whether the ready slot holds a frame the consumer has not yet claimed.
#[derive(Clone, Copy, PartialEq, Eq, Structural, Debug)]
pub struct TripState {
    pub ready: usize,
    pub in_progress: usize,
    pub presented: usize,
    pub stale: bool,
}

/// The three roles hold a permutation of the three buffer indices; in
/// particular the buffer being rendered into is never the one being
/// presented.
pub open spec fn spec_trip_wf(t: TripState) -> bool {
    t.ready < 3 && t.in_progress < 3 && t.presented < 3 && t.ready != t.in_progress && t.ready
        != t.presented && t.in_progress != t.presented
}

/// The producer's transition: the finished buffer becomes ready, the
/// former ready buffer becomes the next render target, and the frame is
/// marked fresh.
pub open spec fn spec_publish(t: TripState) -> TripState {
    TripState { ready: t.in_progress, in_progress: t.ready, presented: t.presented, stale: false }
}

/// The consumer's transition: on a fresh frame, the ready buffer becomes
/// presented and the frame is marked consumed; otherwise nothing changes.
pub open spec fn spec_claim(t: TripState) -> TripState {
    if !t.stale {
        TripState {
            ready: t.presented,
            in_progress: t.in_progress,
            presented: t.ready,
            stale: true,
        }
    } else {
        t
    }
}

/// One step of either loop.
#[derive(Clone, Copy, PartialEq, Eq, Structural, Debug)]
pub enum TripOp {
    Publish,
    Claim,
}

pub open spec fn spec_trip_step(t: TripState, op: TripOp) -> TripState {
    match op {
        TripOp::Publish => spec_publish(t),
        TripOp::Claim => spec_claim(t),
    }
}

/// The state after an arbitrary interleaving of producer and consumer
/// steps.
pub open spec fn spec_trip_run(t: TripState, ops: Seq<TripOp>) -> TripState
    decreases ops.len(),
{
    if ops.len() == 0 {
        t
    } else {
        spec_trip_run(spec_trip_step(t, ops[0]), ops.drop_first())
    }
}

/// Law: under every interleaving of producer and consumer swaps, the
/// role assignment remains a permutation of the three buffer indices, so
/// the buffer being rendered into is never the buffer being presented.
pub proof fn lemma_trip_run_preserves_wf(t: TripState, ops: Seq<TripOp>)
    requires
        spec_trip_wf(t),
    ensures
        spec_trip_wf(spec_trip_run(t, ops)),
        spec_trip_run(t, ops).in_progress != spec_trip_run(t, ops).presented,
    decreases ops.len(),
{
    if ops.len() > 0 {
        lemma_trip_run_preserves_wf(spec_trip_step(t, ops[0]), ops.drop_first());
    }
}

impl TripState {
    /// The startup assignment: buffer 0 ready, 1 in progress, 2 presented,
    /// with nothing fresh to claim yet.
    pub fn new() -> (t: TripState)
        ensures
            t == (TripState { ready: 0usize, in_progress: 1usize, presented: 2usize, stale: true }),
            spec_trip_wf(t),
    {
        TripState { ready: 0, in_progress: 1, presented: 2, stale: true }
    }

    /// The producer finished a frame in the in-progress buffer: swap it
    /// into the ready slot and mark the frame fresh.
    pub fn producer_publish(&mut self)
        ensures
            *final(self) == spec_publish(*old(self)),
            spec_trip_wf(*old(self)) ==> spec_trip_wf(*final(self)),
    {
        let t = self.ready;
        self.ready = self.in_progress;
        self.in_progress = t;
        self.stale = false;
    }

    /// The consumer claims the freshest frame for presentation, if one is
    /// fresh, and returns the index of the buffer to present.
    pub fn consumer_claim(&mut self) -> (idx: usize)
        ensures
            *final(self) == spec_claim(*old(self)),
            idx == final(self).presented,
            spec_trip_wf(*old(self)) ==> spec_trip_wf(*final(self)),
            spec_trip_wf(*old(self)) ==> idx != final(self).in_progress,
    {
        if !self.stale {
            let t = self.ready;
            self.ready = self.presented;
            self.presented = t;
            self.stale = true;
        }
        self.presented
    }
}

} // verus!
