//! Per-peer offer/answer bookkeeping of the voice relay.
//!
//! At most one server-initiated offer is in flight per peer. A request that
//! arrives while one is in flight is queued, and any number of queued requests
//! collapse into a single follow-up round. Every fresh offer gets a new
//! generation so that the resend watchdog of an older round never touches a
//! newer one.

use vstd::prelude::*;

verus! {

/// The generation that follows `g` (wrapping at `u64::MAX`).
pub open spec fn next_generation(g: u64) -> u64 {
    if g == u64::MAX { 0 } else { (g + 1) as u64 }
}

/// Signalling state of one peer: an offer is in flight, and/or another round is queued.
#[derive(Clone, Copy, Debug, PartialEq, Eq, Default)]
pub struct NegState {
    pub in_flight: bool,
    pub pending: bool,
    pub generation: u64,
}

/// What the resend watchdog of one round does after its timeout elapsed.
#[derive(Clone, Copy, Debug, PartialEq, Eq)]
pub enum WatchdogStep {
    /// The round was answered or superseded: the watchdog exits.
    Stop,
    /// The round is still unanswered: resend the offer under this new generation.
    Resend(u64),
}

impl NegState {
    /// State of a peer that has just sent its initial offer: the relay owes it
    /// an answer, so the peer counts as negotiating from the start.
    pub fn joining() -> (s: NegState)
        ensures
            s.in_flight,
            !s.pending,
            s.generation == 0,
    {
        NegState { in_flight: true, pending: false, generation: 0 }
    }

    /// Spec of `try_begin`: the state after a claim attempt.
    pub open spec fn begin_spec(self) -> NegState {
        if self.in_flight {
            NegState { pending: true, ..self }
        } else {
            NegState { in_flight: true, pending: self.pending, generation: next_generation(self.generation) }
        }
    }

    /// Spec of `finish`: the state after a round completed.
    pub open spec fn finish_spec(self) -> NegState {
        NegState { in_flight: false, pending: false, generation: self.generation }
    }

    /// Claim the right to send an offer. If one is already in flight, queue a
    /// follow-up and return `None`; otherwise start a new round and return its
    /// generation.
    pub fn try_begin(&mut self) -> (r: Option<u64>)
        ensures
            *final(self) == old(self).begin_spec(),
            old(self).in_flight ==> r.is_none(),
            !old(self).in_flight ==> r == Some(final(self).generation),
    {
        if self.in_flight {
            self.pending = true;
            return None;
        }
        self.in_flight = true;
        self.generation = self.generation.wrapping_add(1);
        Some(self.generation)
    }

    /// A round finished (answered, or its offer could not be sent): release the
    /// claim and report whether a follow-up was queued meanwhile. This never
    /// claims again; the caller drains the queue by starting a new round.
    pub fn finish(&mut self) -> (resume: bool)
        ensures
            *final(self) == old(self).finish_spec(),
            resume == old(self).pending,
    {
        self.in_flight = false;
        let resume = self.pending;
        self.pending = false;
        resume
    }

    /// Spec of `watchdog_tick`.
    pub open spec fn watchdog_spec(self, guarded: u64) -> (NegState, WatchdogStep) {
        if !self.in_flight || self.generation != guarded {
            (self, WatchdogStep::Stop)
        } else {
            let g = next_generation(self.generation);
            (NegState { in_flight: true, pending: false, generation: g }, WatchdogStep::Resend(g))
        }
    }

    /// The resend watchdog guarding generation `guarded` woke up. If that round
    /// is still the one in flight and unanswered, it is resent under a fresh
    /// generation (so a late answer to the old offer is not taken for this one).
    pub fn watchdog_tick(&mut self, guarded: u64) -> (step: WatchdogStep)
        ensures
            (*final(self), step) == old(self).watchdog_spec(guarded),
    {
        if !self.in_flight || self.generation != guarded {
            return WatchdogStep::Stop;
        }
        self.generation = self.generation.wrapping_add(1);
        self.pending = false;
        WatchdogStep::Resend(self.generation)
    }

    /// Spec of `watchdog_give_up`.
    pub open spec fn give_up_spec(self, guarded: u64) -> NegState {
        if self.in_flight && self.generation == guarded {
            NegState { in_flight: false, ..self }
        } else {
            self
        }
    }

    /// The watchdog exhausted its resends: release the claim if its round is
    /// still the one in flight, so a later change can start a fresh round.
    pub fn watchdog_give_up(&mut self, guarded: u64)
        ensures
            *final(self) == old(self).give_up_spec(guarded),
    {
        if self.in_flight && self.generation == guarded {
            self.in_flight = false;
        }
    }
}

/// While an offer is in flight, any number of further requests collapse into a
/// single queued follow-up: repeating the claim attempt changes nothing more.
pub proof fn lemma_queued_requests_collapse(s: NegState)
    requires
        s.in_flight,
    ensures
        s.begin_spec().begin_spec() == s.begin_spec(),
        s.begin_spec().pending,
        s.begin_spec().in_flight,
        s.begin_spec().generation == s.generation,
{
}

/// Finishing a round releases the claim without taking it again, so the next
/// claim attempt starts a fresh round under a new generation; and a request
/// queued while the round was in flight is reported by the finish.
pub proof fn lemma_finish_then_begin_starts_round(s: NegState)
    ensures
        !s.finish_spec().in_flight,
        s.finish_spec().begin_spec().in_flight,
        s.finish_spec().begin_spec().generation == next_generation(s.generation),
        s.in_flight ==> s.begin_spec().finish_spec() == s.finish_spec(),
{
}

/// A watchdog whose round has been superseded by a newer round does nothing:
/// it stops, and the state is left as it was.
pub proof fn lemma_stale_watchdog_is_inert(s: NegState, guarded: u64)
    requires
        s.generation != guarded,
    ensures
        s.watchdog_spec(guarded) == (s, WatchdogStep::Stop),
        s.give_up_spec(guarded) == s,
{
}

/// A watchdog whose round was answered does nothing either.
pub proof fn lemma_answered_round_stops_watchdog(s: NegState, guarded: u64)
    requires
        !s.in_flight,
    ensures
        s.watchdog_spec(guarded) == (s, WatchdogStep::Stop),
        s.give_up_spec(guarded) == s,
{
}

/// After a resend, the watchdog of the round it replaced is stale: the
/// generation moved on.
pub proof fn lemma_resend_supersedes(s: NegState, guarded: u64)
    requires
        s.in_flight,
        s.generation == guarded,
    ensures
        s.watchdog_spec(guarded).0.generation != guarded,
        s.watchdog_spec(guarded).0.in_flight,
        s.watchdog_spec(guarded).1 == WatchdogStep::Resend(s.watchdog_spec(guarded).0.generation),
{
}

} // verus!
