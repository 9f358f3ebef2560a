//! A reusable rendezvous of a fixed number of parties, which can be
//! called off.
//!
//! Each round, every party arrives once.  The last to arrive releases the
//! round: the generation moves on, and every party still waiting on the
//! old generation may go.  Calling the rendezvous off releases every
//! waiter at once, now and for good, so that a party that left cannot
//! hold the others forever.

use vstd::prelude::*;

verus! {

/// What an arriving party is told.
#[derive(Clone, Copy, Debug, PartialEq, Eq, Structural)]
pub enum Arrival {
    /// Wait until `is_released(ticket)` holds.
    Wait { ticket: u64 },
    /// This party completed the round; all parties may go.
    Release,
    /// The rendezvous was called off.
    Aborted,
}

pub struct RendezvousView {
    pub parties: int,
    pub arrived: int,
    pub generation: int,
    pub aborted: bool,
}

/// The generation after `g`, counted modulo 2^64.
pub open spec fn next_generation(g: int) -> int {
    if g == u64::MAX { 0 } else { g + 1 }
}

impl RendezvousView {
    pub open spec fn wf(self) -> bool {
        &&& 1 <= self.parties <= u32::MAX
        &&& 0 <= self.arrived < self.parties
        &&& 0 <= self.generation <= u64::MAX
    }

    /// The state after one more party arrives, and what it is told.
    pub open spec fn arrive(self) -> (RendezvousView, Arrival) {
        if self.aborted {
            (self, Arrival::Aborted)
        } else if self.arrived + 1 >= self.parties {
            (
                RendezvousView { arrived: 0, generation: next_generation(self.generation), ..self },
                Arrival::Release,
            )
        } else {
            (RendezvousView { arrived: self.arrived + 1, ..self }, Arrival::Wait { ticket: self.generation as u64 })
        }
    }

    /// A party told to wait with `ticket` may go.
    pub open spec fn released(self, ticket: u64) -> bool {
        self.aborted || self.generation != ticket
    }
}

pub struct Rendezvous {
    parties: u32,
    arrived: u32,
    generation: u64,
    aborted: bool,
}

impl View for Rendezvous {
    type V = RendezvousView;

    closed spec fn view(&self) -> RendezvousView {
        RendezvousView {
            parties: self.parties as int,
            arrived: self.arrived as int,
            generation: self.generation as int,
            aborted: self.aborted,
        }
    }
}

impl Rendezvous {
    /// A rendezvous of `parties` parties; none, like one, releases every
    /// arrival at once.
    pub fn new(parties: u32) -> (r: Rendezvous)
        ensures
            r@ == (RendezvousView {
                parties: if parties == 0 { 1 } else { parties as int },
                arrived: 0,
                generation: 0,
                aborted: false,
            }),
            r@.wf(),
    {
        Rendezvous { parties: if parties == 0 { 1 } else { parties }, arrived: 0, generation: 0, aborted: false }
    }

    /// One party arrives.
    pub fn arrive(&mut self) -> (a: Arrival)
        requires
            old(self)@.wf(),
        ensures
            (final(self)@, a) == old(self)@.arrive(),
            final(self)@.wf(),
    {
        if self.aborted {
            Arrival::Aborted
        } else if self.arrived + 1 >= self.parties {
            self.arrived = 0;
            self.generation = self.generation.wrapping_add(1);
            Arrival::Release
        } else {
            self.arrived = self.arrived + 1;
            Arrival::Wait { ticket: self.generation }
        }
    }

    /// Whether a party told to wait with `ticket` may go.
    pub fn is_released(&self, ticket: u64) -> (r: bool)
        ensures
            r == self@.released(ticket),
    {
        self.aborted || self.generation != ticket
    }

    /// Calls the rendezvous off: every waiter, present and future, is released.
    pub fn abort(&mut self)
        ensures
            final(self)@ == (RendezvousView { aborted: true, ..old(self)@ }),
    {
        self.aborted = true;
    }

    pub fn is_aborted(&self) -> (r: bool)
        ensures
            r == self@.aborted,
    {
        self.aborted
    }
}

} // verus!
