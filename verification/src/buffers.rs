//! The pool of two sample buffers behind the transfer engine: at every
//! moment the engine writes into one of them, and the other one either waits
//! in the pool or is out with the consumer.

use vstd::prelude::*;

verus! {

/// The two channels of one conversion, in sequence order.
pub type Samples = [u16; 2];

/// One of the two physical buffers.
#[derive(Clone, Copy, Debug, PartialEq, Eq, Structural)]
pub enum Slot {
    First,
    Second,
}

impl Slot {
    /// The other physical buffer.
    pub open spec fn other(self) -> Slot {
        match self {
            Slot::First => Slot::Second,
            Slot::Second => Slot::First,
        }
    }

    /// The other physical buffer.
    pub fn flipped(self) -> (s: Slot)
        ensures
            s == self.other(),
    {
        match self {
            Slot::First => Slot::Second,
            Slot::Second => Slot::First,
        }
    }
}

/// A filled buffer in the consumer's hands: which physical buffer it is and
/// what the engine wrote into it. It cannot be copied, and stays out of the
/// engine's reach until it is given back.
#[derive(Debug)]
pub struct BufferSlot {
    slot: Slot,
    samples: Samples,
}

impl BufferSlot {
    /// The physical buffer.
    pub closed spec fn id(&self) -> Slot {
        self.slot
    }

    /// What the buffer holds.
    pub closed spec fn data(&self) -> Samples {
        self.samples
    }

    /// The physical buffer.
    pub fn slot(&self) -> (s: Slot)
        ensures
            s == self.id(),
    {
        self.slot
    }

    /// What the buffer holds.
    pub fn samples(&self) -> (s: Samples)
        ensures
            s == self.data(),
    {
        self.samples
    }
}

/// The mathematical value of a [`BufferPool`].
pub struct PoolView {
    /// The engine's destination.
    pub active: Slot,
    /// The buffer that waits in the pool, if it is there.
    pub spare: Option<Slot>,
    /// The buffer that is out with the consumer, if one is.
    pub lent: Option<Slot>,
    /// What the first buffer holds.
    pub first: Samples,
    /// What the second buffer holds.
    pub second: Samples,
}

impl PoolView {
    /// The buffer that the engine does not write into is in exactly one
    /// place, in the pool or with the consumer; so neither the pool nor the
    /// consumer has the engine's destination.
    pub open spec fn exclusive(self) -> bool {
        ||| self.spare == Some(self.active.other()) && self.lent.is_none()
        ||| self.spare.is_none() && self.lent == Some(self.active.other())
    }

    /// What a buffer holds.
    pub open spec fn contents(self, slot: Slot) -> Samples {
        match slot {
            Slot::First => self.first,
            Slot::Second => self.second,
        }
    }

    /// The pool after the engine has written `samples` to its destination.
    pub open spec fn filled(self, samples: Samples) -> PoolView {
        match self.active {
            Slot::First => PoolView { first: samples, ..self },
            Slot::Second => PoolView { second: samples, ..self },
        }
    }

    /// Whether the engine can be given another destination.
    pub open spec fn can_swap(self) -> bool {
        self.spare.is_some()
    }

    /// The pool after a swap: the waiting buffer is the engine's, the
    /// engine's is out with the consumer.
    pub open spec fn swapped(self) -> PoolView {
        PoolView { active: self.spare.unwrap(), spare: None, lent: Some(self.active), ..self }
    }

    /// Whether `slot` is out with the consumer.
    pub open spec fn is_lent(self, slot: Slot) -> bool {
        self.lent == Some(slot)
    }

    /// The pool after the consumer has given `slot` back.
    pub open spec fn returned(self, slot: Slot) -> PoolView {
        PoolView { spare: Some(slot), lent: None, ..self }
    }

    /// The pool at start: the engine has the first buffer, the second one
    /// waits, and both hold zeros.
    pub open spec fn initial() -> PoolView {
        PoolView {
            active: Slot::First,
            spare: Some(Slot::Second),
            lent: None,
            first: [0u16, 0u16],
            second: [0u16, 0u16],
        }
    }
}

/// Two buffers and who has which.
pub struct BufferPool {
    active: Slot,
    spare: Option<Slot>,
    lent: Option<Slot>,
    first: Samples,
    second: Samples,
}

impl View for BufferPool {
    type V = PoolView;

    closed spec fn view(&self) -> PoolView {
        PoolView {
            active: self.active,
            spare: self.spare,
            lent: self.lent,
            first: self.first,
            second: self.second,
        }
    }
}

impl BufferPool {
    #[verifier::type_invariant]
    spec fn inv(self) -> bool {
        self@.exclusive()
    }

    /// The pool at start.
    pub fn new() -> (pool: BufferPool)
        ensures
            pool@ == PoolView::initial(),
    {
        BufferPool {
            active: Slot::First,
            spare: Some(Slot::Second),
            lent: None,
            first: [0, 0],
            second: [0, 0],
        }
    }

    /// The engine's destination.
    pub fn active(&self) -> (s: Slot)
        ensures
            s == self@.active,
            self@.exclusive(),
    {
        proof {
            use_type_invariant(self);
        }
        self.active
    }

    /// Whether a buffer waits in the pool.
    pub fn has_spare(&self) -> (b: bool)
        ensures
            b == self@.can_swap(),
    {
        self.spare.is_some()
    }

    /// The engine has written `samples` to its destination.
    pub fn fill(&mut self, samples: Samples)
        ensures
            final(self)@ == old(self)@.filled(samples),
    {
        proof {
            use_type_invariant(&*self);
        }
        match self.active {
            Slot::First => {
                self.first = samples;
            },
            Slot::Second => {
                self.second = samples;
            },
        }
    }

    /// Gives the engine the waiting buffer and hands out the one that it
    /// has filled; `None`, and nothing changed, while the other buffer is
    /// still out with the consumer.
    pub fn swap(&mut self) -> (filled: Option<BufferSlot>)
        ensures
            old(self)@.exclusive(),
            final(self)@.exclusive(),
            filled.is_some() == old(self)@.can_swap(),
            filled.is_none() ==> final(self)@ == old(self)@,
            filled matches Some(b) ==> {
                &&& final(self)@ == old(self)@.swapped()
                &&& b.id() == old(self)@.active
                &&& b.data() == old(self)@.contents(old(self)@.active)
                &&& final(self)@.active == old(self)@.active.other()
            },
    {
        proof {
            use_type_invariant(&*self);
        }
        match self.spare {
            None => None,
            Some(next) => {
                let slot = self.active;
                let samples = match slot {
                    Slot::First => self.first,
                    Slot::Second => self.second,
                };
                *self = BufferPool {
                    active: next,
                    spare: None,
                    lent: Some(slot),
                    first: self.first,
                    second: self.second,
                };
                Some(BufferSlot { slot, samples })
            },
        }
    }

    /// Takes back a buffer that the consumer is done with; `false`, and
    /// nothing changed, if that buffer is not the one that is out.
    pub fn give_back(&mut self, buffer: BufferSlot) -> (taken: bool)
        ensures
            taken == old(self)@.is_lent(buffer.id()),
            taken ==> final(self)@ == old(self)@.returned(buffer.id()),
            !taken ==> final(self)@ == old(self)@,
            final(self)@.exclusive(),
    {
        proof {
            use_type_invariant(&*self);
        }
        let back = buffer.slot;
        let is_out = match self.lent {
            Some(out) => out == back,
            None => false,
        };
        if is_out {
            *self = BufferPool {
                active: self.active,
                spare: Some(back),
                lent: None,
                first: self.first,
                second: self.second,
            };
        }
        is_out
    }
}

} // verus!
