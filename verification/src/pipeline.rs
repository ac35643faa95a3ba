//! The transfer pipeline: the sampling task starts a conversion, the engine
//! moves its result into the active buffer, and the consumer task takes the
//! filled buffer while the engine is given the other one.

use vstd::prelude::*;
use crate::buffers::{BufferPool, BufferSlot, PoolView, Samples, Slot};

verus! {

/// Where a transfer stands.
#[derive(Clone, Copy, Debug, PartialEq, Eq, Structural)]
pub enum Phase {
    /// Nothing has been started yet.
    Idle,
    /// The engine has its destination; no conversion has been triggered.
    Armed,
    /// A conversion runs and the engine writes.
    InFlight,
    /// The engine has signalled the end; the buffer is not taken yet.
    Complete,
}

/// Why a step of the pipeline was refused.
#[derive(Clone, Copy, Debug, PartialEq, Eq, Structural)]
pub enum PipelineError {
    /// A transfer was to be started while the one before it was still in
    /// flight or not yet taken.
    Overrun,
    /// A conversion was to be triggered with no engine armed.
    NotArmed,
    /// The engine signalled the end of a transfer that was not in flight.
    NotInFlight,
    /// A buffer was to be taken with no transfer complete.
    NotComplete,
    /// A buffer was to be taken while the one before it was still out.
    NoSpare,
    /// A buffer was given back that is not the one that is out.
    NotLent,
}

/// What can happen to a pipeline.
pub enum Event {
    /// The engine is given its destination.
    Arm,
    /// A conversion is triggered.
    Trigger,
    /// The engine has written these samples and signals the end.
    Done(Samples),
    /// The consumer takes the filled buffer.
    Take,
    /// The consumer gives this buffer back.
    GiveBack(Slot),
}

/// The mathematical value of a [`Pipeline`].
pub struct PipelineView {
    pub phase: Phase,
    pub pool: PoolView,
}

impl PipelineView {
    /// The pipeline at start.
    pub open spec fn initial() -> PipelineView {
        PipelineView { phase: Phase::Idle, pool: PoolView::initial() }
    }

    /// Why the event is refused in this state, if it is.
    pub open spec fn refusal(self, event: Event) -> Option<PipelineError> {
        match event {
            Event::Arm => match self.phase {
                Phase::Idle | Phase::Armed => None,
                Phase::InFlight | Phase::Complete => Some(PipelineError::Overrun),
            },
            Event::Trigger => if self.phase == Phase::Armed {
                None
            } else {
                Some(PipelineError::NotArmed)
            },
            Event::Done(_) => if self.phase == Phase::InFlight {
                None
            } else {
                Some(PipelineError::NotInFlight)
            },
            Event::Take => if self.phase != Phase::Complete {
                Some(PipelineError::NotComplete)
            } else if !self.pool.can_swap() {
                Some(PipelineError::NoSpare)
            } else {
                None
            },
            Event::GiveBack(slot) => if self.pool.is_lent(slot) {
                None
            } else {
                Some(PipelineError::NotLent)
            },
        }
    }

    /// The state after the event; a refused event changes nothing.
    pub open spec fn apply(self, event: Event) -> PipelineView {
        if self.refusal(event).is_some() {
            self
        } else {
            match event {
                Event::Arm => PipelineView { phase: Phase::Armed, ..self },
                Event::Trigger => PipelineView { phase: Phase::InFlight, ..self },
                Event::Done(samples) => PipelineView {
                    phase: Phase::Complete,
                    pool: self.pool.filled(samples),
                },
                Event::Take => PipelineView { phase: Phase::Armed, pool: self.pool.swapped() },
                Event::GiveBack(slot) => PipelineView { pool: self.pool.returned(slot), ..self },
            }
        }
    }

    /// The state after a start by the sampling task: armed, then triggered.
    pub open spec fn started(self) -> PipelineView {
        self.apply(Event::Arm).apply(Event::Trigger)
    }

    /// The state after the events, in order.
    pub open spec fn run(self, events: Seq<Event>) -> PipelineView
        decreases events.len(),
    {
        if events.len() == 0 {
            self
        } else {
            self.run(events.drop_last()).apply(events.last())
        }
    }

    /// The buffers that the consumer took in the course of the events, in
    /// order.
    pub open spec fn taken(self, events: Seq<Event>) -> Seq<Slot>
        decreases events.len(),
    {
        if events.len() == 0 {
            Seq::empty()
        } else {
            let before = self.run(events.drop_last());
            let earlier = self.taken(events.drop_last());
            if events.last() is Take && before.refusal(Event::Take).is_none() {
                earlier.push(before.pool.active)
            } else {
                earlier
            }
        }
    }
}

/// The transfer and its two buffers.
pub struct Pipeline {
    phase: Phase,
    pool: BufferPool,
}

impl View for Pipeline {
    type V = PipelineView;

    closed spec fn view(&self) -> PipelineView {
        PipelineView { phase: self.phase, pool: self.pool@ }
    }
}

impl Pipeline {
    /// The pipeline at start: idle, the first buffer assigned to the
    /// engine.
    pub fn new() -> (p: Pipeline)
        ensures
            p@ == PipelineView::initial(),
    {
        Pipeline { phase: Phase::Idle, pool: BufferPool::new() }
    }

    /// Where the transfer stands.
    pub fn phase(&self) -> (ph: Phase)
        ensures
            ph == self@.phase,
    {
        self.phase
    }

    /// The engine's destination.
    pub fn active(&self) -> (s: Slot)
        ensures
            s == self@.pool.active,
            self@.pool.exclusive(),
    {
        self.pool.active()
    }

    /// Gives the engine its destination. Nothing to do on an armed
    /// pipeline; an overrun while a transfer is in flight or not yet taken.
    pub fn arm(&mut self) -> (r: Result<Slot, PipelineError>)
        ensures
            final(self)@ == old(self)@.apply(Event::Arm),
            r.is_ok() == old(self)@.refusal(Event::Arm).is_none(),
            r matches Ok(slot) ==> slot == old(self)@.pool.active,
            r matches Err(e) ==> old(self)@.refusal(Event::Arm) == Some(e),
    {
        match self.phase {
            Phase::Idle | Phase::Armed => {
                self.phase = Phase::Armed;
                Ok(self.pool.active())
            },
            Phase::InFlight | Phase::Complete => Err(PipelineError::Overrun),
        }
    }

    /// Triggers the conversion on an armed pipeline.
    pub fn trigger(&mut self) -> (r: Result<(), PipelineError>)
        ensures
            final(self)@ == old(self)@.apply(Event::Trigger),
            r.is_ok() == old(self)@.refusal(Event::Trigger).is_none(),
            r matches Err(e) ==> old(self)@.refusal(Event::Trigger) == Some(e),
    {
        match self.phase {
            Phase::Armed => {
                self.phase = Phase::InFlight;
                Ok(())
            },
            _ => Err(PipelineError::NotArmed),
        }
    }

    /// The sampling task's step: arms the engine where that is still to be
    /// done and triggers the conversion. Returns the buffer that the engine
    /// writes into. While the transfer before is in flight or not yet taken
    /// this is an overrun, and nothing changes.
    pub fn start_next(&mut self) -> (r: Result<Slot, PipelineError>)
        ensures
            final(self)@ == old(self)@.started(),
            r.is_ok() == (old(self)@.phase == Phase::Idle || old(self)@.phase == Phase::Armed),
            r matches Ok(slot) ==> slot == old(self)@.pool.active && final(self)@
                == (PipelineView { phase: Phase::InFlight, ..old(self)@ }),
            r matches Err(e) ==> e == PipelineError::Overrun && final(self)@ == old(self)@,
    {
        match self.arm() {
            Ok(slot) => {
                let _ = self.trigger();
                Ok(slot)
            },
            Err(e) => Err(e),
        }
    }

    /// The engine's signal that it has written `samples` to its
    /// destination.
    pub fn transfer_done(&mut self, samples: Samples) -> (r: Result<(), PipelineError>)
        ensures
            final(self)@ == old(self)@.apply(Event::Done(samples)),
            r.is_ok() == old(self)@.refusal(Event::Done(samples)).is_none(),
            r matches Err(e) ==> old(self)@.refusal(Event::Done(samples)) == Some(e),
    {
        match self.phase {
            Phase::InFlight => {
                self.pool.fill(samples);
                self.phase = Phase::Complete;
                Ok(())
            },
            _ => Err(PipelineError::NotInFlight),
        }
    }

    /// The consumer task's step: takes the buffer that the engine has
    /// filled and gives the engine the other one, armed for the next
    /// conversion. The buffer that is handed out is no longer the engine's
    /// destination.
    pub fn on_complete(&mut self) -> (r: Result<BufferSlot, PipelineError>)
        ensures
            final(self)@ == old(self)@.apply(Event::Take),
            r.is_ok() == old(self)@.refusal(Event::Take).is_none(),
            r matches Err(e) ==> old(self)@.refusal(Event::Take) == Some(e),
            r matches Ok(b) ==> {
                &&& b.id() == old(self)@.pool.active
                &&& b.data() == old(self)@.pool.contents(old(self)@.pool.active)
                &&& final(self)@.pool.active == b.id().other()
                &&& final(self)@.pool.is_lent(b.id())
            },
    {
        match self.phase {
            Phase::Complete => {
                match self.pool.swap() {
                    Some(b) => {
                        self.phase = Phase::Armed;
                        Ok(b)
                    },
                    None => Err(PipelineError::NoSpare),
                }
            },
            _ => Err(PipelineError::NotComplete),
        }
    }

    /// The consumer is done with a buffer: it waits in the pool again.
    pub fn release(&mut self, buffer: BufferSlot) -> (r: Result<(), PipelineError>)
        ensures
            final(self)@ == old(self)@.apply(Event::GiveBack(buffer.id())),
            r.is_ok() == old(self)@.refusal(Event::GiveBack(buffer.id())).is_none(),
            r matches Err(e) ==> old(self)@.refusal(Event::GiveBack(buffer.id())) == Some(e),
    {
        if self.pool.give_back(buffer) {
            Ok(())
        } else {
            Err(PipelineError::NotLent)
        }
    }
}

/// Whatever happens to a pipeline, in whatever order, the engine's
/// destination is never the buffer that the consumer has, nor the one that
/// waits in the pool.
pub proof fn lemma_buffers_stay_exclusive(start: PipelineView, events: Seq<Event>)
    requires
        start.pool.exclusive(),
    ensures
        start.run(events).pool.exclusive(),
        start.run(events).pool.lent != Some(start.run(events).pool.active),
        start.run(events).pool.spare != Some(start.run(events).pool.active),
    decreases events.len(),
{
    if events.len() > 0 {
        lemma_buffers_stay_exclusive(start, events.drop_last());
    }
}

/// The slot that the `k`-th taken buffer must be if the buffers alternate,
/// beginning with `first`.
pub open spec fn alternating(first: Slot, k: int) -> Slot {
    if k % 2 == 0 {
        first
    } else {
        first.other()
    }
}

/// The buffers that the consumer takes alternate between the two physical
/// buffers, beginning with the engine's first destination, whatever else
/// happens in between.
pub proof fn lemma_taken_buffers_alternate(start: PipelineView, events: Seq<Event>)
    requires
        start.pool.exclusive(),
    ensures
        forall|k: int|
            0 <= k < start.taken(events).len() ==> #[trigger] start.taken(events)[k]
                == alternating(start.pool.active, k),
        start.run(events).pool.active == alternating(
            start.pool.active,
            start.taken(events).len() as int,
        ),
    decreases events.len(),
{
    if events.len() > 0 {
        lemma_taken_buffers_alternate(start, events.drop_last());
        lemma_buffers_stay_exclusive(start, events.drop_last());
    }
}

} // verus!
