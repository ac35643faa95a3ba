//! The three interrupt tasks: what each of them decides and computes
//! between taking and giving back the lock of the state that it shares.

use vstd::prelude::*;
use crate::buffers::Slot;
use crate::dispatch::{DispatchError, Dispatcher, DispatcherView};
use crate::interval::{lemma_tick_keeps_reachable, reachable, step, Schedule, TimerInfo};
use crate::output::{line_end, sample_chars, sample_line};
use crate::pipeline::{Event, Pipeline, PipelineError};
use crate::shared::SharedResource;

verus! {

/// Why a task gave up.
#[derive(Clone, Copy, Debug, PartialEq, Eq, Structural)]
pub enum TaskError {
    /// The lock was refused.
    Lock(DispatchError),
    /// The pipeline refused the step.
    Pipeline(PipelineError),
    /// The timer state cannot take another tick.
    Timer,
}

/// The periodic timer task: under the lock of the timer state, one tick.
/// Returns the interval to restart the timer with. The dispatcher is left
/// as it was found, and a timer state that whole ticks lead to stays one
/// that whole ticks lead to.
pub fn timer_expired(
    d: &mut Dispatcher,
    timer_info: &mut SharedResource<TimerInfo>,
    schedule: &Schedule,
) -> (r: Result<u32, TaskError>)
    requires
        old(d)@.wf(),
    ensures
        final(d)@.wf(),
        final(d)@ == old(d)@,
        final(timer_info).id() == old(timer_info).id(),
        schedule@.wf() && reachable(schedule@, old(timer_info).value()@) ==> reachable(
            schedule@,
            final(timer_info).value()@,
        ),
        match old(d)@.lock_refusal(old(timer_info).id()) {
            Some(e) => r == Err::<u32, TaskError>(TaskError::Lock(e)) && final(timer_info).value()
                == old(timer_info).value(),
            None => if old(timer_info).value().can_tick(schedule) {
                &&& final(timer_info).value()@ == step(schedule@, old(timer_info).value()@)
                &&& r == Ok::<u32, TaskError>(
                    schedule.intervals@[final(timer_info).value().current_timeout as int],
                )
            } else {
                &&& final(timer_info).value() == old(timer_info).value()
                &&& r == Err::<u32, TaskError>(TaskError::Timer)
            },
        },
{
    let resource = timer_info.resource();
    match d.lock(resource) {
        Err(e) => Err(TaskError::Lock(e)),
        Ok(()) => {
            let ticked = timer_info.get_mut(d).checked_tick(schedule);
            let _ = d.unlock(resource);
            proof {
                lemma_lock_scope_restores(old(d)@, resource);
                if schedule@.wf() && reachable(schedule@, old(timer_info).value()@) {
                    lemma_tick_keeps_reachable(schedule@, old(timer_info).value()@);
                }
            }
            match ticked {
                Some(interval) => Ok(interval),
                None => Err(TaskError::Timer),
            }
        },
    }
}

/// The sampling task: under the lock of the transfer, starts the next
/// conversion. Returns the buffer that the engine writes into; an overrun
/// while the transfer before is in flight or not yet taken.
pub fn adc_start(d: &mut Dispatcher, transfer: &mut SharedResource<Pipeline>) -> (r: Result<
    Slot,
    TaskError,
>)
    requires
        old(d)@.wf(),
    ensures
        final(d)@.wf(),
        final(d)@ == old(d)@,
        final(transfer).id() == old(transfer).id(),
        match old(d)@.lock_refusal(old(transfer).id()) {
            Some(e) => r == Err::<Slot, TaskError>(TaskError::Lock(e)) && final(transfer).value()
                == old(transfer).value(),
            None => {
                &&& final(transfer).value()@ == old(transfer).value()@.started()
                &&& r == if old(transfer).value()@.refusal(Event::Arm).is_none() {
                    Ok::<Slot, TaskError>(old(transfer).value()@.pool.active)
                } else {
                    Err::<Slot, TaskError>(TaskError::Pipeline(PipelineError::Overrun))
                }
            },
        },
{
    let resource = transfer.resource();
    match d.lock(resource) {
        Err(e) => Err(TaskError::Lock(e)),
        Ok(()) => {
            let started = transfer.get_mut(d).start_next();
            let _ = d.unlock(resource);
            proof {
                lemma_lock_scope_restores(old(d)@, resource);
            }
            match started {
                Ok(slot) => Ok(slot),
                Err(e) => Err(TaskError::Pipeline(e)),
            }
        },
    }
}

/// The consumer task: under the lock of the transfer, takes the filled
/// buffer, reads the two samples and gives the buffer back to the pool.
/// Returns the line to send. Where no transfer is complete, or the buffer
/// before is still out, the pipeline is left as it was.
pub fn dma(d: &mut Dispatcher, transfer: &mut SharedResource<Pipeline>) -> (r: Result<
    String,
    TaskError,
>)
    requires
        old(d)@.wf(),
    ensures
        final(d)@.wf(),
        final(d)@ == old(d)@,
        final(transfer).id() == old(transfer).id(),
        match old(d)@.lock_refusal(old(transfer).id()) {
            Some(e) => {
                &&& r == Err::<String, TaskError>(TaskError::Lock(e))
                &&& final(transfer).value() == old(transfer).value()
            },
            None => match old(transfer).value()@.refusal(Event::Take) {
                Some(e) => {
                    &&& r == Err::<String, TaskError>(TaskError::Pipeline(e))
                    &&& final(transfer).value()@ == old(transfer).value()@
                },
                None => {
                    let before = old(transfer).value()@;
                    let filled = before.pool.contents(before.pool.active);
                    &&& final(transfer).value()@ == before.apply(Event::Take).apply(
                        Event::GiveBack(before.pool.active),
                    )
                    &&& final(transfer).value()@.pool.active == before.pool.active.other()
                    &&& r.is_ok()
                    &&& r.unwrap()@ == sample_chars(filled[0], filled[1]) + line_end()
                },
            },
        },
{
    let resource = transfer.resource();
    match d.lock(resource) {
        Err(e) => Err(TaskError::Lock(e)),
        Ok(()) => {
            let pipeline = transfer.get_mut(d);
            let line = match pipeline.on_complete() {
                Err(e) => Err(TaskError::Pipeline(e)),
                Ok(buffer) => {
                    let samples = buffer.samples();
                    let mic1 = samples[0];
                    let mic2 = samples[1];
                    let _ = pipeline.release(buffer);
                    Ok(sample_line(mic1, mic2))
                },
            };
            let _ = d.unlock(resource);
            proof {
                lemma_lock_scope_restores(old(d)@, resource);
            }
            line
        },
    }
}

/// A lock that is granted and given back leaves the dispatcher as it was.
pub proof fn lemma_lock_scope_restores(v: DispatcherView, r: usize)
    requires
        v.wf(),
        v.lock_refusal(r).is_none(),
    ensures
        v.locked(r).holds(r),
        v.locked(r).unlocked() == v,
{
    let top = v.running.len() - 1;
    assert(v.frame_ok(top));
    assert(v.locked(r).unlocked().running =~= v.running);
}

} // verus!
