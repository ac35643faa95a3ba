use stm32f4d::buffers::{BufferPool, Slot};
use stm32f4d::pipeline::{Phase, Pipeline, PipelineError};

#[test]
fn new_pipeline_is_idle_on_first_buffer() {
    let p = Pipeline::new();
    assert_eq!(p.phase(), Phase::Idle);
    assert_eq!(p.active(), Slot::First);
}

#[test]
fn slot_flipped_is_the_other_slot() {
    assert_eq!(Slot::First.flipped(), Slot::Second);
    assert_eq!(Slot::Second.flipped(), Slot::First);
}

#[test]
fn phases_follow_one_cycle() {
    let mut p = Pipeline::new();
    assert_eq!(p.arm(), Ok(Slot::First));
    assert_eq!(p.phase(), Phase::Armed);
    assert_eq!(p.arm(), Ok(Slot::First));
    assert_eq!(p.phase(), Phase::Armed);
    assert_eq!(p.trigger(), Ok(()));
    assert_eq!(p.phase(), Phase::InFlight);
    assert_eq!(p.transfer_done([7, 9]), Ok(()));
    assert_eq!(p.phase(), Phase::Complete);
    let b = p.on_complete().unwrap();
    assert_eq!(p.phase(), Phase::Armed);
    assert_eq!(b.slot(), Slot::First);
    assert_eq!(b.samples(), [7, 9]);
    assert_eq!(p.active(), Slot::Second);
}

#[test]
fn start_next_from_idle_goes_in_flight() {
    let mut p = Pipeline::new();
    assert_eq!(p.start_next(), Ok(Slot::First));
    assert_eq!(p.phase(), Phase::InFlight);
}

#[test]
fn start_next_while_in_flight_is_an_overrun() {
    let mut p = Pipeline::new();
    p.start_next().unwrap();
    assert_eq!(p.start_next(), Err(PipelineError::Overrun));
    assert_eq!(p.phase(), Phase::InFlight);
    assert_eq!(p.active(), Slot::First);
}

#[test]
fn start_next_before_the_buffer_is_taken_is_an_overrun() {
    let mut p = Pipeline::new();
    p.start_next().unwrap();
    p.transfer_done([1, 2]).unwrap();
    assert_eq!(p.start_next(), Err(PipelineError::Overrun));
    assert_eq!(p.arm(), Err(PipelineError::Overrun));
    assert_eq!(p.phase(), Phase::Complete);
}

#[test]
fn trigger_needs_an_armed_pipeline() {
    let mut p = Pipeline::new();
    assert_eq!(p.trigger(), Err(PipelineError::NotArmed));
    assert_eq!(p.phase(), Phase::Idle);
    p.start_next().unwrap();
    assert_eq!(p.trigger(), Err(PipelineError::NotArmed));
    assert_eq!(p.phase(), Phase::InFlight);
}

#[test]
fn transfer_done_needs_a_transfer_in_flight() {
    let mut p = Pipeline::new();
    assert_eq!(p.transfer_done([1, 2]), Err(PipelineError::NotInFlight));
    p.arm().unwrap();
    assert_eq!(p.transfer_done([1, 2]), Err(PipelineError::NotInFlight));
    assert_eq!(p.phase(), Phase::Armed);
}

#[test]
fn on_complete_needs_a_complete_transfer() {
    let mut p = Pipeline::new();
    assert_eq!(p.on_complete().unwrap_err(), PipelineError::NotComplete);
    p.start_next().unwrap();
    assert_eq!(p.on_complete().unwrap_err(), PipelineError::NotComplete);
    assert_eq!(p.phase(), Phase::InFlight);
}

#[test]
fn on_complete_while_the_buffer_is_out_has_no_spare() {
    let mut p = Pipeline::new();
    p.start_next().unwrap();
    p.transfer_done([1, 2]).unwrap();
    let first = p.on_complete().unwrap();
    p.start_next().unwrap();
    p.transfer_done([3, 4]).unwrap();
    assert_eq!(p.on_complete().unwrap_err(), PipelineError::NoSpare);
    assert_eq!(p.phase(), Phase::Complete);
    assert_eq!(p.active(), Slot::Second);
    assert_eq!(p.release(first), Ok(()));
    let second = p.on_complete().unwrap();
    assert_eq!(second.slot(), Slot::Second);
    assert_eq!(second.samples(), [3, 4]);
    assert_eq!(p.active(), Slot::First);
}

#[test]
fn release_of_a_foreign_buffer_is_refused() {
    let mut p = Pipeline::new();
    let mut q = Pipeline::new();
    q.start_next().unwrap();
    q.transfer_done([1, 2]).unwrap();
    let foreign = q.on_complete().unwrap();
    assert_eq!(p.release(foreign), Err(PipelineError::NotLent));
    assert_eq!(p.active(), Slot::First);
    assert_eq!(p.phase(), Phase::Idle);
}

#[test]
fn taken_buffers_alternate() {
    let mut p = Pipeline::new();
    let mut expected = Slot::First;
    for n in 0..8u16 {
        assert_eq!(p.start_next(), Ok(expected));
        p.transfer_done([n, n + 100]).unwrap();
        let b = p.on_complete().unwrap();
        assert_eq!(b.slot(), expected);
        assert_eq!(b.samples(), [n, n + 100]);
        assert_ne!(p.active(), b.slot());
        p.release(b).unwrap();
        expected = expected.flipped();
    }
}

#[test]
fn taken_buffer_is_never_the_engine_destination() {
    let mut p = Pipeline::new();
    p.start_next().unwrap();
    p.transfer_done([1, 2]).unwrap();
    let held = p.on_complete().unwrap();
    assert_ne!(p.active(), held.slot());
    assert_eq!(p.start_next(), Ok(Slot::Second));
    assert_ne!(p.active(), held.slot());
    p.transfer_done([3, 4]).unwrap();
    assert_ne!(p.active(), held.slot());
    assert!(p.on_complete().is_err());
    assert_ne!(p.active(), held.slot());
    assert_eq!(held.samples(), [1, 2]);
}

#[test]
fn buffer_keeps_its_samples_until_overwritten() {
    let mut p = Pipeline::new();
    for round in 0..3u16 {
        p.start_next().unwrap();
        p.transfer_done([round, round]).unwrap();
        let b = p.on_complete().unwrap();
        p.release(b).unwrap();
    }
    p.start_next().unwrap();
    p.transfer_done([40, 41]).unwrap();
    let b = p.on_complete().unwrap();
    assert_eq!(b.slot(), Slot::Second);
    assert_eq!(b.samples(), [40, 41]);
}

#[test]
fn pool_swap_and_give_back() {
    let mut pool = BufferPool::new();
    assert_eq!(pool.active(), Slot::First);
    assert!(pool.has_spare());
    pool.fill([5, 6]);
    let b = pool.swap().unwrap();
    assert_eq!(b.slot(), Slot::First);
    assert_eq!(b.samples(), [5, 6]);
    assert_eq!(pool.active(), Slot::Second);
    assert!(!pool.has_spare());
    assert!(pool.swap().is_none());
    assert_eq!(pool.active(), Slot::Second);
    assert!(pool.give_back(b));
    assert!(pool.has_spare());
    let c = pool.swap().unwrap();
    assert_eq!(c.slot(), Slot::Second);
    assert_eq!(c.samples(), [0, 0]);
    assert_eq!(pool.active(), Slot::First);
}

#[test]
fn pool_refuses_a_buffer_that_is_not_out() {
    let mut pool = BufferPool::new();
    let mut other = BufferPool::new();
    let b = other.swap().unwrap();
    assert!(!pool.give_back(b));
    assert!(pool.has_spare());
    assert_eq!(pool.active(), Slot::First);
}
