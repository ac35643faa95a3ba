//! Push-button handling: a debounced button that speeds up a blinking
//! indicator, counts its presses and switches itself off after the fifth.

use vstd::prelude::*;
use debouncr::{Debouncer, Repeat3};

verus! {

/// `debouncr::Debouncer`, carried through as an opaque value.
#[verifier::external_type_specification]
#[verifier::external_body]
#[verifier::reject_recursive_types(S)]
#[verifier::reject_recursive_types(M)]
pub struct ExDebouncer<S, M>(debouncr::Debouncer<S, M>);

/// `debouncr::Repeat3`, the marker of a debouncer that looks at three
/// samples.
#[verifier::external_type_specification]
#[verifier::external_body]
pub struct ExRepeat3(debouncr::Repeat3);

/// The three samples that a three-sample debouncer last took, oldest first:
/// the three low bits of its state, highest first.
pub uninterp spec fn recent(d: Debouncer<u8, Repeat3>) -> Seq<bool>;

/// `debouncr::debounce_3` returns a debouncer whose three bits all hold the
/// initial state.
pub assume_specification[ debouncr::debounce_3 ](initial_state_pressed: bool) -> (d: Debouncer<
    u8,
    Repeat3,
>)
    ensures
        recent(d) == seq![initial_state_pressed, initial_state_pressed, initial_state_pressed],
;

/// A change of the debounced level.
#[derive(Clone, Copy, Debug, PartialEq, Eq, Structural)]
pub enum Edge {
    Rising,
    Falling,
}

/// The window after one more sample: the oldest of three leaves.
pub open spec fn shifted(window: Seq<bool>, sample: bool) -> Seq<bool> {
    seq![window[1], window[2], sample]
}

/// The edge that a sample produces: one is reported when the sample
/// completes three equal samples in a row that were not there before it.
pub open spec fn edge_for(window: Seq<bool>, sample: bool) -> Option<Edge> {
    if window[0] != sample && window[1] == sample && window[2] == sample {
        Some(if sample { Edge::Rising } else { Edge::Falling })
    } else {
        None
    }
}

/// `Debouncer::<u8, Repeat3>::update` shifts the sample into the three-bit
/// state and reports an edge when the state has just become all ones or all
/// zeros.
#[verifier::external_body]
fn debounce_update(d: &mut Debouncer<u8, Repeat3>, sample: bool) -> (edge: Option<Edge>)
    ensures
        recent(*final(d)) == shifted(recent(*old(d)), sample),
        edge == edge_for(recent(*old(d)), sample),
{
    match d.update(sample) {
        Some(debouncr::Edge::Rising) => Some(Edge::Rising),
        Some(debouncr::Edge::Falling) => Some(Edge::Falling),
        None => None,
    }
}

/// Whether the button still has any effect.
#[derive(Clone, Copy, Debug, PartialEq, Eq, Structural)]
pub enum Mode {
    Active,
    Inactive,
}

/// Delay, in loop iterations, that the plain blinker starts with and returns
/// to.
pub const BLINK_DELAY_START: u32 = 100000;

/// What one press takes off the plain blinker's delay; also the least delay
/// that it keeps.
pub const BLINK_DELAY_STEP: u32 = 25000;

/// Delay, in loop iterations, that the counting blinker starts with and
/// returns to.
pub const TOGGLE_DELAY_START: i32 = 70000;

/// What one press takes off the counting blinker's delay.
pub const TOGGLE_DELAY_STEP: i32 = 30000;

/// The least delay that the counting blinker keeps.
pub const TOGGLE_DELAY_MIN: i32 = 10000;

/// The number of presses after which the counting blinker stops listening.
pub const ALLOWED_PRESSES: u8 = 5;

/// The plain blinker's delay after a press: one step shorter, and back to
/// the start once that would fall below one step.
pub open spec fn shorter_delay(del: int) -> int {
    if del - BLINK_DELAY_STEP < BLINK_DELAY_STEP {
        BLINK_DELAY_START as int
    } else {
        del - BLINK_DELAY_STEP
    }
}

/// Whether one of the first `polls` readings finds the button down.
pub open spec fn pressed_within(readings: Seq<bool>, polls: int) -> bool {
    exists|i: int| 0 <= i < polls && i < readings.len() && readings[i]
}

/// The number of times that a delay loop bounded by `del` polls the button.
pub open spec fn polls_of(del: int) -> int {
    if del >= 1 {
        del - 1
    } else {
        0
    }
}

/// The plain blinker's delay after a press.
pub fn next_delay(del: u32) -> (r: u32)
    requires
        del >= BLINK_DELAY_STEP,
    ensures
        r == shorter_delay(del as int),
{
    let shorter: u32 = del - BLINK_DELAY_STEP;
    if shorter < BLINK_DELAY_STEP {
        BLINK_DELAY_START
    } else {
        shorter
    }
}

/// One delay loop of the plain blinker over the readings that its polls of
/// the button give, `true` for a button that is down: the delay after a
/// press if any of the polls finds it down, else the delay unchanged. The
/// loop polls once less than the delay says, and no more often than there
/// are readings.
pub fn loop_delay(del: u32, readings: &[bool]) -> (r: u32)
    requires
        pressed_within(readings@, polls_of(del as int)) ==> del >= BLINK_DELAY_STEP,
    ensures
        r == if pressed_within(readings@, polls_of(del as int)) {
            shorter_delay(del as int)
        } else {
            del as int
        },
{
    let mut i: usize = 0;
    while i < readings.len() && 1 < del && i < (del - 1) as usize
        invariant
            i <= readings@.len(),
            i <= polls_of(del as int),
            !pressed_within(readings@, i as int),
            pressed_within(readings@, polls_of(del as int)) ==> del >= BLINK_DELAY_STEP,
        decreases readings@.len() - i,
    {
        if readings[i] {
            assert(pressed_within(readings@, polls_of(del as int)));
            return next_delay(del);
        }
        i = i + 1;
    }
    del
}

/// The press counter of the counting blinker, with the debouncer that it
/// reads the button through.
pub struct PressTracker {
    debouncer: Debouncer<u8, Repeat3>,
    toggle_delay_iters: i32,
    num_button_presses: u8,
    mode: Mode,
}

/// The counting blinker's delay after a press: one step shorter, and back
/// to the start once that would fall below the minimum.
pub open spec fn shorter_toggle_delay(delay: int) -> int {
    if delay - TOGGLE_DELAY_STEP < TOGGLE_DELAY_MIN {
        TOGGLE_DELAY_START as int
    } else {
        delay - TOGGLE_DELAY_STEP
    }
}

/// The press count after one more press: it wraps at 256.
pub open spec fn one_more_press(presses: u8) -> u8 {
    if presses == u8::MAX {
        0
    } else {
        (presses + 1) as u8
    }
}

impl PressTracker {
    /// The window holds three samples, and the delay lies between the
    /// minimum and the start.
    pub open spec fn wf(&self) -> bool {
        &&& self.window().len() == 3
        &&& TOGGLE_DELAY_MIN <= self.delay() <= TOGGLE_DELAY_START
    }

    /// The debouncer's three last samples, oldest first.
    pub closed spec fn window(&self) -> Seq<bool> {
        recent(self.debouncer)
    }

    /// The number of loop iterations between two toggles.
    pub closed spec fn delay(&self) -> int {
        self.toggle_delay_iters as int
    }

    /// The presses counted so far.
    pub closed spec fn presses(&self) -> u8 {
        self.num_button_presses
    }

    /// Whether presses are still counted.
    pub closed spec fn mode(&self) -> Mode {
        self.mode
    }

    /// Whether a reading is counted as a press: the tracker is active and
    /// the reading gives a falling edge.
    pub open spec fn counts(&self, is_low: bool) -> bool {
        self.mode() == Mode::Active && edge_for(self.window(), is_low) == Some(Edge::Falling)
    }

    /// A tracker that has seen no press: active, at the starting delay, its
    /// debouncer filled with readings of a button that is up.
    pub fn new() -> (t: PressTracker)
        ensures
            t.wf(),
            t.window() == seq![false, false, false],
            t.delay() == TOGGLE_DELAY_START,
            t.presses() == 0,
            t.mode() == Mode::Active,
    {
        PressTracker {
            debouncer: debouncr::debounce_3(false),
            toggle_delay_iters: TOGGLE_DELAY_START,
            num_button_presses: 0,
            mode: Mode::Active,
        }
    }

    /// The number of loop iterations between two toggles.
    pub fn toggle_delay(&self) -> (d: i32)
        ensures
            d == self.delay(),
    {
        self.toggle_delay_iters
    }

    /// The presses counted so far.
    pub fn button_presses(&self) -> (n: u8)
        ensures
            n == self.presses(),
    {
        self.num_button_presses
    }

    /// Whether presses are still counted.
    pub fn is_active(&self) -> (b: bool)
        ensures
            b == (self.mode() == Mode::Active),
    {
        match self.mode {
            Mode::Active => true,
            Mode::Inactive => false,
        }
    }

    /// One poll of the button, `true` for a button that is down. An inactive
    /// tracker ignores it. An active one hands the reading to its debouncer;
    /// on a falling edge it counts a press and shortens the delay, and
    /// returns the new count: the delay loop ends there.
    pub fn poll(&mut self, is_low: bool) -> (press: Option<u8>)
        requires
            old(self).wf(),
        ensures
            final(self).wf(),
            final(self).mode() == old(self).mode(),
            old(self).mode() == Mode::Inactive ==> *final(self) == *old(self),
            old(self).mode() == Mode::Active ==> final(self).window() == shifted(
                old(self).window(),
                is_low,
            ),
            press.is_some() == old(self).counts(is_low),
            old(self).counts(is_low) ==> {
                &&& press == Some(final(self).presses())
                &&& final(self).presses() == one_more_press(old(self).presses())
                &&& final(self).delay() == shorter_toggle_delay(old(self).delay())
            },
            !old(self).counts(is_low) ==> {
                &&& final(self).presses() == old(self).presses()
                &&& final(self).delay() == old(self).delay()
            },
    {
        match self.mode {
            Mode::Inactive => None,
            Mode::Active => {
                match debounce_update(&mut self.debouncer, is_low) {
                    Some(Edge::Falling) => {
                        self.num_button_presses = self.num_button_presses.wrapping_add(1);
                        let shorter: i32 = self.toggle_delay_iters - TOGGLE_DELAY_STEP;
                        self.toggle_delay_iters = if shorter < TOGGLE_DELAY_MIN {
                            TOGGLE_DELAY_START
                        } else {
                            shorter
                        };
                        Some(self.num_button_presses)
                    },
                    _ => None,
                }
            },
        }
    }

    /// The check that follows each toggle: an active tracker that has
    /// counted the allowed presses becomes inactive, and `true` is returned
    /// that once.
    pub fn settle(&mut self) -> (deactivated: bool)
        ensures
            old(self).wf() ==> final(self).wf(),
            deactivated == (old(self).mode() == Mode::Active && old(self).presses()
                >= ALLOWED_PRESSES),
            deactivated ==> final(self).mode() == Mode::Inactive,
            !deactivated ==> final(self).mode() == old(self).mode(),
            final(self).window() == old(self).window(),
            final(self).delay() == old(self).delay(),
            final(self).presses() == old(self).presses(),
    {
        match self.mode {
            Mode::Inactive => false,
            Mode::Active => {
                if self.num_button_presses >= ALLOWED_PRESSES {
                    self.mode = Mode::Inactive;
                    true
                } else {
                    false
                }
            },
        }
    }
}

} // verus!
