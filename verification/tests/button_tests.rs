use stm32f4d::button::{
    loop_delay, next_delay, PressTracker, ALLOWED_PRESSES, BLINK_DELAY_START, BLINK_DELAY_STEP,
    TOGGLE_DELAY_MIN, TOGGLE_DELAY_START, TOGGLE_DELAY_STEP,
};

fn press(t: &mut PressTracker) -> Option<u8> {
    assert_eq!(t.poll(true), None);
    assert_eq!(t.poll(false), None);
    assert_eq!(t.poll(false), None);
    t.poll(false)
}

#[test]
fn constants_have_their_values() {
    assert_eq!(BLINK_DELAY_START, 100_000);
    assert_eq!(BLINK_DELAY_STEP, 25_000);
    assert_eq!(TOGGLE_DELAY_START, 70_000);
    assert_eq!(TOGGLE_DELAY_STEP, 30_000);
    assert_eq!(TOGGLE_DELAY_MIN, 10_000);
    assert_eq!(ALLOWED_PRESSES, 5);
}

#[test]
fn next_delay_steps_down_and_wraps() {
    assert_eq!(next_delay(100_000), 75_000);
    assert_eq!(next_delay(75_000), 50_000);
    assert_eq!(next_delay(50_000), 25_000);
    assert_eq!(next_delay(25_000), 100_000);
    assert_eq!(next_delay(49_999), 100_000);
    assert_eq!(next_delay(u32::MAX), u32::MAX - 25_000);
}

#[test]
fn loop_delay_without_press_keeps_the_delay() {
    assert_eq!(loop_delay(100_000, &[false, false, false]), 100_000);
    assert_eq!(loop_delay(100_000, &[]), 100_000);
    assert_eq!(loop_delay(10, &[false; 20]), 10);
}

#[test]
fn loop_delay_with_press_shortens_the_delay() {
    assert_eq!(loop_delay(100_000, &[false, true, false]), 75_000);
    assert_eq!(loop_delay(25_000, &[true]), 100_000);
}

#[test]
fn loop_delay_polls_one_less_than_the_delay() {
    let mut readings = vec![false; 30_000];
    readings[29_998] = true;
    assert_eq!(loop_delay(30_000, &readings), 100_000);
    readings[29_998] = false;
    readings[29_999] = true;
    assert_eq!(loop_delay(30_000, &readings), 30_000);
    assert_eq!(loop_delay(1, &[true]), 1);
    assert_eq!(loop_delay(0, &[true]), 0);
}

#[test]
fn new_tracker_is_active_at_start_delay() {
    let t = PressTracker::new();
    assert!(t.is_active());
    assert_eq!(t.toggle_delay(), 70_000);
    assert_eq!(t.button_presses(), 0);
}

#[test]
fn idle_button_counts_nothing() {
    let mut t = PressTracker::new();
    for _ in 0..10 {
        assert_eq!(t.poll(false), None);
    }
    assert_eq!(t.button_presses(), 0);
    assert_eq!(t.toggle_delay(), 70_000);
}

#[test]
fn held_button_counts_nothing_until_released() {
    let mut t = PressTracker::new();
    for _ in 0..10 {
        assert_eq!(t.poll(true), None);
    }
    assert_eq!(t.poll(false), None);
    assert_eq!(t.poll(false), None);
    assert_eq!(t.poll(false), Some(1));
    assert_eq!(t.poll(false), None);
    assert_eq!(t.button_presses(), 1);
}

#[test]
fn bounce_shorter_than_three_samples_is_no_edge() {
    let mut t = PressTracker::new();
    assert_eq!(t.poll(true), None);
    assert_eq!(t.poll(false), None);
    assert_eq!(t.poll(true), None);
    assert_eq!(t.poll(false), None);
    assert_eq!(t.poll(false), None);
    assert_eq!(t.poll(false), Some(1));
}

#[test]
fn press_shortens_the_toggle_delay_and_wraps() {
    let mut t = PressTracker::new();
    assert_eq!(press(&mut t), Some(1));
    assert_eq!(t.toggle_delay(), 40_000);
    assert_eq!(press(&mut t), Some(2));
    assert_eq!(t.toggle_delay(), 10_000);
    assert_eq!(press(&mut t), Some(3));
    assert_eq!(t.toggle_delay(), 70_000);
    assert_eq!(press(&mut t), Some(4));
    assert_eq!(t.toggle_delay(), 40_000);
}

#[test]
fn settle_deactivates_after_five_presses() {
    let mut t = PressTracker::new();
    for n in 1..=4u8 {
        assert_eq!(press(&mut t), Some(n));
        assert!(!t.settle());
        assert!(t.is_active());
    }
    assert_eq!(press(&mut t), Some(5));
    assert!(t.is_active());
    assert!(t.settle());
    assert!(!t.is_active());
    assert!(!t.settle());
    assert_eq!(t.button_presses(), 5);
}

#[test]
fn inactive_tracker_ignores_the_button() {
    let mut t = PressTracker::new();
    for _ in 0..5 {
        press(&mut t);
    }
    assert!(t.settle());
    let delay = t.toggle_delay();
    assert_eq!(t.poll(true), None);
    assert_eq!(t.poll(false), None);
    assert_eq!(t.poll(false), None);
    assert_eq!(t.poll(false), None);
    assert_eq!(t.button_presses(), 5);
    assert_eq!(t.toggle_delay(), delay);
}

#[test]
fn press_count_wraps_at_256_without_settle() {
    let mut t = PressTracker::new();
    for n in 1..=255u32 {
        assert_eq!(press(&mut t), Some(n as u8));
    }
    assert_eq!(press(&mut t), Some(0));
    assert_eq!(t.button_presses(), 0);
}
