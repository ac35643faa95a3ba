use stm32f4d::interval::{Schedule, TimerInfo};

fn ticks(ti: &mut TimerInfo, schedule: &Schedule, n: u32) -> u32 {
    let mut last = 0;
    for _ in 0..n {
        last = ti.checked_tick(schedule).unwrap();
    }
    last
}

#[test]
fn new_timer_info_is_zero() {
    let ti = TimerInfo::new();
    assert_eq!(ti.current_timeout, 0);
    assert_eq!(ti.cumul_timeout, 0);
}

#[test]
fn blink_schedule_values() {
    let s = Schedule::blink();
    assert_eq!(s.intervals, vec![50, 500]);
    assert_eq!(s.change_threshold, 5000);
    assert_eq!(s.interval(0), Some(50));
    assert_eq!(s.interval(1), Some(500));
    assert_eq!(s.interval(2), None);
}

#[test]
fn schedule_new_rejects_empty_and_zero() {
    assert!(Schedule::new(vec![], 5000).is_none());
    assert!(Schedule::new(vec![50], 0).is_none());
    let s = Schedule::new(vec![50, 500], 5000).unwrap();
    assert_eq!(s.intervals, vec![50, 500]);
    assert_eq!(s.change_threshold, 5000);
}

#[test]
fn first_tick_adds_the_interval() {
    let s = Schedule::blink();
    let mut ti = TimerInfo::new();
    assert_eq!(ti.tick(&s), 50);
    assert_eq!(ti, TimerInfo { current_timeout: 0, cumul_timeout: 50 });
}

#[test]
fn switch_happens_at_tick_100_not_99() {
    let s = Schedule::blink();
    let mut ti = TimerInfo::new();
    assert_eq!(ticks(&mut ti, &s, 99), 50);
    assert_eq!(ti, TimerInfo { current_timeout: 0, cumul_timeout: 4950 });
    assert_eq!(ti.checked_tick(&s), Some(500));
    assert_eq!(ti, TimerInfo { current_timeout: 1, cumul_timeout: 5000 });
}

#[test]
fn no_further_switch_until_ten_thousand() {
    let s = Schedule::blink();
    let mut ti = TimerInfo::new();
    ticks(&mut ti, &s, 100);
    assert_eq!(ti.checked_tick(&s), Some(500));
    assert_eq!(ti, TimerInfo { current_timeout: 1, cumul_timeout: 5500 });
    assert_eq!(ticks(&mut ti, &s, 8), 500);
    assert_eq!(ti, TimerInfo { current_timeout: 1, cumul_timeout: 9500 });
    assert_eq!(ti.checked_tick(&s), Some(50));
    assert_eq!(ti, TimerInfo { current_timeout: 0, cumul_timeout: 10000 });
}

#[test]
fn index_wraps_to_zero_after_two_crossings() {
    let s = Schedule::blink();
    let mut ti = TimerInfo::new();
    let mut crossings = 0;
    let mut previous = ti.current_timeout;
    while crossings < 2 {
        ti.checked_tick(&s).unwrap();
        if ti.current_timeout != previous {
            crossings += 1;
            previous = ti.current_timeout;
        }
    }
    assert_eq!(ti.current_timeout, 0);
    assert_eq!(ti.cumul_timeout, 10000);
}

#[test]
fn three_intervals_cycle_in_order() {
    let s = Schedule::new(vec![10, 20, 50], 100).unwrap();
    let mut ti = TimerInfo::new();
    assert_eq!(ticks(&mut ti, &s, 10), 20);
    assert_eq!(ti, TimerInfo { current_timeout: 1, cumul_timeout: 100 });
    assert_eq!(ticks(&mut ti, &s, 5), 50);
    assert_eq!(ti, TimerInfo { current_timeout: 2, cumul_timeout: 200 });
    assert_eq!(ticks(&mut ti, &s, 2), 10);
    assert_eq!(ti, TimerInfo { current_timeout: 0, cumul_timeout: 300 });
}

#[test]
fn interval_that_does_not_divide_switches_on_exact_multiple_only() {
    let s = Schedule::new(vec![300, 700], 500).unwrap();
    let mut ti = TimerInfo::new();
    assert_eq!(ticks(&mut ti, &s, 4), 300);
    assert_eq!(ti, TimerInfo { current_timeout: 0, cumul_timeout: 1200 });
    assert_eq!(ti.checked_tick(&s), Some(700));
    assert_eq!(ti, TimerInfo { current_timeout: 1, cumul_timeout: 1500 });
    assert_eq!(ticks(&mut ti, &s, 4), 700);
    assert_eq!(ti, TimerInfo { current_timeout: 1, cumul_timeout: 4300 });
    assert_eq!(ti.checked_tick(&s), Some(300));
    assert_eq!(ti, TimerInfo { current_timeout: 0, cumul_timeout: 5000 });
}

#[test]
fn single_interval_stays_at_index_zero() {
    let s = Schedule::new(vec![250], 1000).unwrap();
    let mut ti = TimerInfo::new();
    assert_eq!(ticks(&mut ti, &s, 4), 250);
    assert_eq!(ti, TimerInfo { current_timeout: 0, cumul_timeout: 1000 });
}

#[test]
fn zero_interval_never_switches_at_zero() {
    let s = Schedule::new(vec![0, 7], 5).unwrap();
    let mut ti = TimerInfo::new();
    assert_eq!(ticks(&mut ti, &s, 3), 0);
    assert_eq!(ti, TimerInfo { current_timeout: 0, cumul_timeout: 0 });
}

#[test]
fn checked_tick_refuses_overflow() {
    let s = Schedule::blink();
    let mut ti = TimerInfo { current_timeout: 0, cumul_timeout: u32::MAX - 49 };
    assert_eq!(ti.checked_tick(&s), None);
    assert_eq!(ti, TimerInfo { current_timeout: 0, cumul_timeout: u32::MAX - 49 });
    let mut fits = TimerInfo { current_timeout: 0, cumul_timeout: u32::MAX - 50 };
    assert_eq!(fits.checked_tick(&s), Some(50));
    assert_eq!(fits.cumul_timeout, u32::MAX);
}

#[test]
fn checked_tick_refuses_bad_index_and_bad_schedule() {
    let s = Schedule::blink();
    let mut ti = TimerInfo { current_timeout: 2, cumul_timeout: 0 };
    assert_eq!(ti.checked_tick(&s), None);
    assert_eq!(ti, TimerInfo { current_timeout: 2, cumul_timeout: 0 });
    let no_threshold = Schedule { intervals: vec![50], change_threshold: 0 };
    let mut zero = TimerInfo::new();
    assert_eq!(zero.checked_tick(&no_threshold), None);
    let empty = Schedule { intervals: vec![], change_threshold: 10 };
    assert_eq!(zero.checked_tick(&empty), None);
    assert_eq!(zero, TimerInfo::new());
}
