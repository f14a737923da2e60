use memsonic::engine::Clock;
use memsonic::profile::{CannedProfile, Target};

fn plan() -> CannedProfile<i32> {
    let mut p = CannedProfile::new(0, 4, 0);
    p.append(10, 1000);
    p
}

#[test]
fn clock_is_lazy_within_a_step() {
    let p = plan();
    let mut c = Clock::new(20);
    assert_eq!(c.step(19, &p), None);
    assert_eq!(c.time(), 0);
}

#[test]
fn clock_counts_whole_steps() {
    let p = plan();
    let mut c = Clock::new(20);
    let r = c.step(105, &p);
    assert_eq!(r, Some((Target::Between { from: 0, to: 10, elapsed: 105, span: 1000 }, 5)));
    assert_eq!(c.time(), 100);
    assert_eq!(c.step_ms(), 20);
}

#[test]
fn second_step_at_same_moment_does_nothing() {
    let p = plan();
    let mut c = Clock::new(20);
    assert!(c.step(105, &p).is_some());
    assert_eq!(c.step(105, &p), None);
    assert_eq!(c.time(), 100);
}

#[test]
fn clock_stops_when_the_plan_is_over() {
    let p = plan();
    let mut c = Clock::new(10);
    assert_eq!(c.step(1000, &p), None);
    assert_eq!(c.time(), 0);
}

#[test]
fn clock_rests_before_the_start_point() {
    let mut p = CannedProfile::new(500, 3, 3i32);
    p.append(4, 100);
    let mut c = Clock::new(100);
    assert_eq!(c.step(250, &p), Some((Target::Rest(3), 2)));
    assert_eq!(c.time(), 200);
}

#[test]
fn first_fix_is_reached_at_delay_plus_duration() {
    // Delay 1000, fixes 200 ms and 100 ms apart; polled every 10 ms.
    let rate = 10u32;
    let mut p = CannedProfile::new(1000, 3, 0i32);
    p.append(1, 200);
    p.append(2, 100);
    let mut c = Clock::new(rate);
    let mut total: u32 = 0;
    let mut last = None;
    let mut t = 0u32;
    while t <= 1200 {
        if let Some((target, n)) = c.step(t, &p) {
            total += n;
            last = Some(target);
        }
        t += 10;
    }
    assert_eq!(total, 1200 / rate);
    assert_eq!(c.time(), 1200);
    // At 1200 ms the segment from the start point to the first fix is
    // complete: the blend factor is 1, i.e. the first fix itself.
    assert_eq!(last, Some(Target::Between { from: 0, to: 1, elapsed: 200, span: 200 }));
    // No step report ever wraps around.
    assert_eq!(c.step(1210, &p), Some((Target::Between { from: 1, to: 2, elapsed: 10, span: 100 }, 1)));
}
