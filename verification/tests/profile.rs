use memsonic::profile::{CannedProfile, Target};

#[test]
fn fix_chains_timestamps_from_the_delay() {
    // Delay 1000, then points 200 ms and 150 ms apart: 1200 and 1350.
    let mut p = CannedProfile::new(1000, 17, 0i32);
    p.append(1, 200);
    p.append(2, 150);
    assert_eq!(p.count(), 3);
    assert_eq!(p.frame(0), (1000, 0));
    assert_eq!(p.frame(1), (1200, 1));
    assert_eq!(p.frame(2), (1350, 2));
    assert_eq!(p.last(), (1350, 2));
}

#[test]
fn full_profile_ignores_appends() {
    let mut p = CannedProfile::new(0, 2, 0u8);
    p.append(1, 10);
    p.append(2, 10);
    assert_eq!(p.count(), 2);
    assert_eq!(p.last(), (10, 1));
}

#[test]
fn linearize_rests_before_the_start() {
    let mut p = CannedProfile::new(1000, 4, 5i32);
    p.append(7, 200);
    assert_eq!(p.linearize(0), Some(Target::Rest(5)));
    assert_eq!(p.linearize(1000), Some(Target::Rest(5)));
}

#[test]
fn linearize_brackets_the_moment() {
    let mut p = CannedProfile::new(1000, 4, 0i32);
    p.append(10, 200);
    p.append(20, 150);
    assert_eq!(
        p.linearize(1100),
        Some(Target::Between { from: 0, to: 10, elapsed: 100, span: 200 })
    );
    assert_eq!(
        p.linearize(1200),
        Some(Target::Between { from: 0, to: 10, elapsed: 200, span: 200 })
    );
    assert_eq!(
        p.linearize(1201),
        Some(Target::Between { from: 10, to: 20, elapsed: 1, span: 150 })
    );
}

#[test]
fn linearize_ends_with_the_plan() {
    let mut p = CannedProfile::new(1000, 4, 0i32);
    p.append(10, 200);
    assert_eq!(p.linearize(1200), None);
    assert_eq!(p.linearize(5000), None);
    let single = CannedProfile::new(10, 1, 0i32);
    assert_eq!(single.linearize(11), None);
}

#[test]
fn linearize_skips_zero_length_segments() {
    let mut p = CannedProfile::new(0, 5, 0i32);
    p.append(1, 100);
    p.append(2, 0);
    p.append(3, 100);
    assert_eq!(
        p.linearize(150),
        Some(Target::Between { from: 2, to: 3, elapsed: 50, span: 100 })
    );
    assert_eq!(
        p.linearize(100),
        Some(Target::Between { from: 0, to: 1, elapsed: 100, span: 100 })
    );
}
