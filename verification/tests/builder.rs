use memsonic::builder::engine_rate;
use memsonic::env::BuffaloJuly;

#[test]
fn engine_rate_is_a_fifth_of_the_lowest_odr() {
    assert_eq!(engine_rate((10, 10, 30, 40)), (2, None));
    assert_eq!(engine_rate((1000, 800, 100, 50)), (10, None));
    assert_eq!(engine_rate((5, 5, 5, 5)), (1, None));
}

#[test]
fn engine_rate_asks_for_a_rescale_of_slow_sensors() {
    assert_eq!(engine_rate((3, 10, 30, 40)), (1, Some(3)));
    assert_eq!(engine_rate((4, 4, 1, 2)), (1, Some(1)));
    assert_eq!(engine_rate((0, 10, 0, 40)), (1, Some(0)));
}

#[test]
fn engine_rate_settles_after_a_rescale() {
    // (3, 10, 30, 40) scaled by 5 / 3 with the ceiling taken as one more.
    assert_eq!(engine_rate((6, 17, 51, 67)), (1, None));
}

#[test]
fn engine_rate_leaves_five_steps_per_output() {
    let odr = (1000, 800, 100, 50);
    let (r, _) = engine_rate(odr);
    for x in [odr.0, odr.1, odr.2, odr.3] {
        assert!(x / r >= 5);
    }
}

#[test]
fn buffalo_site_exists() {
    let _site = BuffaloJuly;
}
