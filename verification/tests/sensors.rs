use memsonic::sensors::Measurement;

#[test]
fn consume_reports_new_reading_once() {
    let mut m = Measurement::new([0.0f32; 3]);
    assert_eq!(m.consume(), Err([0.0; 3]));
    m.record([1.0, 2.0, 3.0]);
    assert_eq!(m.peek(), [1.0, 2.0, 3.0]);
    assert_eq!(m.consume(), Ok([1.0, 2.0, 3.0]));
    assert_eq!(m.consume(), Err([1.0, 2.0, 3.0]));
    m.record([4.0, 5.0, 6.0]);
    m.record([7.0, 8.0, 9.0]);
    assert_eq!(m.consume(), Ok([7.0, 8.0, 9.0]));
}

#[test]
fn collect_updates_only_axes_that_produced() {
    let mut m = Measurement::new([1u32, 2, 3]);
    m.collect([None, None, None]);
    assert_eq!(m.consume(), Err([1, 2, 3]));
    m.collect([None, Some(20), None]);
    assert_eq!(m.peek(), [1, 20, 3]);
    assert_eq!(m.consume(), Ok([1, 20, 3]));
    m.collect([Some(10), None, Some(30)]);
    assert_eq!(m.consume(), Ok([10, 20, 30]));
}
