use memsonic::filters::{FIRDecim, WindowedSinc, FIR_MAX_TAPS};

#[test]
fn test_fir_precision_loss() {
    let conf = FIRDecim::new(10);
    let mut fir = WindowedSinc::new();

    let mut result = None;
    for _ in 0..10 {
        result = fir.filter(&conf, 0.0015f32);
    }

    let out = result.expect("Wrong counter?");
    assert_eq!(out.len(), 10);
    for s in out {
        assert!((s - 0.0015).abs() < f32::EPSILON, "FIR precision loss: expected 0.0015, but got: {}", s);
    }
}

#[test]
fn fir_emits_every_decimation_factor_calls() {
    let conf = FIRDecim::new(8);
    assert_eq!(conf.factor(), 8);
    let mut fir = WindowedSinc::new();
    for round in 0..3u32 {
        for k in 0..7u32 {
            assert_eq!(fir.filter(&conf, round * 100 + k), None);
        }
        let w = fir.filter(&conf, round * 100 + 7).expect("eighth call emits");
        let expected: Vec<u32> = (0..8).map(|k| round * 100 + k).collect();
        assert_eq!(w, expected);
    }
}

#[test]
fn fir_keeps_only_the_most_recent_taps() {
    let conf = FIRDecim::new(100);
    let mut fir = WindowedSinc::new();
    let mut out = None;
    for k in 0..100u32 {
        out = fir.filter(&conf, k);
    }
    let w = out.expect("hundredth call emits");
    assert_eq!(w.len(), FIR_MAX_TAPS);
    assert_eq!(w[0], 100 - FIR_MAX_TAPS as u32);
    assert_eq!(*w.last().unwrap(), 99);
}

#[test]
fn decimation_from_sensor_and_engine_rates() {
    assert_eq!(FIRDecim::from_rates(1000, 20).factor(), 50);
    assert_eq!(FIRDecim::from_rates(81, 10).factor(), 8);
}
