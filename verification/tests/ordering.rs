use mcap_tester::binary64::{
    absolute, encodes_nan, is_beyond, is_gt, is_le, is_within, INFINITY, SIGN_BIT,
};

fn samples() -> Vec<f64> {
    vec![
        0.0,
        -0.0,
        f64::from_bits(1),
        -f64::from_bits(1),
        f64::MIN_POSITIVE,
        -f64::MIN_POSITIVE,
        1.0e-300,
        0.001,
        0.0010000000000000002,
        -0.001,
        0.1,
        0.2,
        0.30000000000000004,
        1.0,
        1.0000000000000002,
        -1.0,
        5.0,
        -5.0,
        1.0e300,
        f64::MAX,
        f64::MIN,
        f64::INFINITY,
        f64::NEG_INFINITY,
        f64::NAN,
        -f64::NAN,
        f64::from_bits(0x7ff0_0000_0000_0001),
        f64::from_bits(0xffff_ffff_ffff_ffff),
    ]
}

#[test]
fn le_agrees_with_the_hardware_on_every_pair() {
    for a in samples() {
        for b in samples() {
            assert_eq!(is_le(a.to_bits(), b.to_bits()), a <= b, "{:?} <= {:?}", a, b);
        }
    }
}

#[test]
fn gt_agrees_with_the_hardware_on_every_pair() {
    for a in samples() {
        for b in samples() {
            assert_eq!(is_gt(a.to_bits(), b.to_bits()), a > b, "{:?} > {:?}", a, b);
        }
    }
}

#[test]
fn absolute_agrees_with_the_hardware() {
    for a in samples() {
        assert_eq!(absolute(a.to_bits()), a.abs().to_bits(), "{:?}", a);
    }
    assert_eq!(absolute(SIGN_BIT), 0);
    assert_eq!(absolute(u64::MAX), u64::MAX - SIGN_BIT);
    assert_eq!(absolute((-2.5f64).to_bits()), 2.5f64.to_bits());
}

#[test]
fn within_agrees_with_the_hardware_on_every_pair() {
    for d in samples() {
        for t in samples() {
            assert_eq!(is_within(d.to_bits(), t.to_bits()), d.abs() <= t, "|{:?}| <= {:?}", d, t);
        }
    }
}

#[test]
fn beyond_agrees_with_the_hardware_on_every_pair() {
    for d in samples() {
        for t in samples() {
            assert_eq!(is_beyond(d.to_bits(), t.to_bits()), d.abs() > t, "|{:?}| > {:?}", d, t);
        }
    }
}

#[test]
fn within_agrees_with_the_hardware_on_differences() {
    for a in samples() {
        for e in samples() {
            for t in [0.0, 0.001, 0.1, 1.0, 5.0, f64::INFINITY, f64::NAN, -1.0] {
                let difference = (a - e).to_bits();
                assert_eq!(is_within(difference, t.to_bits()), (a - e).abs() <= t);
                assert_eq!(is_beyond(difference, t.to_bits()), (a - e).abs() > t);
            }
        }
    }
}

#[test]
fn nan_patterns_are_recognised() {
    for a in samples() {
        assert_eq!(encodes_nan(a.to_bits()), a.is_nan(), "{:?}", a);
    }
    assert!(!encodes_nan(INFINITY));
    assert!(encodes_nan(INFINITY + 1));
    assert!(!encodes_nan(SIGN_BIT));
    assert!(!encodes_nan(SIGN_BIT + INFINITY));
    assert!(encodes_nan(SIGN_BIT + INFINITY + 1));
    assert!(encodes_nan(u64::MAX));
}

#[test]
fn constants_are_the_patterns_they_name() {
    assert_eq!(SIGN_BIT, (-0.0f64).to_bits());
    assert_eq!(INFINITY, f64::INFINITY.to_bits());
}

#[test]
fn a_number_is_within_itself() {
    for a in samples() {
        if !a.is_nan() {
            assert!(is_le(a.to_bits(), a.to_bits()));
            assert!(!is_gt(a.to_bits(), a.to_bits()));
        }
        if !a.is_nan() && a >= 0.0 && !a.is_sign_negative() {
            assert!(is_within(a.to_bits(), a.to_bits()));
            assert!(is_within((-a).to_bits(), a.to_bits()));
            assert!(!is_beyond(a.to_bits(), a.to_bits()));
        }
    }
}

#[test]
fn nan_is_neither_within_nor_beyond() {
    let nan = f64::NAN.to_bits();
    let one = 1.0f64.to_bits();
    assert!(!is_within(nan, one));
    assert!(!is_beyond(nan, one));
    assert!(!is_within(one, nan));
    assert!(!is_beyond(one, nan));
    assert!(!is_within(nan, nan));
    assert!(!is_beyond(nan, nan));
}

#[test]
fn both_zeros_are_equal() {
    let plus = 0.0f64.to_bits();
    let minus = (-0.0f64).to_bits();
    assert!(is_le(plus, minus));
    assert!(is_le(minus, plus));
    assert!(!is_gt(plus, minus));
    assert!(!is_gt(minus, plus));
    assert!(is_within(minus, plus));
    assert!(is_within(plus, minus));
}

#[test]
fn the_sign_of_a_difference_is_dropped() {
    for t in [0.0f64, 0.001, 1.0, 1.0e300] {
        for d in [0.0f64, 0.0005, 0.001, 0.002, 1.0, 2.0, 1.0e300, f64::INFINITY] {
            assert_eq!(is_within(d.to_bits(), t.to_bits()), is_within((-d).to_bits(), t.to_bits()));
            assert_eq!(is_beyond(d.to_bits(), t.to_bits()), is_beyond((-d).to_bits(), t.to_bits()));
        }
    }
}

#[test]
fn one_step_above_the_tolerance_is_beyond_it() {
    for t in [0.0f64, 0.001, 1.0, 1.0e300, f64::MAX] {
        let tolerance = t.to_bits();
        let next = tolerance + 1;
        assert!(f64::from_bits(next) > t);
        assert!(is_beyond(next, tolerance));
        assert!(is_beyond(next + SIGN_BIT, tolerance));
        assert!(!is_within(next, tolerance));
        assert!(is_within(tolerance, tolerance));
        assert!(is_within(tolerance + SIGN_BIT, tolerance));
    }
}

#[test]
fn a_wider_tolerance_admits_what_a_narrower_one_admits() {
    let difference = (-0.25f64).to_bits();
    assert!(!is_within(difference, 0.125f64.to_bits()));
    assert!(is_within(difference, 0.25f64.to_bits()));
    assert!(is_within(difference, 0.5f64.to_bits()));
    assert!(is_within(difference, f64::INFINITY.to_bits()));
}

#[test]
fn a_negative_tolerance_admits_nothing_but_zero_against_zero() {
    let minus_one = (-1.0f64).to_bits();
    assert!(!is_within(0.0f64.to_bits(), minus_one));
    assert!(is_beyond(0.0f64.to_bits(), minus_one));
    assert!(!is_within(minus_one, minus_one));
    assert!(is_within(0.0f64.to_bits(), (-0.0f64).to_bits()));
}
