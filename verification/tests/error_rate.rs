use cc_switch::error_rate::ErrorRate;

fn rate(threshold: f64) -> ErrorRate {
    ErrorRate::from_bits(threshold.to_bits())
}

#[test]
fn agrees_with_the_rounded_quotient() {
    let thresholds = [
        0.6, 0.5, 0.3333333333333333, 0.1, 0.7, 0.9, 1.0, 0.01, 0.0, -0.0, -1.0, 1.5, 1e-9, 1e-12,
        1e12, f64::INFINITY, f64::NEG_INFINITY, f64::MIN_POSITIVE, 2.0, 0.25,
    ];
    for threshold in thresholds {
        for total in 1u32..120 {
            for failed in 0..=total {
                let expected = failed as f64 / total as f64 > threshold;
                assert_eq!(rate(threshold).exceeded(failed, total), expected);
            }
        }
    }
}

#[test]
fn agrees_at_every_quotient_and_its_neighbours() {
    for total in 1u32..60 {
        for failed in 1..=total {
            let quotient = failed as f64 / total as f64;
            let below = f64::from_bits(quotient.to_bits() - 1);
            let above = f64::from_bits(quotient.to_bits() + 1);
            assert!(!rate(quotient).exceeded(failed, total));
            assert!(rate(below).exceeded(failed, total));
            assert!(!rate(above).exceeded(failed, total));
        }
    }
}

#[test]
fn agrees_on_large_counts() {
    let counts = [1u32, 2, 3, 7, 1000, 65535, 65536, 16777217, u32::MAX - 1, u32::MAX];
    for failed in counts {
        for total in counts {
            let quotient = failed as f64 / total as f64;
            for bits in quotient.to_bits() - 2..=quotient.to_bits() + 2 {
                let threshold = f64::from_bits(bits);
                assert_eq!(rate(threshold).exceeded(failed, total), quotient > threshold);
            }
        }
    }
}

#[test]
fn no_rate_exceeds_what_is_not_a_number() {
    assert_eq!(rate(f64::NAN), ErrorRate::Never);
    assert!(!rate(f64::NAN).exceeded(10, 10));
}

#[test]
fn failures_out_of_no_request_are_an_infinite_rate() {
    assert!(rate(0.6).exceeded(1, 0));
    assert!(!rate(0.6).exceeded(0, 0));
    assert!(rate(-1.0).exceeded(1, 0));
    assert!(!rate(-1.0).exceeded(0, 0));
    assert!(rate(1e300).exceeded(1, 0));
    assert!(!rate(f64::INFINITY).exceeded(1, 0));
}

#[test]
fn six_tenths() {
    let threshold = rate(0.6);
    let exact = ErrorRate::Above { numerator: 3, denominator: 5 };
    for total in 0u32..200 {
        for failed in 0..=total {
            assert_eq!(threshold.exceeded(failed, total), exact.exceeded(failed, total));
        }
    }
}
