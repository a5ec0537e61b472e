use wattdog::config::ComparisonOp;
use wattdog::float::Double;
use wattdog::state::condition;

fn matches(op: ComparisonOp, actual: f64, threshold: f64) -> bool {
    condition::matches(
        op,
        Double {
            bits: actual.to_bits(),
        },
        Double {
            bits: threshold.to_bits(),
        },
    )
}

#[test]
fn comparison_operators_match_expected_boundaries() {
    assert!(matches(ComparisonOp::Lt, 1.0, 2.0));
    assert!(!matches(ComparisonOp::Lt, 2.0, 2.0));
    assert!(matches(ComparisonOp::Le, 2.0, 2.0));
    assert!(!matches(ComparisonOp::Le, 3.0, 2.0));
    assert!(matches(ComparisonOp::Gt, 3.0, 2.0));
    assert!(!matches(ComparisonOp::Gt, 2.0, 2.0));
    assert!(matches(ComparisonOp::Ge, 2.0, 2.0));
    assert!(!matches(ComparisonOp::Ge, 1.0, 2.0));
}

#[test]
fn comparisons_agree_with_the_machine_on_all_kinds_of_numbers() {
    let values = [
        f64::NAN,
        -f64::NAN,
        f64::NEG_INFINITY,
        f64::MIN,
        -12.6,
        -f64::MIN_POSITIVE,
        -5e-324,
        -0.0,
        0.0,
        5e-324,
        f64::MIN_POSITIVE,
        12.0,
        12.6,
        f64::MAX,
        f64::INFINITY,
    ];
    for a in values {
        for b in values {
            assert_eq!(matches(ComparisonOp::Lt, a, b), a < b, "{a} < {b}");
            assert_eq!(matches(ComparisonOp::Le, a, b), a <= b, "{a} <= {b}");
            assert_eq!(matches(ComparisonOp::Gt, a, b), a > b, "{a} > {b}");
            assert_eq!(matches(ComparisonOp::Ge, a, b), a >= b, "{a} >= {b}");
        }
    }
}

#[test]
fn widening_agrees_with_the_machine() {
    let values = [
        f32::NEG_INFINITY,
        f32::MIN,
        -13.2,
        -f32::MIN_POSITIVE,
        -1e-45,
        -0.0,
        0.0,
        1e-45,
        3.1e-40,
        f32::MIN_POSITIVE,
        12.6,
        19.8,
        f32::MAX,
        f32::INFINITY,
    ];
    for value in values {
        let wide = wattdog::float::Single {
            bits: value.to_bits(),
        }
        .widen();
        assert_eq!(wide.bits, f64::from(value).to_bits(), "{value}");
    }
    let nan = wattdog::float::Single {
        bits: f32::NAN.to_bits(),
    };
    assert!(f64::from_bits(nan.widen().bits).is_nan());
}
