use quickvm::coord::{Coord, HALF, ONE, ZERO};
use quickvm::event::Event;
use quickvm::proto::Motion;

const SAMPLES: [f64; 17] = [
    0.0,
    -0.0,
    1.0,
    -1.0,
    0.5,
    0.001,
    0.999,
    1920.0,
    -1920.0,
    1e-310,
    -1e-310,
    1e308,
    -1e308,
    f64::INFINITY,
    f64::NEG_INFINITY,
    f64::NAN,
    f64::EPSILON,
];

fn bits(v: f64) -> Coord {
    Coord { bits: v.to_bits() }
}

#[test]
fn named_numbers() {
    assert_eq!(ZERO, 0.0f64.to_bits());
    assert_eq!(HALF, 0.5f64.to_bits());
    assert_eq!(ONE, 1.0f64.to_bits());
}

#[test]
fn order_is_that_of_numbers() {
    for a in SAMPLES {
        assert_eq!(bits(a).nan(), a.is_nan());
        assert_eq!(bits(a).zero(), a == 0.0);
        assert_eq!(bits(a).abs().bits, a.abs().to_bits());
        for b in SAMPLES {
            assert_eq!(bits(a).less(bits(b)), a < b, "{a} < {b}");
            assert_eq!(bits(a).at_most(bits(b)), a <= b, "{a} <= {b}");
        }
    }
}

#[test]
fn clamping_is_that_of_numbers() {
    for a in SAMPLES {
        for hi in [0.0, 1.0, 1920.0, f64::INFINITY] {
            let expected = a.clamp(0.0, hi);
            assert_eq!(bits(a).clamp(bits(0.0), bits(hi)).bits, expected.to_bits(), "{a} to {hi}");
        }
    }
}

#[test]
fn clamping_twice_is_clamping_once() {
    for a in SAMPLES {
        let once = bits(a).clamp(bits(0.0), bits(1.0));
        assert_eq!(once.clamp(bits(0.0), bits(1.0)).bits, once.bits);
    }
}

#[test]
fn equality_is_that_of_floats() {
    for a in SAMPLES {
        for b in SAMPLES {
            assert_eq!(bits(a) == bits(b), a == b, "{a} == {b}");
        }
    }
    let at = |v: f64| Event::MotionAbs { x: bits(v), y: bits(1.0) };
    assert!(at(0.0) == at(-0.0));
    assert!(at(f64::NAN) != at(f64::NAN));
    let sent = |v: f64| Motion { seq: 1, x: bits(v), y: bits(1.0) };
    assert!(sent(0.0) == sent(-0.0));
    assert!(sent(f64::NAN) != sent(f64::NAN));
}

#[test]
fn part_of_a_length_is_within_it() {
    for part in [0.0, 5e-324, 0.001, 0.5, 1.0 - 0.001, 1.0] {
        for whole in [0.0, 5e-324, 1.0, 1080.0, 1920.5, f64::MAX] {
            let p = part * whole;
            assert!(bits(0.0).at_most(bits(p)) && bits(p).at_most(bits(whole)));
        }
    }
}
