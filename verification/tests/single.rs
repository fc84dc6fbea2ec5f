use forge_paint::single::{Single, Triple};

const VALUES: [f32; 22] = [
    0.0, -0.0, 1.0, -1.0, 0.5, -0.5, 1.5, -1.5, 2.5, 0.99999994, 1e-40, -1e-40, 16777216.0,
    16777217.5, 4294967040.0, 4294967296.0, 1e30, -1e30, f32::INFINITY, f32::NEG_INFINITY,
    f32::NAN, 1234.75,
];

fn single(x: f32) -> Single {
    Single { bits: x.to_bits() }
}

#[test]
fn numbers_are_classified() {
    for x in VALUES {
        assert_eq!(single(x).is_nan(), x.is_nan(), "{x}");
        assert_eq!(single(x).is_finite(), x.is_finite(), "{x}");
    }
}

#[test]
fn numbers_are_compared() {
    for x in VALUES {
        for y in VALUES {
            assert_eq!(single(x).less(single(y)), x < y, "{x} {y}");
            assert_eq!(single(x).equals(single(y)), x == y, "{x} {y}");
            if x != y || x.to_bits() == y.to_bits() {
                let min = f32::from_bits(single(x).min(single(y)).bits);
                let max = f32::from_bits(single(x).max(single(y)).bits);
                assert!(min == x.min(y) || (min.is_nan() && x.min(y).is_nan()), "{x} {y}");
                assert!(max == x.max(y) || (max.is_nan() && x.max(y).is_nan()), "{x} {y}");
            }
        }
    }
}

#[test]
fn numbers_are_rounded() {
    for x in VALUES {
        assert_eq!(single(x).floor(), x.floor() as u32, "{x}");
        assert_eq!(single(x).ceil(), x.ceil() as u32, "{x}");
    }
    let mut x = -3.0f32;
    while x < 300.0 {
        assert_eq!(single(x).floor(), x.floor() as u32, "{x}");
        assert_eq!(single(x).ceil(), x.ceil() as u32, "{x}");
        x += 0.3;
    }
}

#[test]
fn points_are_compared() {
    let p = Triple { x: single(0.0), y: single(1.0), z: single(2.0) };
    let q = Triple { x: single(-0.0), y: single(1.0), z: single(2.0) };
    let r = Triple { x: single(f32::NAN), y: single(1.0), z: single(2.0) };
    assert!(p.equals(q));
    assert!(!p.equals(r));
    assert!(!r.equals(r));
}
