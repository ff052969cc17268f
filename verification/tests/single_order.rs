use wdmview::single::{Single, INFINITY_BITS, SIGN_BIT};

fn single(v: f32) -> Single {
    Single::from_bits(v.to_bits())
}

fn samples() -> Vec<f32> {
    vec![
        0.0,
        -0.0,
        1.0,
        -1.0,
        0.5,
        10.0,
        -10.0,
        f32::MIN_POSITIVE,
        -f32::MIN_POSITIVE,
        f32::MAX,
        f32::MIN,
        f32::INFINITY,
        f32::NEG_INFINITY,
        f32::NAN,
        1.0e-45,
        -1.0e-45,
        3.5,
        3.5000002,
        f32::EPSILON,
    ]
}

#[test]
fn order_matches_the_hardware_on_sample_values() {
    for &a in samples().iter() {
        for &b in samples().iter() {
            assert_eq!(single(a).lt(single(b)), a < b, "{} < {}", a, b);
            assert_eq!(single(a).le(single(b)), a <= b, "{} <= {}", a, b);
            assert_eq!(single(a).gt(single(b)), a > b, "{} > {}", a, b);
            assert_eq!(single(a).ge(single(b)), a >= b, "{} >= {}", a, b);
            assert_eq!(single(a).same(single(b)), a == b, "{} == {}", a, b);
        }
    }
}

#[test]
fn nan_and_negation_match_the_hardware() {
    for &a in samples().iter() {
        assert_eq!(single(a).nan(), a.is_nan());
        assert_eq!(single(a).neg().to_bits(), (-a).to_bits());
        assert_eq!(single(a).neg().neg(), single(a));
    }
}

#[test]
fn rank_counts_steps_from_zero() {
    assert_eq!(single(0.0).rank_value(), 0);
    assert_eq!(single(-0.0).rank_value(), 0);
    assert_eq!(single(1.0e-45).rank_value(), 1);
    assert_eq!(single(-1.0e-45).rank_value(), -1);
    assert_eq!(single(1.0).rank_value(), 0x3f80_0000);
    assert_eq!(single(-1.0).rank_value(), -0x3f80_0000);
    assert_eq!(single(f32::INFINITY).rank_value(), INFINITY_BITS as i64);
    assert_eq!(single(f32::NEG_INFINITY).rank_value(), -(INFINITY_BITS as i64));
}

#[test]
fn next_up_is_the_next_representable_number() {
    assert_eq!(single(1.0).next_up().to_bits(), 0x3f80_0001);
    assert_eq!(single(0.0).next_up().to_bits(), 1);
    assert_eq!(single(-0.0).next_up().to_bits(), 1);
    assert_eq!(single(-1.0).next_up().to_bits(), 0xbf7f_ffff);
    assert_eq!(single(-1.0e-45).next_up().to_bits(), 0);
    assert_eq!(single(f32::MAX).next_up(), single(f32::INFINITY));
    assert_eq!(single(f32::NEG_INFINITY).next_up(), single(f32::MIN));
    assert_eq!(f32::from_bits(single(100.0).next_up().to_bits()), 100.00001);
}

#[test]
fn next_up_is_strictly_greater_on_numbers_below_infinity() {
    for &a in samples().iter() {
        let up = single(a).next_up();
        if a.is_nan() || a == f32::INFINITY {
            assert_eq!(up, single(a));
        } else {
            assert!(f32::from_bits(up.to_bits()) > a, "{}", a);
            assert_eq!(up.rank_value(), single(a).rank_value() + 1);
        }
    }
}

#[test]
fn next_up_leaves_infinity_and_nan_unchanged() {
    assert_eq!(single(f32::INFINITY).next_up(), single(f32::INFINITY));
    let nan = Single::from_bits(0x7fc0_0001);
    assert_eq!(nan.next_up(), nan);
    let negative_nan = Single::from_bits(0xffc0_0000);
    assert_eq!(negative_nan.next_up(), negative_nan);
}

#[test]
fn constants_are_the_encodings_they_name() {
    assert_eq!(SIGN_BIT, (-0.0f32).to_bits());
    assert_eq!(INFINITY_BITS, f32::INFINITY.to_bits());
}
