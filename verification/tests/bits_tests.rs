use neuroevo::float_bits::{
    f32_clamp, f32_eq, f32_from_uint, f32_ge, f32_gt, f32_le, f32_lt, f32_neg, f32_relu,
    f32_trunc_usize,
};

fn samples() -> Vec<f32> {
    vec![
        0.0,
        -0.0,
        1.0,
        -1.0,
        0.5,
        -0.5,
        1.5,
        -2.75,
        0.0001,
        1e-40,
        -1e-40,
        f32::MIN_POSITIVE,
        f32::MAX,
        f32::MIN,
        f32::INFINITY,
        f32::NEG_INFINITY,
        f32::NAN,
        std::f32::consts::PI,
        -std::f32::consts::PI,
        16777216.0,
        4.5,
        1e9,
        1e20,
    ]
}

#[test]
fn comparisons_match_the_hardware() {
    for a in samples() {
        for b in samples() {
            let (ab, bb) = (a.to_bits(), b.to_bits());
            assert_eq!(f32_lt(ab, bb), a < b, "lt {a} {b}");
            assert_eq!(f32_le(ab, bb), a <= b, "le {a} {b}");
            assert_eq!(f32_gt(ab, bb), a > b, "gt {a} {b}");
            assert_eq!(f32_ge(ab, bb), a >= b, "ge {a} {b}");
            assert_eq!(f32_eq(ab, bb), a == b, "eq {a} {b}");
        }
    }
}

#[test]
fn rectifier_matches_the_hardware_maximum() {
    for v in samples() {
        assert_eq!(f32_relu(v.to_bits()), v.max(0.0).to_bits(), "relu {v}");
    }
}

#[test]
fn clamp_matches_the_hardware() {
    for v in samples() {
        let got = f32_clamp(v.to_bits(), (-1.0f32).to_bits(), 1.0f32.to_bits());
        let want = v.clamp(-1.0, 1.0).to_bits();
        assert_eq!(got, want, "clamp {v}");
    }
}

#[test]
fn truncation_matches_the_hardware_cast() {
    for v in samples() {
        assert_eq!(f32_trunc_usize(v.to_bits()), v as usize, "trunc {v}");
    }
}

#[test]
fn negation_flips_only_the_sign() {
    for v in samples() {
        assert_eq!(f32_neg(v.to_bits()), (-v).to_bits(), "neg {v}");
    }
}

#[test]
fn exact_count_conversion_matches_the_hardware_cast() {
    for n in [0usize, 1, 2, 9, 40, 2500, 12345, 0xFF_FFFF] {
        assert_eq!(f32_from_uint(n), (n as f32).to_bits(), "uint {n}");
    }
}
