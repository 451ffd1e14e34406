use rslogo::number::Number;

fn num(v: f32) -> Number {
    Number::from_bits(v.to_bits())
}

fn val(n: Number) -> f32 {
    f32::from_bits(n.to_bits())
}

/// Encodings of every kind: zeros, subnormals, ones, halves, integers at
/// the edge of what the significand holds, the ends of the integer ranges,
/// infinities and NaNs.
fn samples() -> Vec<f32> {
    let mut out = vec![
        0.0f32,
        -0.0,
        f32::MIN_POSITIVE,
        -f32::MIN_POSITIVE,
        f32::from_bits(1),
        f32::from_bits(0x8000_0001),
        0.5,
        -0.5,
        0.9999999,
        1.0,
        -1.0,
        1.5,
        -1.5,
        2.0,
        15.0,
        15.999999,
        16.0,
        370.0,
        -370.9,
        16777215.0,
        16777216.0,
        16777218.0,
        2147483520.0,
        2147483648.0,
        -2147483648.0,
        -2147483904.0,
        4294967040.0,
        4294967296.0,
        9.223372e18,
        1.8446744e19,
        1.8446743e19,
        3.0e20,
        f32::MAX,
        f32::MIN,
        f32::INFINITY,
        f32::NEG_INFINITY,
        f32::NAN,
        -f32::NAN,
        f32::from_bits(0x7f80_0001),
        f32::from_bits(0xffff_ffff),
    ];
    let mut seed: u32 = 0x2545_f491;
    for _ in 0..20_000 {
        seed ^= seed << 13;
        seed ^= seed >> 17;
        seed ^= seed << 5;
        out.push(f32::from_bits(seed));
    }
    out
}

#[test]
fn bits_go_in_and_out_unchanged() {
    for bits in [0u32, 1, 0x3f80_0000, 0x7fc0_0000, 0xffff_ffff] {
        assert_eq!(Number::from_bits(bits).to_bits(), bits);
        assert_eq!(Number::from_bits(bits).bits, bits);
    }
}

#[test]
fn classification_is_the_hardwares() {
    for v in samples() {
        assert_eq!(num(v).is_nan(), v.is_nan(), "{:?}", v);
        assert_eq!(num(v).is_zero(), v == 0.0, "{:?}", v);
        assert_eq!(num(v).is_truthy(), v != 0.0, "{:?}", v);
    }
}

#[test]
fn comparison_is_the_hardwares() {
    let all = samples();
    for (i, a) in all.iter().enumerate() {
        for b in all.iter().skip(i % 97).step_by(97) {
            assert_eq!(num(*a).equals(num(*b)), a == b, "{:?} {:?}", a, b);
            assert_eq!(num(*a).less_than(num(*b)), a < b, "{:?} {:?}", a, b);
            assert_eq!(num(*a).greater_than(num(*b)), a > b, "{:?} {:?}", a, b);
        }
    }
}

#[test]
fn comparison_on_the_named_cases() {
    assert!(num(0.0).equals(num(-0.0)));
    assert!(!num(f32::NAN).equals(num(f32::NAN)));
    assert!(!num(f32::NAN).less_than(num(1.0)));
    assert!(!num(1.0).less_than(num(f32::NAN)));
    assert!(num(-2.0).less_than(num(-1.0)));
    assert!(num(-1.0).less_than(num(0.0)));
    assert!(!num(-0.0).less_than(num(0.0)));
    assert!(num(f32::NEG_INFINITY).less_than(num(f32::MIN)));
    assert!(num(f32::INFINITY).greater_than(num(f32::MAX)));
    assert!(num(f32::NAN).is_truthy());
    assert!(!num(-0.0).is_truthy());
}

#[test]
fn truncation_to_i32_is_the_saturating_cast() {
    for v in samples() {
        assert_eq!(num(v).to_i32(), v as i32, "{:?}", v);
    }
    assert_eq!(num(370.0).to_i32(), 370);
    assert_eq!(num(-370.9).to_i32(), -370);
    assert_eq!(num(0.9999999).to_i32(), 0);
    assert_eq!(num(f32::NAN).to_i32(), 0);
    assert_eq!(num(f32::INFINITY).to_i32(), i32::MAX);
    assert_eq!(num(f32::NEG_INFINITY).to_i32(), i32::MIN);
    assert_eq!(num(2147483648.0).to_i32(), i32::MAX);
    assert_eq!(num(-2147483648.0).to_i32(), i32::MIN);
}

#[test]
fn truncation_to_usize_is_the_saturating_cast() {
    for v in samples() {
        assert_eq!(num(v).to_usize(), v as usize, "{:?}", v);
    }
    assert_eq!(num(15.999999).to_usize(), 15);
    assert_eq!(num(16.0).to_usize(), 16);
    assert_eq!(num(-1.0).to_usize(), 0);
    assert_eq!(num(f32::NAN).to_usize(), 0);
    assert_eq!(num(f32::INFINITY).to_usize(), usize::MAX);
}

#[test]
fn integers_round_to_the_nearest_number() {
    let mut cases: Vec<i32> = vec![
        0,
        1,
        -1,
        7,
        370,
        -370,
        16777215,
        16777216,
        16777217,
        16777218,
        16777219,
        33554433,
        33554434,
        33554435,
        i32::MAX,
        i32::MAX - 63,
        i32::MAX - 64,
        i32::MAX - 65,
        i32::MIN,
        i32::MIN + 1,
        i32::MIN + 64,
        i32::MIN + 65,
    ];
    let mut seed: u32 = 0x9e37_79b9;
    for _ in 0..20_000 {
        seed ^= seed << 13;
        seed ^= seed >> 17;
        seed ^= seed << 5;
        cases.push(seed as i32);
        cases.push((seed >> (seed % 31)) as i32);
    }
    for v in cases {
        assert_eq!(Number::from_i32(v).to_bits(), (v as f32).to_bits(), "{}", v);
        let u = v as u32;
        assert_eq!(Number::from_u32(u).to_bits(), (u as f32).to_bits(), "{}", u);
        let w = (u as usize).wrapping_mul(0x1_0001).wrapping_add(u as usize >> 3);
        assert_eq!(
            Number::from_usize(w).to_bits(),
            (w as f32).to_bits(),
            "{}",
            w
        );
    }
    assert_eq!(
        Number::from_usize(usize::MAX).to_bits(),
        (usize::MAX as f32).to_bits()
    );
    assert_eq!(val(Number::from_i32(370)), 370.0);
    assert_eq!(val(Number::from_i32(16777217)), 16777216.0);
    assert_eq!(val(Number::from_i32(16777219)), 16777220.0);
}

#[test]
fn truth_is_one_and_zero() {
    assert_eq!(val(Number::from_bool(true)), 1.0);
    assert_eq!(val(Number::from_bool(false)), 0.0);
    assert_eq!(Number::from_bool(false).to_bits(), 0);
}
