use scalar_number::widen::{widen_integer, widen_single};
use scalar_number::Number;

fn integers() -> Vec<i64> {
    let mut all = vec![
        0,
        1,
        -1,
        2,
        3,
        127,
        -128,
        32767,
        -32768,
        2147483647,
        -2147483648,
        (1 << 52) - 1,
        1 << 52,
        (1 << 53) - 1,
        1 << 53,
        (1 << 53) + 1,
        (1 << 53) + 2,
        (1 << 53) + 3,
        (1 << 54) + 2,
        (1 << 54) + 6,
        -((1 << 53) + 1),
        -((1 << 53) + 3),
        (1 << 62) + 255,
        (1 << 62) + 256,
        (1 << 62) + 257,
        (1 << 62) + 768,
        i64::MAX,
        i64::MAX - 1,
        i64::MAX - 511,
        i64::MAX - 512,
        i64::MAX - 513,
        i64::MIN,
        i64::MIN + 1,
    ];
    let mut x: u64 = 0x9e37_79b9_7f4a_7c15;
    for i in 0..4000u32 {
        x = x.wrapping_mul(6364136223846793005).wrapping_add(1442695040888963407);
        all.push((x >> (i % 64)) as i64);
        all.push(-((x >> (i % 63 + 1)) as i64));
    }
    all
}

fn singles() -> Vec<u32> {
    let mut all = vec![
        0,
        0x8000_0000,
        1,
        2,
        3,
        0x8000_0001,
        0x007f_ffff,
        0x0040_0000,
        0x0000_8001,
        0x0080_0000,
        0x0080_0001,
        0x3f80_0000,
        0xbf80_0000,
        0x7f7f_ffff,
        0xff7f_ffff,
        0x7f80_0000,
        0xff80_0000,
    ];
    let mut x: u32 = 0x1234_5678;
    for i in 0..4000u32 {
        x = x.wrapping_mul(1664525).wrapping_add(1013904223);
        all.push(x);
        all.push(x >> (i % 32));
    }
    all
}

#[test]
fn integers_widen_as_the_hardware_widens_them() {
    for v in integers() {
        assert_eq!(widen_integer(v), (v as f64).to_bits());
        assert_eq!(Number::Integer64(v).to_f64(), (v as f64).to_bits());
    }
    for v in i16::MIN..=i16::MAX {
        assert_eq!(Number::Integer16(v).to_f64(), (v as f64).to_bits());
    }
    for v in i8::MIN..=i8::MAX {
        assert_eq!(Number::Integer8(v).to_f64(), (v as f64).to_bits());
    }
    assert_eq!(Number::Integer32(-70000).to_f64(), (-70000.0f64).to_bits());
}

#[test]
fn singles_widen_as_the_hardware_widens_them() {
    for bits in singles() {
        let value = f32::from_bits(bits);
        if value.is_nan() {
            assert!(f64::from_bits(widen_single(bits)).is_nan());
        } else {
            assert_eq!(widen_single(bits), (value as f64).to_bits());
            assert_eq!(Number::Float32(bits).to_f64(), (value as f64).to_bits());
        }
    }
}

#[test]
fn special_values_widen_to_their_patterns() {
    assert_eq!(Number::PositiveInfinity.to_f64(), f64::INFINITY.to_bits());
    assert_eq!(Number::NegativeInfinity.to_f64(), f64::NEG_INFINITY.to_bits());
    assert!(f64::from_bits(Number::NaN.to_f64()).is_nan());
    assert_eq!(Number::Float64(0.1f64.to_bits()).to_f64(), 0.1f64.to_bits());
}

#[test]
fn from_int_widens_to_the_integer() {
    for m in [0i64, 5, -5, 127, 128, -129, 40000, -2147483649, 1 << 40, (1 << 53) - 1] {
        assert_eq!(f64::from_bits(Number::from_int(m).to_f64()), m as f64);
    }
}

fn hardware_from_float(value: f64) -> Result<f32, f64> {
    let single = value as f32;
    if (single as f64 - value).abs() < f64::EPSILON && value.is_finite() {
        Ok(single)
    } else {
        Err(value)
    }
}

fn doubles() -> Vec<u64> {
    let mut all: Vec<u64> = Vec::new();
    for v in [
        0.0f64,
        -0.0,
        1.0,
        -1.0,
        5.0,
        0.1,
        0.5,
        0.75,
        3.5,
        1.0e-30,
        1.0e-40,
        1.0e-45,
        7.0e-46,
        1.4e-45,
        2.1e-45,
        1.0e-50,
        1.0e-300,
        5e-324,
        1.0e30,
        1.0e38,
        3.4028234663852886e38,
        3.4028235677973366e38,
        3.5e38,
        1.0e300,
        16777216.0,
        16777217.0,
        9223372036854775808.0,
        1.1754943508222875e-38,
        1.1754942106924411e-38,
        f64::MAX,
        f64::MIN_POSITIVE,
        f64::EPSILON,
        f64::INFINITY,
        f64::NEG_INFINITY,
        f64::NAN,
    ] {
        all.push(v.to_bits());
        all.push((-v).to_bits());
        all.push(v.to_bits().wrapping_add(1));
        all.push(v.to_bits().wrapping_sub(1));
    }
    // every exponent, with fractions that sit on, beside and between the
    // binary32 grid points
    for exponent in 0..2048u64 {
        for fraction in [
            0u64,
            1,
            0x0000_0000_1000_0000,
            0x0000_0000_0fff_ffff,
            0x0000_0000_1000_0001,
            0x0000_0000_2000_0000,
            0x0000_0000_3000_0000,
            0x0000_0000_0000_8000,
            0x0008_0000_0000_0000,
            0x000f_ffff_e000_0000,
            0x000f_ffff_f000_0000,
            0x000f_ffff_ffff_ffff,
            0x0005_5555_5555_5555,
        ] {
            all.push((exponent << 52) | fraction);
            all.push((1 << 63) | (exponent << 52) | fraction);
        }
    }
    let mut x: u64 = 0x2545_f491_4f6c_dd1d;
    for i in 0..20000u32 {
        x = x.wrapping_mul(6364136223846793005).wrapping_add(1442695040888963407);
        all.push(x);
        // patterns near 1, where closeness depends on the low bits
        all.push(((1023 - (i as u64 % 40)) << 52) | ((x >> 12) & !((1u64 << (i % 40)) - 1)));
        // values that binary32 holds exactly
        all.push((((x >> 41) as u32 as f32) as f64).to_bits());
        all.push((f32::from_bits((x >> 32) as u32) as f64).to_bits());
    }
    all
}

#[test]
fn doubles_narrow_as_the_hardware_narrows_them() {
    for bits in doubles() {
        let value = f64::from_bits(bits);
        match (Number::from_float(bits), hardware_from_float(value)) {
            (Number::Float32(single), Ok(expected)) => assert_eq!(single, expected.to_bits()),
            (Number::Float64(double), Err(_)) => assert_eq!(double, bits),
            _ => panic!("the variants differ at {:#018x}", bits),
        }
        assert_eq!(scalar_number::narrow::narrow_single(bits).is_some(), hardware_from_float(value).is_ok());
    }
}

#[test]
fn narrowing_then_widening_stays_within_epsilon() {
    for bits in doubles() {
        if let Number::Float32(single) = Number::from_float(bits) {
            let back = f64::from_bits(widen_single(single));
            assert!((back - f64::from_bits(bits)).abs() < f64::EPSILON);
        }
    }
}

#[test]
fn singles_survive_widening_and_narrowing() {
    for bits in singles() {
        let value = f32::from_bits(bits);
        if value.is_finite() {
            match Number::from_float(widen_single(bits)) {
                Number::Float32(back) => assert_eq!(back, bits),
                _ => panic!("a binary32 value was expected at {:#010x}", bits),
            }
        }
    }
}

#[test]
fn widening_keeps_the_class_of_a_number() {
    let mut numbers = vec![
        Number::NaN,
        Number::PositiveInfinity,
        Number::NegativeInfinity,
        Number::Integer8(0),
        Number::Integer8(-1),
        Number::Integer16(300),
        Number::Integer32(-70000),
        Number::Integer64(i64::MIN),
        Number::Integer64(i64::MAX),
        Number::Float64(f64::NAN.to_bits()),
        Number::Float64(f64::NEG_INFINITY.to_bits()),
        Number::Float64((-0.0f64).to_bits()),
        Number::Float64(5e-324f64.to_bits()),
    ];
    for bits in singles() {
        numbers.push(Number::Float32(bits));
    }
    for n in numbers {
        let wide = f64::from_bits(n.to_f64());
        assert_eq!(wide.is_nan(), n.is_nan());
        assert_eq!(wide.is_infinite(), n.is_infinite());
        assert_eq!(wide.is_finite(), n.is_finite());
        assert_eq!(wide == 0.0, n.is_zero());
        if !n.is_nan() {
            assert_eq!(wide.is_sign_negative(), n.is_negative());
        }
    }
}
