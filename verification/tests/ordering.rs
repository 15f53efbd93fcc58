use scalar_number::ieee::{compare64, equal64, finite64, infinite64, nan64, negative64, zero64};
use scalar_number::{Number, Order};

fn samples() -> Vec<f64> {
    vec![
        0.0,
        -0.0,
        1.0,
        -1.0,
        5e-324,
        -5e-324,
        2.5,
        -2.5,
        1e300,
        -1e300,
        f64::MAX,
        f64::MIN,
        f64::INFINITY,
        f64::NEG_INFINITY,
        f64::NAN,
        -f64::NAN,
    ]
}

#[test]
fn patterns_compare_as_their_values_do() {
    for a in samples() {
        for b in samples() {
            let expected = match a.partial_cmp(&b) {
                Some(std::cmp::Ordering::Less) => Some(Order::Less),
                Some(std::cmp::Ordering::Equal) => Some(Order::Equal),
                Some(std::cmp::Ordering::Greater) => Some(Order::Greater),
                None => None,
            };
            assert_eq!(compare64(a.to_bits(), b.to_bits()), expected);
            assert_eq!(equal64(a.to_bits(), b.to_bits()), a == b);
        }
    }
}

#[test]
fn patterns_classify_as_their_values_do() {
    for a in samples() {
        assert_eq!(nan64(a.to_bits()), a.is_nan());
        assert_eq!(infinite64(a.to_bits()), a.is_infinite());
        assert_eq!(finite64(a.to_bits()), a.is_finite());
        assert_eq!(zero64(a.to_bits()), a == 0.0);
        assert_eq!(negative64(a.to_bits()), a.is_sign_negative());
    }
}

#[test]
fn nan_is_never_equal_nor_ordered() {
    let nans = [
        Number::NaN,
        Number::Float64(f64::NAN.to_bits()),
        Number::Float32(f32::NAN.to_bits()),
    ];
    let others = [
        Number::NaN,
        Number::Integer8(0),
        Number::PositiveInfinity,
        Number::Float64(1.5f64.to_bits()),
    ];
    for n in &nans {
        for x in &others {
            assert!(!n.equals(x));
            assert!(!x.equals(n));
            assert!(!n.less_than(x));
            assert!(!n.greater_than(x));
            assert!(!x.less_than(n));
            assert!(!x.greater_than(n));
            assert_eq!(n.compare(x), None);
        }
    }
    let nan = Number::NaN;
    assert!(!nan.equals(&nan));
    assert_eq!(nan.compare(&Number::Integer8(1)), None);
}

#[test]
fn equality_crosses_variants() {
    let five = Number::from_int(5);
    let five_float = Number::from_float(5.0f64.to_bits());
    assert!(matches!(five, Number::Integer8(5)));
    assert!(matches!(five_float, Number::Float32(_)));
    assert!(five.equals(&five_float));
    assert_eq!(five.compare(&five_float), Some(Order::Equal));

    let wide_five = Number::Float64(5.0f64.to_bits());
    assert!(wide_five.equals(&five));
}

#[test]
fn order_crosses_variants() {
    let small = Number::Integer8(-3);
    let large = Number::Float64(2.5f64.to_bits());
    assert!(small.less_than(&large));
    assert!(large.greater_than(&small));
    assert!(!small.equals(&large));
    let top = Number::PositiveInfinity;
    assert!(large.less_than(&top));
    let bottom = Number::NegativeInfinity;
    assert_eq!(bottom.compare(&small), Some(Order::Less));
    assert_eq!(top.compare(&top), Some(Order::Equal));
}

#[test]
fn large_integers_compare_through_their_widenings() {
    let a = Number::Integer64(9007199254740993);
    let b = Number::Integer64(9007199254740992);
    assert!(a.equals(&b));
}

#[test]
fn integers_compare_in_the_direction_of_their_values() {
    let values = [
        i64::MIN,
        -9007199254740993,
        -9007199254740992,
        -70000,
        -1,
        0,
        1,
        127,
        128,
        9007199254740991,
        9007199254740992,
        9007199254740993,
        i64::MAX - 1,
        i64::MAX,
    ];
    for (i, a) in values.iter().enumerate() {
        for b in values.iter().skip(i) {
            let x = Number::from_int(*a);
            let y = Number::Integer64(*b);
            let order = x.compare(&y);
            assert!(order == Some(Order::Less) || order == Some(Order::Equal));
            assert!(!x.greater_than(&y));
            if a == b {
                assert!(x.equals(&y));
            }
            if a < b && *a > -(1 << 53) && *b < (1 << 53) {
                assert!(x.less_than(&y));
                assert!(y.greater_than(&x));
            }
        }
    }
}

#[test]
fn operators_follow_equals_and_compare() {
    let nan = Number::NaN;
    assert!(!(nan == nan));
    assert!(nan != nan);
    assert!(!(nan < Number::Integer8(0)));
    assert!(!(nan > Number::Integer8(0)));
    assert!(!(Number::PositiveInfinity < nan));
    assert!(!(Number::PositiveInfinity > nan));
    assert!(Number::from_int(5) == Number::from_float(5.0f64.to_bits()));
    assert!(Number::Integer8(5) == Number::Float64(5.0f64.to_bits()));
    assert!(Number::Integer8(5) != Number::Float64(5.5f64.to_bits()));
    assert!(Number::Integer8(-3) < Number::Float32(2.5f32.to_bits()));
    assert!(Number::Float32(2.5f32.to_bits()) <= Number::Float64(2.5f64.to_bits()));
    assert!(Number::PositiveInfinity > Number::Integer64(i64::MAX));
    assert!(Number::NegativeInfinity < Number::Integer64(i64::MIN));
    assert!(Number::PositiveInfinity == Number::Float64(f64::INFINITY.to_bits()));
    assert!(Number::Float64(0.0f64.to_bits()) == Number::Float32((-0.0f32).to_bits()));
    assert_eq!(
        Number::Integer8(1).partial_cmp(&Number::Integer16(300)),
        Some(std::cmp::Ordering::Less)
    );
    assert_eq!(Number::NaN.partial_cmp(&Number::Integer16(300)), None);
}
