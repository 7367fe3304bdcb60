use koto_core::number::{
    number_ceiling, number_from_isize, number_from_u64, number_from_usize, number_is_nan,
    number_is_negative, number_less, number_to_index, numbers_equal,
};

fn samples() -> Vec<f64> {
    let mut values = vec![
        0.0,
        -0.0,
        1.0,
        -1.0,
        0.5,
        -0.5,
        0.999_999_999,
        1.000_000_1,
        1.5,
        2.5,
        -2.5,
        3.0,
        255.0,
        256.9,
        1e10,
        -1e10,
        4503599627370496.0,
        4503599627370497.0,
        4503599627370495.5,
        9007199254740992.0,
        9007199254740993.0,
        18446744073709551615.0,
        18446744073709551616.0,
        18446744073709549568.0,
        1e19,
        1e20,
        1e300,
        -1e300,
        5e-324,
        -5e-324,
        2.2250738585072014e-308,
        f64::MAX,
        f64::MIN,
        f64::INFINITY,
        f64::NEG_INFINITY,
        f64::NAN,
        -f64::NAN,
        f64::EPSILON,
    ];
    let mut x = 0.37;
    for _ in 0..200 {
        x = x * 1.7 + 0.123;
        values.push(x);
        values.push(-x);
        values.push(x.floor());
        values.push(1.0 / x);
    }
    values
}

#[test]
fn negative_and_nan_agree_with_the_machine() {
    for x in samples() {
        assert_eq!(number_is_nan(x.to_bits()), x.is_nan(), "{x}");
        assert_eq!(number_is_negative(x.to_bits()), x < 0.0, "{x}");
    }
}

#[test]
fn index_agrees_with_the_machine() {
    for x in samples() {
        assert_eq!(number_to_index(x.to_bits()), x as usize, "{x}");
    }
    assert_eq!(number_to_index(2.9f64.to_bits()), 2);
    assert_eq!(number_to_index((-2.9f64).to_bits()), 0);
    assert_eq!(number_to_index(f64::NAN.to_bits()), 0);
    assert_eq!(number_to_index(f64::INFINITY.to_bits()), usize::MAX);
}

#[test]
fn comparisons_agree_with_the_machine() {
    let values = samples();
    for a in &values {
        for b in &values {
            assert_eq!(numbers_equal(a.to_bits(), b.to_bits()), a == b, "{a} {b}");
            assert_eq!(number_less(a.to_bits(), b.to_bits()), a < b, "{a} {b}");
        }
    }
    assert!(numbers_equal(0.0f64.to_bits(), (-0.0f64).to_bits()));
    assert!(!numbers_equal(f64::NAN.to_bits(), f64::NAN.to_bits()));
}

#[test]
fn ceiling_agrees_with_the_machine() {
    for x in samples() {
        let expected = x.ceil();
        let found = f64::from_bits(number_ceiling(x.to_bits()));
        if expected.is_nan() {
            assert!(found.is_nan());
        } else {
            assert_eq!(found.to_bits(), expected.to_bits(), "{x}");
        }
    }
    assert_eq!(f64::from_bits(number_ceiling(1.2f64.to_bits())), 2.0);
    assert_eq!(f64::from_bits(number_ceiling((-1.2f64).to_bits())), -1.0);
}

#[test]
fn integers_become_the_nearest_number() {
    let mut integers: Vec<u64> = vec![
        0,
        1,
        2,
        3,
        255,
        256,
        4503599627370495,
        4503599627370496,
        9007199254740991,
        9007199254740992,
        9007199254740993,
        9007199254740994,
        9007199254740995,
        18014398509481985,
        18014398509481987,
        u64::MAX,
        u64::MAX - 1,
        u64::MAX - 1023,
        u64::MAX - 1024,
        u64::MAX - 2047,
        1 << 63,
        (1 << 63) + 1024,
        (1 << 63) + 1025,
        (1 << 63) + 3072,
    ];
    let mut x: u64 = 1;
    for _ in 0..300 {
        x = x.wrapping_mul(6364136223846793005).wrapping_add(1442695040888963407);
        integers.push(x);
        integers.push(x >> 7);
        integers.push(x >> 11);
        integers.push(x >> 30);
    }
    for n in integers {
        assert_eq!(number_from_u64(n), (n as f64).to_bits(), "{n}");
        assert_eq!(number_from_usize(n as usize), (n as usize as f64).to_bits(), "{n}");
        let i = n as isize;
        assert_eq!(number_from_isize(i), (i as f64).to_bits(), "{i}");
    }
    assert_eq!(number_from_isize(isize::MIN), (isize::MIN as f64).to_bits());
    assert_eq!(f64::from_bits(number_from_usize(4)), 4.0);
    assert_eq!(f64::from_bits(number_from_isize(-3)), -3.0);
}
