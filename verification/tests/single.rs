//! Single-precision numbers against those of the language.
use lyrica::single::{sum_rounded, Single};

fn single(x: f32) -> Single {
    Single { bits: x.to_bits() }
}

/// The place of a number among all numbers.
fn place(x: f32) -> i64 {
    let m = (x.to_bits() % 0x8000_0000) as i64;
    if x.is_nan() {
        0
    } else if x.is_sign_negative() {
        -m
    } else {
        m
    }
}

fn numbers() -> Vec<f32> {
    let mut all = vec![
        0.0, -0.0, 1.0, -1.0, 0.1, 0.3, 0.5, 0.9, 1.5, 2.0, 3.0, 1e-45, 1e-40, 1e-38, 1.2e-38, 1e-20, 1e20,
        3e38, f32::MAX, f32::MIN_POSITIVE, f32::EPSILON, f32::INFINITY, f32::NEG_INFINITY, f32::NAN,
        1.0 + f32::EPSILON, 1.0 - f32::EPSILON / 2.0,
    ];
    let mut seed = 42u64;
    for _ in 0..300 {
        seed = seed.wrapping_mul(6364136223846793005).wrapping_add(1442695040888963407);
        all.push(f32::from_bits((seed >> 32) as u32));
        // Numbers near one.
        all.push(0.5 + ((seed >> 40) % 0x100_0000) as f32 / 0x100_0000 as f32);
        // Numbers whose products are tiny.
        all.push(f32::from_bits(((seed >> 33) % 0x2000_0000) as u32));
    }
    all
}

#[test]
fn products_are_those_of_the_language() {
    let all = numbers();
    for a in &all {
        for b in &all {
            assert_eq!(single(*a).product_place(single(*b)), place(a * b), "{:e} * {:e}", a, b);
        }
    }
}

#[test]
fn sums_are_those_of_the_language() {
    let mut seed = 5u64;
    let unit = 2f32.powi(-27);
    for _ in 0..20_000 {
        seed = seed.wrapping_mul(6364136223846793005).wrapping_add(1442695040888963407);
        let (x, y) = ((seed >> 38) as u32, ((seed >> 8) % 0x400_0000) as u32);
        // Only numbers that single precision has.
        let (a, b) = (x as f32 as u32, y as f32 as u32);
        let sum = (a as f32 * unit) + (b as f32 * unit);
        assert_eq!(sum_rounded(a, b) as f64 * unit as f64, sum as f64);
    }
}

#[test]
fn comparisons_are_those_of_the_language() {
    let all = numbers();
    for a in &all {
        assert_eq!(single(*a).positive(), *a > 0.0);
        for b in &all {
            assert_eq!(single(*a).same(single(*b)), a == b);
        }
    }
}

#[test]
fn scaled_numbers() {
    assert_eq!(Single::zero(), single(0.0));
    assert_eq!(Single::one(), single(1.0));
    assert_eq!(Single::scaled(13_421_773, -27), single(0.1));
    assert_eq!(Single::scaled(53_687_092, -27), single(0.4));
    assert_eq!(Single::scaled(u32::MAX, 0), single(u32::MAX as f32));
    assert_eq!(Single::scaled(3, 200), single(f32::INFINITY));
    assert_eq!(Single::scaled(1, -149), single(1e-45));
    assert_eq!(Single::scaled(1, -151), single(0.0));
    assert_eq!(Single::scaled(3, -151), single(1e-45));
}

#[test]
fn one_is_neutral_and_order_is_kept() {
    let mut all: Vec<f32> = numbers().into_iter().filter(|x| *x >= 0.0).collect();
    all.sort_by(|a, b| a.partial_cmp(b).unwrap());
    for w in [0.1f32, 1.0, 1.5, 1e30] {
        for pair in all.windows(2) {
            let (a, b) = (single(pair[0]), single(pair[1]));
            assert!(a.product_place(single(w)) <= b.product_place(single(w)));
            assert_eq!(a.product_place(single(1.0)), place(pair[0]));
        }
    }
}
