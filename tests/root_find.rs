use std::cell::Cell;

use shimmer::{ray_march, secant, Colour, SignedDistance};

fn sample(value: f32) -> SignedDistance<f32> {
    SignedDistance { value, colour: Colour::zero() }
}

fn secant_of<F: Fn(f32) -> SignedDistance<f32>>(
    x0: f32,
    x1: f32,
    precision: f32,
    max_iterations: usize,
    f: F,
) -> Option<f32> {
    secant(
        x0,
        x1,
        max_iterations,
        |a: f32, b: f32| {
            let fa = f(a).value;
            let fb = f(b).value;
            b - fb * ((b - a) / (fb - fa))
        },
        |a: f32, b: f32| (b - a).abs() <= precision,
        |x: f32| x.is_finite(),
    )
}

fn ray_march_of<F: Fn(f32) -> SignedDistance<f32>>(
    min: f32,
    max: f32,
    step: f32,
    f: F,
) -> Option<f32> {
    ray_march(
        |i: usize| min + step * i as f32,
        |t: f32| t < max,
        |t: f32| f(t).value <= 0.0,
    )
}

#[test]
fn secant_test() {
    assert_eq!(
        secant_of(10.0, 30.0, 0.001, 32, |x: f32| sample(x.powi(2) - 612.0)),
        Some(24.738634)
    );
    assert_eq!(
        secant_of(0.0, 1.0, 0.001, 32, |x: f32| sample(x.powi(2) + 1.0)),
        None
    );
}

#[test]
fn ray_march_test() {
    assert_eq!(ray_march_of(0.0, 10.0, 0.1, |x| sample(5.0 - x)), Some(5.0));
    assert_eq!(ray_march_of(0.0, 10.0, 0.1, |x| sample(12.0 - x)), None);
}

#[test]
fn secant_converges_within_precision() {
    let root = secant_of(10.0, 30.0, 0.001, 32, |x: f32| sample(x * x - 612.0)).unwrap();
    assert!((root - 612.0f32.sqrt()).abs() <= 0.001);
}

#[test]
fn secant_fails_without_root_from_other_brackets() {
    for (x0, x1) in [(-3.0f32, 5.0f32), (2.0, 7.5), (-100.0, -99.0)] {
        assert_eq!(secant_of(x0, x1, 0.001, 32, |x: f32| sample(x * x + 1.0)), None);
    }
}

#[test]
fn secant_stops_after_budget() {
    let calls = Cell::new(0usize);
    let r = secant(
        0i64,
        1i64,
        3,
        |_a: i64, b: i64| {
            calls.set(calls.get() + 1);
            b + 10
        },
        |a: i64, b: i64| a == b,
        |_x: i64| true,
    );
    assert_eq!(r, None);
    assert_eq!(calls.get(), 4);
}

#[test]
fn secant_with_no_budget_makes_one_update() {
    let calls = Cell::new(0usize);
    let r = secant(
        0i64,
        1i64,
        0,
        |_a: i64, b: i64| {
            calls.set(calls.get() + 1);
            b + 1
        },
        |_a: i64, _b: i64| false,
        |_x: i64| true,
    );
    assert_eq!(r, None);
    assert_eq!(calls.get(), 1);
}

#[test]
fn secant_succeeds_on_first_settled_update() {
    let r = secant(4i64, 9i64, 10, |_a: i64, b: i64| b - 1, |a: i64, b: i64| a - b <= 1, |_x: i64| true);
    assert_eq!(r, Some(8));
}

#[test]
fn secant_stops_on_non_finite_estimate() {
    let r = secant_of(1.0, 1.0, 0.0, 32, |x: f32| sample(x));
    assert_eq!(r, None);
    let calls = Cell::new(0usize);
    let r = secant(
        0i64,
        1i64,
        50,
        |_a: i64, b: i64| {
            calls.set(calls.get() + 1);
            b + 1
        },
        |_a: i64, _b: i64| false,
        |x: i64| x < 5,
    );
    assert_eq!(r, None);
    assert_eq!(calls.get(), 4);
}

#[test]
fn ray_march_hits_at_start() {
    assert_eq!(ray_march_of(2.0, 10.0, 0.5, |x| sample(1.0 - x)), Some(2.0));
}

#[test]
fn ray_march_empty_range_misses() {
    assert_eq!(ray_march_of(10.0, 10.0, 0.5, |x| sample(-x)), None);
}

#[test]
fn ray_march_returns_coarse_step() {
    assert_eq!(ray_march_of(0.0, 10.0, 0.5, |x| sample(1.2 - x)), Some(1.5));
}

#[test]
fn ray_march_integer_positions() {
    let r = ray_march(|i: usize| 3 * i as i64, |t: i64| t < 100, |t: i64| t >= 10);
    assert_eq!(r, Some(12));
    let r = ray_march(|i: usize| 3 * i as i64, |t: i64| t < 9, |t: i64| t >= 10);
    assert_eq!(r, None);
}
