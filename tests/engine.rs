use std::f64::consts::PI;
use std::marker::PhantomData;

use num_complex::Complex;
use num_traits::Float;
use sliding_dft::{Numeric, SampleRing, SlidingDFT};

struct FloatOps<F>(PhantomData<F>);

impl<F: Float> Numeric for FloatOps<F> {
    type Real = F;
    type Bin = Complex<F>;

    fn spec_zero() -> F {
        F::zero()
    }

    fn zero() -> F {
        Self::spec_zero()
    }

    fn spec_one() -> F {
        F::one()
    }

    fn one() -> F {
        Self::spec_one()
    }

    fn spec_epsilon() -> F {
        F::epsilon()
    }

    fn epsilon() -> F {
        Self::spec_epsilon()
    }

    fn spec_from_usize(n: usize) -> F {
        F::from(n).unwrap()
    }

    fn from_usize(n: usize) -> F {
        Self::spec_from_usize(n)
    }

    fn spec_full_turn() -> F {
        F::from(360).unwrap().to_radians()
    }

    fn full_turn() -> F {
        Self::spec_full_turn()
    }

    fn spec_sub(a: F, b: F) -> F {
        a - b
    }

    fn sub(a: F, b: F) -> F {
        Self::spec_sub(a, b)
    }

    fn spec_mul(a: F, b: F) -> F {
        a * b
    }

    fn mul(a: F, b: F) -> F {
        Self::spec_mul(a, b)
    }

    fn spec_div(a: F, b: F) -> F {
        a / b
    }

    fn div(a: F, b: F) -> F {
        Self::spec_div(a, b)
    }

    fn spec_powi(a: F, n: usize) -> F {
        a.powi(n as i32)
    }

    fn powi(a: F, n: usize) -> F {
        Self::spec_powi(a, n)
    }

    fn spec_complex(re: F, im: F) -> Complex<F> {
        Complex::new(re, im)
    }

    fn complex(re: F, im: F) -> Complex<F> {
        Self::spec_complex(re, im)
    }

    fn spec_bin_add(a: Complex<F>, b: Complex<F>) -> Complex<F> {
        a + b
    }

    fn bin_add(a: Complex<F>, b: Complex<F>) -> Complex<F> {
        Self::spec_bin_add(a, b)
    }

    fn spec_bin_sub(a: Complex<F>, b: Complex<F>) -> Complex<F> {
        a - b
    }

    fn bin_sub(a: Complex<F>, b: Complex<F>) -> Complex<F> {
        Self::spec_bin_sub(a, b)
    }

    fn spec_bin_mul(a: Complex<F>, b: Complex<F>) -> Complex<F> {
        a * b
    }

    fn bin_mul(a: Complex<F>, b: Complex<F>) -> Complex<F> {
        Self::spec_bin_mul(a, b)
    }

    fn spec_bin_scale(a: Complex<F>, s: F) -> Complex<F> {
        a * s
    }

    fn bin_scale(a: Complex<F>, s: F) -> Complex<F> {
        Self::spec_bin_scale(a, s)
    }

    fn spec_bin_add_real(a: Complex<F>, s: F) -> Complex<F> {
        a + s
    }

    fn bin_add_real(a: Complex<F>, s: F) -> Complex<F> {
        Self::spec_bin_add_real(a, s)
    }

    fn spec_bin_sub_real(a: Complex<F>, s: F) -> Complex<F> {
        a - s
    }

    fn bin_sub_real(a: Complex<F>, s: F) -> Complex<F> {
        Self::spec_bin_sub_real(a, s)
    }

    fn spec_bin_exp(a: Complex<F>) -> Complex<F> {
        a.exp()
    }

    fn bin_exp(a: Complex<F>) -> Complex<F> {
        Self::spec_bin_exp(a)
    }

}

type Dft64 = SlidingDFT<FloatOps<f64>>;
type Dft32 = SlidingDFT<FloatOps<f32>>;

fn close(a: Complex<f64>, b: Complex<f64>, tol: f64) -> bool {
    (a - b).norm() <= tol
}

#[test]
fn warm_up_boundary() {
    for n in 1..=9usize {
        let mut dft = Dft64::new(n);
        assert!(dft.output().is_none());
        for step in 1..n {
            assert!(dft.update(step as f64).is_none());
            assert!(dft.output().is_none());
        }
        assert!(dft.update(1.0).is_some());
        assert!(dft.output().is_some());
        for step in 0..3 * n {
            assert!(dft.update(step as f64).is_some());
            assert!(dft.output().is_some());
        }
    }
}

#[test]
fn bin_count_matches_size() {
    for n in 1..=12usize {
        let mut dft = Dft64::new(n);
        for step in 0..2 * n {
            if let Some(out) = dft.update((step as f64).sin()) {
                assert_eq!(out.len(), n);
            }
        }
        assert_eq!(dft.output().unwrap().len(), n);
        assert_eq!(dft.twiddle_factors().len(), n);
    }
}

#[test]
fn zero_output_differs_from_no_output() {
    let mut dft = Dft64::new(4);
    for _ in 0..4 {
        dft.update(0.0);
    }
    let out = dft.output().unwrap();
    assert!(out.iter().all(|c| c.norm() == 0.0));
}

#[test]
fn impulse_response_and_eviction() {
    let n = 8usize;
    let mut dft = Dft64::new(n);
    for _ in 0..n {
        dft.update(0.0);
    }
    dft.update(1.0);
    // After the impulse and j more zeros, bin k holds
    // exp(i·2π·k(j+1)/n) · (1/2 − cos(2π(j+1)/n)/2).
    for j in 0..n - 1 {
        if j > 0 {
            dft.update(0.0);
        }
        let out = dft.output().unwrap();
        let m = (j + 1) as f64;
        let gain = 0.5 - 0.5 * (2.0 * PI * m / n as f64).cos();
        for k in 0..n {
            let expected = Complex::from_polar(gain, 2.0 * PI * k as f64 * m / n as f64);
            assert!(close(out[k], expected, 1e-9), "j={} k={} {:?} {:?}", j, k, out[k], expected);
        }
    }
    // The next zero brings the impulse to the window's edge, where the
    // smoothing gives it no weight; the one after evicts it.
    dft.update(0.0);
    dft.update(0.0);
    for k in 0..n {
        assert!(dft.output().unwrap()[k].norm() < 1e-9);
    }
}

#[test]
fn impulse_at_half_window_alternates() {
    let n = 8usize;
    let mut dft = Dft64::new(n);
    for _ in 0..n {
        dft.update(0.0);
    }
    dft.update(1.0);
    for _ in 0..n / 2 - 1 {
        dft.update(0.0);
    }
    let out = dft.output().unwrap();
    for k in 0..n {
        let sign = if k % 2 == 0 { 1.0 } else { -1.0 };
        assert!(close(out[k], Complex::new(sign, 0.0), 1e-9));
    }
}

#[test]
fn steady_state_sinusoid_peaks_at_its_bin() {
    let n = 16usize;
    let k0 = 3usize;
    let mut dft = Dft64::new(n);
    for t in 0..40 * n {
        dft.update((2.0 * PI * (k0 * t) as f64 / n as f64).cos());
    }
    let mags: Vec<f64> = dft.output().unwrap().iter().map(|c| c.norm()).collect();
    let peak = n as f64 / 4.0;
    assert!((mags[k0] - peak).abs() < 1e-6);
    assert!((mags[n - k0] - peak).abs() < 1e-6);
    assert!((mags[k0 - 1] - peak / 2.0).abs() < 1e-6);
    assert!((mags[k0 + 1] - peak / 2.0).abs() < 1e-6);
    for k in 0..n {
        let near = [k0 - 1, k0, k0 + 1, n - k0 - 1, n - k0, n - k0 + 1];
        if !near.contains(&k) {
            assert!(mags[k] < 1e-6, "bin {} leaks {}", k, mags[k]);
        }
    }
}

#[test]
fn smoothing_reduces_far_leakage() {
    let n = 32usize;
    let freq = 5.5;
    let mut dft = Dft64::new(n);
    let mut samples = Vec::new();
    for t in 0..20 * n {
        let x = (2.0 * PI * freq * t as f64 / n as f64).cos();
        samples.push(x);
        dft.update(x);
    }
    let window = &samples[samples.len() - n..];
    let far = 12usize;
    let mut rect = Complex::new(0.0, 0.0);
    for (m, x) in window.iter().enumerate() {
        rect += Complex::from_polar(*x, -2.0 * PI * (far * m) as f64 / n as f64);
    }
    let smoothed = dft.output().unwrap()[far].norm();
    assert!(smoothed < rect.norm() / 4.0, "{} vs {}", smoothed, rect.norm());
}

#[test]
fn twiddle_table_periodicity() {
    for n in 1..=16usize {
        let dft = Dft64::new(n);
        let tw = dft.twiddle_factors();
        assert_eq!(tw[0], Complex::new(1.0, 0.0));
        if n % 2 == 0 {
            assert!(close(tw[n / 2], Complex::new(-1.0, 0.0), 1e-12));
        }
        for k in 0..n {
            let expected = Complex::from_polar(1.0, 2.0 * PI * k as f64 / n as f64);
            assert!(close(tw[k], expected, 1e-12));
        }
    }
}

#[test]
fn drift_stays_bounded() {
    let n = 8usize;
    let period = [0.3, -1.2, 2.5, 0.0, 1.0, -0.7, 0.9, -2.0];
    let mut dft = Dft64::new(n);
    let mut last: Option<Vec<Complex<f64>>> = None;
    for _cycle in 0..5000 {
        for x in period.iter() {
            dft.update(*x);
        }
        let now = dft.output().unwrap().to_vec();
        if let Some(prev) = &last {
            for k in 0..n {
                assert!((now[k] - prev[k]).norm() < 1e-12 * n as f64 * 10.0);
            }
        }
        last = Some(now);
    }
}

#[test]
fn size_one_is_valid_after_one_update() {
    let mut dft = Dft64::new(1);
    assert!(dft.output().is_none());
    let out = dft.update(3.5).unwrap();
    assert_eq!(out.len(), 1);
    assert_eq!(out[0], Complex::new(0.0, 0.0));
    assert_eq!(dft.twiddle_factors()[0], Complex::new(1.0, 0.0));
}

#[test]
fn single_precision_engine() {
    let n = 8usize;
    let mut dft = Dft32::new(n);
    for t in 0..10 * n {
        dft.update((2.0 * std::f32::consts::PI * (2 * t) as f32 / n as f32).cos());
    }
    let out = dft.output().unwrap();
    assert!((out[2].norm() - n as f32 / 4.0).abs() < 1e-3);
    assert!(out[0].norm() < 1e-3);
    assert!(out[4].norm() < 1e-3);
}

#[test]
fn ring_evicts_oldest() {
    let mut ring = SampleRing::new(3, 0u32);
    assert_eq!(ring.size(), 3);
    assert_eq!(ring.position(), 0);
    assert_eq!(ring.push(1), 0);
    assert_eq!(ring.push(2), 0);
    assert_eq!(ring.push(3), 0);
    assert_eq!(ring.position(), 0);
    assert_eq!(ring.push(4), 1);
    assert_eq!(ring.push(5), 2);
    assert_eq!(ring.position(), 2);
    assert_eq!(ring.push(6), 3);
    assert_eq!(ring.push(7), 4);
}

#[test]
fn ring_of_one_slot() {
    let mut ring = SampleRing::new(1, 9i64);
    assert_eq!(ring.push(-1), 9);
    assert_eq!(ring.position(), 0);
    assert_eq!(ring.push(-2), -1);
}

#[test]
fn same_samples_give_same_bins() {
    let mut a = Dft64::new(6);
    let mut b = Dft64::new(6);
    for t in 0..50 {
        let x = ((t * 7) % 11) as f64 - 5.0;
        let ra = a.update(x).map(|s| s.to_vec());
        let rb = b.update(x).map(|s| s.to_vec());
        assert_eq!(ra, rb);
    }
    assert_eq!(a.twiddle_factors(), b.twiddle_factors());
}
