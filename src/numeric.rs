//! The arithmetic the transform needs from its number types.

use vstd::prelude::*;

verus! {

/// A real number type together with the complex type built over it.
///
/// The transform is written once over this interface and instantiated for
/// each floating-point precision by an implementation outside the library.
/// Each `spec_` function names the implementation's own operation on its
/// arguments, and each method returns exactly that: the arithmetic is a
/// function of its arguments alone. Nothing more is assumed of it.
pub trait Numeric {
    /// A real sample value.
    type Real: Copy;

    /// A complex frequency-bin value over `Real`.
    type Bin: Copy;

    spec fn spec_zero() -> Self::Real;

    fn zero() -> (r: Self::Real)
        ensures
            r == Self::spec_zero(),
    ;

    spec fn spec_one() -> Self::Real;

    fn one() -> (r: Self::Real)
        ensures
            r == Self::spec_one(),
    ;

    spec fn spec_epsilon() -> Self::Real;

    /// The machine epsilon of `Real`.
    fn epsilon() -> (r: Self::Real)
        ensures
            r == Self::spec_epsilon(),
    ;

    spec fn spec_from_usize(n: usize) -> Self::Real;

    /// `n` converted to `Real`.
    fn from_usize(n: usize) -> (r: Self::Real)
        ensures
            r == Self::spec_from_usize(n),
    ;

    spec fn spec_full_turn() -> Self::Real;

    /// One full turn in radians, converted from 360 degrees.
    fn full_turn() -> (r: Self::Real)
        ensures
            r == Self::spec_full_turn(),
    ;

    spec fn spec_sub(a: Self::Real, b: Self::Real) -> Self::Real;

    fn sub(a: Self::Real, b: Self::Real) -> (r: Self::Real)
        ensures
            r == Self::spec_sub(a, b),
    ;

    spec fn spec_mul(a: Self::Real, b: Self::Real) -> Self::Real;

    fn mul(a: Self::Real, b: Self::Real) -> (r: Self::Real)
        ensures
            r == Self::spec_mul(a, b),
    ;

    spec fn spec_div(a: Self::Real, b: Self::Real) -> Self::Real;

    fn div(a: Self::Real, b: Self::Real) -> (r: Self::Real)
        ensures
            r == Self::spec_div(a, b),
    ;

    spec fn spec_powi(a: Self::Real, n: usize) -> Self::Real;

    /// `a` raised to the integer power `n`.
    fn powi(a: Self::Real, n: usize) -> (r: Self::Real)
        ensures
            r == Self::spec_powi(a, n),
    ;

    spec fn spec_complex(re: Self::Real, im: Self::Real) -> Self::Bin;

    /// The complex number `re + i·im`.
    fn complex(re: Self::Real, im: Self::Real) -> (r: Self::Bin)
        ensures
            r == Self::spec_complex(re, im),
    ;

    spec fn spec_bin_add(a: Self::Bin, b: Self::Bin) -> Self::Bin;

    fn bin_add(a: Self::Bin, b: Self::Bin) -> (r: Self::Bin)
        ensures
            r == Self::spec_bin_add(a, b),
    ;

    spec fn spec_bin_sub(a: Self::Bin, b: Self::Bin) -> Self::Bin;

    fn bin_sub(a: Self::Bin, b: Self::Bin) -> (r: Self::Bin)
        ensures
            r == Self::spec_bin_sub(a, b),
    ;

    spec fn spec_bin_mul(a: Self::Bin, b: Self::Bin) -> Self::Bin;

    fn bin_mul(a: Self::Bin, b: Self::Bin) -> (r: Self::Bin)
        ensures
            r == Self::spec_bin_mul(a, b),
    ;

    spec fn spec_bin_scale(a: Self::Bin, s: Self::Real) -> Self::Bin;

    /// `a` multiplied by the real `s`.
    fn bin_scale(a: Self::Bin, s: Self::Real) -> (r: Self::Bin)
        ensures
            r == Self::spec_bin_scale(a, s),
    ;

    spec fn spec_bin_add_real(a: Self::Bin, s: Self::Real) -> Self::Bin;

    /// `a` plus the real `s`.
    fn bin_add_real(a: Self::Bin, s: Self::Real) -> (r: Self::Bin)
        ensures
            r == Self::spec_bin_add_real(a, s),
    ;

    spec fn spec_bin_sub_real(a: Self::Bin, s: Self::Real) -> Self::Bin;

    /// `a` minus the real `s`.
    fn bin_sub_real(a: Self::Bin, s: Self::Real) -> (r: Self::Bin)
        ensures
            r == Self::spec_bin_sub_real(a, s),
    ;

    spec fn spec_bin_exp(a: Self::Bin) -> Self::Bin;

    /// The complex exponential of `a`.
    fn bin_exp(a: Self::Bin) -> (r: Self::Bin)
        ensures
            r == Self::spec_bin_exp(a),
    ;
}

} // verus!
