//! The numeric interface the engine computes with.
//!
//! Abundances, cutoffs, step sizes and noise strengths are values of one
//! float-like type. The engine never looks inside such a value: it only
//! combines values through the operations of [`Scalar`]. Every operation has a
//! specification twin, so that contracts elsewhere in the crate can say
//! exactly which chain of operations produced a result.

use vstd::prelude::*;

verus! {

/// A float-like number: arithmetic, ordering, a finiteness test, rounding and
/// the elementary functions the noise model needs.
///
/// Each executable operation returns exactly what its `_spec` twin denotes;
/// an implementation therefore has to be a deterministic function of its
/// arguments. Nothing else is demanded of the arithmetic (it may round,
/// overflow to a non-finite value, or propagate a not-a-number), apart from
/// the three facts about zero collected in [`Scalar::zero_laws`].
pub trait Scalar: Copy + Sized {
    /// The additive identity.
    spec fn zero_spec() -> Self;

    /// The multiplicative identity.
    spec fn one_spec() -> Self;

    /// The full turn, two times pi.
    spec fn tau_spec() -> Self;

    /// The number nearest to the integer `n`.
    spec fn from_u64_spec(n: u64) -> Self;

    spec fn add_spec(self, rhs: Self) -> Self;

    spec fn sub_spec(self, rhs: Self) -> Self;

    spec fn mul_spec(self, rhs: Self) -> Self;

    spec fn div_spec(self, rhs: Self) -> Self;

    /// The larger of two numbers.
    spec fn max_spec(self, rhs: Self) -> Self;

    /// The nearest integer, as a number of the same type.
    spec fn round_spec(self) -> Self;

    spec fn sqrt_spec(self) -> Self;

    /// The natural logarithm.
    spec fn ln_spec(self) -> Self;

    /// The cosine of an angle in radians.
    spec fn cos_spec(self) -> Self;

    /// Neither infinite nor not-a-number.
    spec fn is_finite_spec(self) -> bool;

    /// Strictly below `rhs`.
    spec fn lt_spec(self, rhs: Self) -> bool;

    /// Numerically equal to `rhs`; need not coincide with identity of values.
    spec fn eq_spec(self, rhs: Self) -> bool;

    fn zero() -> (r: Self)
        ensures
            r == Self::zero_spec(),
    ;

    fn one() -> (r: Self)
        ensures
            r == Self::one_spec(),
    ;

    fn tau() -> (r: Self)
        ensures
            r == Self::tau_spec(),
    ;

    fn from_u64(n: u64) -> (r: Self)
        ensures
            r == Self::from_u64_spec(n),
    ;

    fn add(self, rhs: Self) -> (r: Self)
        ensures
            r == self.add_spec(rhs),
    ;

    fn sub(self, rhs: Self) -> (r: Self)
        ensures
            r == self.sub_spec(rhs),
    ;

    fn mul(self, rhs: Self) -> (r: Self)
        ensures
            r == self.mul_spec(rhs),
    ;

    fn div(self, rhs: Self) -> (r: Self)
        ensures
            r == self.div_spec(rhs),
    ;

    fn max(self, rhs: Self) -> (r: Self)
        ensures
            r == self.max_spec(rhs),
    ;

    fn round(self) -> (r: Self)
        ensures
            r == self.round_spec(),
    ;

    fn sqrt(self) -> (r: Self)
        ensures
            r == self.sqrt_spec(),
    ;

    fn ln(self) -> (r: Self)
        ensures
            r == self.ln_spec(),
    ;

    fn cos(self) -> (r: Self)
        ensures
            r == self.cos_spec(),
    ;

    fn is_finite(self) -> (b: bool)
        ensures
            b == self.is_finite_spec(),
    ;

    fn lt(self, rhs: Self) -> (b: bool)
        ensures
            b == self.lt_spec(rhs),
    ;

    fn eq(self, rhs: Self) -> (b: bool)
        ensures
            b == self.eq_spec(rhs),
    ;

    /// Zero plus zero is zero, zero is not below itself, and zero equals
    /// itself.
    proof fn zero_laws()
        ensures
            Self::zero_spec().add_spec(Self::zero_spec()) == Self::zero_spec(),
            !Self::zero_spec().lt_spec(Self::zero_spec()),
            Self::zero_spec().eq_spec(Self::zero_spec()),
    ;
}

/// `a` is below or equal to `b`.
pub open spec fn at_most<T: Scalar>(a: T, b: T) -> bool {
    a.lt_spec(b) || a.eq_spec(b)
}

/// Whether `a` is below or equal to `b`.
pub fn le<T: Scalar>(a: T, b: T) -> (r: bool)
    ensures
        r == at_most(a, b),
{
    a.lt(b) || a.eq(b)
}

/// The rules of sign that float-like arithmetic obeys: zero and one are
/// finite and zero is below one; a finite number that is neither below nor
/// equal to zero is above it; the quotient of a finite number that is not
/// negative and a positive one is not negative; neither is the product of two
/// finite numbers that are not negative; and every positive count is a
/// positive number.
///
/// No operation of the engine relies on these rules. They are the hypothesis
/// of the theorems that speak of signs, and hold of the binary floating-point
/// formats with their usual rounding.
pub open spec fn obeys_sign_rules<T: Scalar>() -> bool {
    &&& T::zero_spec().is_finite_spec()
    &&& T::one_spec().is_finite_spec()
    &&& T::zero_spec().lt_spec(T::one_spec())
    &&& forall|x: T| #[trigger]
        x.is_finite_spec() && !at_most(x, T::zero_spec()) ==> T::zero_spec().lt_spec(x)
    &&& forall|a: T, b: T|
        a.is_finite_spec() && at_most(T::zero_spec(), a) && T::zero_spec().lt_spec(b) ==> at_most(
            T::zero_spec(),
            #[trigger] a.div_spec(b),
        )
    &&& forall|a: T, b: T|
        a.is_finite_spec() && b.is_finite_spec() && at_most(T::zero_spec(), a) && at_most(
            T::zero_spec(),
            b,
        ) ==> at_most(T::zero_spec(), #[trigger] a.mul_spec(b))
    &&& forall|n: u64| n >= 1 ==> T::zero_spec().lt_spec(#[trigger] T::from_u64_spec(n))
}

} // verus!
