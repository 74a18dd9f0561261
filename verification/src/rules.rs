//! The capabilities a scalar must offer to serve as numerator and denominator.

use vstd::prelude::*;
use vstd::arithmetic::power::{lemma_pow0, lemma_pow_increases, lemma_pow_positive, pow};
use vstd::arithmetic::mul::lemma_mul_is_commutative;

verus! {

/// An ordered ring with remainder, modelled by the mathematical integer each
/// value stands for.
///
/// `fits` says which integers the type can represent; every operation asks
/// that its exact result is representable and then returns exactly that
/// result. Quotient and remainder are Euclidean: the remainder is never
/// negative and `a == b * (a / b) + a % b`.
pub trait RealArithmetic: Sized + Copy {
    /// The integer this value stands for.
    spec fn val(&self) -> int;

    /// Whether the type has a value that stands for `v`.
    spec fn fits(v: int) -> bool;

    /// Every value stands for a representable integer.
    proof fn lemma_val_fits(&self)
        ensures
            Self::fits(self.val()),
    ;

    /// The representable integers form an interval.
    proof fn lemma_fits_between(lo: int, v: int, hi: int)
        requires
            Self::fits(lo),
            Self::fits(hi),
            lo <= v <= hi,
        ensures
            Self::fits(v),
    ;

    /// No two values stand for the same integer.
    proof fn lemma_val_determines(a: Self, b: Self)
        requires
            a.val() == b.val(),
        ensures
            a == b,
    ;

    /// The additive identity.
    fn zero() -> (r: Self)
        ensures
            r.val() == 0,
    ;

    /// The multiplicative identity.
    fn one() -> (r: Self)
        ensures
            r.val() == 1,
    ;

    /// Whether `self` is less than `rhs`.
    fn lt(self, rhs: Self) -> (b: bool)
        ensures
            b == (self.val() < rhs.val()),
    ;

    /// Whether `self` and `rhs` are equal.
    fn eq(self, rhs: Self) -> (b: bool)
        ensures
            b == (self.val() == rhs.val()),
    ;

    /// The opposite.
    fn neg(self) -> (r: Self)
        requires
            Self::fits(-self.val()),
        ensures
            r.val() == -self.val(),
    ;

    /// The sum.
    fn add(self, rhs: Self) -> (r: Self)
        requires
            Self::fits(self.val() + rhs.val()),
        ensures
            r.val() == self.val() + rhs.val(),
    ;

    /// The difference.
    fn sub(self, rhs: Self) -> (r: Self)
        requires
            Self::fits(self.val() - rhs.val()),
        ensures
            r.val() == self.val() - rhs.val(),
    ;

    /// The product.
    fn mul(self, rhs: Self) -> (r: Self)
        requires
            Self::fits(self.val() * rhs.val()),
        ensures
            r.val() == self.val() * rhs.val(),
    ;

    /// The Euclidean quotient by a divisor that is not zero.
    fn div(self, rhs: Self) -> (r: Self)
        requires
            rhs.val() != 0,
            Self::fits(self.val() / rhs.val()),
        ensures
            r.val() == self.val() / rhs.val(),
    ;

    /// The Euclidean remainder by a divisor that is not zero.
    fn rem(self, rhs: Self) -> (r: Self)
        requires
            rhs.val() != 0,
        ensures
            r.val() == self.val() % rhs.val(),
    ;
}

/// The scalar that stands for `v`, where the type has one.
pub open spec fn scalar<R: RealArithmetic>(v: int) -> R {
    choose|x: R| x.val() == v
}

/// A scalar is the scalar that stands for its own integer.
pub proof fn lemma_scalar_of_val<R: RealArithmetic>(x: R)
    ensures
        scalar::<R>(x.val()) == x,
{
    R::lemma_val_determines(scalar::<R>(x.val()), x);
}

/// Scalars that can produce the powers of ten.
pub trait PowersOfTen: RealArithmetic {
    /// Ten to the given power, which is not negative.
    fn order_of(power: isize) -> (r: Self)
        requires
            power >= 0,
            Self::fits(pow(10, power as nat)),
        ensures
            r.val() == pow(10, power as nat),
    ;
}

impl RealArithmetic for i64 {
    open spec fn val(&self) -> int {
        *self as int
    }

    open spec fn fits(v: int) -> bool {
        i64::MIN <= v <= i64::MAX
    }

    proof fn lemma_val_fits(&self) {
    }

    proof fn lemma_fits_between(lo: int, v: int, hi: int) {
    }

    proof fn lemma_val_determines(a: Self, b: Self) {
    }

    fn zero() -> (r: Self) {
        0
    }

    fn one() -> (r: Self) {
        1
    }

    fn lt(self, rhs: Self) -> (b: bool) {
        self < rhs
    }

    fn eq(self, rhs: Self) -> (b: bool) {
        self == rhs
    }

    fn neg(self) -> (r: Self) {
        0 - self
    }

    fn add(self, rhs: Self) -> (r: Self) {
        self + rhs
    }

    fn sub(self, rhs: Self) -> (r: Self) {
        self - rhs
    }

    fn mul(self, rhs: Self) -> (r: Self) {
        self * rhs
    }

    fn div(self, rhs: Self) -> (r: Self) {
        match self.checked_div_euclid(rhs) {
            Some(q) => q,
            None => 0,
        }
    }

    fn rem(self, rhs: Self) -> (r: Self) {
        match self.checked_rem_euclid(rhs) {
            Some(m) => m,
            None => {
                assert(self.val() % rhs.val() == 0) by {
                    assert(rhs == -1);
                    vstd::arithmetic::div_mod::lemma_fundamental_div_mod(self as int, -1);
                }
                0
            },
        }
    }
}

impl PowersOfTen for i64 {
    fn order_of(power: isize) -> (r: Self) {
        let mut r: i64 = 1;
        let mut i: isize = 0;
        proof {
            lemma_pow0(10);
        }
        while i < power
            invariant
                0 <= i <= power,
                r == pow(10, i as nat),
                pow(10, power as nat) <= i64::MAX,
            decreases power - i,
        {
            proof {
                lemma_pow_increases(10, (i + 1) as nat, power as nat);
                lemma_pow_positive(10, i as nat);
                reveal_with_fuel(pow, 1);
                lemma_mul_is_commutative(10, pow(10, i as nat));
            }
            r = r * 10;
            i = i + 1;
        }
        r
    }
}

} // verus!
