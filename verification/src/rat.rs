//! The rational value type: its constructors, comparisons, reciprocal and
//! compound assignments.

use vstd::prelude::*;
use vstd::arithmetic::div_mod::{lemma_mod_bound, lemma_mod_self_0};
use vstd::arithmetic::power::pow;
use std::cmp::Ordering;
use std::ops::{Add, Div, Mul, Rem, Sub};
use crate::factor;
use crate::ratio;
use crate::ratio::{magnitude, reduce, Ratio};
use crate::rules::{lemma_scalar_of_val, scalar, PowersOfTen, RealArithmetic};

verus! {

/// A rational number: numerator `n` over denominator `d`.
#[derive(Debug, Clone, Copy)]
pub struct Rat<R: RealArithmetic> {
    pub n: R,
    pub d: R,
}

impl<R: RealArithmetic> View for Rat<R> {
    type V = Ratio;

    open spec fn view(&self) -> Ratio {
        Ratio { n: self.n.val(), d: self.d.val() }
    }
}

/// The greatest common factor of two scalars that are not negative.
pub fn gcf<R: RealArithmetic>(inp1: R, inp2: R) -> (g: R)
    requires
        inp1.val() >= 0,
        inp2.val() >= 0,
    ensures
        g.val() == factor::gcf(inp1.val() as nat, inp2.val() as nat),
{
    let mut n1: R = inp1;
    let mut n2: R = inp2;
    let zero: R = R::zero();
    loop
        invariant
            zero.val() == 0,
            n1.val() >= 0,
            n2.val() >= 0,
            factor::gcf(n1.val() as nat, n2.val() as nat) == factor::gcf(
                inp1.val() as nat,
                inp2.val() as nat,
            ),
        decreases n1.val() + n2.val(),
    {
        if n1.eq(zero) {
            proof {
                factor::lemma_gcf_commutes(n1.val() as nat, n2.val() as nat);
            }
            return n2;
        }
        if n2.eq(zero) {
            return n1;
        }
        if n2.lt(n1) {
            proof {
                factor::lemma_gcf_remainder(n1.val() as nat, n2.val() as nat);
                lemma_mod_bound(n1.val(), n2.val());
            }
            n1 = n1.rem(n2);
        } else if n1.lt(n2) {
            proof {
                factor::lemma_gcf_remainder(n2.val() as nat, n1.val() as nat);
                lemma_mod_bound(n2.val(), n1.val());
            }
            n2 = n2.rem(n1);
        } else {
            proof {
                factor::lemma_gcf_remainder(n1.val() as nat, n2.val() as nat);
                lemma_mod_self_0(n1.val());
                factor::lemma_gcf_commutes(0, n2.val() as nat);
            }
            return n1;
        }
    }
}

impl<R: RealArithmetic> Rat<R> {
    /// Whether `new` can work on `n` and `d`: they are not both zero, the
    /// scalar can hold the magnitude of each, and it can hold the numerator
    /// in lowest terms.
    pub open spec fn can_reduce(n: int, d: int) -> bool {
        &&& (n != 0 || d != 0)
        &&& R::fits(magnitude(n) as int)
        &&& R::fits(magnitude(d) as int)
        &&& R::fits(reduce(n, d).n)
    }

    /// Whether the scalar can hold both parts of `q` and `new` can reduce it.
    pub open spec fn can_hold(q: Ratio) -> bool {
        &&& R::fits(q.n)
        &&& R::fits(q.d)
        &&& Self::can_reduce(q.n, q.d)
    }

    /// Where the scalar can hold both parts and their opposites, `new` can
    /// work on them.
    pub proof fn lemma_can_reduce(n: int, d: int)
        requires
            n != 0 || d != 0,
            R::fits(n),
            R::fits(-n),
            R::fits(d),
            R::fits(-d),
        ensures
            Self::can_reduce(n, d),
    {
        ratio::lemma_reduce_is_bounded(n, d);
        R::lemma_fits_between(-magnitude(n), reduce(n, d).n, magnitude(n) as int);
    }

    /// The value whose parts stand for the parts of `q`.
    pub open spec fn of(q: Ratio) -> Self {
        Rat { n: scalar(q.n), d: scalar(q.d) }
    }

    /// A value is determined by the pair it stands for.
    pub proof fn lemma_of_view(self)
        ensures
            Self::of(self@) == self,
    {
        lemma_scalar_of_val(self.n);
        lemma_scalar_of_val(self.d);
    }

    /// The pair as given. The value is not brought to lowest terms and its
    /// denominator may be negative or zero: comparing such values by `eq` is
    /// sound for any pair, ordering them by `partial_cmp` only where the
    /// denominators are positive.
    pub fn raw(n: R, d: R) -> (r: Self)
        ensures
            r.n == n,
            r.d == d,
    {
        Self { n, d }
    }

    /// The rational `n / d` in lowest terms, with the sign in the numerator.
    ///
    /// A zero denominator is kept: the result is then one or minus one over
    /// zero, by the sign of `n`. The pair of two zeros has no lowest terms
    /// and is not accepted.
    pub fn new(n: R, d: R) -> (r: Self)
        requires
            Self::can_reduce(n.val(), d.val()),
        ensures
            r@ == reduce(n.val(), d.val()),
            r@.same_value(Ratio::of(n.val(), d.val())),
            d.val() != 0 ==> r@.is_canonical(),
    {
        let zero: R = R::zero();
        let mut positive: bool = true;
        let mut top: R = n;
        let mut bottom: R = d;
        if top.lt(zero) {
            positive = !positive;
            top = top.neg();
        }
        if bottom.lt(zero) {
            positive = !positive;
            bottom = bottom.neg();
        }
        let factor: R = gcf(top, bottom);
        proof {
            let a = magnitude(n.val());
            let b = magnitude(d.val());
            factor::lemma_gcf_of_quotients(a, b);
            zero.lemma_val_fits();
            top.lemma_val_fits();
            bottom.lemma_val_fits();
            n.lemma_val_fits();
            let g = factor.val() as nat;
            ratio::lemma_reduce_is_bounded(n.val(), d.val());
            R::lemma_fits_between(0, (a / g) as int, a as int);
            R::lemma_fits_between(0, (b / g) as int, b as int);
            ratio::lemma_reduce_keeps_value(n.val(), d.val());
            if d.val() != 0 {
                ratio::lemma_reduce_is_canonical(n.val(), d.val());
            }
        }
        top = top.div(factor);
        bottom = bottom.div(factor);
        if !positive {
            top = top.neg();
        }
        Self { n: top, d: bottom }
    }

    /// The whole number `n`, over one.
    pub fn whole(n: R) -> (r: Self)
        ensures
            r.n == n,
            r@.d == 1,
    {
        Self { n, d: R::one() }
    }

    /// Zero, over one.
    pub fn zero() -> (r: Self)
        ensures
            r@ == Ratio::zero(),
    {
        Self { n: R::zero(), d: R::one() }
    }

    /// One, over one.
    pub fn one() -> (r: Self)
        ensures
            r@ == Ratio::one(),
    {
        Self { n: R::one(), d: R::one() }
    }

    /// Equality of the two values, by cross-multiplication.
    pub fn eq(&self, rhs: &Self) -> (b: bool)
        requires
            R::fits(self@.n * rhs@.d),
            R::fits(self@.d * rhs@.n),
        ensures
            b == self@.same_value(rhs@),
    {
        self.n.mul(rhs.d).eq(self.d.mul(rhs.n))
    }

    /// The order of the two values, by the sign of the difference of the
    /// cross products. It is the order of the rational numbers where both
    /// denominators are positive.
    pub fn partial_cmp(&self, rhs: &Self) -> (r: Option<Ordering>)
        requires
            R::fits(self@.n * rhs@.d),
            R::fits(self@.d * rhs@.n),
            R::fits(self@.n * rhs@.d - self@.d * rhs@.n),
        ensures
            r == (if self@.less_than(rhs@) {
                Some(Ordering::Less)
            } else if self@.same_value(rhs@) {
                Some(Ordering::Equal)
            } else {
                Some(Ordering::Greater)
            }),
    {
        let quantity: R = self.n.mul(rhs.d).sub(self.d.mul(rhs.n));
        let zero: R = R::zero();
        if quantity.lt(zero) {
            Some(Ordering::Less)
        } else if quantity.eq(zero) {
            Some(Ordering::Equal)
        } else {
            Some(Ordering::Greater)
        }
    }

    /// The reciprocal, in lowest terms.
    pub fn inv(self) -> (r: Self)
        requires
            Self::can_reduce(self@.d, self@.n),
        ensures
            r@ == self@.reciprocal().reduced(),
            r@.same_value(self@.reciprocal()),
            self@.n != 0 ==> r@.is_canonical(),
    {
        Self::new(self.d, self.n)
    }

    /// Replaces `self` by the sum of `self` and `rhs`.
    pub fn add_assign(&mut self, rhs: Self)
        requires
            R::fits(old(self)@.n * rhs@.d),
            R::fits(rhs@.n * old(self)@.d),
            Self::can_hold(old(self)@.sum(rhs@)),
        ensures
            final(self)@ == old(self)@.sum(rhs@).reduced(),
            final(self)@.same_value(old(self)@.sum(rhs@)),
            old(self)@.sum(rhs@).d != 0 ==> final(self)@.is_canonical(),
    {
        *self = self.add(rhs);
    }

    /// Replaces `self` by the difference of `self` and `rhs`.
    pub fn sub_assign(&mut self, rhs: Self)
        requires
            R::fits(old(self)@.n * rhs@.d),
            R::fits(rhs@.n * old(self)@.d),
            Self::can_hold(old(self)@.difference(rhs@)),
        ensures
            final(self)@ == old(self)@.difference(rhs@).reduced(),
            final(self)@.same_value(old(self)@.difference(rhs@)),
            old(self)@.difference(rhs@).d != 0 ==> final(self)@.is_canonical(),
    {
        *self = self.sub(rhs);
    }

    /// Replaces `self` by the product of `self` and `rhs`.
    pub fn mul_assign(&mut self, rhs: Self)
        requires
            Self::can_hold(old(self)@.product(rhs@)),
        ensures
            final(self)@ == old(self)@.product(rhs@).reduced(),
            final(self)@.same_value(old(self)@.product(rhs@)),
            old(self)@.product(rhs@).d != 0 ==> final(self)@.is_canonical(),
    {
        *self = self.mul(rhs);
    }

    /// Replaces `self` by the quotient of `self` by `rhs`.
    pub fn div_assign(&mut self, rhs: Self)
        requires
            Self::can_hold(old(self)@.quotient(rhs@)),
        ensures
            final(self)@ == old(self)@.quotient(rhs@).reduced(),
            final(self)@.same_value(old(self)@.quotient(rhs@)),
            old(self)@.quotient(rhs@).d != 0 ==> final(self)@.is_canonical(),
    {
        *self = self.div(rhs);
    }

    /// Replaces `self` by the remainder of `self` by `rhs`.
    pub fn rem_assign(&mut self, rhs: Self)
        requires
            R::fits(old(self)@.n * rhs@.d),
            R::fits(old(self)@.d * rhs@.n),
            old(self)@.d * rhs@.n != 0,
            Self::can_hold(old(self)@.remainder(rhs@)),
        ensures
            final(self)@ == old(self)@.remainder(rhs@).reduced(),
            final(self)@.same_value(old(self)@.remainder(rhs@)),
            old(self)@.remainder(rhs@).d != 0 ==> final(self)@.is_canonical(),
    {
        *self = self.rem(rhs);
    }
}

impl<R: PowersOfTen> Rat<R> {
    /// Ten to the given power: over one where the power is not negative,
    /// else one over ten to the opposite power.
    pub fn order_of(power: isize) -> (r: Self)
        requires
            power > isize::MIN,
            R::fits(pow(10, magnitude(power as int))),
        ensures
            power >= 0 ==> r@ == Ratio::of(pow(10, power as nat), 1),
            power < 0 ==> r@ == Ratio::of(1, pow(10, (-power) as nat)),
    {
        if power < 0 {
            Self { n: R::one(), d: R::order_of(-power) }
        } else {
            Self { n: R::order_of(power), d: R::one() }
        }
    }
}

} // verus!
