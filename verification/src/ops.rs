//! The arithmetic operators on rational values.

use vstd::prelude::*;
use vstd::std_specs::ops::{AddSpecImpl, DivSpecImpl, MulSpecImpl, NegSpecImpl, RemSpecImpl, SubSpecImpl};
use crate::rat::Rat;
use crate::ratio::lemma_negation_keeps_canonical;
use crate::rules::RealArithmetic;

verus! {

impl<R: RealArithmetic> std::ops::Neg for Rat<R> {
    type Output = Self;

    /// The negation. The denominator stays as it is.
    fn neg(self) -> (r: Self)
        ensures
            r@ == self@.negation(),
            self@.is_canonical() ==> r@.is_canonical(),
    {
        let r = Rat { n: self.n.neg(), d: self.d };
        proof {
            r.lemma_of_view();
            if self@.is_canonical() {
                lemma_negation_keeps_canonical(self@);
            }
        }
        r
    }
}

impl<R: RealArithmetic> NegSpecImpl for Rat<R> {
    open spec fn obeys_neg_spec() -> bool {
        true
    }

    open spec fn neg_req(self) -> bool {
        R::fits(-self@.n)
    }

    open spec fn neg_spec(self) -> Self {
        Rat::of(self@.negation())
    }
}

impl<R: RealArithmetic> std::ops::Add for Rat<R> {
    type Output = Self;

    /// The sum, in lowest terms.
    fn add(self, rhs: Self) -> (r: Self)
        ensures
            r@ == self@.sum(rhs@).reduced(),
            r@.same_value(self@.sum(rhs@)),
            self@.sum(rhs@).d != 0 ==> r@.is_canonical(),
    {
        let r = Rat::new(self.n.mul(rhs.d).add(rhs.n.mul(self.d)), self.d.mul(rhs.d));
        proof {
            r.lemma_of_view();
        }
        r
    }
}

impl<R: RealArithmetic> AddSpecImpl for Rat<R> {
    open spec fn obeys_add_spec() -> bool {
        true
    }

    open spec fn add_req(self, rhs: Self) -> bool {
        &&& R::fits(self@.n * rhs@.d)
        &&& R::fits(rhs@.n * self@.d)
        &&& Rat::<R>::can_hold(self@.sum(rhs@))
    }

    open spec fn add_spec(self, rhs: Self) -> Self {
        Rat::of(self@.sum(rhs@).reduced())
    }
}

impl<R: RealArithmetic> std::ops::Sub for Rat<R> {
    type Output = Self;

    /// The difference, in lowest terms.
    fn sub(self, rhs: Self) -> (r: Self)
        ensures
            r@ == self@.difference(rhs@).reduced(),
            r@.same_value(self@.difference(rhs@)),
            self@.difference(rhs@).d != 0 ==> r@.is_canonical(),
    {
        let r = Rat::new(self.n.mul(rhs.d).sub(rhs.n.mul(self.d)), self.d.mul(rhs.d));
        proof {
            r.lemma_of_view();
        }
        r
    }
}

impl<R: RealArithmetic> SubSpecImpl for Rat<R> {
    open spec fn obeys_sub_spec() -> bool {
        true
    }

    open spec fn sub_req(self, rhs: Self) -> bool {
        &&& R::fits(self@.n * rhs@.d)
        &&& R::fits(rhs@.n * self@.d)
        &&& Rat::<R>::can_hold(self@.difference(rhs@))
    }

    open spec fn sub_spec(self, rhs: Self) -> Self {
        Rat::of(self@.difference(rhs@).reduced())
    }
}

impl<R: RealArithmetic> std::ops::Mul for Rat<R> {
    type Output = Self;

    /// The product, in lowest terms.
    fn mul(self, rhs: Self) -> (r: Self)
        ensures
            r@ == self@.product(rhs@).reduced(),
            r@.same_value(self@.product(rhs@)),
            self@.product(rhs@).d != 0 ==> r@.is_canonical(),
    {
        let r = Rat::new(self.n.mul(rhs.n), self.d.mul(rhs.d));
        proof {
            r.lemma_of_view();
        }
        r
    }
}

impl<R: RealArithmetic> MulSpecImpl for Rat<R> {
    open spec fn obeys_mul_spec() -> bool {
        true
    }

    open spec fn mul_req(self, rhs: Self) -> bool {
        &&& Rat::<R>::can_hold(self@.product(rhs@))
    }

    open spec fn mul_spec(self, rhs: Self) -> Self {
        Rat::of(self@.product(rhs@).reduced())
    }
}

impl<R: RealArithmetic> std::ops::Div for Rat<R> {
    type Output = Self;

    /// The quotient, in lowest terms.
    fn div(self, rhs: Self) -> (r: Self)
        ensures
            r@ == self@.quotient(rhs@).reduced(),
            r@.same_value(self@.quotient(rhs@)),
            self@.quotient(rhs@).d != 0 ==> r@.is_canonical(),
    {
        let r = Rat::new(self.n.mul(rhs.d), self.d.mul(rhs.n));
        proof {
            r.lemma_of_view();
        }
        r
    }
}

impl<R: RealArithmetic> DivSpecImpl for Rat<R> {
    open spec fn obeys_div_spec() -> bool {
        true
    }

    open spec fn div_req(self, rhs: Self) -> bool {
        &&& Rat::<R>::can_hold(self@.quotient(rhs@))
    }

    open spec fn div_spec(self, rhs: Self) -> Self {
        Rat::of(self@.quotient(rhs@).reduced())
    }
}

impl<R: RealArithmetic> std::ops::Rem for Rat<R> {
    type Output = Self;

    /// The remainder, in lowest terms.
    fn rem(self, rhs: Self) -> (r: Self)
        ensures
            r@ == self@.remainder(rhs@).reduced(),
            r@.same_value(self@.remainder(rhs@)),
            self@.remainder(rhs@).d != 0 ==> r@.is_canonical(),
    {
        let r = Rat::new(self.n.mul(rhs.d).rem(self.d.mul(rhs.n)), self.d.mul(rhs.d));
        proof {
            r.lemma_of_view();
        }
        r
    }
}

impl<R: RealArithmetic> RemSpecImpl for Rat<R> {
    open spec fn obeys_rem_spec() -> bool {
        true
    }

    open spec fn rem_req(self, rhs: Self) -> bool {
        &&& R::fits(self@.n * rhs@.d)
        &&& R::fits(self@.d * rhs@.n)
        &&& self@.d * rhs@.n != 0
        &&& Rat::<R>::can_hold(self@.remainder(rhs@))
    }

    open spec fn rem_spec(self, rhs: Self) -> Self {
        Rat::of(self@.remainder(rhs@).reduced())
    }
}

} // verus!
