//! Pairs of integers as the model of a rational value, their lowest terms,
//! and what holds of them.

use vstd::prelude::*;
use vstd::arithmetic::div_mod::*;
use crate::factor;

verus! {

/// A pair of integers read as numerator over denominator.
pub ghost struct Ratio {
    pub n: int,
    pub d: int,
}

/// The distance of `x` from zero.
pub open spec fn magnitude(x: int) -> nat {
    if x < 0 {
        (-x) as nat
    } else {
        x as nat
    }
}

/// The pair `n / d` in lowest terms, with the sign moved to the numerator.
///
/// Both magnitudes are divided by their greatest common factor, and the
/// numerator is negative exactly when one of `n` and `d` is. A zero
/// denominator stays zero. The pair `0 / 0` has no lowest terms.
pub open spec fn reduce(n: int, d: int) -> Ratio {
    let g = factor::gcf(magnitude(n), magnitude(d));
    let m = magnitude(n) / g;
    Ratio { n: if (n < 0) != (d < 0) { -m } else { m as int }, d: (magnitude(d) / g) as int }
}

impl Ratio {
    /// The pair `n / d`.
    pub open spec fn of(n: int, d: int) -> Ratio {
        Ratio { n, d }
    }

    /// Zero over one.
    pub open spec fn zero() -> Ratio {
        Ratio { n: 0, d: 1 }
    }

    /// One over one.
    pub open spec fn one() -> Ratio {
        Ratio { n: 1, d: 1 }
    }

    /// Positive denominator, and no common factor besides one.
    pub open spec fn is_canonical(self) -> bool {
        self.d > 0 && factor::gcf(magnitude(self.n), magnitude(self.d)) == 1
    }

    /// Both pairs stand for the same rational number, by cross-multiplication.
    pub open spec fn same_value(self, other: Ratio) -> bool {
        self.n * other.d == self.d * other.n
    }

    /// With positive denominators: `self` stands for the smaller number.
    pub open spec fn less_than(self, other: Ratio) -> bool {
        self.n * other.d < self.d * other.n
    }

    /// This pair in lowest terms.
    pub open spec fn reduced(self) -> Ratio {
        reduce(self.n, self.d)
    }

    /// The negation, as it stands.
    pub open spec fn negation(self) -> Ratio {
        Ratio { n: -self.n, d: self.d }
    }

    /// The reciprocal, not yet reduced.
    pub open spec fn reciprocal(self) -> Ratio {
        Ratio { n: self.d, d: self.n }
    }

    /// The sum, not yet reduced.
    pub open spec fn sum(self, other: Ratio) -> Ratio {
        Ratio { n: self.n * other.d + other.n * self.d, d: self.d * other.d }
    }

    /// The difference, not yet reduced.
    pub open spec fn difference(self, other: Ratio) -> Ratio {
        Ratio { n: self.n * other.d - other.n * self.d, d: self.d * other.d }
    }

    /// The product, not yet reduced.
    pub open spec fn product(self, other: Ratio) -> Ratio {
        Ratio { n: self.n * other.n, d: self.d * other.d }
    }

    /// The quotient, not yet reduced.
    pub open spec fn quotient(self, other: Ratio) -> Ratio {
        Ratio { n: self.n * other.d, d: self.d * other.n }
    }

    /// The remainder, not yet reduced: the cross products' remainder over
    /// the product of the denominators.
    pub open spec fn remainder(self, other: Ratio) -> Ratio {
        Ratio { n: (self.n * other.d) % (self.d * other.n), d: self.d * other.d }
    }
}

/// In lowest terms the denominator is positive and the two parts share no
/// factor besides one, whenever the given denominator is not zero.
pub proof fn lemma_reduce_is_canonical(n: int, d: int)
    requires
        d != 0,
    ensures
        reduce(n, d).is_canonical(),
{
    let a = magnitude(n);
    let b = magnitude(d);
    factor::lemma_gcf_of_quotients(a, b);
    let g = factor::gcf(a, b);
    assert(b / g > 0) by (nonlinear_arith)
        requires
            b == g * (b / g),
            b > 0,
            g > 0,
    ;
}

/// Lowest terms stand for the same rational number as the given pair.
pub proof fn lemma_reduce_keeps_value(n: int, d: int)
    requires
        n != 0 || d != 0,
    ensures
        reduce(n, d).same_value(Ratio::of(n, d)),
{
    let a = magnitude(n);
    let b = magnitude(d);
    factor::lemma_gcf_of_quotients(a, b);
    let g = factor::gcf(a, b);
    let x = a / g;
    let y = b / g;
    let r = reduce(n, d);
    assert(x * b == y * a) by (nonlinear_arith)
        requires
            a == g * x,
            b == g * y,
    ;
    assert(r.n * d == r.d * n) by (nonlinear_arith)
        requires
            x * b == y * a,
            r.d == y,
            (r.n == x && d == b && n == a) || (r.n == x && d == -b && n == -a) || (r.n == -x && d
                == -b && n == a) || (r.n == -x && d == b && n == -a) || (n == 0 && x == 0 && r.n
                == 0 && a == 0),
    ;
}

/// A canonical pair is its own lowest terms.
pub proof fn lemma_reduce_fixes_canonical(q: Ratio)
    requires
        q.is_canonical(),
    ensures
        q.reduced() == q,
{
    lemma_div_basics(magnitude(q.n) as int);
    lemma_div_basics(magnitude(q.d) as int);
}

/// Reducing twice gives what reducing once gives.
pub proof fn lemma_reduce_is_idempotent(n: int, d: int)
    requires
        n != 0 || d != 0,
    ensures
        reduce(n, d).reduced() == reduce(n, d),
{
    if d != 0 {
        lemma_reduce_is_canonical(n, d);
        lemma_reduce_fixes_canonical(reduce(n, d));
    } else {
        let a = magnitude(n);
        assert(factor::gcf(a, 0) == a);
        assert(factor::gcf(1, 0) == 1);
        lemma_div_basics(a as int);
        lemma_div_basics(1);
    }
}

/// Negating both parts changes nothing, and a sign may move from the
/// denominator to the numerator.
pub proof fn lemma_reduce_moves_sign(n: int, d: int)
    requires
        d != 0,
    ensures
        reduce(-n, -d) == reduce(n, d),
        reduce(n, -d) == reduce(-n, d),
{
    let g = factor::gcf(magnitude(n), magnitude(d));
    factor::lemma_gcf_positive(magnitude(n), magnitude(d));
    lemma_div_basics(g as int);
}

/// The negation of a canonical pair is canonical: flipping the sign of the
/// numerator leaves the common factor as it was.
pub proof fn lemma_negation_keeps_canonical(x: Ratio)
    requires
        x.is_canonical(),
    ensures
        x.negation().is_canonical(),
        x.negation().reduced() == x.negation(),
{
    assert(magnitude(-x.n) == magnitude(x.n));
    lemma_reduce_fixes_canonical(x.negation());
}

/// Adding zero to a canonical value gives that value.
pub proof fn lemma_zero_is_additive_identity(x: Ratio)
    requires
        x.is_canonical(),
    ensures
        x.sum(Ratio::zero()).reduced() == x,
        Ratio::zero().sum(x).reduced() == x,
{
    assert(x.n * 1 == x.n && x.d * 1 == x.d && 1 * x.d == x.d && 0 * x.d == 0);
    assert(x.sum(Ratio::zero()) == x);
    assert(Ratio::zero().sum(x) == x);
    lemma_reduce_fixes_canonical(x);
}

/// Multiplying a canonical value by one gives that value.
pub proof fn lemma_one_is_multiplicative_identity(x: Ratio)
    requires
        x.is_canonical(),
    ensures
        x.product(Ratio::one()).reduced() == x,
        Ratio::one().product(x).reduced() == x,
{
    assert(x.n * 1 == x.n && x.d * 1 == x.d && 1 * x.n == x.n && 1 * x.d == x.d);
    assert(x.product(Ratio::one()) == x);
    assert(Ratio::one().product(x) == x);
    lemma_reduce_fixes_canonical(x);
}

/// Taking the reciprocal twice of a canonical value that is not zero gives
/// that value.
pub proof fn lemma_reciprocal_round_trip(x: Ratio)
    requires
        x.is_canonical(),
        x.n != 0,
    ensures
        x.reciprocal().reduced().reciprocal().reduced() == x,
{
    let a = magnitude(x.n);
    let b = magnitude(x.d);
    factor::lemma_gcf_commutes(a, b);
    lemma_div_basics(a as int);
    lemma_div_basics(b as int);
    let y = x.reciprocal().reduced();
    assert(y.d == a);
    assert(magnitude(y.n) == b);
    assert(magnitude(y.d) == a);
}

/// Taking the reciprocal twice keeps the value of any pair whose numerator
/// is not zero, whether or not the pair was in lowest terms.
pub proof fn lemma_reciprocal_round_trip_keeps_value(x: Ratio)
    requires
        x.n != 0,
    ensures
        x.reciprocal().reduced().reciprocal().reduced().same_value(x),
{
    let y = x.reciprocal().reduced();
    let z = y.reciprocal().reduced();
    lemma_reduce_keeps_value(x.d, x.n);
    lemma_reduce_is_canonical(x.d, x.n);
    lemma_reduce_keeps_value(y.d, y.n);
    if x.d == 0 {
        assert(y.n == 0) by (nonlinear_arith)
            requires
                y.n * x.n == y.d * x.d,
                x.d == 0,
                x.n != 0,
        ;
        assert(z.d == 0) by (nonlinear_arith)
            requires
                z.n * y.n == z.d * y.d,
                y.n == 0,
                y.d > 0,
        ;
        assert(z.n * x.d == z.d * x.n) by (nonlinear_arith)
            requires
                z.d == 0,
                x.d == 0,
        ;
    } else {
        assert(z.n * x.d == z.d * x.n) by (nonlinear_arith)
            requires
                y.n * x.n == y.d * x.d,
                z.n * y.n == z.d * y.d,
                y.d > 0,
                x.n != 0,
                x.d != 0,
        ;
    }
}

/// Two canonical pairs that stand for the same rational number are the same
/// pair: equality by cross-multiplication is equality of the parts.
pub proof fn lemma_canonical_is_unique(p: Ratio, q: Ratio)
    requires
        p.is_canonical(),
        q.is_canonical(),
        p.same_value(q),
    ensures
        p == q,
{
    let a = magnitude(p.n);
    let b = magnitude(p.d);
    let c = magnitude(q.n);
    let e = magnitude(q.d);
    assert(e * a == b * c && e * b == b * e) by (nonlinear_arith)
        requires
            p.n * q.d == p.d * q.n,
            b == p.d,
            e == q.d,
            b > 0,
            e > 0,
            (a == p.n && p.n >= 0) || (a == -p.n && p.n < 0),
            (c == q.n && q.n >= 0) || (c == -q.n && q.n < 0),
    ;
    factor::lemma_gcf_scales(e, a, b);
    factor::lemma_gcf_scales(b, c, e);
    assert(e * 1 == e && b * 1 == b);
    assert(p.d == q.d);
    assert(p.n == q.n) by (nonlinear_arith)
        requires
            p.n * q.d == p.d * q.n,
            p.d == q.d,
            p.d > 0,
    ;
}

/// Lowest terms are the only canonical pair that stands for the same
/// rational number as `n / d`.
pub proof fn lemma_reduce_is_the_canonical_form(n: int, d: int, q: Ratio)
    requires
        d != 0,
        q.is_canonical(),
        q.same_value(Ratio::of(n, d)),
    ensures
        q == reduce(n, d),
{
    let r = reduce(n, d);
    lemma_reduce_is_canonical(n, d);
    lemma_reduce_keeps_value(n, d);
    assert(q.n * r.d == q.d * r.n) by (nonlinear_arith)
        requires
            q.n * d == q.d * n,
            r.n * d == r.d * n,
            d != 0,
    ;
    lemma_canonical_is_unique(q, r);
}

/// Lowest terms are no larger in magnitude than the given parts.
pub proof fn lemma_reduce_is_bounded(n: int, d: int)
    requires
        n != 0 || d != 0,
    ensures
        magnitude(reduce(n, d).n) <= magnitude(n),
        0 <= reduce(n, d).d <= magnitude(d),
{
    let a = magnitude(n);
    let b = magnitude(d);
    factor::lemma_gcf_of_quotients(a, b);
    let g = factor::gcf(a, b);
    assert(a / g <= a && b / g <= b) by (nonlinear_arith)
        requires
            a == g * (a / g),
            b == g * (b / g),
            g > 0,
    ;
}

/// Standing for the same rational number carries over a pair whose
/// denominator is not zero.
pub proof fn lemma_same_value_is_transitive(p: Ratio, q: Ratio, r: Ratio)
    requires
        q.d != 0,
        p.same_value(q),
        q.same_value(r),
    ensures
        p.same_value(r),
{
    if q.n == 0 {
        assert(p.n == 0 && r.n == 0) by (nonlinear_arith)
            requires
                p.n * q.d == p.d * q.n,
                q.n * r.d == q.d * r.n,
                q.n == 0,
                q.d != 0,
        ;
        assert(p.n * r.d == p.d * r.n) by (nonlinear_arith)
            requires
                p.n == 0,
                r.n == 0,
        ;
    } else {
        assert(p.n * r.d == p.d * r.n) by (nonlinear_arith)
            requires
                p.n * q.d == p.d * q.n,
                q.n * r.d == q.d * r.n,
                q.n != 0,
                q.d != 0,
        ;
    }
}

/// With positive denominators, the order by cross-multiplication is
/// transitive.
pub proof fn lemma_less_than_is_transitive(p: Ratio, q: Ratio, r: Ratio)
    requires
        p.d > 0,
        q.d > 0,
        r.d > 0,
        p.less_than(q),
        q.less_than(r),
    ensures
        p.less_than(r),
{
    assert(p.n * r.d < p.d * r.n) by (nonlinear_arith)
        requires
            p.n * q.d < p.d * q.n,
            q.n * r.d < q.d * r.n,
            p.d > 0,
            q.d > 0,
            r.d > 0,
    ;
}

/// The remainder is what is left of `a` once `b` is taken away as many whole
/// times as the Euclidean quotient of the cross products says.
pub proof fn lemma_remainder_is_what_is_left(a: Ratio, b: Ratio)
    requires
        a.d * b.n != 0,
    ensures
        a.remainder(b) == a.difference(b.product(Ratio::of((a.n * b.d) / (a.d * b.n), 1))),
        0 <= a.remainder(b).n < magnitude(a.d * b.n),
{
    let x = a.n * b.d;
    let y = a.d * b.n;
    let k = x / y;
    lemma_fundamental_div_mod(x, y);
    assert(x % y == a.n * (b.d * 1) - (b.n * k) * a.d) by (nonlinear_arith)
        requires
            x == y * k + x % y,
            y == a.d * b.n,
            x == a.n * b.d,
    ;
    assert(a.d * b.d == a.d * (b.d * 1)) by (nonlinear_arith);
    if y > 0 {
        lemma_mod_bound(x, y);
    } else {
        assert(0 <= x % y < -y) by (nonlinear_arith)
            requires
                y < 0,
        ;
    }
}

} // verus!
