//! Greatest common factors of natural numbers.

use vstd::prelude::*;
use vstd::arithmetic::div_mod::*;
use vstd::arithmetic::mul::*;

verus! {

/// The positive number `k` is a factor of `x`.
pub open spec fn divides(k: int, x: int) -> bool {
    k > 0 && x % k == 0
}

/// The greatest common factor of `a` and `b`; zero only when both are zero.
pub open spec fn gcf(a: nat, b: nat) -> nat
    decreases b,
{
    if b == 0 {
        a
    } else {
        gcf(b, a % b)
    }
}

/// `g` is a common factor of `a` and `b` that every common factor divides.
pub open spec fn is_greatest_common_factor(a: nat, b: nat, g: nat) -> bool {
    &&& divides(g as int, a as int)
    &&& divides(g as int, b as int)
    &&& forall|k: int| k > 0 && #[trigger] divides(k, a as int) && divides(k, b as int) ==> divides(k, g as int) && k <= g
}

/// A multiple of `k` has `k` as a factor.
pub proof fn lemma_multiple_divides(k: int, m: int)
    requires
        k > 0,
    ensures
        divides(k, k * m),
        divides(k, m * k),
{
    lemma_mod_multiples_basic(m, k);
    lemma_mul_is_commutative(k, m);
}

/// A number is its factor times the quotient.
pub proof fn lemma_divides_exact(k: int, x: int)
    requires
        divides(k, x),
    ensures
        x == k * (x / k),
{
    lemma_fundamental_div_mod(x, k);
}

/// A common factor of `a` and `b` is a factor of the remainder of `a` by `b`.
pub proof fn lemma_divides_remainder(k: int, a: int, b: int)
    requires
        b > 0,
        divides(k, a),
        divides(k, b),
    ensures
        divides(k, a % b),
{
    lemma_divides_exact(k, a);
    lemma_divides_exact(k, b);
    lemma_fundamental_div_mod(a, b);
    let x = a / k;
    let y = b / k;
    let q = a / b;
    assert(a % b == k * (x - y * q)) by (nonlinear_arith)
        requires
            a == k * x,
            b == k * y,
            a == b * q + a % b,
    ;
    lemma_multiple_divides(k, x - y * q);
}

/// A common factor of `b` and of the remainder of `a` by `b` is a factor of `a`.
pub proof fn lemma_divides_dividend(k: int, a: int, b: int)
    requires
        b > 0,
        divides(k, a % b),
        divides(k, b),
    ensures
        divides(k, a),
{
    lemma_divides_exact(k, a % b);
    lemma_divides_exact(k, b);
    lemma_fundamental_div_mod(a, b);
    let x = (a % b) / k;
    let y = b / k;
    let q = a / b;
    assert(a == k * (y * q + x)) by (nonlinear_arith)
        requires
            a % b == k * x,
            b == k * y,
            a == b * q + a % b,
    ;
    lemma_multiple_divides(k, y * q + x);
}

/// The order of the operands does not matter.
pub proof fn lemma_gcf_commutes(a: nat, b: nat)
    ensures
        gcf(a, b) == gcf(b, a),
{
    reveal_with_fuel(gcf, 3);
    if a < b {
        lemma_small_mod(a, b);
    } else if b < a {
        lemma_small_mod(b, a);
    }
}

/// Replacing an operand by its remainder modulo the other keeps the factor.
pub proof fn lemma_gcf_remainder(a: nat, b: nat)
    requires
        b > 0,
    ensures
        gcf(a, b) == gcf(a % b, b),
        gcf(b, a) == gcf(b, a % b),
{
    lemma_gcf_commutes(a, b);
    lemma_gcf_commutes(a % b, b);
}

/// The factor is positive unless both operands are zero.
pub proof fn lemma_gcf_positive(a: nat, b: nat)
    requires
        a > 0 || b > 0,
    ensures
        gcf(a, b) > 0,
    decreases b,
{
    if b > 0 {
        lemma_gcf_positive(b, a % b);
    }
}

/// The function `gcf` yields a common factor that every common factor
/// divides, so none is greater.
pub proof fn lemma_gcf_is_greatest(a: nat, b: nat)
    requires
        a > 0 || b > 0,
    ensures
        is_greatest_common_factor(a, b, gcf(a, b)),
    decreases b,
{
    let g = gcf(a, b);
    lemma_gcf_positive(a, b);
    if b == 0 {
        lemma_multiple_divides(g as int, 1);
        lemma_multiple_divides(g as int, 0);
        assert forall|k: int| k > 0 && #[trigger] divides(k, a as int) && divides(k, b as int) implies divides(k, g as int) && k <= g by {
            lemma_divides_exact(k, a as int);
            assert(k <= a) by (nonlinear_arith)
                requires
                    a == k * (a as int / k),
                    a > 0,
                    k > 0,
            ;
        }
    } else {
        lemma_gcf_is_greatest(b, a % b);
        lemma_divides_dividend(g as int, a as int, b as int);
        assert forall|k: int| k > 0 && #[trigger] divides(k, a as int) && divides(k, b as int) implies divides(k, g as int) && k <= g by {
            lemma_divides_remainder(k, a as int, b as int);
        }
    }
}

/// A common positive multiplier can be taken out of both operands.
pub proof fn lemma_gcf_scales(k: nat, a: nat, b: nat)
    requires
        k > 0,
    ensures
        gcf(k * a, k * b) == k * gcf(a, b),
    decreases b,
{
    if b == 0 {
        assert(k * b == 0) by (nonlinear_arith)
            requires
                b == 0,
        ;
    } else {
        assert(k * b > 0) by (nonlinear_arith)
            requires
                b > 0,
                k > 0,
        ;
        lemma_truncate_middle(a as int, k as int, b as int);
        lemma_gcf_scales(k, b, a % b);
        assert(gcf(k * a, k * b) == gcf(k * b, (k * a) % (k * b)));
    }
}

/// Dividing both operands by their greatest common factor leaves operands
/// whose only common factor is one.
pub proof fn lemma_gcf_of_quotients(a: nat, b: nat)
    requires
        a > 0 || b > 0,
    ensures
        gcf(a, b) > 0,
        a == gcf(a, b) * (a / gcf(a, b)),
        b == gcf(a, b) * (b / gcf(a, b)),
        gcf(a / gcf(a, b), b / gcf(a, b)) == 1,
{
    let g = gcf(a, b);
    lemma_gcf_is_greatest(a, b);
    lemma_divides_exact(g as int, a as int);
    lemma_divides_exact(g as int, b as int);
    let x = a / g;
    let y = b / g;
    lemma_gcf_scales(g, x, y);
    let h = gcf(x, y);
    assert(h == 1) by (nonlinear_arith)
        requires
            g == g * h,
            g > 0,
    ;
}

} // verus!
