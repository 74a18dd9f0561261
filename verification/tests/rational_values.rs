use rational::rat::{gcf, Rat};
use rational::rules::{PowersOfTen, RealArithmetic};
use rational::text::{decimal_of, LaTeX, Plain};
use std::cmp::Ordering;

fn q(n: i64, d: i64) -> Rat<i64> {
    Rat::new(n, d)
}

fn parts(r: Rat<i64>) -> (i64, i64) {
    (r.n, r.d)
}

#[test]
fn gcf_of_two_positive_numbers() {
    assert_eq!(gcf(12i64, 18i64), 6);
    assert_eq!(gcf(18i64, 12i64), 6);
    assert_eq!(gcf(17i64, 5i64), 1);
    assert_eq!(gcf(7i64, 7i64), 7);
    assert_eq!(gcf(1071i64, 462i64), 21);
}

#[test]
fn gcf_with_a_zero_operand_is_the_other() {
    assert_eq!(gcf(0i64, 5i64), 5);
    assert_eq!(gcf(5i64, 0i64), 5);
    assert_eq!(gcf(0i64, 0i64), 0);
}

#[test]
fn new_reduces_to_lowest_terms() {
    assert_eq!(parts(q(2, 4)), (1, 2));
    assert_eq!(parts(q(6, 3)), (2, 1));
    assert_eq!(parts(q(1071, 462)), (51, 22));
    assert_eq!(parts(q(5, 7)), (5, 7));
}

#[test]
fn new_result_is_canonical() {
    for n in -12i64..=12 {
        for d in -12i64..=12 {
            if d == 0 {
                continue;
            }
            let r = q(n, d);
            assert!(r.d > 0);
            assert_eq!(gcf(r.n.abs(), r.d), 1);
            assert_eq!(r.n * d, n * r.d);
        }
    }
}

#[test]
fn new_moves_the_sign_to_the_numerator() {
    assert_eq!(parts(q(-3, -4)), (3, 4));
    assert_eq!(parts(q(3, -4)), (-3, 4));
    assert_eq!(parts(q(-3, 4)), (-3, 4));
    assert!(q(-3, -4).eq(&q(3, 4)));
    assert!(q(3, -4).eq(&q(-3, 4)));
    assert!(!q(3, -4).eq(&q(3, 4)));
}

#[test]
fn new_of_zero_numerator_is_zero_over_one() {
    assert_eq!(parts(q(0, 5)), (0, 1));
    assert_eq!(parts(q(0, -5)), (0, 1));
}

#[test]
fn new_keeps_a_zero_denominator() {
    assert_eq!(parts(q(5, 0)), (1, 0));
    assert_eq!(parts(q(-5, 0)), (-1, 0));
}

#[test]
fn new_on_a_reduced_pair_changes_nothing() {
    let r = q(84, -36);
    assert_eq!(parts(r), (-7, 3));
    let again = q(r.n, r.d);
    assert_eq!(parts(again), parts(r));
    assert!(again.eq(&r));
}

#[test]
fn raw_stores_the_pair_unchanged() {
    assert_eq!(parts(Rat::raw(2i64, 4i64)), (2, 4));
    assert_eq!(parts(Rat::raw(3i64, -6i64)), (3, -6));
}

#[test]
fn whole_puts_the_number_over_one() {
    assert_eq!(parts(Rat::whole(7i64)), (7, 1));
    assert_eq!(parts(Rat::whole(-7i64)), (-7, 1));
}

#[test]
fn zero_and_one() {
    assert_eq!(parts(Rat::<i64>::zero()), (0, 1));
    assert_eq!(parts(Rat::<i64>::one()), (1, 1));
}

#[test]
fn equality_by_cross_multiplication() {
    assert!(q(1, 2).eq(&q(2, 4)));
    assert!(!q(1, 2).eq(&q(1, 3)));
    assert!(Rat::raw(2i64, 4i64).eq(&Rat::raw(-1i64, -2i64)));
}

#[test]
fn ordering_of_values() {
    assert_eq!(q(1, 3).partial_cmp(&q(1, 2)), Some(Ordering::Less));
    assert_eq!(q(-1, 2).partial_cmp(&q(0, 1)), Some(Ordering::Less));
    assert_eq!(q(1, 2).partial_cmp(&q(1, 3)), Some(Ordering::Greater));
    assert_eq!(q(2, 4).partial_cmp(&q(1, 2)), Some(Ordering::Equal));
}

#[test]
fn adding_zero_changes_nothing() {
    for (n, d) in [(1i64, 2i64), (-7, 3), (0, 1), (5, 1), (-9, 14)] {
        let x = q(n, d);
        assert_eq!(parts(x + Rat::zero()), parts(x));
        assert_eq!(parts(Rat::zero() + x), parts(x));
        assert!((x + Rat::zero()).eq(&x));
    }
}

#[test]
fn multiplying_by_one_changes_nothing() {
    for (n, d) in [(1i64, 2i64), (-7, 3), (0, 1), (5, 1), (-9, 14)] {
        let x = q(n, d);
        assert_eq!(parts(x * Rat::one()), parts(x));
        assert_eq!(parts(Rat::one() * x), parts(x));
        assert!((x * Rat::one()).eq(&x));
    }
}

#[test]
fn inverse_swaps_and_reduces() {
    assert_eq!(parts(q(2, 3).inv()), (3, 2));
    assert_eq!(parts(q(-2, 3).inv()), (-3, 2));
    assert_eq!(parts(Rat::raw(4i64, 6i64).inv()), (3, 2));
}

#[test]
fn inverse_twice_gives_the_value_back() {
    for (n, d) in [(1i64, 2i64), (-7, 3), (5, 1), (-9, 14), (1, 1)] {
        let x = q(n, d);
        assert_eq!(parts(x.inv().inv()), parts(x));
        assert!(x.inv().inv().eq(&x));
    }
    let loose = Rat::raw(-4i64, -6i64);
    assert!(loose.inv().inv().eq(&loose));
}

#[test]
fn negation_flips_the_numerator_only() {
    assert_eq!(parts(-q(1, 2)), (-1, 2));
    assert_eq!(parts(-q(-1, 2)), (1, 2));
    assert_eq!(parts(-Rat::raw(2i64, 4i64)), (-2, 4));
}

#[test]
fn arithmetic_of_fractions() {
    assert!((q(1, 2) + q(1, 3)).eq(&q(5, 6)));
    assert_eq!(parts(q(1, 2) + q(1, 3)), (5, 6));
    assert!((q(2, 3) * q(3, 4)).eq(&q(1, 2)));
    assert_eq!(parts(q(2, 3) * q(3, 4)), (1, 2));
    assert!((q(1, 2) - q(1, 3)).eq(&q(1, 6)));
    assert_eq!(parts(q(1, 2) - q(1, 3)), (1, 6));
    assert!((q(1, 2) / q(1, 3)).eq(&q(3, 2)));
    assert_eq!(parts(q(1, 2) / q(1, 3)), (3, 2));
}

#[test]
fn arithmetic_reduces_its_results() {
    assert_eq!(parts(q(1, 6) + q(1, 3)), (1, 2));
    assert_eq!(parts(q(1, 2) - q(1, 2)), (0, 1));
    assert_eq!(parts(q(1, 2) - q(3, 4)), (-1, 4));
    assert_eq!(parts(q(1, 2) / q(-1, 4)), (-2, 1));
}

#[test]
fn remainder_of_fractions() {
    assert_eq!(parts(q(7, 2) % q(3, 2)), (1, 2));
    assert_eq!(parts(q(5, 1) % q(2, 1)), (1, 1));
    assert_eq!(parts(q(3, 4) % q(1, 4)), (0, 1));
    assert_eq!(parts(q(-7, 2) % q(3, 2)), (1, 1));
}

#[test]
fn compound_forms_replace_the_left_operand() {
    let mut x = q(1, 2);
    x.add_assign(q(1, 3));
    assert_eq!(parts(x), (5, 6));
    x.sub_assign(q(1, 3));
    assert_eq!(parts(x), (1, 2));
    x.mul_assign(q(2, 3));
    assert_eq!(parts(x), (1, 3));
    x.div_assign(q(1, 6));
    assert_eq!(parts(x), (2, 1));
    x.rem_assign(q(3, 2));
    assert_eq!(parts(x), (1, 2));
}

#[test]
fn powers_of_ten() {
    assert_eq!(parts(Rat::<i64>::order_of(0)), (1, 1));
    assert_eq!(parts(Rat::<i64>::order_of(3)), (1000, 1));
    assert_eq!(parts(Rat::<i64>::order_of(-2)), (1, 100));
    assert_eq!(<i64 as PowersOfTen>::order_of(18), 1_000_000_000_000_000_000);
}

#[test]
fn scalar_identities_and_order() {
    assert_eq!(<i64 as RealArithmetic>::zero(), 0);
    assert_eq!(<i64 as RealArithmetic>::one(), 1);
    assert!(RealArithmetic::lt(-3i64, 2i64));
    assert!(!RealArithmetic::lt(2i64, 2i64));
    assert!(RealArithmetic::eq(2i64, 2i64));
    assert!(!RealArithmetic::eq(2i64, 3i64));
}

#[test]
fn scalar_ring_operations() {
    assert_eq!(RealArithmetic::neg(5i64), -5);
    assert_eq!(RealArithmetic::add(5i64, -7i64), -2);
    assert_eq!(RealArithmetic::sub(5i64, -7i64), 12);
    assert_eq!(RealArithmetic::mul(5i64, -7i64), -35);
}

#[test]
fn scalar_quotient_and_remainder_are_euclidean() {
    assert_eq!(RealArithmetic::div(7i64, 2i64), 3);
    assert_eq!(RealArithmetic::rem(7i64, 2i64), 1);
    assert_eq!(RealArithmetic::div(-7i64, 2i64), -4);
    assert_eq!(RealArithmetic::rem(-7i64, 2i64), 1);
    assert_eq!(RealArithmetic::div(7i64, -2i64), -3);
    assert_eq!(RealArithmetic::rem(7i64, -2i64), 1);
    assert_eq!(RealArithmetic::rem(i64::MIN, -1i64), 0);
}

#[test]
fn new_at_the_edge_of_the_scalar() {
    assert_eq!(parts(q(i64::MAX, i64::MAX)), (1, 1));
    assert_eq!(parts(q(-i64::MAX, i64::MAX)), (-1, 1));
    assert_eq!(parts(q(i64::MAX, 1)), (i64::MAX, 1));
}

#[test]
fn decimal_numerals() {
    assert_eq!(decimal_of(0), "0");
    assert_eq!(decimal_of(7), "7");
    assert_eq!(decimal_of(10), "10");
    assert_eq!(decimal_of(1234567890), "1234567890");
    assert_eq!(decimal_of(-42), "-42");
    assert_eq!(decimal_of(i64::MAX), "9223372036854775807");
    assert_eq!(decimal_of(i64::MIN), "-9223372036854775808");
}

#[test]
fn plain_form_of_a_fraction() {
    assert_eq!(Plain::fmt(&q(1, 2)), "(1/2)");
    assert_eq!(Plain::fmt(&q(3, -4)), "(-3/4)");
    assert_eq!(Plain::fmt(&Rat::raw(2i64, 4i64)), "(2/4)");
    assert_eq!(Plain::fmt(&-17i64), "-17");
}

#[test]
fn typeset_form_of_a_fraction() {
    assert_eq!(q(1, 2).latex(), "\\frac{1}{2}");
    assert_eq!(q(3, -4).latex(), "\\frac{-3}{4}");
    assert_eq!(Rat::raw(2i64, 4i64).latex(), "\\frac{2}{4}");
    assert_eq!(LaTeX::latex(&-17i64), "-17");
}

#[test]
fn equal_canonical_values_have_equal_parts() {
    for a in -6i64..=6 {
        for b in 1i64..=6 {
            for c in -6i64..=6 {
                for d in 1i64..=6 {
                    let x = q(a, b);
                    let y = q(c, d);
                    assert_eq!(x.eq(&y), parts(x) == parts(y));
                    assert_eq!(x.eq(&y), a * d == b * c);
                }
            }
        }
    }
}

#[test]
fn ordering_agrees_with_equality_and_is_transitive() {
    let values = [q(-3, 2), q(-1, 2), q(0, 1), q(1, 3), q(1, 2), q(2, 3), q(5, 4)];
    for i in 0..values.len() {
        for j in 0..values.len() {
            let expected = i.cmp(&j);
            assert_eq!(values[i].partial_cmp(&values[j]), Some(expected));
            assert_eq!(values[i].eq(&values[j]), i == j);
        }
    }
}

#[test]
fn ordering_goes_by_the_cross_products_on_raw_pairs() {
    let loose = Rat::raw(1i64, -2i64);
    assert_eq!(loose.partial_cmp(&Rat::zero()), Some(Ordering::Greater));
    assert_eq!(q(1, -2).partial_cmp(&Rat::zero()), Some(Ordering::Less));
}

#[test]
fn sign_moves_for_every_small_pair() {
    for n in -9i64..=9 {
        for d in 1i64..=9 {
            assert_eq!(parts(q(-n, -d)), parts(q(n, d)));
            assert_eq!(parts(q(n, -d)), parts(q(-n, d)));
        }
    }
}

#[test]
fn inverse_of_zero_has_a_zero_denominator() {
    assert_eq!(parts(q(0, 3).inv()), (1, 0));
}

#[test]
fn division_by_zero_keeps_a_zero_denominator() {
    assert_eq!(parts(q(1, 2) / q(0, 1)), (1, 0));
    assert_eq!(parts(q(-1, 2) / q(0, 1)), (-1, 0));
}
