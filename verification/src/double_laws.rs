//! When computing in double precision is exact, and how it keeps order.

use vstd::arithmetic::div_mod::*;
use vstd::arithmetic::power2::*;
use vstd::prelude::*;

use crate::double::{
    absolute, number_is_nearest, quotient_is, scaled_quotient, signed_step, whole_is_finite,
    zero_has_no_grains, zero_over, Double,
};
use crate::number::{Number, OrderedNumber};
use crate::rounding::{
    grains, grains_grow, grains_of_parts, nearest_quotient, nearest_quotient_grows,
    nearest_quotient_is, nearest_quotient_is_nearest, octave, octave_is_a_power, one, top,
};

verus! {

/// A quotient that is a number is rounded to that number.
pub proof fn exact_quotient(p: nat, q: nat, step: nat)
    requires
        q > 0,
        step < top(),
        p == grains(step) * q,
    ensures
        nearest_quotient(p, q) == step,
{
    number_is_nearest(step);
    scaled_quotient(grains(step), q, step);
    assert(q * grains(step) == grains(step) * q) by (nonlinear_arith);
    nearest_quotient_is(p, q, step);
}

/// Where the exact sum of two numbers is a number, their sum is that number.
pub proof fn exact_sum(a: Double, b: Double, c: Double)
    requires
        a.spec_is_finite(),
        b.spec_is_finite(),
        c.spec_is_finite(),
        c.step() > 0,
        a.value() + b.value() == c.value(),
    ensures
        a.spec_plus(b) == c,
{
    zero_has_no_grains(c.step());
    assert(grains(c.step()) * 1 == grains(c.step()));
    exact_quotient(grains(c.step()), 1, c.step());
}

/// Where the exact product of two numbers is a number, their product is that
/// number.
pub proof fn exact_product(a: Double, b: Double, c: Double)
    requires
        a.spec_is_finite(),
        b.spec_is_finite(),
        c.spec_is_finite(),
        c.is_negative() == (a.is_negative() != b.is_negative()),
        grains(a.step()) * grains(b.step()) == grains(c.step()) * one(),
    ensures
        a.spec_times(b) == c,
{
    lemma_pow2_pos(1074);
    exact_quotient(grains(a.step()) * grains(b.step()), one(), c.step());
}

/// Where the exact quotient of two numbers is a number, their quotient is that
/// number.
pub proof fn exact_division(a: Double, b: Double, c: Double)
    requires
        a.spec_is_finite(),
        b.spec_is_finite(),
        b.step() > 0,
        c.spec_is_finite(),
        c.is_negative() == (a.is_negative() != b.is_negative()),
        grains(a.step()) * one() == grains(c.step()) * grains(b.step()),
    ensures
        a.spec_over(b) == c,
{
    zero_has_no_grains(b.step());
    exact_quotient(grains(a.step()) * one(), grains(b.step()), c.step());
}

/// How often a number is doubled to have its first digit in place.
proof fn doublings_to_octave(n: nat) -> (z: nat)
    requires
        0 < n <= 2 * octave(),
    ensures
        octave() <= n * pow2(z) <= 2 * octave(),
    decreases 2 * octave() - n,
{
    octave_is_a_power();
    if n >= octave() {
        assert(n * pow2(0) == n) by (nonlinear_arith)
            requires
                pow2(0) == 1,
        ;
        0
    } else {
        let z = doublings_to_octave(2 * n);
        lemma_pow2_unfold(z + 1);
        assert(n * (2 * pow2(z)) == (2 * n) * pow2(z)) by (nonlinear_arith);
        z + 1
    }
}

/// Whole numbers up to 2 to the power of 53 are numbers.
pub proof fn whole_is_exact(n: u64)
    requires
        n <= 0x20_0000_0000_0000,
    ensures
        Double::whole(n).spec_is_finite(),
        !Double::whole(n).is_negative(),
        grains(Double::whole(n).step()) == n * one(),
        Double::whole(n).step() == 0 <==> n == 0,
        Double::whole(n).step() == nearest_quotient(n as nat * one(), 1),
{
    lemma_pow2_pos(1074);
    if n == 0 {
        zero_over(1);
        zero_has_no_grains(0);
        assert(0 * one() == 0) by (nonlinear_arith);
    } else {
        whole_is_finite(n);
        let z = doublings_to_octave(n as nat);
        if z > 1074 {
            octave_is_a_power();
            lemma_pow2_strictly_increases(53, z);
            assert(pow2(z) <= n * pow2(z)) by (nonlinear_arith)
                requires
                    n >= 1,
            ;
        }
        let m = n as nat * pow2(z);
        let t = (1074 - z) as nat;
        grains_of_parts(m, t);
        lemma_pow2_adds(z, t);
        assert(m * pow2(t) == n * (pow2(z) * pow2(t))) by (nonlinear_arith)
            requires
                m == n * pow2(z),
        ;
        let step = t * octave() + m;
        assert(grains(step) == n * one());
        assert(n * one() * 1 == n * one());
        exact_quotient(n as nat * one(), 1, step);
    }
}

/// Whole numbers compare as numbers.
pub proof fn whole_order(a: u64, b: u64)
    requires
        a <= 0x20_0000_0000_0000,
        b <= 0x20_0000_0000_0000,
    ensures
        Double::whole(a).spec_below(Double::whole(b)) <==> a < b,
        Double::whole(a).spec_at_most(Double::whole(b)) <==> a <= b,
{
    whole_is_exact(a);
    whole_is_exact(b);
    lemma_pow2_pos(1074);
    let x = Double::whole(a).step();
    let y = Double::whole(b).step();
    if x < y {
        grains_grow(x, y);
    } else if y < x {
        grains_grow(y, x);
    }
    assert(a < b ==> a * one() < b * one()) by (nonlinear_arith)
        requires
            one() > 0,
    ;
    assert(b < a ==> b * one() < a * one()) by (nonlinear_arith)
        requires
            one() > 0,
    ;
}

/// Whole numbers add up exactly.
pub proof fn whole_sum(a: u64, b: u64)
    requires
        a + b <= 0x20_0000_0000_0000,
    ensures
        Double::whole(a).spec_plus(Double::whole(b)) == Double::whole((a + b) as u64),
{
    let c = (a + b) as u64;
    whole_is_exact(a);
    whole_is_exact(b);
    whole_is_exact(c);
    assert(a * one() + b * one() == (a + b) * one()) by (nonlinear_arith);
    if c > 0 {
        exact_sum(Double::whole(a), Double::whole(b), Double::whole(c));
    } else {
        assert(0 * one() == 0) by (nonlinear_arith);
    }
}

/// The difference of whole numbers is exact.
pub proof fn whole_difference(a: u64, b: u64)
    requires
        a <= 0x20_0000_0000_0000,
        b <= 0x20_0000_0000_0000,
    ensures
        Double::whole(a).spec_minus(Double::whole(b)) == Double::signed((a - b) as i64),
        a >= b ==> Double::whole(a).spec_minus(Double::whole(b)) == Double::whole((a - b) as u64),
{
    let n = absolute(a - b) as u64;
    let x = Double::whole(a);
    let y = Double::whole(b);
    whole_is_exact(a);
    whole_is_exact(b);
    whole_is_exact(n);
    let other = signed_step(true, y.step());
    let c = Double::signed((a - b) as i64);
    assert(absolute(((a - b) as i64) as int) == n);
    assert(c == signed_step(a < b, Double::whole(n).step()));
    assert(a * one() - b * one() == (a - b) * one()) by (nonlinear_arith);
    assert((b - a) * one() == -((a - b) * one())) by (nonlinear_arith);
    assert(x.spec_minus(y) == x.spec_plus(other));
    if a == b {
        assert(0 * one() == 0) by (nonlinear_arith);
    } else {
        exact_sum(x, other, c);
    }
}

/// The product of whole numbers is exact.
pub proof fn whole_product(a: u64, b: u64)
    requires
        a <= 0x20_0000_0000_0000,
        b <= 0x20_0000_0000_0000,
        a * b <= 0x20_0000_0000_0000,
    ensures
        Double::whole(a).spec_times(Double::whole(b)) == Double::whole((a * b) as u64),
{
    let c = (a * b) as u64;
    whole_is_exact(a);
    whole_is_exact(b);
    whole_is_exact(c);
    assert((a * one()) * (b * one()) == ((a * b) * one()) * one()) by (nonlinear_arith);
    exact_product(Double::whole(a), Double::whole(b), Double::whole(c));
}

/// A whole number that goes into another does so exactly.
pub proof fn whole_quotient(q: u64, b: u64)
    requires
        b > 0,
        q <= 0x20_0000_0000_0000,
        b <= 0x20_0000_0000_0000,
        q * b <= 0x20_0000_0000_0000,
    ensures
        Double::whole((q * b) as u64).spec_over(Double::whole(b)) == Double::whole(q),
{
    let a = (q * b) as u64;
    whole_is_exact(a);
    whole_is_exact(b);
    whole_is_exact(q);
    assert(((q * b) * one()) * one() == (q * one()) * (b * one())) by (nonlinear_arith);
    exact_division(Double::whole(a), Double::whole(b), Double::whole(q));
}

/// A whole number is rounded to itself.
pub proof fn whole_is_rounded_to_itself(n: u64)
    requires
        n <= 0x20_0000_0000_0000,
    ensures
        Double::whole(n).spec_rounded() == n,
        Double::whole(n).spec_whole_part() == n,
        Double::signed(-(n as i64) as i64).spec_rounded() == -(n as int),
{
    whole_is_exact(n);
    lemma_pow2_pos(1074);
    let g = n as int * one();
    assert((n + 1) * one() == g + one()) by (nonlinear_arith)
        requires
            g == n * one(),
    ;
    assert(n * (2 * one()) == 2 * g) by (nonlinear_arith)
        requires
            g == n * one(),
    ;
    assert((n + 1) * (2 * one()) == 2 * g + 2 * one()) by (nonlinear_arith)
        requires
            g == n * one(),
    ;
    quotient_is(g, one() as int, n as int);
    quotient_is(2 * g + one(), 2 * one() as int, n as int);
    assert(absolute((-(n as i64)) as int) == n);
}

/// Numbers are in order as their values are.
proof fn values_are_in_order(a: Double, b: Double)
    requires
        a.spec_at_most(b),
    ensures
        a.value() <= b.value(),
{
    let x = a.step();
    let y = b.step();
    zero_has_no_grains(x);
    zero_has_no_grains(y);
    if x < y {
        grains_grow(x, y);
    } else if y < x {
        grains_grow(y, x);
    }
}

/// The number nearest to `p / q` grains, with its sign.
pub open spec fn nearest_signed(negative: bool, p: nat, q: nat) -> Double {
    signed_step(negative, nearest_quotient(p, q))
}

/// Nearest numbers are in order as the quotients are that they are nearest to.
proof fn nearest_signed_is_in_order(a: bool, p: nat, b: bool, r: nat, q: nat)
    requires
        q > 0,
        a && b ==> r <= p,
        !a && !b ==> p <= r,
        !a && b ==> p == 0 && r == 0,
    ensures
        nearest_signed(a, p, q).spec_at_most(nearest_signed(b, r, q)),
{
    if p <= r {
        assert(p * q <= r * q) by (nonlinear_arith)
            requires
                p <= r,
        ;
        nearest_quotient_grows(p, q, r, q);
    }
    if r <= p {
        assert(r * q <= p * q) by (nonlinear_arith)
            requires
                r <= p,
        ;
        nearest_quotient_grows(r, q, p, q);
    }
    if p == 0 || r == 0 {
        zero_over(q);
    }
}

/// The sum of finite numbers is nearest to the sum of their values.
proof fn sum_is_nearest(a: Double, b: Double)
    requires
        a.spec_is_finite(),
        b.spec_is_finite(),
    ensures
        ({
            let sum = a.value() + b.value();
            a.spec_plus(b).rank() == nearest_signed(sum < 0, absolute(sum), 1).rank()
        }),
        !a.spec_plus(b).is_no_number(),
{
    let sum = a.value() + b.value();
    zero_over(1);
    nearest_quotient_is_nearest(absolute(sum), 1);
}

proof fn sums_are_in_order(a: Double, b: Double, c: Double, d: Double)
    requires
        a.spec_is_finite(),
        b.spec_is_finite(),
        c.spec_is_finite(),
        d.spec_is_finite(),
        a.value() + c.value() <= b.value() + d.value(),
    ensures
        a.spec_plus(c).spec_at_most(b.spec_plus(d)),
{
    let x = a.value() + c.value();
    let y = b.value() + d.value();
    sum_is_nearest(a, c);
    sum_is_nearest(b, d);
    nearest_signed_is_in_order(x < 0, absolute(x), y < 0, absolute(y), 1);
}

proof fn products_are_in_order(a: Double, b: Double, c: Double)
    requires
        a.spec_is_finite(),
        b.spec_is_finite(),
        c.spec_is_finite(),
        a.spec_at_most(b),
        c.rank() >= 0,
    ensures
        a.spec_times(c).spec_at_most(b.spec_times(c)),
        c.spec_times(a).spec_at_most(c.spec_times(b)),
{
    let x = grains(a.step());
    let y = grains(b.step());
    let z = grains(c.step());
    lemma_pow2_pos(1074);
    values_are_in_order(a, b);
    zero_has_no_grains(c.step());
    zero_has_no_grains(a.step());
    zero_has_no_grains(b.step());
    assert(x * z == z * x && y * z == z * y) by (nonlinear_arith);
    assert(x <= y ==> x * z <= y * z) by (nonlinear_arith);
    assert(y <= x ==> y * z <= x * z) by (nonlinear_arith);
    assert(z == 0 ==> x * z == 0 && y * z == 0) by (nonlinear_arith);
    assert(x == 0 ==> x * z == 0) by (nonlinear_arith);
    assert(y == 0 ==> y * z == 0) by (nonlinear_arith);
    let m = a.is_negative() != c.is_negative();
    let n = b.is_negative() != c.is_negative();
    nearest_signed_is_in_order(m, x * z, n, y * z, one());
}

proof fn quotients_are_in_order(a: Double, b: Double, c: Double)
    requires
        a.spec_is_finite(),
        b.spec_is_finite(),
        c.spec_is_finite(),
        a.spec_at_most(b),
        c.rank() > 0,
    ensures
        a.spec_over(c).spec_at_most(b.spec_over(c)),
{
    let x = grains(a.step());
    let y = grains(b.step());
    zero_has_no_grains(c.step());
    zero_has_no_grains(a.step());
    zero_has_no_grains(b.step());
    values_are_in_order(a, b);
    assert(x <= y ==> x * one() <= y * one()) by (nonlinear_arith);
    assert(y <= x ==> y * one() <= x * one()) by (nonlinear_arith);
    assert(x == 0 ==> x * one() == 0) by (nonlinear_arith);
    assert(y == 0 ==> y * one() == 0) by (nonlinear_arith);
    nearest_signed_is_in_order(
        a.is_negative(),
        x * one(),
        b.is_negative(),
        y * one(),
        grains(c.step()),
    );
}

impl OrderedNumber for Double {
    proof fn below_is_defined(a: Self, b: Self) {
    }

    proof fn at_most_is_not_above(a: Self, b: Self) {
    }

    proof fn smaller_is_least(a: Self, b: Self) {
    }

    proof fn smaller_keeps_bound(bound: Self, a: Self, b: Self) {
    }

    proof fn larger_is_greatest(a: Self, b: Self) {
    }

    proof fn whole_is_not_negative(n: u64) {
        whole_is_exact(0);
        if n > 0 {
            whole_is_finite(n);
        }
    }

    proof fn whole_keeps_order(a: u64, b: u64) {
        assert(a * one() * 1 <= b * one() * 1) by (nonlinear_arith)
            requires
                a <= b,
        ;
        nearest_quotient_grows((a * one()) as nat, 1, (b * one()) as nat, 1);
        if a < b <= 0x20_0000_0000_0000 {
            whole_order(a, b);
        }
    }

    proof fn smaller_keeps_order(a: Self, b: Self, c: Self) {
    }

    proof fn rounded_keeps_order(a: Self, b: Self) {
        values_are_in_order(a, b);
        lemma_pow2_pos(1074);
        let u = one() as int;
        let x = grains(a.step()) as int;
        let y = grains(b.step()) as int;
        lemma_div_pos_is_pos(2 * x + u, 2 * u);
        lemma_div_pos_is_pos(2 * y + u, 2 * u);
        zero_has_no_grains(a.step());
        zero_has_no_grains(b.step());
        lemma_basic_div(u, 2 * u);
        if x <= y {
            lemma_div_is_ordered(2 * x + u, 2 * y + u, 2 * u);
            lemma_div_is_ordered(x, y, u);
        } else {
            lemma_div_is_ordered(2 * y + u, 2 * x + u, 2 * u);
        }
    }

    proof fn at_most_is_transitive(a: Self, b: Self, c: Self) {
    }

    proof fn fractions_keep_order(a: u64, b: u64, c: u64, d: u64) {
        whole_is_exact(a);
        whole_is_exact(b);
        whole_is_exact(c);
        whole_is_exact(d);
        lemma_pow2_pos(1074);
        let u = one();
        assert(((a * u) * u) * (d * u) <= ((c * u) * u) * (b * u)) by (nonlinear_arith)
            requires
                a * d <= c * b,
        ;
        assert(b * u > 0 && d * u > 0) by (nonlinear_arith)
            requires
                b > 0,
                d > 0,
                u > 0,
        ;
        nearest_quotient_grows(
            ((a * u) * u) as nat,
            (b * u) as nat,
            ((c * u) * u) as nat,
            (d * u) as nat,
        );
    }

    proof fn plus_keeps_order(a: Self, b: Self, c: Self) {
        values_are_in_order(a, b);
        sums_are_in_order(a, b, c, c);
        sums_are_in_order(c, c, a, b);
        let less = signed_step(!c.is_negative(), c.step());
        sums_are_in_order(a, b, less, less);
        let x = signed_step(!a.is_negative(), a.step());
        let y = signed_step(!b.is_negative(), b.step());
        assert(x.value() == -a.value());
        assert(y.value() == -b.value());
        sums_are_in_order(c, c, y, x);
    }

    proof fn times_keeps_order(a: Self, b: Self, c: Self) {
        whole_is_exact(0);
        products_are_in_order(a, b, c);
    }

    proof fn over_keeps_order(a: Self, b: Self, c: Self) {
        whole_is_exact(0);
        quotients_are_in_order(a, b, c);
    }
}

} // verus!
