//! The numbers that double precision holds, and rounding to the nearest.

use vstd::arithmetic::power2::*;
use vstd::prelude::*;

verus! {

/// How many steps it takes to double a number: 2 to the power of 52.
pub open spec fn octave() -> nat {
    0x10_0000_0000_0000
}

/// The step behind the largest number.
pub open spec fn top() -> nat {
    0x7ff0_0000_0000_0000
}

/// The numbers that are not negative, counted from zero in steps, and measured in
/// grains, the smallest of them. The first steps are one grain wide; their width
/// doubles each time the numbers have doubled.
pub open spec fn grains(step: nat) -> nat {
    mantissa(step) * pow2(scale(step))
}

/// How many steps of the width at `step` the number there is.
pub open spec fn mantissa(step: nat) -> nat {
    if step < octave() {
        step
    } else {
        octave() + step % octave()
    }
}

/// How often the width has doubled at `step`.
pub open spec fn scale(step: nat) -> nat {
    if step < octave() {
        0
    } else {
        (step / octave() - 1) as nat
    }
}

/// How many grains make one.
pub open spec fn one() -> nat {
    pow2(1074)
}

/// Twice the middle between a number and the next.
pub open spec fn middle(step: nat) -> nat {
    grains(step) + grains(step + 1)
}

/// The number at `step` is nearest to some exact value, and of two that are
/// equally near it is the one with an even step. `excess` tells by its sign
/// whether a number of half grains lies above the exact value. Values beyond the
/// largest number go to the step behind it.
pub open spec fn is_nearest(excess: spec_fn(nat) -> int, step: nat) -> bool {
    &&& step <= top()
    &&& step > 0 ==> excess(middle((step - 1) as nat)) < 0 || (excess(middle((step - 1) as nat))
        == 0 && step % 2 == 0)
    &&& step < top() ==> excess(middle(step)) > 0 || (excess(middle(step)) == 0 && step % 2 == 0)
}

/// The more half grains, the higher they lie.
pub open spec fn is_rising(excess: spec_fn(nat) -> int) -> bool {
    forall|a: nat, b: nat| a < b ==> #[trigger] excess(a) < #[trigger] excess(b)
}

/// How half grains compare to `p / q` grains.
pub open spec fn over_quotient(p: nat, q: nat) -> spec_fn(nat) -> int {
    |half_grains: nat| half_grains * q - 2 * p
}

/// How half grains compare to the square root of `y` grains.
pub open spec fn over_root(y: nat) -> spec_fn(nat) -> int {
    |half_grains: nat| half_grains * half_grains - 4 * y
}

/// The step nearest to `p / q` grains.
pub open spec fn nearest_quotient(p: nat, q: nat) -> nat {
    choose|step: nat| is_nearest(over_quotient(p, q), step)
}

/// The step nearest to the square root of `y` grains.
pub open spec fn nearest_root(y: nat) -> nat {
    choose|step: nat| is_nearest(over_root(y), step)
}

pub proof fn octave_is_a_power()
    ensures
        pow2(0) == 1,
        pow2(1) == 2,
        pow2(52) == octave(),
        pow2(53) == 2 * octave(),
{
    lemma2_to64();
    lemma2_to64_rest();
}

/// What mantissa and scale are.
pub proof fn parts_make_step(step: nat)
    ensures
        step == scale(step) * octave() + mantissa(step),
        mantissa(step) < 2 * octave(),
        scale(step) == 0 || mantissa(step) >= octave(),
{
}

/// Any mantissa and scale that fit make up the number at their step.
pub proof fn grains_of_parts(m: nat, t: nat)
    requires
        m <= 2 * octave(),
        t == 0 || m >= octave(),
    ensures
        grains(t * octave() + m) == m * pow2(t),
{
    octave_is_a_power();
    let step = t * octave() + m;
    if m < octave() {
        assert(step == m);
    } else if m < 2 * octave() {
        assert(step / octave() == t + 1);
        assert(step % octave() == m - octave());
    } else {
        assert(step / octave() == t + 2);
        assert(step % octave() == 0);
        lemma_pow2_unfold(t + 1);
        assert(octave() * (2 * pow2(t)) == (2 * octave()) * pow2(t)) by (nonlinear_arith);
    }
}

/// The next number is one width above.
pub proof fn next_grains(step: nat)
    ensures
        grains(step + 1) == (mantissa(step) + 1) * pow2(scale(step)),
        grains(step + 1) > grains(step),
{
    parts_make_step(step);
    grains_of_parts(mantissa(step) + 1, scale(step));
    lemma_pow2_pos(scale(step));
    assert((mantissa(step) + 1) * pow2(scale(step)) == mantissa(step) * pow2(scale(step)) + pow2(
        scale(step),
    )) by (nonlinear_arith);
}

/// The numbers grow with their steps.
pub proof fn grains_grow(a: nat, b: nat)
    requires
        a < b,
    ensures
        grains(a) < grains(b),
    decreases b - a,
{
    next_grains(a);
    if a + 1 < b {
        grains_grow(a + 1, b);
    }
}

proof fn middles_grow(a: nat, b: nat)
    requires
        a < b,
    ensures
        middle(a) < middle(b),
{
    grains_grow(a, b);
    grains_grow(a + 1, b + 1);
}

/// There is one nearest step at most.
pub proof fn nearest_is_unique(excess: spec_fn(nat) -> int, a: nat, b: nat)
    requires
        is_rising(excess),
        is_nearest(excess, a),
        is_nearest(excess, b),
    ensures
        a == b,
{
    nearest_is_not_below(excess, a, b);
    nearest_is_not_below(excess, b, a);
}

proof fn nearest_is_not_below(excess: spec_fn(nat) -> int, a: nat, b: nat)
    requires
        is_rising(excess),
        is_nearest(excess, a),
        is_nearest(excess, b),
    ensures
        a >= b,
{
    if a + 1 < b {
        middles_grow(a, (b - 1) as nat);
        assert(excess(middle(a)) < excess(middle((b - 1) as nat)));
    }
}

/// There is a nearest step.
pub proof fn nearest_exists(excess: spec_fn(nat) -> int) -> (step: nat)
    requires
        is_rising(excess),
        excess(0) <= 0,
    ensures
        is_nearest(excess, step),
{
    let low = last_below(excess, top());
    if low > 0 {
        grains_grow((low - 1) as nat, low);
        assert(excess(middle((low - 1) as nat)) < excess(2 * grains(low)));
    }
    if low == top() {
        low
    } else {
        grains_grow(low, low + 1);
        grains_grow(low + 1, low + 2);
        assert(excess(2 * grains(low + 1)) < excess(middle(low + 1)));
        if excess(middle(low)) > 0 || (excess(middle(low)) == 0 && low % 2 == 0) {
            low
        } else {
            low + 1
        }
    }
}

/// The last step up to `step` that is not above the exact value.
proof fn last_below(excess: spec_fn(nat) -> int, step: nat) -> (low: nat)
    requires
        is_rising(excess),
        excess(0) <= 0,
        step <= top(),
        step < top() ==> excess(2 * grains(step + 1)) > 0,
    ensures
        low <= step,
        excess(2 * grains(low)) <= 0,
        low < top() ==> excess(2 * grains(low + 1)) > 0,
    decreases step,
{
    if excess(2 * grains(step)) <= 0 {
        step
    } else {
        if step == 0 {
            assert(grains(0) == 0) by {
                octave_is_a_power();
            }
        }
        last_below(excess, (step - 1) as nat)
    }
}

pub proof fn quotient_is_rising(p: nat, q: nat)
    requires
        q > 0,
    ensures
        is_rising(over_quotient(p, q)),
        over_quotient(p, q)(0) <= 0,
{
    let excess = over_quotient(p, q);
    assert forall|a: nat, b: nat| a < b implies #[trigger] excess(a) < #[trigger] excess(b) by {
        assert(a * q < b * q) by (nonlinear_arith)
            requires
                a < b,
                q > 0,
        ;
    }
}

pub proof fn root_is_rising(y: nat)
    ensures
        is_rising(over_root(y)),
        over_root(y)(0) <= 0,
{
    let excess = over_root(y);
    assert forall|a: nat, b: nat| a < b implies #[trigger] excess(a) < #[trigger] excess(b) by {
        assert(a * a < b * b) by (nonlinear_arith)
            requires
                a < b,
        ;
    }
}

/// The nearest step to a quotient is what it is said to be.
pub proof fn nearest_quotient_is_nearest(p: nat, q: nat)
    requires
        q > 0,
    ensures
        is_nearest(over_quotient(p, q), nearest_quotient(p, q)),
{
    quotient_is_rising(p, q);
    let step = nearest_exists(over_quotient(p, q));
}

/// A step that is nearest to a quotient is the nearest.
pub proof fn nearest_quotient_is(p: nat, q: nat, step: nat)
    requires
        q > 0,
        is_nearest(over_quotient(p, q), step),
    ensures
        nearest_quotient(p, q) == step,
{
    quotient_is_rising(p, q);
    nearest_is_unique(over_quotient(p, q), step, nearest_quotient(p, q));
}

/// The larger a quotient, the higher its nearest step.
pub proof fn nearest_quotient_grows(p: nat, q: nat, r: nat, t: nat)
    requires
        q > 0,
        t > 0,
        p * t <= r * q,
    ensures
        nearest_quotient(p, q) <= nearest_quotient(r, t) <= top(),
{
    let a = nearest_quotient(p, q);
    let b = nearest_quotient(r, t);
    nearest_quotient_is_nearest(p, q);
    nearest_quotient_is_nearest(r, t);
    if a > b {
        let low = middle(b);
        let high = middle((a - 1) as nat);
        if a - 1 > b {
            middles_grow(b, (a - 1) as nat);
        }
        assert(over_quotient(p, q)(high) == high * q - 2 * p);
        assert(over_quotient(r, t)(low) == low * t - 2 * r);
        assert(high <= low) by (nonlinear_arith)
            requires
                q > 0,
                t > 0,
                p * t <= r * q,
                high * q <= 2 * p,
                low * t >= 2 * r,
        ;
        assert(high * q == 2 * p && low * t == 2 * r) by (nonlinear_arith)
            requires
                q > 0,
                t > 0,
                p * t <= r * q,
                high * q <= 2 * p,
                low * t >= 2 * r,
                high == low,
        ;
    }
}

/// A step that is nearest to a root is the nearest.
pub proof fn nearest_root_is(y: nat, step: nat)
    requires
        is_nearest(over_root(y), step),
    ensures
        nearest_root(y) == step,
{
    root_is_rising(y);
    nearest_is_unique(over_root(y), step, nearest_root(y));
}

} // verus!
