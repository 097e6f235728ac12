//! Binary numbers in double precision.

use vstd::arithmetic::power2::*;
use vstd::prelude::*;

use crate::number::Number;
use crate::packing::{
    at_most_times, bit_length, doublings, exact_mantissa, halvings, less_times, pack, power,
    power_of_127, quotient_lies_at, root_lies_at, times_no_power,
};
use crate::rounding::{
    grains, grains_grow, is_nearest, mantissa, middle, nearest_quotient, nearest_quotient_is,
    nearest_quotient_is_nearest, nearest_root, nearest_root_is, octave, octave_is_a_power, one,
    over_quotient, over_root, quotient_is_rising, root_is_rising, scale, top,
};

verus! {

/// A number in double precision: a sign in the highest bit and, in the others,
/// the step of the magnitude. The step behind the largest number is infinity;
/// those behind that are no numbers.
///
/// Every operation gives the number nearest to the exact result, and of two that
/// are equally near the one with an even step.
#[derive(Debug, Clone, Copy, PartialEq, Eq)]
pub struct Double {
    pub bits: u64,
}

/// The number at `step`, with its sign.
pub open spec fn signed_step(negative: bool, step: nat) -> Double {
    Double {
        bits: if negative {
            (0x8000_0000_0000_0000 + step) as u64
        } else {
            step as u64
        },
    }
}

/// The result of an operation that has none.
pub open spec fn no_number() -> Double {
    Double { bits: 0x7ff8_0000_0000_0000 }
}

/// The nearest integer to `x` that fits.
pub open spec fn fitted(x: int) -> i64 {
    if x > i64::MAX {
        i64::MAX
    } else if x < i64::MIN {
        i64::MIN
    } else {
        x as i64
    }
}

pub open spec fn absolute(x: int) -> nat {
    if x < 0 {
        (-x) as nat
    } else {
        x as nat
    }
}

impl Double {
    pub open spec fn is_negative(self) -> bool {
        self.bits >= 0x8000_0000_0000_0000
    }

    /// The step of the magnitude.
    pub open spec fn step(self) -> nat {
        if self.is_negative() {
            (self.bits - 0x8000_0000_0000_0000) as nat
        } else {
            self.bits as nat
        }
    }

    pub open spec fn is_no_number(self) -> bool {
        self.step() > top()
    }

    pub open spec fn is_infinite(self) -> bool {
        self.step() == top()
    }

    /// The number in grains.
    pub open spec fn value(self) -> int {
        if self.is_negative() {
            -(grains(self.step()) as int)
        } else {
            grains(self.step()) as int
        }
    }

    /// The step with its sign: numbers compare as their ranks do.
    pub open spec fn rank(self) -> int {
        if self.is_negative() {
            -(self.step() as int)
        } else {
            self.step() as int
        }
    }

    fn negative(self) -> (r: bool)
        ensures
            r == self.is_negative(),
    {
        self.bits >= 0x8000_0000_0000_0000
    }

    fn magnitude_step(self) -> (r: u64)
        ensures
            r == self.step(),
            r < 0x8000_0000_0000_0000,
    {
        if self.bits >= 0x8000_0000_0000_0000 {
            self.bits - 0x8000_0000_0000_0000
        } else {
            self.bits
        }
    }
}

fn with_sign(negative: bool, step: u64) -> (r: Double)
    requires
        step < 0x8000_0000_0000_0000,
    ensures
        r == signed_step(negative, step as nat),
{
    if negative {
        Double { bits: 0x8000_0000_0000_0000 + step }
    } else {
        Double { bits: step }
    }
}

/// Mantissa and scale of the number at `step`.
fn split_step(step: u64) -> (r: (u64, u32))
    requires
        step < top(),
    ensures
        r.0 == mantissa(step as nat),
        r.1 == scale(step as nat),
        r.0 < 2 * octave(),
        r.1 <= 2045,
        r.1 == 0 || r.0 >= octave(),
        grains(step as nat) == r.0 * pow2(r.1 as nat),
        r.0 == 0 ==> step == 0,
{
    if step < 0x10_0000_0000_0000 {
        (step, 0)
    } else {
        (
            0x10_0000_0000_0000 + step % 0x10_0000_0000_0000,
            (step / 0x10_0000_0000_0000 - 1) as u32,
        )
    }
}

/// The step nearest to a quotient with known leading digits.
fn pack_quotient(n: u128, e: i32, inexact: bool, Ghost(p): Ghost<nat>, Ghost(q): Ghost<nat>) -> (r:
    u64)
    requires
        q > 0,
        n * (q * pow2(doublings(e as int))) <= 2 * p * pow2(halvings(e as int)) < (n + 1) * (q
            * pow2(doublings(e as int))),
        inexact <==> n * (q * pow2(doublings(e as int))) != 2 * p * pow2(halvings(e as int)),
        -5000 <= e <= 5000,
        inexact ==> n >= 2 * octave(),
    ensures
        r == nearest_quotient(p, q),
        r <= top(),
{
    proof {
        quotient_lies_at(p, q, n as nat, e as int, inexact);
        quotient_is_rising(p, q);
    }
    let step = pack(n, e, inexact, Ghost(over_quotient(p, q)));
    proof {
        nearest_quotient_is(p, q, step as nat);
    }
    step
}

/// The step of a whole number.
fn whole_step(n: u64) -> (r: u64)
    ensures
        r == nearest_quotient(n as nat * one(), 1),
        r <= top(),
{
    proof {
        let w = pow2(1075);
        lemma_pow2_unfold(1075);
        lemma_pow2_pos(1075);
        let p = n as nat * one();
        times_no_power(2 * p, 0);
        assert(n * (1 * w) == 2 * p) by (nonlinear_arith)
            requires
                w == 2 * one(),
                p == n * one(),
        ;
        assert((n + 1) * (1 * w) == n * (1 * w) + w) by (nonlinear_arith);
    }
    pack_quotient(n as u128, 1075, false, Ghost(n as nat * one()), Ghost(1))
}

/// The exponents of a product add up.
proof fn product_digits(ma: nat, ta: nat, mb: nat, tb: nat, e: int)
    requires
        e == ta + tb + 1 - 1074,
    ensures
        (ma * mb) * (one() * pow2(doublings(e))) == 2 * ((ma * pow2(ta)) * (mb * pow2(tb))) * pow2(
            halvings(e),
        ),
{
    let u = pow2(doublings(e));
    let d = pow2(halvings(e));
    let a = pow2(ta);
    let b = pow2(tb);
    lemma_pow2_adds(1074, doublings(e));
    lemma_pow2_adds(ta, tb);
    lemma_pow2_adds(ta + tb, 1);
    lemma_pow2_adds(ta + tb + 1, halvings(e));
    octave_is_a_power();
    assert(ta + tb + 1 + halvings(e) == 1074 + doublings(e));
    assert(one() * u == ((a * b) * 2) * d);
    assert((ma * mb) * (((a * b) * 2) * d) == 2 * ((ma * a) * (mb * b)) * d) by (nonlinear_arith);
}

/// The step of a product.
fn product_step(a: u64, b: u64) -> (r: u64)
    requires
        a < top(),
        b < top(),
    ensures
        r == nearest_quotient(grains(a as nat) * grains(b as nat), one()),
        r <= top(),
{
    let (ma, ta) = split_step(a);
    let (mb, tb) = split_step(b);
    let e: i32 = ta as i32 + tb as i32 + 1 - 1074;
    assert(ma * mb < 0x80000000000000000000000000000) by (nonlinear_arith)
        requires
            ma < 0x20_0000_0000_0000,
            mb < 0x20_0000_0000_0000,
    ;
    let n: u128 = ma as u128 * mb as u128;
    proof {
        product_digits(ma as nat, ta as nat, mb as nat, tb as nat, e as int);
        lemma_pow2_pos(1074);
        lemma_pow2_pos(doublings(e as int));
        let b = one() * pow2(doublings(e as int));
        assert(b > 0) by (nonlinear_arith)
            requires
                one() > 0,
                pow2(doublings(e as int)) > 0,
                b == one() * pow2(doublings(e as int)),
        ;
        less_times(n as nat, n as nat + 1, b);
    }
    pack_quotient(n, e, false, Ghost(grains(a as nat) * grains(b as nat)), Ghost(one()))
}

/// A mantissa shifted up until its first digit is in place, and by how much.
fn normalized(m: u64) -> (r: (u64, u32))
    requires
        0 < m < 2 * octave(),
    ensures
        r.0 == m * pow2(r.1 as nat),
        octave() <= r.0 < 2 * octave(),
        r.1 <= 52,
{
    let len = bit_length(m as u128);
    proof {
        octave_is_a_power();
        if len > 53 {
            if len > 54 {
                lemma_pow2_strictly_increases(53, (len - 1) as nat);
            }
            assert(false);
        }
        exact_mantissa(m as nat, len as nat, (53 - len) as nat, pow2((53 - len) as nat));
    }
    let z: u32 = 53 - len;
    let w = power(z);
    ((m as u128 * w) as u64, z)
}

/// The exponents of a quotient.
proof fn quotient_digits(
    m: nat,
    ta: nat,
    z: nat,
    mb: nat,
    tb: nat,
    e: int,
    k: nat,
    n: nat,
    inexact: bool,
)
    requires
        e == ta - z - tb + 1001,
        mb > 0,
        k == (m * pow2(z)) * pow2(74),
        n * mb <= k < (n + 1) * mb,
        inexact <==> n * mb != k,
    ensures
        ({
            let q = mb * pow2(tb);
            let p = (m * pow2(ta)) * one();
            let b = q * pow2(doublings(e));
            let a = 2 * p * pow2(halvings(e));
            &&& q > 0
            &&& n * b <= a < (n + 1) * b
            &&& inexact <==> n * b != a
        }),
{
    let u = pow2(doublings(e));
    let d = pow2(halvings(e));
    let q = mb * pow2(tb);
    let p = (m * pow2(ta)) * one();
    let b = q * u;
    let a = 2 * p * d;
    let y = pow2(z);
    let w = pow2((ta + 1001 + halvings(e)) as nat);
    lemma_pow2_pos(tb);
    lemma_pow2_pos(z);
    lemma_pow2_pos((ta + 1001 + halvings(e)) as nat);
    assert(q > 0) by (nonlinear_arith)
        requires
            mb > 0,
            pow2(tb) > 0,
            q == mb * pow2(tb),
    ;
    // Both sides times the shift are the digits times one width.
    lemma_pow2_adds(tb, doublings(e));
    lemma_pow2_adds((tb + doublings(e)) as nat, z);
    assert(tb + doublings(e) + z == ta + 1001 + halvings(e));
    assert((pow2(tb) * u) * y == w);
    assert(b * y == mb * w) by (nonlinear_arith)
        requires
            b == (mb * pow2(tb)) * u,
            (pow2(tb) * u) * y == w,
    ;
    lemma_pow2_adds(ta, 1074);
    lemma_pow2_adds((ta + 1074) as nat, 1);
    lemma_pow2_adds((ta + 1075) as nat, halvings(e));
    lemma_pow2_adds(74, (ta + 1001 + halvings(e)) as nat);
    octave_is_a_power();
    assert(((pow2(ta) * one()) * 2) * d == pow2(74) * w);
    assert(a * y == k * w) by (nonlinear_arith)
        requires
            a == 2 * ((m * pow2(ta)) * one()) * d,
            ((pow2(ta) * one()) * 2) * d == pow2(74) * w,
            k == (m * y) * pow2(74),
    ;
    assert((n * b) * y == (n * mb) * w) by (nonlinear_arith)
        requires
            b * y == mb * w,
    ;
    assert(((n + 1) * b) * y == ((n + 1) * mb) * w) by (nonlinear_arith)
        requires
            b * y == mb * w,
    ;
    at_most_times(n * mb, k, w);
    less_times(k, (n + 1) * mb, w);
    if n * mb < k {
        less_times(n * mb, k, w);
    }
    assert(n * b <= a) by (nonlinear_arith)
        requires
            (n * b) * y <= a * y,
            y > 0,
    ;
    assert(a < (n + 1) * b) by (nonlinear_arith)
        requires
            a * y < ((n + 1) * b) * y,
            y > 0,
    ;
    assert(n * mb == k ==> n * b == a) by (nonlinear_arith)
        requires
            n * mb == k ==> (n * b) * y == a * y,
            y > 0,
    ;
}

/// The step of a quotient.
fn quotient_step(a: u64, b: u64) -> (r: u64)
    requires
        0 < a < top(),
        0 < b < top(),
    ensures
        r == nearest_quotient(grains(a as nat) * one(), grains(b as nat)),
        r <= top(),
{
    let (ma, ta) = split_step(a);
    let (mb, tb) = split_step(b);
    let (m, z) = normalized(ma);
    let e: i32 = ta as i32 - z as i32 - tb as i32 + 1001;
    let w = power(74);
    proof {
        octave_is_a_power();
        lemma2_to64();
        lemma_pow2_adds(64, 10);
        power_of_127();
    }
    assert(w == 0x4000000000000000000);
    assert(m * w < 0x80000000000000000000000000000000) by (nonlinear_arith)
        requires
            m < 0x20_0000_0000_0000,
            w == 0x4000000000000000000,
    ;
    assert(m * w >= 0x40000000000000000000000000000000) by (nonlinear_arith)
        requires
            m >= 0x10_0000_0000_0000,
            w == 0x4000000000000000000,
    ;
    let k: u128 = m as u128 * w;
    let n: u128 = k / mb as u128;
    let rest: u128 = k % mb as u128;
    proof {
        let q = n as int;
        let d = mb as int;
        assert(k == d * q + rest && 0 <= rest < d) by (nonlinear_arith)
            requires
                d > 0,
                q == k as int / d,
                rest == k as int % d,
        ;
        assert(q * d == d * q) by (nonlinear_arith);
        assert((q + 1) * d == d * q + d) by (nonlinear_arith);
        if q < 2 * octave() {
            assert((q + 1) * d <= 0x20_0000_0000_0000 * 0x20_0000_0000_0000) by (nonlinear_arith)
                requires
                    q + 1 <= 0x20_0000_0000_0000,
                    0 < d <= 0x20_0000_0000_0000,
                    q + 1 >= 0,
            ;
            assert(false);
        }
        quotient_digits(
            ma as nat,
            ta as nat,
            z as nat,
            mb as nat,
            tb as nat,
            e as int,
            k as nat,
            n as nat,
            rest != 0,
        );
    }
    pack_quotient(
        n,
        e,
        rest != 0,
        Ghost(grains(a as nat) * one()),
        Ghost(grains(b as nat)),
    )
}

/// The digits of two numbers on one scale.
proof fn aligned_digits(ma: nat, ta: nat, mb: nat, tb: nat)
    requires
        ta >= tb,
    ensures
        ({
            let w = pow2((ta - tb) as nat);
            let b = 1 * pow2(doublings(tb as int + 1));
            let ga = ma * pow2(ta);
            let gb = mb * pow2(tb);
            &&& b > 0
            &&& pow2(halvings(tb as int + 1)) == 1
            &&& (ma * w) * b == 2 * ga
            &&& mb * b == 2 * gb
        }),
{
    let w = pow2((ta - tb) as nat);
    let x = pow2(tb);
    lemma_pow2_adds((ta - tb) as nat, tb);
    lemma_pow2_unfold((tb + 1) as nat);
    lemma_pow2_pos(tb);
    octave_is_a_power();
    let b = 1 * pow2(doublings(tb as int + 1));
    assert(b == 2 * x);
    assert((ma * w) * b == 2 * (ma * (w * x))) by (nonlinear_arith)
        requires
            b == 2 * x,
    ;
    assert(mb * b == 2 * (mb * x)) by (nonlinear_arith)
        requires
            b == 2 * x,
    ;
}

/// A number that lies far below another is less than a digit of it.
proof fn far_digits(ma: nat, ta: nat, mb: nat, tb: nat)
    requires
        ta > tb + 70,
        mb < 2 * octave(),
    ensures
        ({
            let b = 1 * pow2(doublings(ta - 9));
            let ga = ma * pow2(ta);
            let gb = mb * pow2(tb);
            &&& pow2(halvings(ta - 9)) == 1
            &&& (ma * 1024) * b == 2 * ga
            &&& 2 * gb < b
            &&& mb > 0 ==> gb > 0
        }),
{
    octave_is_a_power();
    lemma2_to64();
    let b = 1 * pow2(doublings(ta - 9));
    lemma_pow2_adds((ta - 9) as nat, 9);
    lemma_pow2_pos(tb);
    let x = pow2((ta - 9) as nat);
    assert(b == x);
    assert((ma * 1024) * x == 2 * (ma * (x * 512))) by (nonlinear_arith);
    less_times(mb, pow2(53), pow2(tb));
    lemma_pow2_adds(53, tb);
    lemma_pow2_unfold((54 + tb) as nat);
    lemma_pow2_strictly_increases((54 + tb) as nat, (ta - 9) as nat);
    assert(mb > 0 ==> mb * pow2(tb) > 0) by (nonlinear_arith)
        requires
            pow2(tb) > 0,
    ;
}

/// The step of a sum of magnitudes.
fn sum_step(a: u64, b: u64) -> (r: u64)
    requires
        b <= a < top(),
    ensures
        r == nearest_quotient(grains(a as nat) + grains(b as nat), 1),
        r <= top(),
{
    let (ma, ta) = split_step(a);
    let (mb, tb) = split_step(b);
    proof {
        scales_grow(b as nat, a as nat);
    }
    let ghost p = grains(a as nat) + grains(b as nat);
    if ta - tb <= 70 {
        let w = power(ta - tb);
        proof {
            bounded_power((ta - tb) as nat);
            aligned_digits(ma as nat, ta as nat, mb as nat, tb as nat);
        }
        assert(ma * w <= 0x20_0000_0000_0000 * 0x400000000000000000) by (nonlinear_arith)
            requires
                ma <= 0x20_0000_0000_0000,
                w <= 0x400000000000000000,
        ;
        let n: u128 = ma as u128 * w + mb as u128;
        proof {
            let d = 1 * pow2(doublings(tb + 1));
            let x = ma * w;
            assert((x + mb) * d == x * d + mb * d) by (nonlinear_arith);
            assert((n + 1) * d == n * d + d) by (nonlinear_arith);
            assert(2 * p * 1 == 2 * p);
        }
        pack_quotient(n, tb as i32 + 1, false, Ghost(p), Ghost(1))
    } else {
        let n: u128 = ma as u128 * 1024;
        proof {
            far_digits(ma as nat, ta as nat, mb as nat, tb as nat);
            let d = 1 * pow2(doublings(ta - 9));
            assert((n + 1) * d == n * d + d) by (nonlinear_arith);
            assert(2 * p * 1 == 2 * p);
            if mb == 0 {
                assert(mb * pow2(tb as nat) == 0) by (nonlinear_arith)
                    requires
                        mb == 0,
                ;
            }
        }
        pack_quotient(n, ta as i32 - 9, mb != 0, Ghost(p), Ghost(1))
    }
}

/// The step of a difference of magnitudes.
fn difference_step(a: u64, b: u64) -> (r: u64)
    requires
        b < a < top(),
    ensures
        r == nearest_quotient((grains(a as nat) - grains(b as nat)) as nat, 1),
        r <= top(),
{
    let (ma, ta) = split_step(a);
    let (mb, tb) = split_step(b);
    proof {
        scales_grow(b as nat, a as nat);
        grains_grow(b as nat, a as nat);
    }
    let ghost p = (grains(a as nat) - grains(b as nat)) as nat;
    if ta - tb <= 70 {
        let w = power(ta - tb);
        proof {
            bounded_power((ta - tb) as nat);
            aligned_digits(ma as nat, ta as nat, mb as nat, tb as nat);
        }
        assert(ma * w <= 0x20_0000_0000_0000 * 0x400000000000000000) by (nonlinear_arith)
            requires
                ma <= 0x20_0000_0000_0000,
                w <= 0x400000000000000000,
        ;
        let x: u128 = ma as u128 * w;
        proof {
            let d = 1 * pow2(doublings(tb + 1));
            assert(x > mb) by (nonlinear_arith)
                requires
                    x * d > mb * d,
                    d > 0,
            ;
        }
        let n: u128 = x - mb as u128;
        proof {
            let d = 1 * pow2(doublings(tb + 1));
            assert((x - mb) * d == x * d - mb * d) by (nonlinear_arith);
            assert((n + 1) * d == n * d + d) by (nonlinear_arith);
            assert(2 * p * 1 == 2 * p);
        }
        pack_quotient(n, tb as i32 + 1, false, Ghost(p), Ghost(1))
    } else if mb == 0 {
        let n: u128 = ma as u128 * 1024;
        proof {
            far_digits(ma as nat, ta as nat, mb as nat, tb as nat);
            let d = 1 * pow2(doublings(ta - 9));
            assert((n + 1) * d == n * d + d) by (nonlinear_arith);
            assert(2 * p * 1 == 2 * p);
            assert(mb * pow2(tb as nat) == 0) by (nonlinear_arith)
                requires
                    mb == 0,
            ;
        }
        pack_quotient(n, ta as i32 - 9, false, Ghost(p), Ghost(1))
    } else {
        let n: u128 = ma as u128 * 1024 - 1;
        proof {
            far_digits(ma as nat, ta as nat, mb as nat, tb as nat);
            let d = 1 * pow2(doublings(ta - 9));
            assert((n + 1) * d == n * d + d) by (nonlinear_arith);
            assert(2 * p * 1 == 2 * p);
        }
        pack_quotient(n, ta as i32 - 9, true, Ghost(p), Ghost(1))
    }
}

proof fn scales_grow(a: nat, b: nat)
    requires
        a <= b,
    ensures
        scale(a) <= scale(b),
{
    if a >= octave() {
        assert(a / octave() <= b / octave());
    }
}

proof fn bounded_power(c: nat)
    requires
        c <= 70,
    ensures
        pow2(c) <= 0x400000000000000000,
{
    lemma2_to64();
    lemma_pow2_adds(64, 6);
    if c < 70 {
        lemma_pow2_strictly_increases(c, 70);
    }
}

/// The whole part of a square root.
fn whole_root(n: u128) -> (r: u64)
    requires
        n < 0x10000000000000000000000000000000,
    ensures
        r * r <= n < (r + 1) * (r + 1),
{
    let mut low: u64 = 0;
    let mut high: u64 = 0x4000_0000_0000_0000;
    while high - low > 1
        invariant
            low < high <= 0x4000_0000_0000_0000,
            low * low <= n < high * high,
        decreases high - low,
    {
        let mid: u64 = (low + high) / 2;
        assert(mid * mid <= 0x4000_0000_0000_0000 * 0x4000_0000_0000_0000) by (nonlinear_arith)
            requires
                mid <= 0x4000_0000_0000_0000,
        ;
        if mid as u128 * mid as u128 <= n {
            low = mid;
        } else {
            high = mid;
        }
    }
    low
}

/// The exponents of a root.
proof fn root_digits(m: nat, ta: nat, z: nat, j: nat, e: nat, u: nat, r: nat, inexact: bool)
    requires
        ta + 1074 >= z + j,
        2 * (e - 1) == ta + 1074 - z - j,
        e >= 1,
        u == (m * pow2(z)) * pow2(j),
        r * r <= u < (r + 1) * (r + 1),
        inexact <==> r * r != u,
    ensures
        ({
            let y = (m * pow2(ta)) * one();
            let low = r * pow2(e);
            let high = (r + 1) * pow2(e);
            &&& low * low <= 4 * y < high * high
            &&& inexact <==> low * low != 4 * y
        }),
{
    let y = (m * pow2(ta)) * one();
    let x = pow2(e);
    let low = r * x;
    let high = (r + 1) * x;
    let f = pow2((e - 1) as nat);
    let s = pow2(z);
    let v = pow2((ta + 1074 - j) as nat);
    let rest = pow2((ta + 1074 - z - j) as nat);
    octave_is_a_power();
    lemma_pow2_unfold(e);
    lemma_pow2_adds((e - 1) as nat, (e - 1) as nat);
    lemma_pow2_adds((ta + 1074 - z - j) as nat, z);
    lemma_pow2_adds(ta, 1074);
    lemma_pow2_adds(j, (ta + 1074 - j) as nat);
    lemma_pow2_pos(z);
    lemma_pow2_pos((ta + 1074 - j) as nat);
    assert(f * f == rest);
    assert(rest * s == v);
    assert(x == 2 * f);
    assert(x * x == 4 * rest) by (nonlinear_arith)
        requires
            x == 2 * f,
            f * f == rest,
    ;
    assert(pow2(ta) * one() == pow2(j) * v);
    assert((low * low) * s == (r * r) * (4 * v)) by (nonlinear_arith)
        requires
            low == r * x,
            x * x == 4 * rest,
            rest * s == v,
    ;
    assert((high * high) * s == ((r + 1) * (r + 1)) * (4 * v)) by (nonlinear_arith)
        requires
            high == (r + 1) * x,
            x * x == 4 * rest,
            rest * s == v,
    ;
    assert((4 * y) * s == u * (4 * v)) by (nonlinear_arith)
        requires
            y == (m * pow2(ta)) * one(),
            pow2(ta) * one() == pow2(j) * v,
            u == (m * s) * pow2(j),
    ;
    at_most_times(r * r, u, 4 * v);
    less_times(u, (r + 1) * (r + 1), 4 * v);
    if r * r < u {
        less_times(r * r, u, 4 * v);
    }
    assert(low * low <= 4 * y) by (nonlinear_arith)
        requires
            (low * low) * s <= (4 * y) * s,
            s > 0,
    ;
    assert(4 * y < high * high) by (nonlinear_arith)
        requires
            (4 * y) * s < (high * high) * s,
            s > 0,
    ;
    assert(r * r == u ==> low * low == 4 * y) by (nonlinear_arith)
        requires
            r * r == u ==> (low * low) * s == (4 * y) * s,
            s > 0,
    ;
}

/// The step of a square root.
fn root_step(a: u64) -> (r: u64)
    requires
        0 < a < top(),
    ensures
        r == nearest_root(grains(a as nat) * one()),
        r <= top(),
{
    let (ma, ta) = split_step(a);
    let (m, z) = normalized(ma);
    let k: u32 = ta + 1074 - z;
    let j: u32 = if k % 2 == 0 {
        70
    } else {
        71
    };
    let e: u32 = (k - j) / 2 + 1;
    let w = power(j);
    proof {
        lemma2_to64();
        lemma_pow2_adds(64, 6);
        lemma_pow2_adds(64, 7);
    }
    assert(0x400000000000000000 <= w <= 0x800000000000000000);
    assert(0x4000000000000000000000000000000 <= m * w < 0x10000000000000000000000000000000)
        by (nonlinear_arith)
        requires
            0x10_0000_0000_0000 <= m < 0x20_0000_0000_0000,
            0x400000000000000000 <= w <= 0x800000000000000000,
    ;
    let u: u128 = m as u128 * w;
    let r = whole_root(u);
    let inexact: bool = r as u128 * r as u128 != u;
    let ghost y = grains(a as nat) * one();
    proof {
        root_digits(
            ma as nat,
            ta as nat,
            z as nat,
            j as nat,
            e as nat,
            u as nat,
            r as nat,
            inexact,
        );
        root_lies_at(y, r as nat, e as nat, inexact);
        root_is_rising(y);
        if r < 2 * octave() {
            assert((r + 1) * (r + 1) <= 0x20_0000_0000_0000 * 0x20_0000_0000_0000)
                by (nonlinear_arith)
                requires
                    0 <= r < 0x20_0000_0000_0000,
            ;
            assert(false);
        }
    }
    let step = pack(r as u128, e as i32, inexact, Ghost(over_root(y)));
    proof {
        nearest_root_is(y, step as nat);
    }
    step
}

pub proof fn quotient_is(a: int, b: int, q: int)
    requires
        b > 0,
        q * b <= a < (q + 1) * b,
    ensures
        a / b == q,
{
    assert((q + 1) * b == q * b + b) by (nonlinear_arith);
    vstd::arithmetic::div_mod::lemma_fundamental_div_mod_converse(a, b, q, a - q * b);
}

/// A large number is whole.
proof fn large_numbers_are_whole(m: nat, t: nat)
    requires
        t >= 1074,
    ensures
        (m * pow2(t)) / one() == m * pow2((t - 1074) as nat),
        (2 * (m * pow2(t)) + one()) / (2 * one()) == m * pow2((t - 1074) as nat),
{
    let g = m * pow2(t);
    let q = m * pow2((t - 1074) as nat);
    lemma_pow2_adds((t - 1074) as nat, 1074);
    lemma_pow2_pos(1074);
    assert(g == q * one()) by (nonlinear_arith)
        requires
            g == m * (pow2((t - 1074) as nat) * one()),
            q == m * pow2((t - 1074) as nat),
    ;
    assert((q + 1) * one() == q * one() + one()) by (nonlinear_arith);
    assert(q * (2 * one()) == 2 * (q * one())) by (nonlinear_arith);
    assert((q + 1) * (2 * one()) == 2 * (q * one()) + 2 * one()) by (nonlinear_arith);
    quotient_is(g as int, one() as int, q as int);
    quotient_is((2 * g + one()) as int, (2 * one()) as int, q as int);
}

/// A small number over one is its mantissa over a power.
proof fn small_numbers_have_parts(m: nat, t: nat, q: nat, r: nat)
    requires
        t < 1074,
        q * pow2((1074 - t) as nat) <= m < (q + 1) * pow2((1074 - t) as nat),
        r * (2 * pow2((1074 - t) as nat)) <= 2 * m + pow2((1074 - t) as nat) < (r + 1) * (2 * pow2(
            (1074 - t) as nat,
        )),
    ensures
        (m * pow2(t)) / one() == q,
        (2 * (m * pow2(t)) + one()) / (2 * one()) == r,
{
    let w = pow2((1074 - t) as nat);
    let x = pow2(t);
    lemma_pow2_adds((1074 - t) as nat, t);
    lemma_pow2_pos(1074);
    lemma_pow2_pos(t);
    assert(one() == w * x);
    let g = m * x;
    assert(q * one() <= g < (q + 1) * one()) by (nonlinear_arith)
        requires
            q * w <= m < (q + 1) * w,
            g == m * x,
            one() == w * x,
            x > 0,
    ;
    assert(r * (2 * one()) <= 2 * g + one() < (r + 1) * (2 * one())) by (nonlinear_arith)
        requires
            r * (2 * w) <= 2 * m + w < (r + 1) * (2 * w),
            g == m * x,
            one() == w * x,
            x > 0,
    ;
    quotient_is(g as int, one() as int, q as int);
    quotient_is((2 * g + one()) as int, (2 * one()) as int, r as int);
}

/// The whole part of the number at `step`, and the nearest whole number, as far
/// as they fit.
fn whole_numbers(step: u64) -> (r: (u64, u64))
    requires
        step < top(),
    ensures
        ({
            let part = grains(step as nat) / one();
            let near = (2 * grains(step as nat) + one()) / (2 * one());
            &&& r.0 == (if part > u64::MAX {
                u64::MAX as nat
            } else {
                part
            })
            &&& r.1 == (if near > u64::MAX {
                u64::MAX as nat
            } else {
                near
            })
        }),
{
    let (m, t) = split_step(step);
    proof {
        octave_is_a_power();
        lemma2_to64();
    }
    if t >= 1074 {
        proof {
            large_numbers_are_whole(m as nat, t as nat);
        }
        let c: u32 = t - 1074;
        if c >= 12 {
            proof {
                if c > 12 {
                    lemma_pow2_strictly_increases(12, c as nat);
                }
                assert(m * pow2(c as nat) >= 0x10_0000_0000_0000 * 0x1000) by (nonlinear_arith)
                    requires
                        m >= 0x10_0000_0000_0000,
                        pow2(c as nat) >= 0x1000,
                ;
            }
            (u64::MAX, u64::MAX)
        } else {
            let w = power(c);
            proof {
                if c < 11 {
                    lemma_pow2_strictly_increases(c as nat, 11);
                }
                assert(m * w <= 0x1f_ffff_ffff_ffff * 0x800) by (nonlinear_arith)
                    requires
                        m <= 0x1f_ffff_ffff_ffff,
                        w <= 0x800,
                ;
            }
            let n: u128 = m as u128 * w;
            (n as u64, n as u64)
        }
    } else {
        let c: u32 = 1074 - t;
        if c >= 54 {
            proof {
                if c > 54 {
                    lemma_pow2_strictly_increases(54, c as nat);
                }
                let w = pow2(c as nat);
                assert((0 + 1) * w == w) by (nonlinear_arith);
                assert((0 + 1) * (2 * w) == 2 * w) by (nonlinear_arith);
                assert(0 * w == 0 && 0 * (2 * w) == 0) by (nonlinear_arith);
                lemma2_to64_rest();
                small_numbers_have_parts(m as nat, t as nat, 0, 0);
            }
            (0, 0)
        } else {
            let w = power(c) as u128;
            proof {
                lemma_pow2_strictly_increases(c as nat, 54);
                lemma2_to64_rest();
                lemma_pow2_pos(c as nat);
            }
            let q: u128 = m as u128 / w;
            let r: u128 = (2 * m as u128 + w) / (2 * w);
            proof {
                divides(m as int, w as int);
                divides(2 * m + w, 2 * w);
                small_numbers_have_parts(m as nat, t as nat, q as nat, r as nat);
                assert(q <= m) by (nonlinear_arith)
                    requires
                        q * w <= m,
                        w >= 1,
                ;
                assert(r <= 2 * m + w) by (nonlinear_arith)
                    requires
                        r * (2 * w) <= 2 * m + w,
                        w >= 1,
                        r >= 0,
                ;
            }
            (q as u64, r as u64)
        }
    }
}

proof fn divides(a: int, b: int)
    requires
        b > 0,
    ensures
        (a / b) * b <= a < (a / b + 1) * b,
{
    assert((a / b) * b <= a < (a / b + 1) * b) by (nonlinear_arith)
        requires
            b > 0,
    ;
}

impl Number for Double {
    open spec fn whole(n: u64) -> Self {
        signed_step(false, nearest_quotient(n as nat * one(), 1))
    }

    open spec fn signed(n: i64) -> Self {
        signed_step(n < 0, nearest_quotient(absolute(n as int) * one(), 1))
    }

    open spec fn spec_plus(self, other: Self) -> Self {
        let sum = self.value() + other.value();
        if self.is_no_number() || other.is_no_number() {
            no_number()
        } else if self.is_infinite() && other.is_infinite() {
            if self.is_negative() == other.is_negative() {
                self
            } else {
                no_number()
            }
        } else if self.is_infinite() {
            self
        } else if other.is_infinite() {
            other
        } else if sum == 0 {
            signed_step(self.is_negative() && other.is_negative(), 0)
        } else {
            signed_step(sum < 0, nearest_quotient(absolute(sum), 1))
        }
    }

    open spec fn spec_minus(self, other: Self) -> Self {
        self.spec_plus(signed_step(!other.is_negative(), other.step()))
    }

    open spec fn spec_times(self, other: Self) -> Self {
        let negative = self.is_negative() != other.is_negative();
        if self.is_no_number() || other.is_no_number() {
            no_number()
        } else if self.is_infinite() || other.is_infinite() {
            if self.step() == 0 || other.step() == 0 {
                no_number()
            } else {
                signed_step(negative, top())
            }
        } else {
            signed_step(
                negative,
                nearest_quotient(grains(self.step()) * grains(other.step()), one()),
            )
        }
    }

    open spec fn spec_over(self, other: Self) -> Self {
        let negative = self.is_negative() != other.is_negative();
        if self.is_no_number() || other.is_no_number() {
            no_number()
        } else if self.is_infinite() {
            if other.is_infinite() {
                no_number()
            } else {
                signed_step(negative, top())
            }
        } else if other.is_infinite() {
            signed_step(negative, 0)
        } else if other.step() == 0 {
            if self.step() == 0 {
                no_number()
            } else {
                signed_step(negative, top())
            }
        } else {
            signed_step(
                negative,
                nearest_quotient(grains(self.step()) * one(), grains(other.step())),
            )
        }
    }

    open spec fn spec_magnitude(self) -> Self {
        signed_step(false, self.step())
    }

    open spec fn spec_root(self) -> Self {
        if self.is_no_number() {
            no_number()
        } else if self.step() == 0 {
            self
        } else if self.is_negative() {
            no_number()
        } else if self.is_infinite() {
            self
        } else {
            signed_step(false, nearest_root(grains(self.step()) * one()))
        }
    }

    open spec fn spec_larger(self, other: Self) -> Self {
        if self.is_no_number() || self.spec_below(other) {
            other
        } else {
            self
        }
    }

    open spec fn spec_smaller(self, other: Self) -> Self {
        if self.is_no_number() || other.spec_below(self) {
            other
        } else {
            self
        }
    }

    open spec fn spec_below(self, other: Self) -> bool {
        !self.is_no_number() && !other.is_no_number() && self.rank() < other.rank()
    }

    open spec fn spec_at_most(self, other: Self) -> bool {
        !self.is_no_number() && !other.is_no_number() && self.rank() <= other.rank()
    }

    open spec fn spec_is_finite(self) -> bool {
        self.step() < top()
    }

    open spec fn spec_rounded(self) -> i64 {
        let near = ((2 * grains(self.step()) + one()) / (2 * one())) as int;
        if self.is_no_number() {
            0
        } else if self.is_infinite() {
            if self.is_negative() {
                i64::MIN
            } else {
                i64::MAX
            }
        } else if self.is_negative() {
            fitted(-near)
        } else {
            fitted(near)
        }
    }

    open spec fn spec_whole_part(self) -> u64 {
        let part = grains(self.step()) / one();
        if self.is_no_number() || self.is_negative() {
            0
        } else if self.is_infinite() || part > u64::MAX {
            u64::MAX
        } else {
            part as u64
        }
    }

    fn from_u64(n: u64) -> (r: Self) {
        with_sign(false, whole_step(n))
    }

    fn from_i64(n: i64) -> (r: Self) {
        if n < 0 {
            let m: u64 = (-(n as i128)) as u64;
            with_sign(true, whole_step(m))
        } else {
            with_sign(false, whole_step(n as u64))
        }
    }

    fn plus(self, other: Self) -> (r: Self) {
        let a = self.magnitude_step();
        let b = other.magnitude_step();
        let x = self.negative();
        let y = other.negative();
        if a > 0x7ff0_0000_0000_0000 || b > 0x7ff0_0000_0000_0000 {
            return Double { bits: 0x7ff8_0000_0000_0000 };
        }
        if a == 0x7ff0_0000_0000_0000 {
            if b == 0x7ff0_0000_0000_0000 && x != y {
                return Double { bits: 0x7ff8_0000_0000_0000 };
            }
            return self;
        }
        if b == 0x7ff0_0000_0000_0000 {
            return other;
        }
        proof {
            zero_has_no_grains(a as nat);
            zero_has_no_grains(b as nat);
            if a < b {
                grains_grow(a as nat, b as nat);
            } else if b < a {
                grains_grow(b as nat, a as nat);
            }
        }
        if x == y {
            if a == 0 && b == 0 {
                with_sign(x, 0)
            } else if a >= b {
                with_sign(x, sum_step(a, b))
            } else {
                with_sign(x, sum_step(b, a))
            }
        } else if a == b {
            with_sign(false, 0)
        } else if a > b {
            with_sign(x, difference_step(a, b))
        } else {
            with_sign(y, difference_step(b, a))
        }
    }

    fn minus(self, other: Self) -> (r: Self) {
        self.plus(with_sign(!other.negative(), other.magnitude_step()))
    }

    fn times(self, other: Self) -> (r: Self) {
        let a = self.magnitude_step();
        let b = other.magnitude_step();
        let negative = self.negative() != other.negative();
        if a > 0x7ff0_0000_0000_0000 || b > 0x7ff0_0000_0000_0000 {
            return Double { bits: 0x7ff8_0000_0000_0000 };
        }
        if a == 0x7ff0_0000_0000_0000 || b == 0x7ff0_0000_0000_0000 {
            if a == 0 || b == 0 {
                return Double { bits: 0x7ff8_0000_0000_0000 };
            }
            return with_sign(negative, 0x7ff0_0000_0000_0000);
        }
        with_sign(negative, product_step(a, b))
    }

    fn over(self, other: Self) -> (r: Self) {
        let a = self.magnitude_step();
        let b = other.magnitude_step();
        let negative = self.negative() != other.negative();
        if a > 0x7ff0_0000_0000_0000 || b > 0x7ff0_0000_0000_0000 {
            return Double { bits: 0x7ff8_0000_0000_0000 };
        }
        if a == 0x7ff0_0000_0000_0000 {
            if b == 0x7ff0_0000_0000_0000 {
                return Double { bits: 0x7ff8_0000_0000_0000 };
            }
            return with_sign(negative, 0x7ff0_0000_0000_0000);
        }
        if b == 0x7ff0_0000_0000_0000 {
            return with_sign(negative, 0);
        }
        if b == 0 {
            if a == 0 {
                return Double { bits: 0x7ff8_0000_0000_0000 };
            }
            return with_sign(negative, 0x7ff0_0000_0000_0000);
        }
        if a == 0 {
            proof {
                zero_has_no_grains(a as nat);
                zero_has_no_grains(b as nat);
                zero_over(grains(b as nat));
            }
            return with_sign(negative, 0);
        }
        with_sign(negative, quotient_step(a, b))
    }

    fn magnitude(self) -> (r: Self) {
        with_sign(false, self.magnitude_step())
    }

    fn root(self) -> (r: Self) {
        let a = self.magnitude_step();
        if a > 0x7ff0_0000_0000_0000 {
            return Double { bits: 0x7ff8_0000_0000_0000 };
        }
        if a == 0 {
            return self;
        }
        if self.negative() {
            return Double { bits: 0x7ff8_0000_0000_0000 };
        }
        if a == 0x7ff0_0000_0000_0000 {
            return self;
        }
        with_sign(false, root_step(a))
    }

    fn larger(self, other: Self) -> (r: Self) {
        if self.magnitude_step() > 0x7ff0_0000_0000_0000 || self.below(other) {
            other
        } else {
            self
        }
    }

    fn smaller(self, other: Self) -> (r: Self) {
        if self.magnitude_step() > 0x7ff0_0000_0000_0000 || other.below(self) {
            other
        } else {
            self
        }
    }

    fn below(self, other: Self) -> (r: bool) {
        let a = self.magnitude_step();
        let b = other.magnitude_step();
        if a > 0x7ff0_0000_0000_0000 || b > 0x7ff0_0000_0000_0000 {
            return false;
        }
        if self.negative() {
            if other.negative() {
                b < a
            } else {
                a > 0 || b > 0
            }
        } else {
            !other.negative() && a < b
        }
    }

    fn at_most(self, other: Self) -> (r: bool) {
        let a = self.magnitude_step();
        let b = other.magnitude_step();
        if a > 0x7ff0_0000_0000_0000 || b > 0x7ff0_0000_0000_0000 {
            return false;
        }
        if self.negative() {
            if other.negative() {
                b <= a
            } else {
                true
            }
        } else if other.negative() {
            a == 0 && b == 0
        } else {
            a <= b
        }
    }

    fn is_finite(self) -> (r: bool) {
        self.magnitude_step() < 0x7ff0_0000_0000_0000
    }

    fn rounded(self) -> (r: i64) {
        let a = self.magnitude_step();
        if a > 0x7ff0_0000_0000_0000 {
            return 0;
        }
        if a == 0x7ff0_0000_0000_0000 {
            return if self.negative() {
                i64::MIN
            } else {
                i64::MAX
            };
        }
        let near = whole_numbers(a).1;
        if self.negative() {
            if near >= 0x8000_0000_0000_0000 {
                i64::MIN
            } else {
                -(near as i64)
            }
        } else if near >= 0x8000_0000_0000_0000 {
            i64::MAX
        } else {
            near as i64
        }
    }

    fn whole_part(self) -> (r: u64) {
        let a = self.magnitude_step();
        if a > 0x7ff0_0000_0000_0000 || self.negative() {
            0
        } else if a == 0x7ff0_0000_0000_0000 {
            u64::MAX
        } else {
            whole_numbers(a).0
        }
    }

    proof fn below_is_asymmetric(a: Self, b: Self) {
    }

    proof fn below_is_cotransitive(a: Self, b: Self, c: Self) {
    }

    proof fn whole_over_itself(n: u64) {
        let w = Self::whole(n);
        whole_is_finite(n);
        let g = grains(w.step());
        zero_has_no_grains(w.step());
        nearest_quotient_is_nearest(one(), 1);
        let step = nearest_quotient(one(), 1);
        scaled_quotient(one(), g, step);
        nearest_quotient_is(g * one(), g, step);
        assert(1 * one() == one());
    }

    proof fn times_one(a: Self) {
        let g = grains(a.step());
        whole_is_finite(1);
        lemma_pow2_pos(1074);
        grains_of_one();
        number_is_nearest(a.step());
        scaled_quotient(g, one(), a.step());
        assert(one() * g == g * one()) by (nonlinear_arith);
        nearest_quotient_is(g * one(), one(), a.step());
    }
}

/// Only zero has no grains.
pub proof fn zero_has_no_grains(step: nat)
    ensures
        grains(step) == 0 <==> step == 0,
{
    times_no_power(0, scale(0));
    assert(grains(0) == 0);
    if step > 0 {
        grains_grow(0, step);
    }
}

/// Nothing divided is nothing.
pub proof fn zero_over(q: nat)
    requires
        q > 0,
    ensures
        nearest_quotient(0, q) == 0,
        nearest_quotient(0 * one(), q) == 0,
{
    grains_grow(0, 1);
    assert(middle(0) * q > 0) by (nonlinear_arith)
        requires
            middle(0) > 0,
            q > 0,
    ;
    assert(is_nearest(over_quotient(0, q), 0));
    nearest_quotient_is(0, q, 0);
    assert(0 * one() == 0) by (nonlinear_arith);
}

/// A quotient does not change when both of its sides are multiplied.
pub proof fn scaled_quotient(p: nat, c: nat, step: nat)
    requires
        c > 0,
        is_nearest(over_quotient(p, 1), step),
    ensures
        is_nearest(over_quotient(c * p, c), step),
{
    let narrow = over_quotient(p, 1);
    let wide = over_quotient(c * p, c);
    assert forall|h: nat| #[trigger] wide(h) == c * narrow(h) by {
        assert(h * c - 2 * (c * p) == c * (h * 1 - 2 * p)) by (nonlinear_arith);
    }
    assert forall|h: nat|
        (narrow(h) < 0 ==> #[trigger] wide(h) < 0) && (narrow(h) == 0 ==> wide(h) == 0) && (narrow(h)
            > 0 ==> wide(h) > 0) by {
        let x = narrow(h);
        assert(wide(h) == c * x);
        assert(x < 0 ==> c * x < 0) by (nonlinear_arith)
            requires
                c > 0,
        ;
        assert(x > 0 ==> c * x > 0) by (nonlinear_arith)
            requires
                c > 0,
        ;
        assert(x == 0 ==> c * x == 0) by (nonlinear_arith);
    }
}

/// A number is nearest to itself.
pub proof fn number_is_nearest(step: nat)
    requires
        step < top(),
    ensures
        is_nearest(over_quotient(grains(step), 1), step),
{
    let excess = over_quotient(grains(step), 1);
    grains_grow(step, step + 1);
    if step > 0 {
        grains_grow((step - 1) as nat, step);
        let low = middle((step - 1) as nat);
        assert(excess(low) == low * 1 - 2 * grains(step));
    }
    let high = middle(step);
    assert(excess(high) == high * 1 - 2 * grains(step));
}

/// One is the number of its grains.
pub proof fn grains_of_one()
    ensures
        grains(Double::whole(1).step()) == one(),
{
    let m = octave();
    octave_is_a_power();
    crate::rounding::grains_of_parts(m, 1022);
    lemma_pow2_adds(52, 1022);
    let step = (1022 * octave() + m) as nat;
    assert(grains(step) == one());
    number_is_nearest(step);
    nearest_quotient_is(one(), 1, step);
    assert(1 * one() == one());
}

/// A whole number that is not zero is a finite number that is not zero.
pub proof fn whole_is_finite(n: u64)
    requires
        n > 0,
    ensures
        0 < nearest_quotient(n as nat * one(), 1) < top(),
        Double::whole(n).step() == nearest_quotient(n as nat * one(), 1),
        !Double::whole(n).is_negative(),
{
    let p = n as nat * one();
    let step = nearest_quotient(p, 1);
    let excess = over_quotient(p, 1);
    nearest_quotient_is_nearest(p, 1);
    lemma_pow2_pos(1074);
    octave_is_a_power();
    assert(p >= 1) by (nonlinear_arith)
        requires
            p == n * one(),
            n >= 1,
            one() >= 1,
    ;
    if step == 0 {
        zero_has_no_grains(0);
        crate::rounding::grains_of_parts(1, 0);
        assert(middle(0) == 1);
        assert(excess(middle(0)) == 1 * 1 - 2 * p);
    }
    if step == top() {
        let last = (top() - 1) as nat;
        crate::rounding::grains_of_parts((2 * octave() - 1) as nat, 2045);
        grains_grow(last, top());
        assert(2045 * octave() + 2 * octave() - 1 == last);
        lemma2_to64();
        lemma_pow2_adds(64, 1074);
        lemma_pow2_strictly_increases(1138, 2045);
        assert(p < pow2(1138)) by (nonlinear_arith)
            requires
                p == n * one(),
                n < 0x10000000000000000,
                one() >= 1,
                pow2(1138) == 0x10000000000000000 * one(),
        ;
        let w = pow2(2045);
        assert((2 * octave() - 1) * w >= 4 * w) by (nonlinear_arith)
            requires
                octave() >= 4,
        ;
        assert(excess(middle(last)) == middle(last) * 1 - 2 * p);
    }
}

} // verus!
