//! Computing the nearest number from leading digits.

use vstd::arithmetic::power2::*;
use vstd::prelude::*;

use crate::rounding::{
    grains, grains_grow, grains_of_parts, is_nearest, is_rising, middle, octave, octave_is_a_power,
    over_quotient, over_root, top,
};

verus! {

/// How often `e` doubles.
pub open spec fn doublings(e: int) -> nat {
    if e >= 0 {
        e as nat
    } else {
        0
    }
}

/// How often `e` halves.
pub open spec fn halvings(e: int) -> nat {
    if e < 0 {
        (-e) as nat
    } else {
        0
    }
}

/// Some exact value is, in half grains, `n` times two to the power of `e`; where
/// `inexact`, it lies above that, and below `n + 1` times as much.
pub open spec fn lies_at(excess: spec_fn(nat) -> int, n: nat, e: int, inexact: bool) -> bool {
    forall|h: nat|
        {
            let at = h * pow2(halvings(e));
            let low = n * pow2(doublings(e));
            let high = (n + 1) * pow2(doublings(e));
            let x = #[trigger] excess(h);
            &&& at < low ==> x < 0
            &&& at == low ==> (if inexact {
                x < 0
            } else {
                x == 0
            })
            &&& at > low && !inexact ==> x > 0
            &&& at >= high ==> x > 0
        }
}

pub proof fn less_times(a: nat, b: nat, c: nat)
    requires
        a < b,
        c > 0,
    ensures
        a * c < b * c,
{
    assert(a * c < b * c) by (nonlinear_arith)
        requires
            a < b,
            c > 0,
    ;
}

/// Two to the power of nothing leaves a number as it is.
pub proof fn times_no_power(n: nat, c: nat)
    requires
        c == 0,
    ensures
        n * pow2(c) == n,
{
    octave_is_a_power();
    assert(n * pow2(c) == n) by (nonlinear_arith)
        requires
            pow2(c) == 1,
    ;
}

pub proof fn at_most_times(a: nat, b: nat, c: nat)
    requires
        a <= b,
    ensures
        a * c <= b * c,
{
    assert(a * c <= b * c) by (nonlinear_arith)
        requires
            a <= b,
    ;
}

/// A quotient lies where its leading digits say.
pub proof fn quotient_lies_at(p: nat, q: nat, n: nat, e: int, inexact: bool)
    requires
        q > 0,
        n * (q * pow2(doublings(e))) <= 2 * p * pow2(halvings(e)) < (n + 1) * (q * pow2(
            doublings(e),
        )),
        inexact <==> n * (q * pow2(doublings(e))) != 2 * p * pow2(halvings(e)),
    ensures
        lies_at(over_quotient(p, q), n, e, inexact),
{
    let excess = over_quotient(p, q);
    let u = pow2(doublings(e));
    let d = pow2(halvings(e));
    lemma_pow2_pos(doublings(e));
    lemma_pow2_pos(halvings(e));
    let exact = 2 * p * d;
    assert forall|h: nat|
        {
            let at = h * pow2(halvings(e));
            let low = n * pow2(doublings(e));
            let high = (n + 1) * pow2(doublings(e));
            let x = #[trigger] excess(h);
            &&& at < low ==> x < 0
            &&& at == low ==> (if inexact {
                x < 0
            } else {
                x == 0
            })
            &&& at > low && !inexact ==> x > 0
            &&& at >= high ==> x > 0
        } by {
        let x = excess(h);
        let at = h * d;
        let low = n * u;
        let high = (n + 1) * u;
        assert(x == h * q - 2 * p);
        assert(x * d == at * q - exact) by (nonlinear_arith)
            requires
                x == h * q - 2 * p,
                at == h * d,
                exact == 2 * p * d,
        ;
        assert(n * (q * u) == low * q) by (nonlinear_arith)
            requires
                low == n * u,
        ;
        assert((n + 1) * (q * u) == high * q) by (nonlinear_arith)
            requires
                high == (n + 1) * u,
        ;
        if at < low {
            less_times(at, low, q);
        }
        if at > low {
            less_times(low, at, q);
        }
        if at >= high {
            at_most_times(high, at, q);
        }
        assert(x * d < 0 ==> x < 0) by (nonlinear_arith)
            requires
                d > 0,
        ;
        assert(x * d > 0 ==> x > 0) by (nonlinear_arith)
            requires
                d > 0,
        ;
        assert(x * d == 0 ==> x == 0) by (nonlinear_arith)
            requires
                d > 0,
        ;
    }
}

/// A root lies where its leading digits say.
pub proof fn root_lies_at(y: nat, n: nat, e: nat, inexact: bool)
    requires
        (n * pow2(e)) * (n * pow2(e)) <= 4 * y < ((n + 1) * pow2(e)) * ((n + 1) * pow2(e)),
        inexact <==> (n * pow2(e)) * (n * pow2(e)) != 4 * y,
    ensures
        lies_at(over_root(y), n, e as int, inexact),
{
    let excess = over_root(y);
    octave_is_a_power();
    let low = n * pow2(e);
    let high = (n + 1) * pow2(e);
    assert forall|h: nat|
        {
            let at = h * pow2(halvings(e as int));
            let low = n * pow2(doublings(e as int));
            let high = (n + 1) * pow2(doublings(e as int));
            let x = #[trigger] excess(h);
            &&& at < low ==> x < 0
            &&& at == low ==> (if inexact {
                x < 0
            } else {
                x == 0
            })
            &&& at > low && !inexact ==> x > 0
            &&& at >= high ==> x > 0
        } by {
        assert(h * pow2(0) == h);
        assert(h < low ==> h * h < low * low) by (nonlinear_arith);
        assert(h > low ==> h * h > low * low) by (nonlinear_arith);
        assert(h >= high ==> h * h >= high * high) by (nonlinear_arith);
    }
}

/// Digits behind the half grains are dropped.
proof fn dropping_lies_at(
    excess: spec_fn(nat) -> int,
    n: nat,
    c: nat,
    inexact: bool,
    kept: nat,
)
    requires
        c > 0,
        lies_at(excess, n, -(c as int), inexact),
        kept * pow2(c) <= n < (kept + 1) * pow2(c),
    ensures
        lies_at(excess, kept, 0, inexact || kept * pow2(c) != n),
{
    octave_is_a_power();
    lemma_pow2_pos(c);
    let less = inexact || kept * pow2(c) != n;
    assert forall|h: nat|
        {
            let at = h * pow2(halvings(0));
            let low = kept * pow2(doublings(0));
            let high = (kept + 1) * pow2(doublings(0));
            let x = #[trigger] excess(h);
            &&& at < low ==> x < 0
            &&& at == low ==> (if less {
                x < 0
            } else {
                x == 0
            })
            &&& at > low && !less ==> x > 0
            &&& at >= high ==> x > 0
        } by {
        let x = excess(h);
        assert(halvings(-(c as int)) == c);
        times_no_power(n, doublings(-(c as int)));
        times_no_power(n + 1, doublings(-(c as int)));
        times_no_power(h, halvings(0));
        times_no_power(kept, doublings(0));
        times_no_power(kept + 1, doublings(0));
        if h < kept {
            less_times(h, kept, pow2(c));
        } else if h > kept {
            at_most_times((kept + 1) as nat, h, pow2(c));
        }
    }
}

/// From mantissa and scale of the number below to the nearest.
proof fn nearest_of_parts(excess: spec_fn(nat) -> int, m: nat, t: nat, up: bool)
    requires
        is_rising(excess),
        m < 2 * octave(),
        t == 0 || m >= octave(),
        t <= 2045,
        excess(2 * (m * pow2(t))) <= 0,
        excess(2 * ((m + 1) * pow2(t))) > 0,
        up == (excess((2 * m + 1) * pow2(t)) < 0 || (excess((2 * m + 1) * pow2(t)) == 0 && m % 2
            == 1)),
    ensures
        is_nearest(
            excess,
            t * octave() + m + (if up {
                1nat
            } else {
                0nat
            }),
        ),
{
    let step = t * octave() + m;
    grains_of_parts(m, t);
    grains_of_parts(m + 1, t);
    assert(grains(step) == m * pow2(t));
    assert(grains(step + 1) == (m + 1) * pow2(t));
    assert(m * pow2(t) + (m + 1) * pow2(t) == (2 * m + 1) * pow2(t)) by (nonlinear_arith);
    assert(middle(step) == (2 * m + 1) * pow2(t));
    assert(step % 2 == m % 2);
    assert(step < top());
    if step > 0 {
        grains_grow((step - 1) as nat, step);
        assert(excess(middle((step - 1) as nat)) < excess(2 * grains(step)));
    }
    grains_grow(step + 1, step + 2);
    assert(excess(2 * grains(step + 1)) < excess(middle(step + 1)));
}

/// Values beyond the largest number.
proof fn nearest_is_top(excess: spec_fn(nat) -> int, m: nat, t: nat)
    requires
        is_rising(excess),
        m >= octave(),
        t >= 2046,
        excess(2 * (m * pow2(t))) <= 0,
    ensures
        is_nearest(excess, top()),
{
    let last = (top() - 1) as nat;
    let w = pow2(2045);
    octave_is_a_power();
    grains_of_parts((2 * octave() - 1) as nat, 2045);
    grains_of_parts(2 * octave(), 2045);
    assert(2045 * octave() + 2 * octave() - 1 == last);
    lemma_pow2_pos(2045);
    assert(middle(last) < 2 * (2 * octave() * w)) by (nonlinear_arith)
        requires
            middle(last) == (2 * octave() - 1) * w + 2 * octave() * w,
            w > 0,
    ;
    lemma_pow2_unfold(2046);
    if t > 2046 {
        lemma_pow2_strictly_increases(2046, t);
    }
    assert(octave() * (2 * w) <= m * pow2(t)) by (nonlinear_arith)
        requires
            octave() <= m,
            2 * w <= pow2(t),
    ;
    assert(octave() * (2 * w) == 2 * octave() * w) by (nonlinear_arith);
    assert(excess(middle(last)) < excess(2 * (m * pow2(t))));
}

/// Two to the power of `c`.
pub(crate) fn power(c: u32) -> (r: u128)
    requires
        c <= 127,
    ensures
        r == pow2(c as nat),
{
    let mut r: u128 = 1;
    let mut i: u32 = 0;
    proof {
        octave_is_a_power();
        power_of_127();
    }
    while i < c
        invariant
            i <= c <= 127,
            r == pow2(i as nat),
            pow2(127) == 0x80000000000000000000000000000000,
        decreases c - i,
    {
        proof {
            lemma_pow2_unfold((i + 1) as nat);
            if i + 1 < 127 {
                lemma_pow2_strictly_increases((i + 1) as nat, 127);
            }
        }
        r = r * 2;
        i = i + 1;
    }
    r
}

pub proof fn power_of_127()
    ensures
        pow2(127) == 0x80000000000000000000000000000000,
        pow2(128) == 0x100000000000000000000000000000000,
{
    lemma2_to64();
    lemma2_to64_rest();
    lemma_pow2_adds(64, 63);
    lemma_pow2_adds(64, 64);
    assert(0x10000000000000000 * 0x8000000000000000 == 0x80000000000000000000000000000000);
    assert(0x10000000000000000 * 0x10000000000000000 == 0x100000000000000000000000000000000);
}

/// How many binary digits `n` has.
pub(crate) fn bit_length(n: u128) -> (r: u32)
    ensures
        r <= 128,
        n < pow2(r as nat),
        n > 0 ==> r > 0 && pow2((r - 1) as nat) <= n,
        n == 0 ==> r == 0,
{
    let mut v: u128 = n;
    let mut r: u32 = 0;
    proof {
        octave_is_a_power();
        power_of_127();
    }
    while v > 0
        invariant
            v * pow2(r as nat) <= n < (v + 1) * pow2(r as nat),
            r > 0 ==> pow2((r - 1) as nat) <= n,
            r <= 128,
            pow2(128) == 0x100000000000000000000000000000000,
            n == 0 ==> r == 0 && v == 0,
        decreases v,
    {
        let ghost w = pow2(r as nat);
        let ghost before = v;
        proof {
            lemma_pow2_unfold((r + 1) as nat);
            lemma_pow2_pos(r as nat);
            assert(w <= v * w) by (nonlinear_arith)
                requires
                    v >= 1,
            ;
            assert(r < 128);
        }
        v = v / 2;
        proof {
            assert(v * (2 * w) <= before * w) by (nonlinear_arith)
                requires
                    2 * v <= before,
            ;
            assert((before + 1) * w <= (v + 1) * (2 * w)) by (nonlinear_arith)
                requires
                    before + 1 <= 2 * (v + 1),
            ;
        }
        r = r + 1;
    }
    assert((0 + 1) * pow2(r as nat) == pow2(r as nat)) by (nonlinear_arith);
    r
}

/// The number of half grains without the digits behind them.
fn drop_digits(n: u128, c: u32, inexact: bool) -> (r: (u128, bool))
    requires
        c > 0,
    ensures
        r.0 * pow2(c as nat) <= n < (r.0 + 1) * pow2(c as nat),
        r.1 == (inexact || r.0 * pow2(c as nat) != n),
{
    if c >= 128 {
        proof {
            power_of_127();
            if c > 128 {
                lemma_pow2_strictly_increases(128, c as nat);
            }
            assert((0 + 1) * pow2(c as nat) == pow2(c as nat)) by (nonlinear_arith);
            assert(0 * pow2(c as nat) == 0) by (nonlinear_arith);
        }
        (0, inexact || n != 0)
    } else {
        let w = power(c);
        proof {
            lemma_pow2_pos(c as nat);
        }
        let kept = n / w;
        let rest = n % w;
        proof {
            let k = kept as int;
            let x = w as int;
            assert(n == x * (n as int / x) + n as int % x) by (nonlinear_arith)
                requires
                    x > 0,
            ;
            assert(k * x == x * k) by (nonlinear_arith);
            assert((k + 1) * x == k * x + x) by (nonlinear_arith);
        }
        (kept, inexact || rest != 0)
    }
}

/// The step nearest to the value that lies at `n` times two to the power of `e`.
pub(crate) fn pack(n: u128, e: i32, inexact: bool, Ghost(excess): Ghost<spec_fn(nat) -> int>) -> (step: u64)
    requires
        is_rising(excess),
        lies_at(excess, n as nat, e as int, inexact),
        -5000 <= e <= 5000,
        inexact ==> n >= 2 * octave() || e <= 0,
    ensures
        is_nearest(excess, step as nat),
{
    if e < 0 {
        let c: u32 = (-e) as u32;
        let (kept, less) = drop_digits(n, c, inexact);
        proof {
            dropping_lies_at(excess, n as nat, c as nat, inexact, kept as nat);
        }
        pack_whole(kept, 0, less, Ghost(excess))
    } else {
        pack_whole(n, e as u32, inexact, Ghost(excess))
    }
}

/// The step nearest to the value that lies at `n` times two to the power of `e`
/// half grains.
fn pack_whole(n: u128, e: u32, inexact: bool, Ghost(excess): Ghost<spec_fn(nat) -> int>) -> (step: u64)
    requires
        is_rising(excess),
        lies_at(excess, n as nat, e as int, inexact),
        e <= 5000,
        inexact ==> n >= 2 * octave() || e == 0,
    ensures
        is_nearest(excess, step as nat),
{
    proof {
        octave_is_a_power();
        lemma_pow2_pos(e as nat);
    }
    let ghost x = pow2(e as nat);
    if n == 0 && !inexact {
        proof {
            assert(0 * pow2(halvings(e as int)) == 0);
            assert(0 * x == 0);
            assert(excess(0) == 0);
            grains_grow(0, 1);
            assert(excess(0) < excess(middle(0)));
        }
        return 0;
    }
    let len = bit_length(n);
    let drop_for_digits: i32 = len as i32 - 53;
    let drop_for_grains: i32 = 1 - e as i32;
    let d: i32 = if drop_for_digits >= drop_for_grains {
        drop_for_digits
    } else {
        drop_for_grains
    };
    proof {
        if n >= 2 * octave() {
            if len < 54 {
                if len < 53 {
                    lemma_pow2_strictly_increases(len as nat, 53);
                }
                assert(false);
            }
        }
    }
    let t: i32 = e as i32 + d - 1;
    if d <= 0 {
        let w = power((-d) as u32);
        proof {
            exact_mantissa(n as nat, len as nat, (-d) as nat, w as nat);
            exact_position(excess, n as nat, e as nat, (-d) as nat, t as nat);
            if t > 0 {
                assert(d == drop_for_digits);
            }
        }
        let m: u128 = n * w;
        if t > 2045 {
            proof {
                nearest_is_top(excess, m as nat, t as nat);
            }
            return 0x7ff0_0000_0000_0000;
        }
        proof {
            nearest_of_parts(excess, m as nat, t as nat, false);
        }
        t as u64 * 0x10_0000_0000_0000 + m as u64
    } else {
        let w = power(d as u32);
        let half = power((d - 1) as u32);
        proof {
            lemma_pow2_pos(d as nat);
            lemma_pow2_unfold(d as nat);
        }
        let m: u128 = n / w;
        let rest: u128 = n % w;
        let up: bool = rest > half || (rest == half && (inexact || m % 2 == 1));
        proof {
            cut_mantissa(n as nat, len as nat, d as nat, w as nat);
            if t > 0 {
                assert(d == drop_for_digits);
            }
            cut_position(
                excess,
                n as nat,
                e as nat,
                inexact,
                d as nat,
                t as nat,
                m as nat,
                rest as nat,
            );
        }
        if t > 2045 {
            proof {
                nearest_is_top(excess, m as nat, t as nat);
            }
            return 0x7ff0_0000_0000_0000;
        }
        proof {
            nearest_of_parts(excess, m as nat, t as nat, up);
        }
        if up {
            t as u64 * 0x10_0000_0000_0000 + m as u64 + 1
        } else {
            t as u64 * 0x10_0000_0000_0000 + m as u64
        }
    }
}

/// Digits that are too few are made up to a mantissa.
pub proof fn exact_mantissa(n: nat, len: nat, c: nat, w: nat)
    requires
        n > 0,
        len > 0,
        n < pow2(len),
        pow2((len - 1) as nat) <= n,
        w == pow2(c),
        len + c <= 53,
    ensures
        n * w < 2 * octave(),
        len + c == 53 ==> n * w >= octave(),
{
    octave_is_a_power();
    lemma_pow2_pos(c);
    less_times(n, pow2(len), w);
    lemma_pow2_adds(len, c);
    if len + c < 53 {
        lemma_pow2_strictly_increases(len + c, 53);
    }
    at_most_times(pow2((len - 1) as nat), n, w);
    lemma_pow2_adds((len - 1) as nat, c);
}

/// The value that lies at whole digits is the number itself.
proof fn exact_position(excess: spec_fn(nat) -> int, n: nat, e: nat, c: nat, t: nat)
    requires
        is_rising(excess),
        lies_at(excess, n, e as int, false),
        t + c + 1 == e,
    ensures
        ({
            let m = n * pow2(c);
            &&& excess(2 * (m * pow2(t))) == 0
            &&& excess((2 * m + 1) * pow2(t)) > 0
            &&& excess(2 * ((m + 1) * pow2(t))) > 0
        }),
{
    let m = n * pow2(c);
    octave_is_a_power();
    lemma_pow2_pos(t);
    lemma_pow2_unfold(e);
    lemma_pow2_adds(c, t);
    let h = 2 * (m * pow2(t));
    assert(h == n * pow2(e)) by (nonlinear_arith)
        requires
            h == 2 * ((n * pow2(c)) * pow2(t)),
            pow2(e) == 2 * (pow2(c) * pow2(t)),
    ;
    times_no_power(h, halvings(e as int));
    assert(excess(h) == 0);
    assert((2 * m + 1) * pow2(t) == h + pow2(t)) by (nonlinear_arith)
        requires
            h == 2 * (m * pow2(t)),
    ;
    assert(2 * ((m + 1) * pow2(t)) == h + 2 * pow2(t)) by (nonlinear_arith)
        requires
            h == 2 * (m * pow2(t)),
    ;
    assert(excess(h) < excess((2 * m + 1) * pow2(t)));
    assert(excess(h) < excess(2 * ((m + 1) * pow2(t))));
}

/// Digits that are too many are cut to a mantissa.
proof fn cut_mantissa(n: nat, len: nat, d: nat, w: nat)
    requires
        n < pow2(len),
        n > 0 ==> len > 0 && pow2((len - 1) as nat) <= n,
        w == pow2(d),
        len <= d + 53,
    ensures
        n / w < 2 * octave(),
        n > 0 && len == d + 53 ==> n / w >= octave(),
{
    octave_is_a_power();
    lemma_pow2_pos(d);
    let m = n / w;
    assert(n == w * m + n % w && n % w < w) by (nonlinear_arith)
        requires
            w > 0,
            m == n / w,
    ;
    lemma_pow2_adds(d, 53);
    if len < d + 53 {
        lemma_pow2_strictly_increases(len, d + 53);
    }
    assert(m < 2 * octave()) by (nonlinear_arith)
        requires
            w * m <= n,
            n < w * (2 * octave()),
            w > 0,
    ;
    if n > 0 && len == d + 53 {
        lemma_pow2_adds(d, 52);
        assert(m >= octave()) by (nonlinear_arith)
            requires
                w * octave() <= n,
                n < w * m + w,
                w > 0,
        ;
    }
}

/// Where the value lies between the number below and the next.
proof fn cut_position(
    excess: spec_fn(nat) -> int,
    n: nat,
    e: nat,
    inexact: bool,
    d: nat,
    t: nat,
    m: nat,
    rest: nat,
)
    requires
        lies_at(excess, n, e as int, inexact),
        d > 0,
        t + 1 == e + d,
        m == n / pow2(d),
        rest == n % pow2(d),
    ensures
        ({
            let half = pow2((d - 1) as nat);
            let at = excess((2 * m + 1) * pow2(t));
            &&& excess(2 * (m * pow2(t))) <= 0
            &&& excess(2 * ((m + 1) * pow2(t))) > 0
            &&& at < 0 <==> rest > half || (rest == half && inexact)
            &&& at == 0 <==> rest == half && !inexact
        }),
{
    let half = pow2((d - 1) as nat);
    let w = pow2(d);
    let x = pow2(e);
    octave_is_a_power();
    lemma_pow2_pos(d);
    lemma_pow2_pos(e);
    lemma_pow2_unfold(d);
    lemma_pow2_adds((d - 1) as nat, e);
    assert(pow2(t) == half * x);
    assert(n == w * m + rest && rest < w) by (nonlinear_arith)
        requires
            w > 0,
            m == n / w,
            rest == n % w,
    ;
    let low = w * m;
    let mid = w * m + half;
    let high = w * m + w;
    assert(2 * (m * pow2(t)) == low * x) by (nonlinear_arith)
        requires
            pow2(t) == half * x,
            w == 2 * half,
            low == w * m,
    ;
    assert((2 * m + 1) * pow2(t) == mid * x) by (nonlinear_arith)
        requires
            pow2(t) == half * x,
            w == 2 * half,
            mid == w * m + half,
    ;
    assert(2 * ((m + 1) * pow2(t)) == high * x) by (nonlinear_arith)
        requires
            pow2(t) == half * x,
            w == 2 * half,
            high == w * m + w,
    ;
    digits_lie(excess, n, e, inexact, low);
    digits_lie(excess, n, e, inexact, mid);
    digits_lie(excess, n, e, inexact, high);
}

/// Comparing digits compares values.
proof fn digits_lie(excess: spec_fn(nat) -> int, n: nat, e: nat, inexact: bool, k: nat)
    requires
        lies_at(excess, n, e as int, inexact),
    ensures
        k < n ==> excess(k * pow2(e)) < 0,
        k == n ==> (if inexact {
            excess(k * pow2(e)) < 0
        } else {
            excess(k * pow2(e)) == 0
        }),
        k > n ==> excess(k * pow2(e)) > 0,
{
    octave_is_a_power();
    lemma_pow2_pos(e);
    let h = k * pow2(e);
    times_no_power(h, halvings(e as int));
    let x = excess(h);
    if k < n {
        less_times(k, n, pow2(e));
    } else if k > n {
        at_most_times(n + 1, k, pow2(e));
    }
}

} // verus!
