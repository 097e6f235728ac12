//! The arithmetic in which prices, values and scores are computed.

use vstd::prelude::*;

verus! {

/// Number arithmetic at some precision.
///
/// Every operation is a function of its operands: the spec function beside it
/// names the result. Nothing is said of rounding, so what is stated of code
/// over `Number` pins down which operations it makes, on what and in what order.
pub trait Number: Copy {
    /// The number `n`.
    spec fn whole(n: u64) -> Self;

    /// The number `n`, which may be negative.
    spec fn signed(n: i64) -> Self;

    spec fn spec_plus(self, other: Self) -> Self;

    spec fn spec_minus(self, other: Self) -> Self;

    spec fn spec_times(self, other: Self) -> Self;

    spec fn spec_over(self, other: Self) -> Self;

    /// The absolute value.
    spec fn spec_magnitude(self) -> Self;

    /// The square root.
    spec fn spec_root(self) -> Self;

    spec fn spec_larger(self, other: Self) -> Self;

    spec fn spec_smaller(self, other: Self) -> Self;

    /// Strictly below.
    spec fn spec_below(self, other: Self) -> bool;

    /// Below or equal.
    spec fn spec_at_most(self, other: Self) -> bool;

    /// Neither infinite nor undefined.
    spec fn spec_is_finite(self) -> bool;

    /// The nearest whole number, halves away from zero, kept within `i64`.
    spec fn spec_rounded(self) -> i64;

    /// The whole part of a number that is not negative, kept within `u64`.
    spec fn spec_whole_part(self) -> u64;

    fn from_u64(n: u64) -> (r: Self)
        ensures
            r == Self::whole(n),
    ;

    fn from_i64(n: i64) -> (r: Self)
        ensures
            r == Self::signed(n),
    ;

    fn plus(self, other: Self) -> (r: Self)
        ensures
            r == self.spec_plus(other),
    ;

    fn minus(self, other: Self) -> (r: Self)
        ensures
            r == self.spec_minus(other),
    ;

    fn times(self, other: Self) -> (r: Self)
        ensures
            r == self.spec_times(other),
    ;

    fn over(self, other: Self) -> (r: Self)
        ensures
            r == self.spec_over(other),
    ;

    fn magnitude(self) -> (r: Self)
        ensures
            r == self.spec_magnitude(),
    ;

    fn root(self) -> (r: Self)
        ensures
            r == self.spec_root(),
    ;

    fn larger(self, other: Self) -> (r: Self)
        ensures
            r == self.spec_larger(other),
    ;

    fn smaller(self, other: Self) -> (r: Self)
        ensures
            r == self.spec_smaller(other),
    ;

    fn below(self, other: Self) -> (r: bool)
        ensures
            r == self.spec_below(other),
    ;

    fn at_most(self, other: Self) -> (r: bool)
        ensures
            r == self.spec_at_most(other),
    ;

    fn is_finite(self) -> (r: bool)
        ensures
            r == self.spec_is_finite(),
    ;

    fn rounded(self) -> (r: i64)
        ensures
            r == self.spec_rounded(),
    ;

    fn whole_part(self) -> (r: u64)
        ensures
            r == self.spec_whole_part(),
    ;

    /// Nothing is strictly below what is strictly below it.
    proof fn below_is_asymmetric(a: Self, b: Self)
        ensures
            a.spec_below(b) ==> !b.spec_below(a),
    ;

    /// What lies between two numbers in order is above the first or below the
    /// second. Only an undefined number is not at most itself.
    proof fn below_is_cotransitive(a: Self, b: Self, c: Self)
        requires
            a.spec_at_most(a),
            b.spec_at_most(b),
            c.spec_at_most(c),
        ensures
            a.spec_below(c) ==> a.spec_below(b) || b.spec_below(c),
    ;

    /// A positive whole number over itself is one.
    proof fn whole_over_itself(n: u64)
        requires
            n > 0,
        ensures
            Self::whole(n).spec_over(Self::whole(n)) == Self::whole(1),
    ;

    /// A finite number times one is the number.
    proof fn times_one(a: Self)
        requires
            a.spec_is_finite(),
        ensures
            a.spec_times(Self::whole(1)) == a,
    ;
}

/// Numbers of which the smaller and the larger go by what is below what. An
/// undefined number, which is not at most itself, gives way to any other.
pub trait OrderedNumber: Number {
    /// Only what is defined is below or above anything.
    proof fn below_is_defined(a: Self, b: Self)
        ensures
            a.spec_below(b) ==> a.spec_at_most(a) && b.spec_at_most(b),
            a.spec_at_most(b) ==> a.spec_at_most(a) && b.spec_at_most(b),
    ;

    /// A defined number is at most another exactly when the other is not below it.
    proof fn at_most_is_not_above(a: Self, b: Self)
        requires
            a.spec_at_most(a),
            b.spec_at_most(b),
        ensures
            a.spec_at_most(b) <==> !b.spec_below(a),
    ;

    /// The smaller of two numbers is one of them, and neither is below it.
    proof fn smaller_is_least(a: Self, b: Self)
        ensures
            a.spec_smaller(b) == a || a.spec_smaller(b) == b,
            !a.spec_below(a.spec_smaller(b)),
            !b.spec_below(a.spec_smaller(b)),
            a.spec_at_most(a) || b.spec_at_most(b) ==> a.spec_smaller(b).spec_at_most(
                a.spec_smaller(b),
            ),
    ;

    /// What does not exceed a bound does not exceed it after the smaller of it
    /// and another number is taken.
    proof fn smaller_keeps_bound(bound: Self, a: Self, b: Self)
        requires
            a.spec_at_most(a),
            !bound.spec_below(a),
        ensures
            !bound.spec_below(a.spec_smaller(b)),
    ;

    /// The larger of two numbers is one of them, and is below neither.
    proof fn larger_is_greatest(a: Self, b: Self)
        ensures
            a.spec_larger(b) == a || a.spec_larger(b) == b,
            !a.spec_larger(b).spec_below(a),
            !a.spec_larger(b).spec_below(b),
            a.spec_at_most(a) || b.spec_at_most(b) ==> a.spec_larger(b).spec_at_most(
                a.spec_larger(b),
            ),
    ;

    /// Whole numbers are finite, defined and not negative.
    proof fn whole_is_not_negative(n: u64)
        ensures
            Self::whole(n).spec_is_finite(),
            Self::whole(n).spec_at_most(Self::whole(n)),
            !Self::whole(n).spec_below(Self::whole(0)),
    ;

    /// Whole numbers are in order, and up to 2 to the power of 53 they differ.
    proof fn whole_keeps_order(a: u64, b: u64)
        requires
            a <= b,
        ensures
            Self::whole(a).spec_at_most(Self::whole(b)),
            a < b <= 0x20_0000_0000_0000 ==> Self::whole(a).spec_below(Self::whole(b)),
    ;

    /// The smaller and the larger of two numbers and a third keep their order.
    proof fn smaller_keeps_order(a: Self, b: Self, c: Self)
        requires
            a.spec_at_most(b),
        ensures
            a.spec_smaller(c).spec_at_most(b.spec_smaller(c)),
            c.spec_smaller(a).spec_at_most(c.spec_smaller(b)),
            a.spec_larger(c).spec_at_most(b.spec_larger(c)),
            c.spec_larger(a).spec_at_most(c.spec_larger(b)),
    ;

    /// Rounding to whole numbers keeps order.
    proof fn rounded_keeps_order(a: Self, b: Self)
        requires
            a.spec_at_most(b),
        ensures
            a.spec_rounded() <= b.spec_rounded(),
            a.spec_whole_part() <= b.spec_whole_part(),
    ;

    /// What is at most a number is at most whatever that is at most.
    proof fn at_most_is_transitive(a: Self, b: Self, c: Self)
        requires
            a.spec_at_most(b),
            b.spec_at_most(c),
        ensures
            a.spec_at_most(c),
    ;

    /// Fractions of numbers up to 2 to the power of 53 are in order.
    proof fn fractions_keep_order(a: u64, b: u64, c: u64, d: u64)
        requires
            a <= 0x20_0000_0000_0000,
            0 < b <= 0x20_0000_0000_0000,
            c <= 0x20_0000_0000_0000,
            0 < d <= 0x20_0000_0000_0000,
            a * d <= c * b,
        ensures
            Self::whole(a).spec_over(Self::whole(b)).spec_at_most(
                Self::whole(c).spec_over(Self::whole(d)),
            ),
    ;

    /// Adding to two numbers keeps their order.
    proof fn plus_keeps_order(a: Self, b: Self, c: Self)
        requires
            a.spec_is_finite(),
            b.spec_is_finite(),
            c.spec_is_finite(),
            a.spec_at_most(b),
        ensures
            a.spec_plus(c).spec_at_most(b.spec_plus(c)),
            c.spec_plus(a).spec_at_most(c.spec_plus(b)),
            a.spec_minus(c).spec_at_most(b.spec_minus(c)),
            c.spec_minus(b).spec_at_most(c.spec_minus(a)),
    ;

    /// Taking two numbers times one that is not negative keeps their order.
    proof fn times_keeps_order(a: Self, b: Self, c: Self)
        requires
            a.spec_is_finite(),
            b.spec_is_finite(),
            c.spec_is_finite(),
            a.spec_at_most(b),
            !c.spec_below(Self::whole(0)),
        ensures
            a.spec_times(c).spec_at_most(b.spec_times(c)),
            c.spec_times(a).spec_at_most(c.spec_times(b)),
    ;

    /// Dividing two numbers by a positive one keeps their order.
    proof fn over_keeps_order(a: Self, b: Self, c: Self)
        requires
            a.spec_is_finite(),
            b.spec_is_finite(),
            c.spec_is_finite(),
            a.spec_at_most(b),
            Self::whole(0).spec_below(c),
        ensures
            a.spec_over(c).spec_at_most(b.spec_over(c)),
    ;
}

/// The fraction `a / b`.
pub open spec fn ratio<N: Number>(a: u64, b: u64) -> N {
    N::whole(a).spec_over(N::whole(b))
}

pub fn fraction<N: Number>(a: u64, b: u64) -> (r: N)
    ensures
        r == ratio::<N>(a, b),
{
    N::from_u64(a).over(N::from_u64(b))
}

/// `x` kept from falling below `low`, then from rising above `high`.
pub open spec fn clamped<N: Number>(x: N, low: N, high: N) -> N {
    let raised = if x.spec_below(low) {
        low
    } else {
        x
    };
    if high.spec_below(raised) {
        high
    } else {
        raised
    }
}

/// A fraction is not above a larger one.
pub proof fn fraction_is_not_above<N: OrderedNumber>(a: u64, b: u64, c: u64, d: u64)
    requires
        a <= 0x20_0000_0000_0000,
        0 < b <= 0x20_0000_0000_0000,
        c <= 0x20_0000_0000_0000,
        0 < d <= 0x20_0000_0000_0000,
        a * d <= c * b,
    ensures
        !ratio::<N>(c, d).spec_below(ratio(a, b)),
{
    N::fractions_keep_order(a, b, c, d);
    N::below_is_defined(ratio(a, b), ratio(c, d));
    N::at_most_is_not_above(ratio(a, b), ratio(c, d));
}

/// A fraction of one is not above a whole number that is not zero.
pub proof fn fraction_of_one_is_not_above<N: OrderedNumber>(a: u64, b: u64, n: u64)
    requires
        a <= b <= 0x20_0000_0000_0000,
        0 < b,
        0 < n,
    ensures
        !N::whole(n).spec_below(ratio(a, b)),
{
    N::fractions_keep_order(a, b, 1, 1);
    N::whole_over_itself(1);
    N::whole_keeps_order(1, n);
    N::at_most_is_transitive(ratio(a, b), N::whole(1), N::whole(n));
    N::below_is_defined(ratio(a, b), N::whole(n));
    N::at_most_is_not_above(ratio(a, b), N::whole(n));
}

/// A number between the bounds is kept, one below the lower bound is raised to
/// it, and one above the upper bound is lowered to it.
pub proof fn clamped_stays_within<N: Number>(x: N, low: N, high: N)
    requires
        !high.spec_below(low),
    ensures
        !x.spec_below(low) && !high.spec_below(x) ==> clamped(x, low, high) == x,
        x.spec_below(low) ==> clamped(x, low, high) == low,
        high.spec_below(x) && !x.spec_below(low) ==> clamped(x, low, high) == high,
        !clamped(x, low, high).spec_below(low),
        !high.spec_below(clamped(x, low, high)),
{
    N::below_is_asymmetric(low, low);
    N::below_is_asymmetric(high, high);
}

pub fn clamp<N: Number>(x: N, low: N, high: N) -> (r: N)
    ensures
        r == clamped(x, low, high),
{
    let raised = if x.below(low) {
        low
    } else {
        x
    };
    if high.below(raised) {
        high
    } else {
        raised
    }
}

} // verus!
