use purse_pilot::bazaar_tracker::{BazaarOrderTracker, CostBasisStatus};
use purse_pilot::double::Double;
use purse_pilot::number::{clamp, fraction, Number};

fn double(x: f64) -> Double {
    Double { bits: x.to_bits() }
}

fn is_same(d: Double, x: f64) -> bool {
    if x.is_nan() {
        f64::from_bits(d.bits).is_nan()
    } else {
        d.bits == x.to_bits()
    }
}

fn compare(a: f64, b: f64) {
    let (x, y) = (double(a), double(b));
    assert!(is_same(x.plus(y), a + b), "{a:e} + {b:e}");
    assert!(is_same(x.minus(y), a - b), "{a:e} - {b:e}");
    assert!(is_same(x.times(y), a * b), "{a:e} * {b:e}");
    assert!(is_same(x.over(y), a / b), "{a:e} / {b:e}");
    assert_eq!(x.below(y), a < b);
    assert_eq!(x.at_most(y), a <= b);
    if a != 0.0 || b != 0.0 {
        assert!(is_same(x.larger(y), a.max(b)), "{a:e} {b:e}");
        assert!(is_same(x.smaller(y), a.min(b)), "{a:e} {b:e}");
    }
    assert!(is_same(x.root(), a.sqrt()), "root {a:e}");
    assert!(is_same(x.magnitude(), a.abs()));
    assert_eq!(x.is_finite(), a.is_finite());
    assert_eq!(x.rounded(), a.round() as i64, "{a:e}");
    assert_eq!(x.whole_part(), a.floor() as u64, "{a:e}");
}

struct Noise(u64);

impl Noise {
    fn next(&mut self) -> u64 {
        self.0 = self.0.wrapping_mul(6_364_136_223_846_793_005).wrapping_add(1_442_695_040_888_963_407);
        self.0 ^ (self.0 >> 29)
    }
}

#[test]
fn special_doubles_compute_as_the_machine_does() {
    let some = [
        0.0,
        0.1,
        0.3,
        0.5,
        1.0,
        1.5,
        2.0,
        2.5,
        3.0,
        10.0 / 17.0,
        0.49999999999999994,
        4503599627370495.5,
        4503599627370496.0,
        9007199254740991.0,
        9007199254740992.0,
        9.223372036854775e18,
        9223372036854775808.0,
        18446744073709549568.0,
        18446744073709551616.0,
        1e22,
        1e300,
        f64::MAX,
        f64::MIN_POSITIVE,
        2.225073858507201e-308,
        5e-324,
        1.5e-323,
        1e-310,
        1e-160,
        1e160,
        f64::EPSILON,
        1.0 + f64::EPSILON,
        f64::INFINITY,
        f64::NAN,
    ];
    for a in some {
        for b in some {
            compare(a, b);
            compare(-a, b);
            compare(a, -b);
            compare(-a, -b);
        }
    }
}

#[test]
fn arbitrary_doubles_compute_as_the_machine_does() {
    let mut noise = Noise(7);
    for _ in 0..20_000 {
        let a = f64::from_bits(noise.next());
        let b = f64::from_bits(noise.next());
        compare(a, b);
    }
}

#[test]
fn doubles_of_like_size_compute_as_the_machine_does() {
    let mut noise = Noise(11);
    for i in 0..20_000u64 {
        let a = f64::from_bits(noise.next());
        let exponent = (a.to_bits() >> 52) & 0x7ff;
        let shifted = (exponent + i % 160).saturating_sub(80).min(0x7fe);
        let b = f64::from_bits((noise.next() & 0x800f_ffff_ffff_ffff) | (shifted << 52));
        compare(a, b);
        // Around one, and among the numbers that are not normal.
        let c = f64::from_bits((noise.next() & 0x000f_ffff_ffff_ffff) | 0x3ff0_0000_0000_0000);
        let d = f64::from_bits(noise.next() >> (12 + i % 50));
        compare(c, d);
        compare(d, c);
        compare(c, 1.0 / c);
    }
}

#[test]
fn whole_numbers_become_doubles() {
    let mut noise = Noise(13);
    for i in 0..20_000u64 {
        let n = noise.next() >> (i % 64);
        assert!(is_same(Double::from_u64(n), n as f64));
        assert!(is_same(Double::from_i64(n as i64), n as i64 as f64));
        if n > 0 {
            assert!(is_same(Double::from_u64(n).over(Double::from_u64(n)), 1.0));
        }
    }
    for n in [0, 1, u64::MAX, u64::MAX - 1024, u64::MAX - 1023, (1 << 53) + 1, (1 << 54) + 2] {
        assert!(is_same(Double::from_u64(n), n as f64));
    }
    assert!(is_same(Double::from_i64(i64::MIN), i64::MIN as f64));
}

#[test]
fn fractions_are_the_nearest_doubles() {
    assert!(is_same(fraction(5, 100), 0.05));
    assert!(is_same(fraction(95, 100), 0.95));
    assert!(is_same(fraction(1, 3), 1.0 / 3.0));
    let low: Double = fraction(1, 4);
    let high: Double = fraction(3, 4);
    assert_eq!(clamp(double(0.0), low, high), low);
    assert_eq!(clamp(double(0.5), low, high), double(0.5));
    assert_eq!(clamp(double(1.0), low, high), high);
}

#[test]
fn a_tracker_keeps_its_books_in_doubles() {
    let mut tracker: BazaarOrderTracker<Double> = BazaarOrderTracker::new_in_memory();
    tracker.record_buy_cost_at("Crystalized Moonlight", double(460_003.1), 10, 1);
    let audit = tracker.account_sell_collect_at(
        "Crystalized Moonlight",
        17,
        double(8_610_000.0),
        Some(double(8_720_000.0)),
        2,
    );
    assert_eq!(audit.cost_basis_status, CostBasisStatus::PartialKnownCostBasis);
    assert_eq!(audit.sold_amount, 10);
    assert_eq!(audit.cost_basis_total, double(460_003.1 * 10.0));
    assert_eq!(audit.realized_profit, 464_675);
}
