//! Media time: exact rational seconds, and their rounding into a timescale.
//!
//! A time is a fraction of two 64 bit integers with a positive denominator.
//! Fractions are made and added by `num_rational`, which keeps them in lowest
//! terms. What is proved of rounding speaks of a time's value, so it holds
//! of any representation; and a value has only one fraction in lowest terms.
use num_rational::Rational64;
use num_traits::CheckedAdd;
use vstd::arithmetic::div_mod::{lemma_fundamental_div_mod, lemma_fundamental_div_mod_converse};
use vstd::pervasive::unreached;
use vstd::prelude::*;

verus! {

/// The greatest common divisor, by Euclid's algorithm.
pub open spec fn gcd(a: nat, b: nat) -> nat
    decreases b,
{
    if b == 0 {
        a
    } else {
        gcd(b, a % b)
    }
}

/// The absolute value.
pub open spec fn abs(x: int) -> nat {
    if x < 0 {
        (-x) as nat
    } else {
        x as nat
    }
}

/// `numer / denom` has a positive denominator and no common factor.
pub open spec fn lowest_terms(numer: int, denom: int) -> bool {
    denom > 0 && gcd(abs(numer), abs(denom)) == 1
}

/// The least common multiple of two positive denominators, as
/// `num_integer` computes it.
pub open spec fn lcm(a: int, b: int) -> int {
    (a / gcd(abs(a), abs(b)) as int) * b
}

/// Whether `an / ad + bn / bd` can be computed over the least common
/// denominator without leaving the 64 bit range at any step.
pub open spec fn sum_fits(an: int, ad: int, bn: int, bd: int) -> bool {
    let l = lcm(ad, bd);
    &&& l <= i64::MAX
    &&& i64::MIN <= (l / ad) * an <= i64::MAX
    &&& i64::MIN <= (l / bd) * bn <= i64::MAX
    &&& i64::MIN <= (l / ad) * an + (l / bd) * bn <= i64::MAX
}

/// The largest integer that is at most `numer * base / denom`.
pub open spec fn scaled_floor(numer: int, denom: int, base: int) -> int {
    (numer * base) / denom
}

/// A point in media time, or a length of it, in seconds.
#[derive(Clone, Copy, Debug, PartialEq, Eq)]
pub struct MediaTime {
    numer: i64,
    denom: i64,
}

pub type MediaDuration = MediaTime;

/// `num_rational::Ratio::new` on 64 bit integers: the fraction
/// `numer / denom` in lowest terms with a positive denominator, which is
/// `numer` and `denom` divided by their greatest common divisor, with the
/// sign in the numerator. The crate panics on a zero denominator, and
/// negates what it divided when the denominator was negative, so the
/// smallest integer is kept out where it would be negated.
#[verifier::external_body]
fn ratio_new(numer: i64, denom: i64) -> (r: (i64, i64))
    requires
        denom != 0,
        denom > i64::MIN,
        numer > i64::MIN || denom > 0,
    ensures
        lowest_terms(r.0 as int, r.1 as int),
        r.0 * gcd(abs(numer as int), abs(denom as int)) == if denom > 0 {
            numer as int
        } else {
            -numer
        },
        r.1 * gcd(abs(numer as int), abs(denom as int)) == abs(denom as int),
{
    let q = Rational64::new(numer, denom);
    (*q.numer(), *q.denom())
}

/// `num_traits::CheckedAdd::checked_add` of `num_rational::Ratio` on 64 bit
/// integers: the sum in lowest terms, or `None` when a step of the
/// computation over the least common denominator overflows.
#[verifier::external_body]
fn ratio_checked_add(an: i64, ad: i64, bn: i64, bd: i64) -> (r: Option<(i64, i64)>)
    requires
        ad > 0,
        bd > 0,
    ensures
        r is Some <==> sum_fits(an as int, ad as int, bn as int, bd as int),
        r matches Some(s) ==> lowest_terms(s.0 as int, s.1 as int) && s.0 * (ad * bd) == (an * bd
            + bn * ad) * s.1,
{
    let sum = Rational64::new_raw(an, ad).checked_add(&Rational64::new_raw(bn, bd));
    sum.map(|q| (*q.numer(), *q.denom()))
}

/// `num_rational::Ratio::recip` on 64 bit integers: numerator and
/// denominator change places, and both change sign when the numerator was
/// negative. The crate panics on zero.
#[verifier::external_body]
fn ratio_recip(numer: i64, denom: i64) -> (r: (i64, i64))
    requires
        numer != 0,
        numer > i64::MIN,
        denom > i64::MIN,
    ensures
        numer > 0 ==> r.0 == denom && r.1 == numer,
        numer < 0 ==> r.0 == -denom && r.1 == -numer,
{
    let q = Rational64::new_raw(numer, denom).recip();
    (*q.numer(), *q.denom())
}

/// Fractions of equal value round to the same integer in every base.
pub proof fn lemma_scaled_floor_of_equal_values(
    an: int,
    ad: int,
    bn: int,
    bd: int,
    base: int,
)
    requires
        ad > 0,
        bd > 0,
        an * bd == bn * ad,
    ensures
        scaled_floor(an, ad, base) == scaled_floor(bn, bd, base),
{
    let x = an * base;
    let q = x / ad;
    let r = x % ad;
    lemma_fundamental_div_mod(x, ad);
    assert(x == ad * q + r);
    let y = bn * base;
    // y * ad == x * bd, so y == bd * q + (r * bd) / ad with an exact division.
    assert(y * ad == x * bd) by (nonlinear_arith)
        requires
            x == an * base,
            y == bn * base,
            an * bd == bn * ad,
    ;
    let s = y - bd * q;
    assert(s * ad == r * bd) by (nonlinear_arith)
        requires
            y * ad == x * bd,
            x == ad * q + r,
            s == y - bd * q,
    ;
    assert(0 <= s < bd) by (nonlinear_arith)
        requires
            s * ad == r * bd,
            0 <= r < ad,
            bd > 0,
    ;
    lemma_fundamental_div_mod_converse(y, bd, q, s);
}

impl MediaTime {
    /// The denominator is positive.
    pub open spec fn wf(&self) -> bool {
        self.spec_denom() > 0
    }

    pub closed spec fn spec_numer(&self) -> int {
        self.numer as int
    }

    pub closed spec fn spec_denom(&self) -> int {
        self.denom as int
    }

    /// The time that is held as the numerator `numer` over the denominator
    /// `denom`.
    pub closed spec fn raw(numer: i64, denom: i64) -> MediaTime {
        MediaTime { numer, denom }
    }

    /// The time has the value `n / d`.
    pub open spec fn has_value(&self, n: int, d: int) -> bool {
        self.spec_numer() * d == n * self.spec_denom()
    }

    /// The time is `a + b`.
    pub open spec fn is_sum_of(&self, a: &MediaTime, b: &MediaTime) -> bool {
        self.has_value(
            a.spec_numer() * b.spec_denom() + b.spec_numer() * a.spec_denom(),
            a.spec_denom() * b.spec_denom(),
        )
    }

    /// The time is at most `other`.
    pub open spec fn le(&self, other: &MediaTime) -> bool {
        self.spec_numer() * other.spec_denom() <= other.spec_numer() * self.spec_denom()
    }

    /// The time is not negative.
    pub open spec fn non_negative(&self) -> bool {
        self.spec_numer() >= 0
    }

    /// Whether `self + other` can be computed in 64 bits.
    pub open spec fn add_fits(&self, other: &MediaTime) -> bool {
        sum_fits(self.spec_numer(), self.spec_denom(), other.spec_numer(), other.spec_denom())
    }

    /// The time in units of `1 / base` seconds, rounded down.
    pub open spec fn ticks(&self, base: int) -> int {
        scaled_floor(self.spec_numer(), self.spec_denom(), base)
    }

    /// `self + other` in units of `1 / base` seconds, rounded down.
    pub open spec fn sum_ticks(&self, other: &MediaTime, base: int) -> int {
        scaled_floor(
            self.spec_numer() * other.spec_denom() + other.spec_numer() * self.spec_denom(),
            self.spec_denom() * other.spec_denom(),
            base,
        )
    }

    /// The time is in lowest terms.
    pub open spec fn reduced(&self) -> bool {
        lowest_terms(self.spec_numer(), self.spec_denom())
    }

    /// The time `numer / denom`.
    pub fn new(numer: i64, denom: i64) -> (r: MediaTime)
        requires
            denom != 0,
            denom > i64::MIN,
            numer > i64::MIN || denom > 0,
        ensures
            r.wf(),
            r.reduced(),
            r.has_value(numer as int, denom as int),
            numer != 0 ==> r.spec_numer() != 0,
            abs(r.spec_numer()) <= abs(numer as int),
            r.spec_numer() * gcd(abs(numer as int), abs(denom as int)) == if denom > 0 {
                numer as int
            } else {
                -numer
            },
            r.spec_denom() * gcd(abs(numer as int), abs(denom as int)) == abs(denom as int),
    {
        let q = ratio_new(numer, denom);
        proof {
            let g = gcd(abs(numer as int), abs(denom as int)) as int;
            lemma_gcd_positive(abs(numer as int), abs(denom as int));
            let n = numer as int;
            let d = denom as int;
            let a = q.0 as int;
            let b = q.1 as int;
            assert(a * d == n * b) by (nonlinear_arith)
                requires
                    a * g == if d > 0 {
                        n
                    } else {
                        -n
                    },
                    b * g == if d > 0 {
                        d
                    } else {
                        -d
                    },
                    g > 0,
            {
                assert((a * d) * g == (a * g) * d);
                assert((n * b) * g == n * (b * g));
            }
            assert(n != 0 ==> a != 0) by (nonlinear_arith)
                requires
                    a * g == n || a * g == -n,
            ;
            assert(-n <= a <= n || n <= a <= -n) by (nonlinear_arith)
                requires
                    a * g == n || a * g == -n,
                    g >= 1,
            ;
        }
        MediaTime { numer: q.0, denom: q.1 }
    }

    pub fn numer(&self) -> (r: i64)
        ensures
            r == self.spec_numer(),
    {
        self.numer
    }

    pub fn denom(&self) -> (r: i64)
        ensures
            r == self.spec_denom(),
    {
        self.denom
    }

    /// The sum, or `None` when it cannot be computed in 64 bits.
    pub fn checked_add(&self, other: &MediaTime) -> (r: Option<MediaTime>)
        requires
            self.wf(),
            other.wf(),
        ensures
            r is Some <==> self.add_fits(other),
            r matches Some(t) ==> t.wf() && t.reduced() && t.is_sum_of(self, other),
    {
        match ratio_checked_add(self.numer, self.denom, other.numer, other.denom) {
            Some(q) => Some(MediaTime { numer: q.0, denom: q.1 }),
            None => None,
        }
    }

    /// The sum.
    pub fn add(&self, other: &MediaTime) -> (r: MediaTime)
        requires
            self.wf(),
            other.wf(),
            self.add_fits(other),
        ensures
            r.wf(),
            r.reduced(),
            r.is_sum_of(self, other),
    {
        match self.checked_add(other) {
            Some(t) => t,
            None => unreached(),
        }
    }

    /// The reciprocal.
    pub fn recip(&self) -> (r: MediaTime)
        requires
            self.wf(),
            self.spec_numer() != 0,
            self.spec_numer() > i64::MIN,
        ensures
            r.wf(),
            r.has_value(self.spec_denom(), self.spec_numer()),
            r.reduced() == self.reduced(),
    {
        let q = ratio_recip(self.numer, self.denom);
        proof {
            lemma_gcd_symmetric(abs(self.numer as int), abs(self.denom as int));
            let n = self.numer as int;
            let d = self.denom as int;
            assert((-d) * n == d * (-n)) by (nonlinear_arith);
        }
        MediaTime { numer: q.0, denom: q.1 }
    }

    /// Whether `round_to_base` can give the rounded time as a 64 bit integer.
    pub open spec fn rounds_in(&self, base: int) -> bool {
        i64::MIN <= self.ticks(base) <= i64::MAX
    }

    /// The time in units of `1 / base` seconds, rounded down, or `None`
    /// when that does not fit 64 bits.
    pub fn checked_round_to_base(&self, base: i64) -> (r: Option<i64>)
        requires
            self.wf(),
        ensures
            r is Some <==> self.rounds_in(base as int),
            r matches Some(t) ==> t == self.ticks(base as int),
    {
        let n: i128 = self.numer as i128;
        let b: i128 = base as i128;
        let d: i128 = self.denom as i128;
        assert(-0x4000_0000_0000_0000_0000_0000_0000_0000 <= n * b
            <= 0x4000_0000_0000_0000_0000_0000_0000_0000) by (nonlinear_arith)
            requires
                -0x8000_0000_0000_0000 <= n <= 0x8000_0000_0000_0000,
                -0x8000_0000_0000_0000 <= b <= 0x8000_0000_0000_0000,
        ;
        let p: i128 = n * b;
        let q: i128 = if p >= 0 {
            p / d
        } else {
            let up: i128 = (d - 1 - p) / d;
            proof {
                lemma_floor_of_negative(p as int, d as int);
            }
            -up
        };
        assert(q == self.ticks(base as int));
        if q < i64::MIN as i128 || q > i64::MAX as i128 {
            None
        } else {
            Some(q as i64)
        }
    }

    /// The time in units of `1 / base` seconds, rounded down.
    pub fn round_to_base(&self, base: i64) -> (r: i64)
        requires
            self.wf(),
            self.rounds_in(base as int),
        ensures
            r == self.ticks(base as int),
    {
        match self.checked_round_to_base(base) {
            Some(t) => t,
            None => unreached(),
        }
    }
}

/// A sum rounds as its value does, however it is represented.
pub proof fn lemma_sum_ticks(t: MediaTime, a: MediaTime, b: MediaTime, base: int)
    requires
        t.wf(),
        a.wf(),
        b.wf(),
        t.is_sum_of(&a, &b),
    ensures
        t.ticks(base) == a.sum_ticks(&b, base),
{
    let ad = a.spec_denom();
    let bd = b.spec_denom();
    assert(ad * bd > 0) by (nonlinear_arith)
        requires
            ad > 0,
            bd > 0,
    ;
    lemma_scaled_floor_of_equal_values(
        t.spec_numer(),
        t.spec_denom(),
        a.spec_numer() * bd + b.spec_numer() * ad,
        ad * bd,
        base,
    );
}

/// Adding a time that is not negative gives a time that is not earlier.
pub proof fn lemma_sum_not_earlier(t: MediaTime, a: MediaTime, b: MediaTime)
    requires
        t.wf(),
        a.wf(),
        b.wf(),
        t.is_sum_of(&a, &b),
        b.non_negative(),
    ensures
        a.le(&t),
{
    let tn = t.spec_numer();
    let td = t.spec_denom();
    let an = a.spec_numer();
    let ad = a.spec_denom();
    let bn = b.spec_numer();
    let bd = b.spec_denom();
    assert(an * td <= tn * ad) by (nonlinear_arith)
        requires
            tn * (ad * bd) == (an * bd + bn * ad) * td,
            ad > 0,
            bd > 0,
            td > 0,
            bn >= 0,
    {
        assert((an * td) * bd + (bn * ad) * td == (tn * ad) * bd);
        assert((bn * ad) * td >= 0);
        assert((an * td) * bd <= (tn * ad) * bd);
    }
}

/// Order of times is transitive.
pub proof fn lemma_le_transitive(a: MediaTime, b: MediaTime, c: MediaTime)
    requires
        a.wf(),
        b.wf(),
        c.wf(),
        a.le(&b),
        b.le(&c),
    ensures
        a.le(&c),
{
    let an = a.spec_numer();
    let ad = a.spec_denom();
    let bn = b.spec_numer();
    let bd = b.spec_denom();
    let cn = c.spec_numer();
    let cd = c.spec_denom();
    assert(an * cd <= cn * ad) by (nonlinear_arith)
        requires
            an * bd <= bn * ad,
            bn * cd <= cn * bd,
            ad > 0,
            bd > 0,
            cd > 0,
    {
        assert((an * bd) * cd <= (bn * ad) * cd);
        assert((bn * cd) * ad <= (cn * bd) * ad);
        assert((an * cd) * bd <= (cn * ad) * bd);
    }
}

/// Rounding a sum down gives the sum of the rounded parts, or one more.
pub proof fn lemma_sum_ticks_bounds(a: MediaTime, b: MediaTime, base: int)
    requires
        a.wf(),
        b.wf(),
    ensures
        a.ticks(base) + b.ticks(base) <= a.sum_ticks(&b, base) <= a.ticks(base) + b.ticks(base) + 1,
{
    let ad = a.spec_denom();
    let bd = b.spec_denom();
    let x = a.spec_numer() * base;
    let y = b.spec_numer() * base;
    let qa = x / ad;
    let ra = x % ad;
    let qb = y / bd;
    let rb = y % bd;
    lemma_fundamental_div_mod(x, ad);
    lemma_fundamental_div_mod(y, bd);
    let s = (a.spec_numer() * bd + b.spec_numer() * ad) * base;
    let d = ad * bd;
    let r = ra * bd + rb * ad;
    assert(d > 0) by (nonlinear_arith)
        requires
            d == ad * bd,
            ad > 0,
            bd > 0,
    ;
    assert(0 <= ra * bd < d) by (nonlinear_arith)
        requires
            d == ad * bd,
            0 <= ra < ad,
            bd > 0,
    ;
    assert(0 <= rb * ad < d) by (nonlinear_arith)
        requires
            d == ad * bd,
            0 <= rb < bd,
            ad > 0,
    ;
    assert(s == x * bd + y * ad) by (nonlinear_arith)
        requires
            s == (a.spec_numer() * bd + b.spec_numer() * ad) * base,
            x == a.spec_numer() * base,
            y == b.spec_numer() * base,
    ;
    assert(x * bd + y * ad == d * (qa + qb) + r) by (nonlinear_arith)
        requires
            d == ad * bd,
            r == ra * bd + rb * ad,
            x == ad * qa + ra,
            y == bd * qb + rb,
    ;
    if r < d {
        lemma_fundamental_div_mod_converse(s, d, qa + qb, r);
    } else {
        assert(s == d * (qa + qb + 1) + (r - d)) by (nonlinear_arith)
            requires
                s == d * (qa + qb) + r,
        ;
        lemma_fundamental_div_mod_converse(s, d, qa + qb + 1, r - d);
    }
}

/// A time is what it holds: its numerator over its denominator.
pub proof fn lemma_raw(numer: i64, denom: i64)
    ensures
        MediaTime::raw(numer, denom).spec_numer() == numer,
        MediaTime::raw(numer, denom).spec_denom() == denom,
        forall|t: MediaTime|
            t.spec_numer() == numer && t.spec_denom() == denom ==> t == MediaTime::raw(
                numer,
                denom,
            ),
{
}

/// Some combination of two numbers with whole factors is their greatest
/// common divisor.
proof fn lemma_bezout(a: nat, b: nat) -> (r: (int, int))
    ensures
        r.0 * a + r.1 * b == gcd(a, b),
    decreases b,
{
    if b == 0 {
        (1, 0)
    } else {
        let (x, y) = lemma_bezout(b, a % b);
        let q = (a / b) as int;
        let m = (a % b) as int;
        lemma_fundamental_div_mod(a as int, b as int);
        assert(y * a + (x - y * q) * b == x * b + y * m) by (nonlinear_arith)
            requires
                a == b * q + m,
        ;
        (y, x - y * q)
    }
}

/// The denominator of a fraction in lowest terms divides the denominator
/// of every fraction of the same value.
proof fn lemma_denominator_divides(an: int, ad: int, bn: int, bd: int) -> (k: int)
    requires
        lowest_terms(an, ad),
        an * bd == bn * ad,
    ensures
        bd == ad * k,
{
    let (x, y) = lemma_bezout(abs(an), abs(ad));
    let xs = if an < 0 {
        -x
    } else {
        x
    };
    assert(xs * an + y * ad == 1) by (nonlinear_arith)
        requires
            x * abs(an) + y * abs(ad) == 1,
            ad > 0,
            abs(ad) == ad,
            an < 0 ==> abs(an) == -an && xs == -x,
            an >= 0 ==> abs(an) == an && xs == x,
    ;
    let k = xs * bn + y * bd;
    assert(bd == ad * k) by (nonlinear_arith)
        requires
            xs * an + y * ad == 1,
            an * bd == bn * ad,
            k == xs * bn + y * bd,
    {
        assert(bd * (xs * an + y * ad) == bd);
        assert(bd * (xs * an + y * ad) == xs * (an * bd) + y * (ad * bd));
        assert(xs * (bn * ad) + y * (ad * bd) == ad * (xs * bn + y * bd));
    }
    k
}

/// A value has one fraction in lowest terms: two fractions in lowest terms
/// that have the same value have the same numerator and the same
/// denominator.
pub proof fn lemma_lowest_terms_unique(an: int, ad: int, bn: int, bd: int)
    requires
        lowest_terms(an, ad),
        lowest_terms(bn, bd),
        an * bd == bn * ad,
    ensures
        an == bn,
        ad == bd,
{
    let k = lemma_denominator_divides(an, ad, bn, bd);
    let m = lemma_denominator_divides(bn, bd, an, ad);
    assert(ad == bd) by (nonlinear_arith)
        requires
            bd == ad * k,
            ad == bd * m,
            ad > 0,
            bd > 0,
    {
        assert(k > 0 && m > 0);
        assert(k >= 1 && m >= 1);
        assert(bd >= ad && ad >= bd);
    }
    assert(an == bn) by (nonlinear_arith)
        requires
            an * bd == bn * ad,
            ad == bd,
            ad > 0,
    ;
}

/// Two times in lowest terms that have the same value are the same time:
/// value and lowest terms together say which numerator and denominator a
/// time holds.
pub proof fn lemma_reduced_times_are_equal(a: MediaTime, b: MediaTime)
    requires
        a.reduced(),
        b.reduced(),
        a.has_value(b.spec_numer(), b.spec_denom()),
    ensures
        a == b,
{
    lemma_lowest_terms_unique(a.spec_numer(), a.spec_denom(), b.spec_numer(), b.spec_denom());
}

/// Zero in lowest terms is zero over one.
pub proof fn lemma_zero(t: MediaTime)
    requires
        t.wf(),
        t.reduced(),
        t.has_value(0, 1),
    ensures
        t == MediaTime::raw(0, 1),
{
    assert(lowest_terms(0, 1)) by {
        assert(0nat % 1nat == 0);
        reveal_with_fuel(gcd, 3);
    }
    lemma_lowest_terms_unique(t.spec_numer(), t.spec_denom(), 0, 1);
}

/// The greatest common divisor of two numbers that are not both zero is
/// not zero.
pub proof fn lemma_gcd_positive(a: nat, b: nat)
    requires
        a > 0 || b > 0,
    ensures
        gcd(a, b) > 0,
    decreases b,
{
    if b > 0 {
        lemma_gcd_positive(b, a % b);
    }
}

/// The greatest common divisor does not depend on the order.
pub proof fn lemma_gcd_symmetric(a: nat, b: nat)
    ensures
        gcd(a, b) == gcd(b, a),
    decreases a + b,
{
    if a == 0 || b == 0 {
        reveal_with_fuel(gcd, 3);
    } else if a == b {
    } else if a < b {
        // gcd(a, b) = gcd(b, a % b) = gcd(b, a)
        assert(a % b == a) by (nonlinear_arith)
            requires
                0 <= a < b,
        ;
        assert(gcd(a, b) == gcd(b, a));
    } else {
        assert(b % a == b) by (nonlinear_arith)
            requires
                0 <= b < a,
        ;
        assert(gcd(b, a) == gcd(a, b));
    }
}

/// Rounding a negative fraction down is rounding its opposite up.
pub proof fn lemma_floor_of_negative(p: int, d: int)
    requires
        p < 0,
        d > 0,
    ensures
        p / d == -((d - 1 - p) / d),
{
    let u = (d - 1 - p) / d;
    let m = (d - 1 - p) % d;
    lemma_fundamental_div_mod(d - 1 - p, d);
    // d - 1 - p == d * u + m, so p == d * (-u) + (d - 1 - m)
    assert(p == d * (-u) + (d - 1 - m)) by (nonlinear_arith)
        requires
            d - 1 - p == d * u + m,
    ;
    lemma_fundamental_div_mod_converse(p, d, -u, d - 1 - m);
}

} // verus!
