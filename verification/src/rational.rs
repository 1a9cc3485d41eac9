//! Approximation of a physical density by the fraction-with-exponent form
//! that a resolution box stores.
//!
//! A density is an exact non-negative fraction. Its approximation is a
//! triplet `(num, den, exp)` that stands for `num / den * 10^exp`, with
//! 16-bit numerator and denominator.

use vstd::prelude::*;

verus! {

/// Number of exponents that the search tries: `0..=5`.
pub const EXPONENTS: usize = 6;

/// Number of denominators that the search tries.
pub const DENOMINATORS: usize = 6;

/// Number of candidates: one per exponent and denominator.
pub const CANDIDATES: usize = 36;

/// The least common multiple of the denominators. Errors are compared in
/// units of one over this number times the density's own denominator.
pub const ERROR_SCALE: u128 = 131_070_000;

/// A density in pixels per metre, as the fraction `num / den`. A zero
/// denominator stands for no usable density.
#[derive(Debug, Clone, Copy, PartialEq, Eq)]
pub struct Ppm {
    pub num: u64,
    pub den: u64,
}

/// The number `num / den * 10^exp`. The triplet `(0, 1, 0)` stands for no
/// usable density.
#[derive(Debug, Clone, Copy, PartialEq, Eq)]
pub struct RationalTriplet {
    pub num: u16,
    pub den: u16,
    pub exp: u8,
}

/// The `j`-th denominator of the search.
pub open spec fn denominator(j: int) -> int {
    if j == 0 {
        1
    } else if j == 1 {
        10
    } else if j == 2 {
        100
    } else if j == 3 {
        1000
    } else if j == 4 {
        10000
    } else {
        65535
    }
}

/// Ten to the power `e`, for the exponents of the search.
pub open spec fn pow10(e: int) -> int {
    if e <= 0 {
        1
    } else if e == 1 {
        10
    } else if e == 2 {
        100
    } else if e == 3 {
        1000
    } else if e == 4 {
        10000
    } else {
        100000
    }
}

/// The exponent of candidate `k`. Candidates are tried exponent by
/// exponent, and for each exponent denominator by denominator.
pub open spec fn exponent_of(k: int) -> int {
    k / 6
}

/// The denominator of candidate `k`.
pub open spec fn denominator_of(k: int) -> int {
    denominator(k % 6)
}

/// The numerator of candidate `k` for the density `p / q`: the density
/// divided by the power of ten and multiplied by the denominator, rounded
/// to the nearest integer, halves away from zero.
pub open spec fn numerator_of(p: int, q: int, k: int) -> int {
    (2 * (p * denominator_of(k)) + q * pow10(exponent_of(k))) / (2 * (q * pow10(exponent_of(k))))
}

/// Candidate `k` can be stored: its numerator lies in `1..=65535`.
pub open spec fn valid(p: int, q: int, k: int) -> bool {
    &&& 0 <= k < CANDIDATES
    &&& q > 0
    &&& 1 <= numerator_of(p, q, k) <= 65535
}

/// The distance between candidate `k` and the density `p / q`, times the
/// candidate's denominator and `q`.
pub open spec fn raw_error(p: int, q: int, k: int) -> int {
    let diff = numerator_of(p, q, k) * (q * pow10(exponent_of(k))) - p * denominator_of(k);
    if diff < 0 {
        -diff
    } else {
        diff
    }
}

/// The distance between candidate `k` and the density `p / q`, in units of
/// `1 / (ERROR_SCALE * q)`.
pub open spec fn error_units(p: int, q: int, k: int) -> int {
    raw_error(p, q, k) * (ERROR_SCALE as int / denominator_of(k))
}

/// Candidate `k` is closer to the density than one millionth.
pub open spec fn exact_enough(p: int, q: int, k: int) -> bool {
    raw_error(p, q, k) * 1_000_000 < denominator_of(k) * q
}

/// The triplet of candidate `k`.
pub open spec fn triplet_of(p: int, q: int, k: int) -> RationalTriplet {
    RationalTriplet {
        num: numerator_of(p, q, k) as u16,
        den: denominator_of(k) as u16,
        exp: exponent_of(k) as u8,
    }
}

/// The triplet that stands for no usable density.
pub open spec fn neutral_triplet() -> RationalTriplet {
    RationalTriplet { num: 0, den: 1, exp: 0 }
}

impl RationalTriplet {
    /// The triplet is the neutral one, or has a numerator and a
    /// denominator of at least 1 and an exponent of at most 5.
    pub open spec fn wf(&self) -> bool {
        *self == neutral_triplet() || (self.num >= 1 && self.den >= 1 && self.exp <= 5)
    }
}

/// The distance between the number that `t` stands for and the density
/// `p / q`, in units of `1 / (ERROR_SCALE * q)`.
pub open spec fn distance_units(t: RationalTriplet, p: int, q: int) -> int {
    let diff = t.num * (q * pow10(t.exp as int)) - p * t.den;
    (if diff < 0 {
        -diff
    } else {
        diff
    }) * (ERROR_SCALE as int / (t.den as int))
}

/// The triplet of a candidate that can be stored holds the candidate's
/// numerator, denominator and exponent, and lies as far from the density
/// as the candidate.
pub proof fn lemma_triplet_of_valid(p: int, q: int, k: int)
    requires
        valid(p, q, k),
    ensures
        triplet_of(p, q, k).num == numerator_of(p, q, k),
        triplet_of(p, q, k).den == denominator_of(k),
        triplet_of(p, q, k).exp == exponent_of(k),
        triplet_of(p, q, k).wf(),
        distance_units(triplet_of(p, q, k), p, q) == error_units(p, q, k),
{
}

/// Candidate `k` is the one that the search settles on: it can be stored,
/// it is strictly closer than every storable candidate before it, none of
/// which is exact enough, and it is exact enough itself or no storable
/// candidate after it is strictly closer.
pub open spec fn is_choice(p: int, q: int, k: int) -> bool {
    &&& valid(p, q, k)
    &&& forall|i: int|
        0 <= i < k && #[trigger] valid(p, q, i) ==> !exact_enough(p, q, i) && error_units(p, q, k)
            < error_units(p, q, i)
    &&& exact_enough(p, q, k) || forall|i: int|
        k < i < CANDIDATES && #[trigger] valid(p, q, i) ==> error_units(p, q, k) <= error_units(
            p,
            q,
            i,
        )
}

/// `t` is the approximation of the density `p / q`: the triplet of the
/// chosen candidate, or the neutral triplet where no candidate can be
/// stored.
pub open spec fn approximates(p: int, q: int, t: RationalTriplet) -> bool {
    ||| exists|k: int| #[trigger] is_choice(p, q, k) && t == triplet_of(p, q, k)
    ||| (forall|k: int| !#[trigger] valid(p, q, k)) && t == neutral_triplet()
}

/// The approximation of the density `ppm`.
pub open spec fn approximation(ppm: Ppm) -> RationalTriplet {
    choose|t: RationalTriplet| approximates(ppm.num as int, ppm.den as int, t)
}

/// The product of two bounded numbers is bounded by the product of the
/// bounds.
proof fn lemma_product_bound(a: int, b: int, a_max: int, b_max: int)
    requires
        0 <= a <= a_max,
        0 <= b <= b_max,
    ensures
        0 <= a * b <= a_max * b_max,
{
    assert(0 <= a * b <= a_max * b_max) by (nonlinear_arith)
        requires
            0 <= a <= a_max,
            0 <= b <= b_max,
    ;
}

/// The `j`-th denominator of the search.
fn denominator_at(j: usize) -> (d: u128)
    requires
        j < DENOMINATORS,
    ensures
        d == denominator(j as int),
        1 <= d <= 65535,
{
    if j == 0 {
        1
    } else if j == 1 {
        10
    } else if j == 2 {
        100
    } else if j == 3 {
        1000
    } else if j == 4 {
        10000
    } else {
        65535
    }
}

/// Ten to the power `e`.
fn pow10_at(e: usize) -> (s: u128)
    requires
        e < EXPONENTS,
    ensures
        s == pow10(e as int),
        1 <= s <= 100000,
{
    if e == 0 {
        1
    } else if e == 1 {
        10
    } else if e == 2 {
        100
    } else if e == 3 {
        1000
    } else if e == 4 {
        10000
    } else {
        100000
    }
}

/// One storable candidate of the search, with its distance to the density.
struct Candidate {
    triplet: RationalTriplet,
    units: u128,
    exact: bool,
}

/// Works out candidate `k` for the density `p / q`.
fn evaluate(p: u64, q: u64, k: usize) -> (r: Option<Candidate>)
    requires
        k < CANDIDATES,
        q > 0,
    ensures
        match r {
            Some(c) => {
                &&& valid(p as int, q as int, k as int)
                &&& c.triplet == triplet_of(p as int, q as int, k as int)
                &&& c.units == error_units(p as int, q as int, k as int)
                &&& c.exact == exact_enough(p as int, q as int, k as int)
            },
            None => !valid(p as int, q as int, k as int),
        },
{
    let e: usize = k / 6;
    let j: usize = k % 6;
    let d: u128 = denominator_at(j);
    let scale: u128 = pow10_at(e);
    proof {
        lemma_product_bound(q as int, scale as int, u64::MAX as int, 100000);
        lemma_product_bound(p as int, d as int, u64::MAX as int, 65535);
    }
    let qs: u128 = (q as u128) * scale;
    let pd: u128 = (p as u128) * d;
    let num: u128 = (2 * pd + qs) / (2 * qs);
    if num == 0 || num > 65535 {
        return None;
    }
    proof {
        lemma_product_bound(num as int, qs as int, 65535, u64::MAX as int * 100000);
    }
    let approx: u128 = num * qs;
    let raw: u128 = if approx >= pd {
        approx - pd
    } else {
        pd - approx
    };
    let per: u128 = ERROR_SCALE / d;
    proof {
        lemma_product_bound(
            raw as int,
            per as int,
            65535 * (u64::MAX as int * 100000),
            131_070_000,
        );
        lemma_product_bound(d as int, q as int, 65535, u64::MAX as int);
    }
    let units: u128 = raw * per;
    let exact: bool = raw * 1_000_000 < d * (q as u128);
    Some(
        Candidate {
            triplet: RationalTriplet { num: num as u16, den: d as u16, exp: e as u8 },
            units,
            exact,
        },
    )
}

/// Finds the triplet closest to the density `ppm`.
///
/// The search tries the exponents `0..=5` and, for each, the denominators
/// 1, 10, 100, 1000, 10000 and 65535. It keeps the first candidate that is
/// strictly closer than all before it, and stops at once at a candidate
/// closer than one millionth. A density of zero, or one without a
/// denominator, has no storable candidate and yields the neutral triplet.
pub fn ppm_to_jp2_triplet(ppm: Ppm) -> (t: RationalTriplet)
    ensures
        approximates(ppm.num as int, ppm.den as int, t),
        t == approximation(ppm),
        t.wf(),
{
    let t = search_triplet(ppm);
    proof {
        lemma_approximation_unique(ppm.num as int, ppm.den as int, t, approximation(ppm));
        lemma_approximation_wf(ppm.num as int, ppm.den as int, t);
    }
    t
}

/// The search behind `ppm_to_jp2_triplet`.
fn search_triplet(ppm: Ppm) -> (t: RationalTriplet)
    ensures
        approximates(ppm.num as int, ppm.den as int, t),
{
    let p: u64 = ppm.num;
    let q: u64 = ppm.den;
    if q == 0 {
        return RationalTriplet { num: 0, den: 1, exp: 0 };
    }
    let mut best: RationalTriplet = RationalTriplet { num: 0, den: 1, exp: 0 };
    let mut best_units: u128 = 0;
    let mut found: bool = false;
    let ghost mut at: int = 0;
    let mut k: usize = 0;
    while k < CANDIDATES
        invariant
            q > 0,
            p == ppm.num,
            q == ppm.den,
            k <= CANDIDATES,
            !found ==> best == neutral_triplet() && forall|i: int|
                0 <= i < k ==> !#[trigger] valid(p as int, q as int, i),
            found ==> {
                &&& 0 <= at < k
                &&& valid(p as int, q as int, at)
                &&& best == triplet_of(p as int, q as int, at)
                &&& best_units == error_units(p as int, q as int, at)
                &&& forall|i: int|
                    0 <= i < k && #[trigger] valid(p as int, q as int, i) ==> !exact_enough(
                        p as int,
                        q as int,
                        i,
                    )
                &&& forall|i: int|
                    0 <= i < at && #[trigger] valid(p as int, q as int, i) ==> best_units
                        < error_units(p as int, q as int, i)
                &&& forall|i: int|
                    at < i < k && #[trigger] valid(p as int, q as int, i) ==> best_units
                        <= error_units(p as int, q as int, i)
            },
        decreases CANDIDATES - k,
    {
        match evaluate(p, q, k) {
            Some(c) => {
                proof {
                    if found && c.exact {
                        lemma_exact_is_closer(p as int, q as int, k as int, at);
                    }
                }
                if !found || c.units < best_units {
                    best = c.triplet;
                    best_units = c.units;
                    found = true;
                    proof {
                        at = k as int;
                    }
                    if c.exact {
                        assert(is_choice(p as int, q as int, at));
                        return best;
                    }
                }
            },
            None => {},
        }
        k += 1;
    }
    proof {
        if found {
            assert(is_choice(p as int, q as int, at));
        } else {
            assert forall|i: int| !#[trigger] valid(p as int, q as int, i) by {}
        }
    }
    best
}

/// A candidate that is exact enough is strictly closer than one that is
/// not.
proof fn lemma_exact_is_closer(p: int, q: int, a: int, b: int)
    requires
        valid(p, q, a),
        valid(p, q, b),
        exact_enough(p, q, a),
        !exact_enough(p, q, b),
    ensures
        error_units(p, q, a) < error_units(p, q, b),
{
    let da = denominator_of(a);
    let db = denominator_of(b);
    let ra = raw_error(p, q, a);
    let rb = raw_error(p, q, b);
    let ua = ERROR_SCALE as int / da;
    let ub = ERROR_SCALE as int / db;
    assert(da * ua == ERROR_SCALE && db * ub == ERROR_SCALE);
    // ra * 10^6 < da * q  and  rb * 10^6 >= db * q
    assert(ra * ua * 1_000_000 < ERROR_SCALE * q) by (nonlinear_arith)
        requires
            ra * 1_000_000 < da * q,
            da * ua == ERROR_SCALE,
            ua > 0,
            q > 0,
            ra >= 0,
    ;
    assert(rb * ub * 1_000_000 >= ERROR_SCALE * q) by (nonlinear_arith)
        requires
            rb * 1_000_000 >= db * q,
            db * ub == ERROR_SCALE,
            ub > 0,
            q > 0,
            rb >= 0,
    ;
}

/// The search settles on one candidate only.
pub proof fn lemma_choice_unique(p: int, q: int, a: int, b: int)
    requires
        is_choice(p, q, a),
        is_choice(p, q, b),
    ensures
        a == b,
{
    if a < b {
        assert(valid(p, q, a));
        assert(!exact_enough(p, q, a) && error_units(p, q, b) < error_units(p, q, a));
        assert(valid(p, q, b));
    } else if b < a {
        assert(valid(p, q, b));
        assert(!exact_enough(p, q, b) && error_units(p, q, a) < error_units(p, q, b));
        assert(valid(p, q, a));
    }
}

/// The approximation is a function of the density: two triplets that both
/// approximate one density are the same triplet.
pub proof fn lemma_approximation_unique(p: int, q: int, s: RationalTriplet, t: RationalTriplet)
    requires
        approximates(p, q, s),
        approximates(p, q, t),
    ensures
        s == t,
{
    if exists|k: int| #[trigger] is_choice(p, q, k) && s == triplet_of(p, q, k) {
        let a = choose|k: int| #[trigger] is_choice(p, q, k) && s == triplet_of(p, q, k);
        assert(valid(p, q, a));
        let b = choose|k: int| #[trigger] is_choice(p, q, k) && t == triplet_of(p, q, k);
        lemma_choice_unique(p, q, a, b);
    } else {
        if exists|k: int| #[trigger] is_choice(p, q, k) && t == triplet_of(p, q, k) {
            let b = choose|k: int| #[trigger] is_choice(p, q, k) && t == triplet_of(p, q, k);
            assert(valid(p, q, b));
        }
    }
}

/// Every approximation is the neutral triplet or has a numerator and a
/// denominator of at least 1.
pub proof fn lemma_approximation_wf(p: int, q: int, t: RationalTriplet)
    requires
        approximates(p, q, t),
    ensures
        t.wf(),
{
    if exists|k: int| #[trigger] is_choice(p, q, k) && t == triplet_of(p, q, k) {
        let k = choose|k: int| #[trigger] is_choice(p, q, k) && t == triplet_of(p, q, k);
        lemma_triplet_of_valid(p, q, k);
    }
}

/// Rounding moves a candidate away from the density by at most half a
/// numerator step, and a density that the candidate's scale brings into
/// `1/2 ..= 65535` gives a numerator that can be stored.
pub proof fn lemma_rounding(p: int, q: int, k: int)
    requires
        0 <= k < CANDIDATES,
        q > 0,
        p >= 0,
    ensures
        2 * raw_error(p, q, k) <= q * pow10(exponent_of(k)),
        2 * (p * denominator_of(k)) >= q * pow10(exponent_of(k)) ==> numerator_of(p, q, k) >= 1,
        p * denominator_of(k) <= 65535 * (q * pow10(exponent_of(k))) ==> numerator_of(p, q, k)
            <= 65535,
{
    let d = denominator_of(k);
    let s = pow10(exponent_of(k));
    let qs = q * s;
    let pd = p * d;
    assert(qs > 0) by (nonlinear_arith)
        requires
            q > 0,
            s > 0,
            qs == q * s,
    ;
    assert(pd >= 0) by (nonlinear_arith)
        requires
            p >= 0,
            d > 0,
            pd == p * d,
    ;
    let x = 2 * pd + qs;
    let y = 2 * qs;
    let num = x / y;
    assert(num == numerator_of(p, q, k));
    vstd::arithmetic::div_mod::lemma_fundamental_div_mod(x, y);
    vstd::arithmetic::div_mod::lemma_mod_bound(x, y);
    let r = x % y;
    assert(x == y * num + r);
    assert(y * num == 2 * (num * qs)) by (nonlinear_arith)
        requires
            y == 2 * qs,
    ;
    // 2 * (num * qs - pd) == qs - r, and 0 <= r < 2 * qs.
    assert(2 * (num * qs - pd) == qs - r);
    if 2 * pd >= qs {
        assert(num >= 1) by (nonlinear_arith)
            requires
                x == y * num + r,
                r < y,
                x >= y,
                y > 0,
        ;
    }
    if pd <= 65535 * qs {
        assert(num <= 65535) by (nonlinear_arith)
            requires
                x == y * num + r,
                r >= 0,
                x < 65536 * y,
                y > 0,
        ;
    }
}

/// Scales a bound on a raw error to a bound in error units.
proof fn lemma_units_bound(raw: int, d: int, unit: int, p: int, c: int)
    requires
        c * raw <= p * d,
        d * unit == ERROR_SCALE,
        unit > 0,
    ensures
        c * (raw * unit) <= p * ERROR_SCALE,
{
    assert(c * (raw * unit) <= p * (d * unit)) by (nonlinear_arith)
        requires
            c * raw <= p * d,
            unit > 0,
    ;
}

/// The candidate whose scale brings a density between 1 and 6 553 500 000
/// into `6553 ..= 65535`.
pub open spec fn decade_candidate(p: int, q: int) -> int {
    if p * 10000 <= 65535 * q {
        4
    } else if p * 1000 <= 65535 * q {
        3
    } else if p * 100 <= 65535 * q {
        2
    } else if p * 10 <= 65535 * q {
        1
    } else if p <= 65535 * q {
        0
    } else if p <= 655_350 * q {
        6
    } else if p <= 6_553_500 * q {
        12
    } else if p <= 65_535_000 * q {
        18
    } else if p <= 655_350_000 * q {
        24
    } else {
        30
    }
}

/// For a density between 1 and 6 553 500 000 the decade candidate can be
/// stored and lies within one part in 13106 of the density.
proof fn lemma_decade_candidate(p: int, q: int)
    requires
        q > 0,
        q <= p <= 6_553_500_000 * q,
    ensures
        valid(p, q, decade_candidate(p, q)),
        13106 * error_units(p, q, decade_candidate(p, q)) <= p * ERROR_SCALE,
{
    let k = decade_candidate(p, q);
    let d = denominator_of(k);
    let s = pow10(exponent_of(k));
    assert(0 <= k < CANDIDATES);
    assert(q * s == s * q && p * d == d * p) by (nonlinear_arith);
    assert(6553 * (q * s) <= p * d <= 65535 * (q * s));
    lemma_rounding(p, q, k);
    let raw = raw_error(p, q, k);
    assert(13106 * raw <= p * d);
    lemma_units_bound(raw, d, ERROR_SCALE as int / d, p, 13106);
}

/// A candidate closer than one millionth lies within one part in 13106 of a
/// density that is at least 1.
proof fn lemma_exact_within_bound(p: int, q: int, k: int)
    requires
        0 < q <= p,
        valid(p, q, k),
        exact_enough(p, q, k),
    ensures
        13106 * error_units(p, q, k) <= p * ERROR_SCALE,
{
    let d = denominator_of(k);
    let raw = raw_error(p, q, k);
    assert(13106 * raw <= p * d) by (nonlinear_arith)
        requires
            raw * 1_000_000 < d * q,
            raw >= 0,
            d > 0,
            0 < q <= p,
    ;
    lemma_units_bound(raw, d, ERROR_SCALE as int / d, p, 13106);
}

/// The approximation of a density between 1 and 6 553 500 000 pixels per
/// metre is never the neutral triplet, and differs from the density by at
/// most one part in 13106 of the density.
pub proof fn lemma_relative_error(p: int, q: int, t: RationalTriplet)
    requires
        q > 0,
        q <= p <= 6_553_500_000 * q,
        approximates(p, q, t),
    ensures
        exists|k: int|
            #[trigger] is_choice(p, q, k) && t == triplet_of(p, q, k) && 13106 * error_units(
                p,
                q,
                k,
            ) <= p * ERROR_SCALE,
        t != neutral_triplet(),
        t.num >= 1,
        t.den >= 1,
        13106 * distance_units(t, p, q) <= p * ERROR_SCALE,
{
    let w = decade_candidate(p, q);
    lemma_decade_candidate(p, q);
    assert(valid(p, q, w));
    let k = choose|k: int| #[trigger] is_choice(p, q, k) && t == triplet_of(p, q, k);
    assert(is_choice(p, q, k) && t == triplet_of(p, q, k));
    lemma_triplet_of_valid(p, q, k);
    if exact_enough(p, q, k) {
        lemma_exact_within_bound(p, q, k);
    } else if k < w {
        assert(error_units(p, q, k) <= error_units(p, q, w));
    } else if w < k {
        assert(error_units(p, q, k) < error_units(p, q, w));
    }
}

} // verus!
