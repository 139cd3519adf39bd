//! Divisibility, and the two calls that reduce a fraction and find a least
//! common multiple.

use fraction::Fraction;
use vstd::arithmetic::div_mod::{lemma_fundamental_div_mod, lemma_mod_multiples_basic};
use vstd::prelude::*;

verus! {

/// Whether `n` is a multiple of the positive number `d`.
pub open spec fn divides(d: nat, n: nat) -> bool {
    d > 0 && n % d == 0
}

/// Whether `g` is the greatest number that divides both `a` and `b`.
pub open spec fn is_gcd(a: nat, b: nat, g: nat) -> bool {
    &&& divides(g, a)
    &&& divides(g, b)
    &&& forall|d: nat| #[trigger] divides(d, a) && divides(d, b) ==> d <= g
}

/// Whether `d` is the denominator of `numer / denom` in lowest terms:
/// `denom` divided by the greatest common divisor.
pub open spec fn is_reduced_denominator(numer: nat, denom: nat, d: nat) -> bool {
    exists|g: nat| #[trigger] is_gcd(numer, denom, g) && d * g == denom
}

/// Whether `r` is what reducing `numer / denom` gives: nothing where `denom`
/// is 0, else the denominator in lowest terms.
pub open spec fn is_reduction(numer: nat, denom: nat, r: Option<u32>) -> bool {
    if denom == 0 {
        r is None
    } else {
        r matches Some(d) && is_reduced_denominator(numer, denom, d as nat)
    }
}

/// The denominator of `numer / denom` in lowest terms.
pub open spec fn reduced_denominator_of(numer: nat, denom: nat) -> nat {
    choose|d: nat| is_reduced_denominator(numer, denom, d)
}

/// Whether `k` is positive and a multiple of both `a` and `b`.
pub open spec fn is_common_multiple_of_two(a: nat, b: nat, k: nat) -> bool {
    k > 0 && divides(a, k) && divides(b, k)
}

/// Whether `m` is the least common multiple of `a` and `b`: 0 where one of
/// them is 0, else the least positive number that both divide.
pub open spec fn is_lcm(a: nat, b: nat, m: nat) -> bool {
    if a == 0 || b == 0 {
        m == 0
    } else {
        &&& is_common_multiple_of_two(a, b, m)
        &&& forall|k: nat| #[trigger] is_common_multiple_of_two(a, b, k) ==> m <= k
    }
}

/// Whether `k` is positive and a multiple of every member.
pub open spec fn is_common_multiple(members: Set<nat>, k: nat) -> bool {
    k > 0 && forall|d: nat| members.contains(d) ==> #[trigger] divides(d, k)
}

/// Whether `m` is the least positive number that every member divides.
pub open spec fn is_lcm_of(members: Set<nat>, m: nat) -> bool {
    &&& is_common_multiple(members, m)
    &&& forall|k: nat| #[trigger] is_common_multiple(members, k) ==> m <= k
}

/// Divisibility passes on: what divides a divisor divides the number.
pub proof fn lemma_divides_transitive(a: nat, b: nat, c: nat)
    requires
        divides(a, b),
        divides(b, c),
    ensures
        divides(a, c),
{
    lemma_fundamental_div_mod(b as int, a as int);
    lemma_fundamental_div_mod(c as int, b as int);
    let x = b as int / a as int;
    let y = c as int / b as int;
    assert(c == a * (x * y)) by (nonlinear_arith)
        requires
            b == a * x,
            c == b * y,
    ;
    lemma_mod_multiples_basic(x * y, a as int);
    assert((x * y) * a == a * (x * y)) by (nonlinear_arith);
}

/// What is left of a multiple of `a`, after a multiple of `m` is taken away
/// from it, is a multiple of `a`, where `a` divides `m`.
proof fn lemma_remainder_is_multiple(a: nat, m: nat, k: nat)
    requires
        divides(a, m),
        divides(a, k),
        m > 0,
    ensures
        (k % m) % a == 0,
{
    lemma_fundamental_div_mod(k as int, m as int);
    lemma_fundamental_div_mod(k as int, a as int);
    lemma_fundamental_div_mod(m as int, a as int);
    let q = k as int / m as int;
    let x = k as int / a as int;
    let y = m as int / a as int;
    let r = k as int % m as int;
    assert(r == (x - q * y) * a) by (nonlinear_arith)
        requires
            k == m * q + r,
            k == a * x,
            m == a * y,
    ;
    lemma_mod_multiples_basic(x - q * y, a as int);
}

/// The least common multiple of a set divides each common multiple of the
/// set.
pub proof fn lemma_lcm_of_divides(members: Set<nat>, m: nat, k: nat)
    requires
        is_lcm_of(members, m),
        is_common_multiple(members, k),
    ensures
        divides(m, k),
{
    let r = k % m;
    if r > 0 {
        assert forall|d: nat| members.contains(d) implies #[trigger] divides(d, r) by {
            assert(divides(d, m));
            assert(divides(d, k));
            lemma_remainder_is_multiple(d, m, k);
        }
        assert(is_common_multiple(members, r));
    }
}

/// A set has at most one least common multiple.
pub proof fn lemma_lcm_of_unique(members: Set<nat>, m1: nat, m2: nat)
    requires
        is_lcm_of(members, m1),
        is_lcm_of(members, m2),
    ensures
        m1 == m2,
{
}

/// A larger set has no smaller least common multiple.
pub proof fn lemma_lcm_of_monotonic(small: Set<nat>, large: Set<nat>, m1: nat, m2: nat)
    requires
        small.subset_of(large),
        is_lcm_of(small, m1),
        is_lcm_of(large, m2),
    ensures
        m1 <= m2,
{
    assert forall|d: nat| small.contains(d) implies #[trigger] divides(d, m2) by {
        assert(large.contains(d));
    }
    assert(is_common_multiple(small, m2));
}

/// The least common multiple of nothing is 1.
pub proof fn lemma_lcm_of_empty()
    ensures
        is_lcm_of(Set::<nat>::empty(), 1),
{
}

/// One more member: the least common multiple becomes its least common
/// multiple with the new member.
pub proof fn lemma_lcm_of_insert(members: Set<nat>, m: nat, n: nat, m2: nat)
    requires
        is_lcm_of(members, m),
        n > 0,
        is_lcm(m, n, m2),
    ensures
        is_lcm_of(members.insert(n), m2),
{
    let larger = members.insert(n);
    assert forall|d: nat| larger.contains(d) implies #[trigger] divides(d, m2) by {
        if d != n {
            assert(members.contains(d));
            assert(divides(d, m));
            lemma_divides_transitive(d, m, m2);
        }
    }
    assert forall|k: nat| #[trigger] is_common_multiple(larger, k) implies m2 <= k by {
        assert forall|d: nat| members.contains(d) implies #[trigger] divides(d, k) by {
            assert(larger.contains(d));
        }
        assert(is_common_multiple(members, k));
        lemma_lcm_of_divides(members, m, k);
        assert(larger.contains(n));
        assert(divides(n, k));
        assert(is_common_multiple_of_two(m, n, k));
    }
}

/// A fraction has one denominator in lowest terms.
pub proof fn lemma_reduced_denominator_unique(numer: nat, denom: nat, d: nat)
    requires
        denom > 0,
        is_reduced_denominator(numer, denom, d),
    ensures
        d == reduced_denominator_of(numer, denom),
        d > 0,
        divides(d, denom),
{
    let e = reduced_denominator_of(numer, denom);
    assert(is_reduced_denominator(numer, denom, e));
    let g = choose|g: nat| #[trigger] is_gcd(numer, denom, g) && d * g == denom;
    let h = choose|h: nat| #[trigger] is_gcd(numer, denom, h) && e * h == denom;
    assert(g == h);
    assert(d == e) by (nonlinear_arith)
        requires
            d * g == denom,
            e * g == denom,
            g > 0,
    ;
    assert(d > 0) by (nonlinear_arith)
        requires
            d * g == denom,
            denom > 0,
            g > 0,
    ;
    lemma_mod_multiples_basic(g as int, d as int);
    assert(g * d == d * g) by (nonlinear_arith);
}

/// Reduces `numer / denom` with `Fraction::new` and reads the denominator
/// with `denom`: none where `denom` is 0, else `denom` divided by the
/// greatest common divisor of the two.
#[verifier::external_body]
pub(crate) fn reduced_denominator(numer: u32, denom: u32) -> (r: Option<u32>)
    ensures
        is_reduction(numer as nat, denom as nat, r),
{
    match Fraction::new(numer, denom).denom() {
        Some(d) => Some(*d as u32),
        None => None,
    }
}

/// The least common multiple by `num::integer::lcm`, taken in 64 bits, where
/// the least common multiple of two numbers of 32 bits always fits.
#[verifier::external_body]
pub(crate) fn lcm_wide(a: u32, b: u32) -> (m: u64)
    ensures
        is_lcm(a as nat, b as nat, m as nat),
{
    num::integer::lcm(a as u64, b as u64)
}

/// The greatest number up to `bound` that divides both `a` and `b`.
proof fn lemma_gcd_upto(a: nat, b: nat, bound: nat) -> (g: nat)
    requires
        bound >= 1,
    ensures
        divides(g, a),
        divides(g, b),
        g <= bound,
        forall|d: nat| #[trigger] divides(d, a) && divides(d, b) && d <= bound ==> d <= g,
    decreases bound,
{
    if bound == 1 {
        1
    } else if divides(bound, a) && divides(bound, b) {
        bound
    } else {
        lemma_gcd_upto(a, b, (bound - 1) as nat)
    }
}

/// Every fraction with a denominator other than 0 has a denominator in
/// lowest terms, which divides the denominator it was written with.
pub proof fn lemma_reduced_denominator_exists(numer: nat, denom: nat)
    requires
        denom > 0,
    ensures
        is_reduced_denominator(numer, denom, reduced_denominator_of(numer, denom)),
        reduced_denominator_of(numer, denom) > 0,
        divides(reduced_denominator_of(numer, denom), denom),
{
    let g = lemma_gcd_upto(numer, denom, denom);
    assert forall|d: nat| #[trigger] divides(d, numer) && divides(d, denom) implies d <= g by {
        if d > denom {
            vstd::arithmetic::div_mod::lemma_small_mod(denom, d);
        }
    }
    assert(is_gcd(numer, denom, g));
    let d = denom / g;
    lemma_fundamental_div_mod(denom as int, g as int);
    assert(d * g == denom) by (nonlinear_arith)
        requires
            denom == g * d,
    ;
    assert(is_reduced_denominator(numer, denom, d));
    lemma_reduced_denominator_unique(numer, denom, d);
}

/// A multiple of the denominator in lowest terms, times the numerator, is a
/// multiple of the denominator as written.
pub proof fn lemma_multiple_of_reduced(numer: nat, denom: nat, m: nat)
    requires
        denom > 0,
        divides(reduced_denominator_of(numer, denom), m),
    ensures
        (m * numer) % denom == 0,
{
    lemma_reduced_denominator_exists(numer, denom);
    let d = reduced_denominator_of(numer, denom);
    let g = choose|g: nat| #[trigger] is_gcd(numer, denom, g) && d * g == denom;
    lemma_fundamental_div_mod(m as int, d as int);
    lemma_fundamental_div_mod(numer as int, g as int);
    let k = m as int / d as int;
    let x = numer as int / g as int;
    assert(m * numer == (k * x) * denom) by (nonlinear_arith)
        requires
            m == d * k,
            numer == g * x,
            d * g == denom,
    ;
    lemma_mod_multiples_basic(k * x, denom as int);
}

} // verus!
