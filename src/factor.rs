//! The timestamp scale factor `length / duration`, as an exact fraction in
//! lowest terms.
use vstd::prelude::*;
use vstd::arithmetic::div_mod::{lemma_fundamental_div_mod, lemma_mod_multiples_basic};
use crate::decimal::{Seconds, lemma_pow10_bound, pow10_u64};

verus! {

/// The fraction `num / den`.
#[derive(Clone, Copy, Debug, PartialEq, Eq)]
pub struct Ratio {
    pub num: u128,
    pub den: u128,
}

#[derive(Clone, Copy, Debug, PartialEq, Eq)]
pub enum FactorError {
    /// The probed duration or the wanted length is zero.
    InvalidDuration,
}

/// Greatest common divisor, by Euclid's algorithm.
pub open spec fn gcd(a: nat, b: nat) -> nat
    decreases b,
{
    if b == 0 {
        a
    } else {
        gcd(b, a % b)
    }
}

/// `length / duration` before reduction: the numerator.
pub open spec fn raw_num(duration: Seconds, length: Seconds) -> nat {
    length.units as nat * duration.denom()
}

/// `length / duration` before reduction: the denominator.
pub open spec fn raw_den(duration: Seconds, length: Seconds) -> nat {
    duration.units as nat * length.denom()
}

/// The factor by which timestamps are scaled so that a clip of `duration`
/// seconds plays in `length` seconds: `length / duration` in lowest terms.
pub open spec fn factor_outcome(duration: Seconds, length: Seconds) -> Result<Ratio, FactorError> {
    if duration.units == 0 || length.units == 0 {
        Err(FactorError::InvalidDuration)
    } else {
        let n = raw_num(duration, length);
        let m = raw_den(duration, length);
        Ok(Ratio { num: (n / gcd(n, m)) as u128, den: (m / gcd(n, m)) as u128 })
    }
}

proof fn lemma_gcd_divides(a: nat, b: nat)
    requires
        a > 0 || b > 0,
    ensures
        gcd(a, b) > 0,
        a % gcd(a, b) == 0,
        b % gcd(a, b) == 0,
    decreases b,
{
    if b == 0 {
        lemma_mod_multiples_basic(1, a as int);
        lemma_mod_multiples_basic(0, a as int);
    } else {
        let r = a % b;
        lemma_gcd_divides(b, r);
        let g = gcd(b, r);
        lemma_fundamental_div_mod(a as int, b as int);
        lemma_fundamental_div_mod(b as int, g as int);
        lemma_fundamental_div_mod(r as int, g as int);
        let k = (b / g) * (a / b) + r / g;
        assert(a == g * k) by (nonlinear_arith)
            requires
                a == b * (a / b) + r,
                b == g * (b / g),
                r == g * (r / g),
                k == (b / g) * (a / b) + r / g,
        ;
        lemma_mod_multiples_basic(k as int, g as int);
        assert(k * g == g * k) by (nonlinear_arith);
    }
}

/// The greatest common divisor of `a` and `b`.
pub fn gcd_u128(a: u128, b: u128) -> (r: u128)
    ensures
        r == gcd(a as nat, b as nat),
{
    let mut x = a;
    let mut y = b;
    while y != 0
        invariant
            gcd(x as nat, y as nat) == gcd(a as nat, b as nat),
        decreases y,
    {
        let t = x % y;
        x = y;
        y = t;
    }
    x
}

/// For a positive duration and length, the factor exists, is positive, and is
/// exactly `length / duration`: `num / den` equals `raw_num / raw_den`.
pub proof fn factor_is_length_over_duration(duration: Seconds, length: Seconds)
    requires
        duration.wf(),
        length.wf(),
        duration.units > 0,
        length.units > 0,
    ensures
        factor_outcome(duration, length) is Ok,
        factor_outcome(duration, length)->Ok_0.num > 0,
        factor_outcome(duration, length)->Ok_0.den > 0,
        factor_outcome(duration, length)->Ok_0.num * raw_den(duration, length)
            == factor_outcome(duration, length)->Ok_0.den * raw_num(duration, length),
{
    let n = raw_num(duration, length);
    let m = raw_den(duration, length);
    let dd = duration.denom();
    let ld = length.denom();
    lemma_pow10_bound(duration.scale as nat);
    lemma_pow10_bound(length.scale as nat);
    assert(0 < n <= u64::MAX * 1_000_000_000_000_000_000) by (nonlinear_arith)
        requires
            n == length.units * dd,
            1 <= dd <= 1_000_000_000_000_000_000,
            0 < length.units <= u64::MAX,
    ;
    assert(0 < m <= u64::MAX * 1_000_000_000_000_000_000) by (nonlinear_arith)
        requires
            m == duration.units * ld,
            1 <= ld <= 1_000_000_000_000_000_000,
            0 < duration.units <= u64::MAX,
    ;
    let g = gcd(n, m);
    lemma_gcd_divides(n, m);
    lemma_fundamental_div_mod(n as int, g as int);
    lemma_fundamental_div_mod(m as int, g as int);
    let num = n / g;
    let den = m / g;
    assert(0 < num <= n && 0 < den <= m && num * m == den * n) by (nonlinear_arith)
        requires
            n == g * num,
            m == g * den,
            n > 0,
            m > 0,
            g > 0,
    ;
}

/// The scale factor `length / duration` in lowest terms. A zero duration or
/// length has no factor and is reported as an error.
pub fn pts_factor(duration: Seconds, length: Seconds) -> (r: Result<Ratio, FactorError>)
    requires
        duration.wf(),
        length.wf(),
    ensures
        r == factor_outcome(duration, length),
        r is Err <==> duration.units == 0 || length.units == 0,
        r is Ok ==> r->Ok_0.num > 0 && r->Ok_0.den > 0,
        r is Ok ==> r->Ok_0.num * raw_den(duration, length) == r->Ok_0.den * raw_num(
            duration,
            length,
        ),
{
    if duration.units == 0 || length.units == 0 {
        return Err(FactorError::InvalidDuration);
    }
    proof {
        lemma_pow10_bound(duration.scale as nat);
        lemma_pow10_bound(length.scale as nat);
    }
    let dd = pow10_u64(duration.scale);
    let ld = pow10_u64(length.scale);
    assert(length.units * dd <= u64::MAX * 1_000_000_000_000_000_000) by (nonlinear_arith)
        requires
            dd <= 1_000_000_000_000_000_000,
    ;
    assert(duration.units * ld <= u64::MAX * 1_000_000_000_000_000_000) by (nonlinear_arith)
        requires
            ld <= 1_000_000_000_000_000_000,
    ;
    let n: u128 = length.units as u128 * dd as u128;
    let m: u128 = duration.units as u128 * ld as u128;
    assert(n > 0 && m > 0) by (nonlinear_arith)
        requires
            n == length.units * dd,
            m == duration.units * ld,
            length.units > 0,
            duration.units > 0,
            dd >= 1,
            ld >= 1,
    ;
    let g = gcd_u128(n, m);
    proof {
        lemma_gcd_divides(n as nat, m as nat);
        factor_is_length_over_duration(duration, length);
    }
    let num = n / g;
    let den = m / g;
    Ok(Ratio { num, den })
}

} // verus!
