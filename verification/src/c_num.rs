//! The fixed-point arithmetic core.
//!
//! Values are signed wide integers scaled by [`BONE`].  Every operation that
//! can overflow reports a distinguishable [`Error`] instead of wrapping or
//! panicking.  Each executable operation is pinned to a spec-level mirror
//! (`c_add_spec`, `c_mul_spec`, ...) that states its result exactly, rounding
//! included, over mathematical integers.

use vstd::prelude::*;

use crate::c_consts::BONE;
use crate::c_consts::CPOW_MAX_ITERATIONS;
use crate::c_consts::CPOW_PRECISION;
use crate::c_consts::MAX_CPOW_BASE;
use crate::c_consts::MIN_CPOW_BASE;
use crate::errors::Error;

verus! {

/// Does the mathematical integer fit the machine representation?
pub open spec fn fits(x: int) -> bool {
    i128::MIN <= x <= i128::MAX
}

/// Truncating (round-toward-zero) division, as machine division computes it.
/// Stated over Euclidean division of magnitudes so that it coincides with the
/// specification of `i128::checked_div`.
pub open spec fn div_trunc(x: int, d: int) -> int
    recommends
        d != 0,
{
    if x == 0 {
        0
    } else if x > 0 && d > 0 {
        x / d
    } else if x < 0 && d < 0 {
        (x * -1) / (d * -1)
    } else if x < 0 {
        ((x * -1) / d) * -1
    } else {
        (x / (d * -1)) * -1
    }
}

/// An executable result read as a mathematical one.
pub open spec fn to_int(r: Result<i128, Error>) -> Result<int, Error> {
    match r {
        Ok(v) => Ok(v as int),
        Err(e) => Err(e),
    }
}

/// What [`c_add`] returns: the exact sum, or `AddOverflow` when it leaves the
/// representable range.
pub open spec fn c_add_spec(a: int, b: int) -> Result<int, Error> {
    if fits(a + b) {
        Ok(a + b)
    } else {
        Err(Error::AddOverflow)
    }
}

/// What [`c_sub`] returns: the exact difference, or an error classified by
/// the operand signs exactly as the operation reports it.
pub open spec fn c_sub_spec(a: int, b: int) -> Result<int, Error> {
    if fits(a - b) {
        Ok(a - b)
    } else if a > 0 && b < 0 {
        Err(Error::SubOverflow)
    } else {
        Err(Error::SubUnderflow)
    }
}

/// What [`c_sub_sign`] returns: the magnitude of the difference.
pub open spec fn c_sub_sign_mag(a: int, b: int) -> int {
    if a >= b {
        a - b
    } else {
        b - a
    }
}

/// What [`c_mul`] returns: the product rescaled by [`BONE`] with half a unit
/// added first (round half away from zero for nonnegative products), or
/// `MulOverflow` when the product or the rounding step leaves the range.
pub open spec fn c_mul_spec(a: int, b: int) -> Result<int, Error> {
    if !fits(a * b) {
        Err(Error::MulOverflow)
    } else if !fits(a * b + BONE / 2) {
        Err(Error::MulOverflow)
    } else {
        Ok(div_trunc(a * b + BONE / 2, BONE as int))
    }
}

/// What [`c_div`] returns: the dividend scaled by [`BONE`], rounding half of
/// the divisor added, then divided by the divisor; each step that can leave
/// the representable range reports `DivInternal`, and a zero divisor reports
/// `DivByZero`.
pub open spec fn c_div_spec(a: int, b: int) -> Result<int, Error> {
    if b == 0 {
        Err(Error::DivByZero)
    } else if !fits(a * BONE) {
        Err(Error::DivInternal)
    } else if !fits(a * BONE + div_trunc(b, 2)) {
        Err(Error::DivInternal)
    } else if !fits(div_trunc(a * BONE + div_trunc(b, 2), b)) {
        Err(Error::DivInternal)
    } else {
        Ok(div_trunc(a * BONE + div_trunc(b, 2), b))
    }
}

/// Signed addition.  Both-negative operands are handled as a subtraction of
/// magnitudes; every overflow is reported as `AddOverflow`.
pub fn c_add(a: i128, b: i128) -> (r: Result<i128, Error>)
    ensures
        to_int(r) == c_add_spec(a as int, b as int),
{
    if a < 0 && b < 0 {
        if b == i128::MIN {
            return Err(Error::AddOverflow);
        }
        match a.checked_sub(-b) {
            Some(c) => Ok(c),
            None => Err(Error::AddOverflow),
        }
    } else {
        match a.checked_add(b) {
            Some(c) => Ok(c),
            None => Err(Error::AddOverflow),
        }
    }
}

/// Signed subtraction.  A failure is classified by the operand signs:
/// `SubOverflow` when a positive minus a negative overflowed, `SubUnderflow`
/// otherwise.
pub fn c_sub(a: i128, b: i128) -> (r: Result<i128, Error>)
    ensures
        to_int(r) == c_sub_spec(a as int, b as int),
{
    match a.checked_sub(b) {
        Some(result) => Ok(result),
        None => {
            if a > 0 && b < 0 {
                Err(Error::SubOverflow)
            } else {
                Err(Error::SubUnderflow)
            }
        },
    }
}

/// The magnitude of `a - b` together with the flag telling whether `b > a`.
/// Never fails; the requirement only keeps the magnitude representable.
pub fn c_sub_sign(a: i128, b: i128) -> (r: (i128, bool))
    requires
        a - b <= i128::MAX,
        b - a <= i128::MAX,
    ensures
        r.0 == c_sub_sign_mag(a as int, b as int),
        r.1 == (b > a),
{
    if a >= b {
        (a.checked_sub(b).unwrap(), false)
    } else {
        (b.checked_sub(a).unwrap(), true)
    }
}

/// Fixed-point multiplication with round half up, exactly as
/// [`c_mul_spec`] states it.
pub fn c_mul(a: i128, b: i128) -> (r: Result<i128, Error>)
    ensures
        to_int(r) == c_mul_spec(a as int, b as int),
{
    let c0 = match a.checked_mul(b) {
        Some(v) => v,
        None => return Err(Error::MulOverflow),
    };
    let half = BONE.checked_div(2).unwrap();
    let c1 = match c0.checked_add(half) {
        Some(v) => v,
        None => return Err(Error::MulOverflow),
    };
    if c1 < c0 {
        return Err(Error::MulOverflow);
    }
    let c2 = c1.checked_div(BONE).unwrap();
    Ok(c2)
}

/// Fixed-point division with round half up, exactly as [`c_div_spec`]
/// states it.
pub fn c_div(a: i128, b: i128) -> (r: Result<i128, Error>)
    ensures
        to_int(r) == c_div_spec(a as int, b as int),
{
    if b == 0 {
        return Err(Error::DivByZero);
    }
    let c0 = match a.checked_mul(BONE) {
        Some(v) => v,
        None => return Err(Error::DivInternal),
    };
    let bh = b.checked_div(2).unwrap();
    let c1 = match c0.checked_add(bh) {
        Some(v) => v,
        None => return Err(Error::DivInternal),
    };
    match c1.checked_div(b) {
        Some(c2) => Ok(c2),
        None => Err(Error::DivInternal),
    }
}

/// Scale a fixed-point value down to the whole number of units it holds,
/// truncating toward zero.
fn c_toi(a: i128) -> (r: i128)
    ensures
        r == div_trunc(a as int, BONE as int),
{
    a.checked_div(BONE).unwrap()
}

/// Round a fixed-point value toward zero to a whole multiple of the unit.
fn c_floor(a: i128) -> (r: i128)
    ensures
        r == div_trunc(a as int, BONE as int) * BONE,
{
    c_toi(a).checked_mul(BONE).unwrap()
}

/// What the square-and-multiply loop of [`c_powi`] computes from an
/// accumulator `z`, a running square `a`, and the remaining exponent bits
/// `n`; an overflow in any intermediate product is reported as is.
pub open spec fn c_powi_loop_spec(z: int, a: int, n: int) -> Result<int, Error>
    recommends
        n >= 0,
    decreases n,
{
    if n <= 0 {
        Ok(z)
    } else {
        match c_mul_spec(a, a) {
            Err(e) => Err(e),
            Ok(a2) => if n % 2 == 1 {
                match c_mul_spec(z, a2) {
                    Err(e) => Err(e),
                    Ok(z2) => c_powi_loop_spec(z2, a2, n / 2),
                }
            } else {
                c_powi_loop_spec(z, a2, n / 2)
            },
        }
    }
}

/// What [`c_powi`] returns: the unit for a zero exponent, and otherwise the
/// square-and-multiply evaluation of `a` to the `n`, rounded by [`c_mul_spec`]
/// at every step.
pub open spec fn c_powi_spec(a: int, n: int) -> Result<int, Error>
    recommends
        n >= 0,
{
    c_powi_loop_spec(if n % 2 == 1 { a } else { BONE as int }, a, n / 2)
}

/// Fixed-point exponentiation by squaring for a non-negative whole exponent
/// `n` (a count, not a fixed-point value).  A zero exponent yields the unit;
/// an overflow in an intermediate product is reported instead of aborting.
pub fn c_powi(a: i128, n: i128) -> (r: Result<i128, Error>)
    requires
        n >= 0,
    ensures
        to_int(r) == c_powi_spec(a as int, n as int),
{
    let parity = n.checked_rem(2).unwrap();
    let mut z: i128 = if parity != 0 {
        a
    } else {
        BONE
    };
    let mut sq = a;
    let mut m = n.checked_div(2).unwrap();
    while m != 0
        invariant
            0 <= m,
            c_powi_loop_spec(z as int, sq as int, m as int) == c_powi_spec(a as int, n as int),
        decreases m,
    {
        sq = match c_mul(sq, sq) {
            Ok(v) => v,
            Err(e) => return Err(e),
        };
        let mp = m.checked_rem(2).unwrap();
        if mp != 0 {
            z = match c_mul(z, sq) {
                Ok(v) => v,
                Err(e) => return Err(e),
            };
        }
        m = m.checked_div(2).unwrap();
    }
    Ok(z)
}

/// What one run of the series loop of [`c_pow_approx`] computes.  The
/// binomial coefficient factor `c` and the offset `x` are magnitudes with
/// their signs tracked in `xneg` and `cneg`; the loop ends when the term
/// falls under the caller's precision, collapses to zero, or the iteration
/// ceiling is reached.
pub open spec fn c_pow_approx_loop_spec(
    a: int,
    x: int,
    xneg: bool,
    precision: int,
    term: int,
    sum: int,
    negative: bool,
    i: int,
) -> Result<int, Error>
    recommends
        1 <= i,
    decreases CPOW_MAX_ITERATIONS + 1 - i,
{
    if i > CPOW_MAX_ITERATIONS || term < precision {
        Ok(sum)
    } else {
        let big_k = i * BONE;
        let c = c_sub_sign_mag(a, big_k - BONE);
        let cneg = big_k - BONE > a;
        match c_mul_spec(c, x) {
            Err(e) => Err(e),
            Ok(cx) => match c_mul_spec(term, cx) {
                Err(e) => Err(e),
                Ok(t1) => match c_div_spec(t1, big_k) {
                    Err(e) => Err(e),
                    Ok(t2) => if t2 == 0 {
                        Ok(sum)
                    } else {
                        let neg2 = ((negative != xneg) != cneg);
                        match (if neg2 {
                            c_sub_spec(sum, t2)
                        } else {
                            c_add_spec(sum, t2)
                        }) {
                            Err(e) => Err(e),
                            Ok(s2) => c_pow_approx_loop_spec(
                                a,
                                x,
                                xneg,
                                precision,
                                t2,
                                s2,
                                neg2,
                                i + 1,
                            ),
                        }
                    },
                },
            },
        }
    }
}

/// What [`c_pow_approx`] returns: the truncated binomial series for
/// `base ^ exp` expanded around the unit.
pub open spec fn c_pow_approx_spec(base: int, exp: int, precision: int) -> Result<int, Error> {
    c_pow_approx_loop_spec(
        exp,
        c_sub_sign_mag(base, BONE as int),
        base < BONE,
        precision,
        BONE as int,
        BONE as int,
        false,
        1,
    )
}

/// Approximate `base ^ exp` for a non-negative fixed-point exponent by the
/// binomial series around the unit, accumulating terms until one falls under
/// `precision` or collapses to zero.  The result is a truncation of an
/// infinite series: an approximation whose stopping threshold the caller
/// supplies, with a hard iteration ceiling so the loop is bounded even at the
/// edge of the convergence domain.
pub fn c_pow_approx(base: i128, exp: i128, precision: i128) -> (r: Result<i128, Error>)
    requires
        exp >= 0,
        BONE - base <= i128::MAX,
    ensures
        to_int(r) == c_pow_approx_spec(base as int, exp as int, precision as int),
{
    let a = exp;
    let (x, xneg) = c_sub_sign(base, BONE);
    let mut term: i128 = BONE;
    let mut sum: i128 = term;
    let mut negative: bool = false;
    let mut i: i128 = 1;
    while term >= precision && i <= CPOW_MAX_ITERATIONS
        invariant
            1 <= i <= CPOW_MAX_ITERATIONS + 1,
            a == exp,
            exp >= 0,
            x == c_sub_sign_mag(base as int, BONE as int),
            xneg == (base < BONE),
            c_pow_approx_loop_spec(
                a as int,
                x as int,
                xneg,
                precision as int,
                term as int,
                sum as int,
                negative,
                i as int,
            ) == c_pow_approx_spec(base as int, exp as int, precision as int),
        decreases CPOW_MAX_ITERATIONS + 1 - i,
    {
        let big_k = i.checked_mul(BONE).unwrap();
        let bk = match c_sub(big_k, BONE) {
            Ok(v) => v,
            Err(e) => return Err(e),
        };
        let (c, cneg) = c_sub_sign(a, bk);
        let cx = match c_mul(c, x) {
            Ok(v) => v,
            Err(e) => return Err(e),
        };
        let t1 = match c_mul(term, cx) {
            Ok(v) => v,
            Err(e) => return Err(e),
        };
        term = match c_div(t1, big_k) {
            Ok(v) => v,
            Err(e) => return Err(e),
        };
        if term == 0 {
            return Ok(sum);
        }
        if xneg {
            negative = !negative;
        }
        if cneg {
            negative = !negative;
        }
        if negative {
            sum = match c_sub(sum, term) {
                Ok(v) => v,
                Err(e) => return Err(e),
            };
        } else {
            sum = match c_add(sum, term) {
                Ok(v) => v,
                Err(e) => return Err(e),
            };
        }
        i = i.checked_add(1).unwrap();
    }
    Ok(sum)
}

/// What [`c_pow`] returns: the domain check on the base, then the whole power
/// by [`c_powi_spec`] times the fractional power by [`c_pow_approx_spec`].
pub open spec fn c_pow_spec(base: int, exp: int) -> Result<int, Error>
    recommends
        exp >= 0,
{
    if base < MIN_CPOW_BASE {
        Err(Error::PowBaseTooLow)
    } else if base > MAX_CPOW_BASE {
        Err(Error::PowBaseTooHigh)
    } else {
        let whole = div_trunc(exp, BONE as int);
        let remain = exp - whole * BONE;
        match c_powi_spec(base, whole) {
            Err(e) => Err(e),
            Ok(whole_pow) => if remain == 0 {
                Ok(whole_pow)
            } else {
                match c_pow_approx_spec(base, remain, CPOW_PRECISION as int) {
                    Err(e) => Err(e),
                    Ok(partial) => c_mul_spec(whole_pow, partial),
                }
            },
        }
    }
}

/// `base ^ exp` for an arbitrary non-negative fixed-point exponent.  The base
/// must lie in `[MIN_CPOW_BASE, MAX_CPOW_BASE]`, the convergence domain of
/// the series used for the fractional part of the exponent; outside it the
/// matching domain error is returned for any exponent.
pub fn c_pow(base: i128, exp: i128) -> (r: Result<i128, Error>)
    requires
        exp >= 0,
    ensures
        to_int(r) == c_pow_spec(base as int, exp as int),
        base < MIN_CPOW_BASE ==> r == Err::<i128, Error>(Error::PowBaseTooLow),
        base > MAX_CPOW_BASE ==> r == Err::<i128, Error>(Error::PowBaseTooHigh),
{
    if base < MIN_CPOW_BASE {
        return Err(Error::PowBaseTooLow);
    }
    if base > MAX_CPOW_BASE {
        return Err(Error::PowBaseTooHigh);
    }
    let whole = c_floor(exp);
    let remain = match c_sub(exp, whole) {
        Ok(v) => v,
        Err(e) => return Err(e),
    };
    let whole_pow = match c_powi(base, c_toi(whole)) {
        Ok(v) => v,
        Err(e) => return Err(e),
    };
    if remain == 0 {
        return Ok(whole_pow);
    }
    let partial_result = match c_pow_approx(base, remain, CPOW_PRECISION) {
        Ok(v) => v,
        Err(e) => return Err(e),
    };
    c_mul(whole_pow, partial_result)
}

/// Law: scaled multiplication and division by the same value are inverses to
/// within one unit of the fixed-point scale.  For a nonnegative `a` and a
/// positive `b`, whenever both steps succeed, dividing the product by `b`
/// lands within [`BONE`] of `a`.
pub proof fn lemma_mul_div_round_trip(a: int, b: int)
    requires
        a >= 0,
        b > 0,
        c_mul_spec(a, b) is Ok,
        c_div_spec(c_mul_spec(a, b)->Ok_0, b) is Ok,
    ensures
        a - BONE <= c_div_spec(c_mul_spec(a, b)->Ok_0, b)->Ok_0 <= a + BONE,
{
    let p = a * b;
    assert(p >= 0) by (nonlinear_arith)
        requires
            p == a * b,
            a >= 0,
            b > 0,
    ;
    let m = c_mul_spec(a, b)->Ok_0;
    assert(m == (p + 5_000_000) / 10_000_000);
    vstd::arithmetic::div_mod::lemma_fundamental_div_mod(p + 5_000_000, 10_000_000);
    vstd::arithmetic::div_mod::lemma_mod_division_less_than_divisor(p + 5_000_000, 10_000_000);
    let s = (p + 5_000_000) % 10_000_000;
    assert(m * 10_000_000 == p + 5_000_000 - s);
    assert(m >= 0) by (nonlinear_arith)
        requires
            m * 10_000_000 == p + 5_000_000 - s,
            p >= 0,
            s < 10_000_000,
    ;
    let h = div_trunc(b, 2);
    assert(h == b / 2);
    vstd::arithmetic::div_mod::lemma_fundamental_div_mod(b, 2);
    vstd::arithmetic::div_mod::lemma_mod_division_less_than_divisor(b, 2);
    let u = b % 2;
    assert(b == 2 * h + u && 0 <= u < 2);
    assert(h >= 0) by (nonlinear_arith)
        requires
            b == 2 * h + u,
            0 <= u < 2,
            b > 0,
    ;
    let n = m * 10_000_000 + h;
    let r = c_div_spec(m, b)->Ok_0;
    if n == 0 {
        assert(r == 0);
        assert(a - BONE <= r <= a + BONE) by (nonlinear_arith)
            requires
                r == 0,
                p == a * b,
                p + 5_000_000 - s + h == 0,
                0 <= s < 10_000_000,
                h >= 0,
                a >= 0,
                b > 0,
                p >= 0,
        ;
    } else {
        assert(n > 0);
        assert(r == n / b);
        vstd::arithmetic::div_mod::lemma_fundamental_div_mod(n, b);
        vstd::arithmetic::div_mod::lemma_mod_division_less_than_divisor(n, b);
        let t = n % b;
        assert(a - BONE <= r <= a + BONE) by (nonlinear_arith)
            requires
                p == a * b,
                m * 10_000_000 == p + 5_000_000 - s,
                0 <= s < 10_000_000,
                n == m * 10_000_000 + h,
                n == b * r + t,
                0 <= t < b,
                b == 2 * h + u,
                0 <= u < 2,
                b > 0,
        ;
    }
}

/// Law: raising any base to the zero exponent yields the unit.
pub proof fn lemma_powi_zero(base: i128)
    ensures
        c_powi_spec(base as int, 0) == Ok::<int, Error>(BONE as int),
{
}

/// Law: addition and subtraction are mutual inverses.  Whenever the addition
/// succeeds, subtracting the same operand from the sum gives back the first
/// operand, and never fails.
pub proof fn lemma_add_sub_inverse(a: i128, b: i128)
    ensures
        c_add_spec(a as int, b as int) is Ok ==> c_sub_spec(
            c_add_spec(a as int, b as int)->Ok_0,
            b as int,
        ) == Ok::<int, Error>(a as int),
{
}

} // verus!

