//! Greatest common divisor and least common multiple of pixel extents, and
//! conversions between the integer types of coordinates.
use vstd::prelude::*;
use vstd::arithmetic::div_mod::{
    lemma_fundamental_div_mod,
    lemma_mod_multiples_basic,
    lemma_truncate_middle,
};
use crate::errors::RusterioError;

verus! {

/// `d` divides `n`; only zero is divided by zero.
pub open spec fn divides(d: nat, n: nat) -> bool {
    if d == 0 {
        n == 0
    } else {
        n % d == 0
    }
}

/// The greatest common divisor, by Euclid's recursion; `gcd(0, 0)` is 0.
pub open spec fn gcd(a: nat, b: nat) -> nat
    decreases b,
{
    if b == 0 {
        a
    } else {
        gcd(b, a % b)
    }
}

/// The least common multiple; 0 when either number is 0.
pub open spec fn lcm(a: nat, b: nat) -> nat {
    if a == 0 || b == 0 {
        0
    } else {
        a * (b / gcd(a, b))
    }
}

/// `gcd(a, b)` divides both numbers, and is zero only when both are.
pub proof fn lemma_gcd_divides(a: nat, b: nat)
    ensures
        divides(gcd(a, b), a),
        divides(gcd(a, b), b),
        gcd(a, b) == 0 <==> a == 0 && b == 0,
    decreases b,
{
    if b != 0 {
        lemma_gcd_divides(b, a % b);
        let g = gcd(a, b);
        assert(g == gcd(b, a % b));
        assert(g > 0);
        // g divides b and a % b, so it divides a = b * (a / b) + a % b
        lemma_fundamental_div_mod(a as int, b as int);
        lemma_fundamental_div_mod(b as int, g as int);
        lemma_fundamental_div_mod((a % b) as int, g as int);
        let qb = b as int / g as int;
        let qr = (a % b) as int / g as int;
        let q = a as int / b as int;
        assert(b == g * qb);
        assert(a % b == g * qr);
        assert(a == (q * qb + qr) * g) by (nonlinear_arith)
            requires
                a == b * q + a % b,
                b == g * qb,
                a % b == g * qr,
        ;
        lemma_mod_multiples_basic(q * qb + qr, g as int);
    } else {
        if a != 0 {
            lemma_mod_multiples_basic(1, a as int);
        }
    }
}

/// Every common divisor of two numbers divides their `gcd`: it is the
/// greatest of them.
pub proof fn lemma_gcd_greatest(a: nat, b: nat, d: nat)
    requires
        d > 0,
        divides(d, a),
        divides(d, b),
    ensures
        divides(d, gcd(a, b)),
        a > 0 || b > 0 ==> d <= gcd(a, b),
    decreases b,
{
    if b != 0 {
        // d divides a and b, so it divides a % b = a - b * (a / b)
        lemma_fundamental_div_mod(a as int, b as int);
        lemma_fundamental_div_mod(a as int, d as int);
        lemma_fundamental_div_mod(b as int, d as int);
        let qa = a as int / d as int;
        let qb = b as int / d as int;
        let q = a as int / b as int;
        assert(a % b == (qa - q * qb) * d) by (nonlinear_arith)
            requires
                a == b * q + a % b,
                a == d * qa,
                b == d * qb,
        ;
        lemma_mod_multiples_basic(qa - q * qb, d as int);
        lemma_gcd_greatest(b, a % b, d);
    }
    lemma_gcd_divides(a, b);
    let g = gcd(a, b);
    if g > 0 {
        lemma_fundamental_div_mod(g as int, d as int);
        let k = g as int / d as int;
        assert(d <= g) by (nonlinear_arith)
            requires
                g == d * k,
                g > 0,
                d > 0,
        ;
    }
}

/// `lcm(a, b)` is a multiple of both numbers, and is not zero unless one of
/// them is.
pub proof fn lemma_lcm_is_multiple(a: nat, b: nat)
    ensures
        divides(a, lcm(a, b)),
        divides(b, lcm(a, b)),
        a > 0 && b > 0 ==> lcm(a, b) > 0,
        a > 0 && b > 0 ==> lcm(a, b) * gcd(a, b) == a * b,
{
    if a > 0 && b > 0 {
        lemma_gcd_divides(a, b);
        let g = gcd(a, b);
        lemma_fundamental_div_mod(a as int, g as int);
        lemma_fundamental_div_mod(b as int, g as int);
        let qa = a as int / g as int;
        let qb = b as int / g as int;
        assert(qb > 0) by (nonlinear_arith)
            requires
                b == g * qb,
                b > 0,
                g > 0,
        ;
        assert(a * qb > 0) by (nonlinear_arith)
            requires
                a > 0,
                qb > 0,
        ;
        assert(a * qb == qb * a) by (nonlinear_arith);
        lemma_mod_multiples_basic(qb, a as int);
        assert(a * qb == qa * b) by (nonlinear_arith)
            requires
                a == g * qa,
                b == g * qb,
        ;
        lemma_mod_multiples_basic(qa, b as int);
        assert((a * qb) * g == a * b) by (nonlinear_arith)
            requires
                b == g * qb,
        ;
        assert(lcm(a, b) == a * qb);
    } else {
        if a > 0 {
            lemma_mod_multiples_basic(0, a as int);
        }
        if b > 0 {
            lemma_mod_multiples_basic(0, b as int);
        }
    }
}

/// Scaling both numbers scales their `gcd`.
pub proof fn lemma_gcd_scales(a: nat, b: nat, m: nat)
    ensures
        gcd(m * a, m * b) == m * gcd(a, b),
    decreases b,
{
    if m == 0 {
        assert(0 * a == 0 && 0 * b == 0 && 0 * gcd(a, b) == 0) by (nonlinear_arith);
    } else if b == 0 {
        assert(m * 0 == 0) by (nonlinear_arith);
    } else {
        assert(m * b > 0) by (nonlinear_arith)
            requires
                m > 0,
                b > 0,
        ;
        lemma_truncate_middle(a as int, m as int, b as int);
        assert((m * a) % (m * b) == m * (a % b));
        lemma_gcd_scales(b, a % b, m);
    }
}

/// `lcm(a, b)` divides every common multiple of the two numbers: it is the
/// least of those that are not zero.
pub proof fn lemma_lcm_least(a: nat, b: nat, m: nat)
    requires
        a > 0,
        b > 0,
        m > 0,
        divides(a, m),
        divides(b, m),
    ensures
        divides(lcm(a, b), m),
        lcm(a, b) <= m,
{
    let g = gcd(a, b);
    let l = lcm(a, b);
    lemma_gcd_divides(a, b);
    lemma_lcm_is_multiple(a, b);
    lemma_fundamental_div_mod(m as int, a as int);
    lemma_fundamental_div_mod(m as int, b as int);
    let ka = m as int / a as int;
    let kb = m as int / b as int;
    let ab = a * b;
    assert(ab > 0) by (nonlinear_arith)
        requires
            a > 0,
            b > 0,
            ab == a * b,
    ;
    // a b divides both m a and m b
    assert(m * a == kb * ab) by (nonlinear_arith)
        requires
            m == b * kb,
            ab == a * b,
    ;
    assert(m * b == ka * ab) by (nonlinear_arith)
        requires
            m == a * ka,
            ab == a * b,
    ;
    lemma_mod_multiples_basic(kb, ab as int);
    lemma_mod_multiples_basic(ka, ab as int);
    lemma_gcd_greatest(m * a, m * b, ab);
    lemma_gcd_scales(a, b, m);
    // so it divides m g, and a b is l g
    lemma_fundamental_div_mod((m * g) as int, ab as int);
    let j = (m * g) as int / ab as int;
    assert(m == l * j) by (nonlinear_arith)
        requires
            m * g == ab * j,
            l * g == ab,
            g > 0,
    ;
    assert(j >= 1 && l <= m) by (nonlinear_arith)
        requires
            m == l * j,
            m > 0,
            l > 0,
    ;
    assert(l * j == j * l) by (nonlinear_arith);
    lemma_mod_multiples_basic(j, l as int);
}

/// The least common multiple of a number and one of its divisors is the
/// number itself.
pub proof fn lemma_lcm_absorbs_divisor(a: nat, b: nat)
    requires
        b > 0,
        divides(b, a),
    ensures
        lcm(a, b) == a,
{
    if a > 0 {
        lemma_mod_multiples_basic(1, a as int);
        lemma_lcm_least(a, b, a);
        lemma_lcm_is_multiple(a, b);
        let l = lcm(a, b);
        lemma_fundamental_div_mod(l as int, a as int);
        let q = l as int / a as int;
        assert(a <= l) by (nonlinear_arith)
            requires
                l == a * q,
                l > 0,
                a > 0,
        ;
    }
}

/// The least common multiple of 1 and a number is that number.
pub proof fn lemma_lcm_with_one(x: nat)
    ensures
        lcm(1, x) == x,
{
    if x > 0 {
        lemma_gcd_divides(1, x);
        let g = gcd(1, x);
        lemma_fundamental_div_mod(1, g as int);
        let q = 1int / (g as int);
        assert(g == 1) by (nonlinear_arith)
            requires
                1 == g * q,
                g > 0,
        ;
        assert(1 * (x / 1) == x);
    }
}

/// The greatest common divisor of `x` and `y`, by Euclid's division.
fn euclid_gcd(x: usize, y: usize) -> (r: usize)
    ensures
        r == gcd(x as nat, y as nat),
{
    let mut a = x;
    let mut b = y;
    while b != 0
        invariant
            gcd(a as nat, b as nat) == gcd(x as nat, y as nat),
        decreases b,
    {
        let rest = a % b;
        a = b;
        b = rest;
    }
    a
}

/// `num::integer::lcm` on `usize`: `x * (y / gcd(x, y))`, and `0` for
/// `(0, 0)`. The product overflows where the least common multiple does not
/// fit the type, which `requires` leaves out.
#[verifier::external_body]
fn num_lcm(x: usize, y: usize) -> (r: usize)
    requires
        lcm(x as nat, y as nat) <= usize::MAX,
    ensures
        r == lcm(x as nat, y as nat),
{
    num::integer::lcm(x, y)
}

/// The least common multiple of `x` and `y`, or `None` where it does not
/// fit in `usize`.
pub fn checked_lcm(x: usize, y: usize) -> (r: Option<usize>)
    ensures
        r == if lcm(x as nat, y as nat) <= usize::MAX {
            Some(lcm(x as nat, y as nat) as usize)
        } else {
            None
        },
{
    if x == 0 || y == 0 {
        return Some(num_lcm(x, y));
    }
    let g = euclid_gcd(x, y);
    proof {
        lemma_gcd_divides(x as nat, y as nat);
    }
    let q = y / g;
    match x.checked_mul(q) {
        Some(_) => Some(num_lcm(x, y)),
        None => None,
    }
}

/// `num_traits::cast` from `i128` to `usize`: the same number where it is
/// neither negative nor above `usize::MAX`, and `None` otherwise.
#[verifier::external_body]
fn num_cast(val: i128) -> (r: Option<usize>)
    ensures
        r == if 0 <= val <= usize::MAX {
            Some(val as usize)
        } else {
            None
        },
{
    num_traits::cast(val)
}

/// `val` as a pixel coordinate, or the cast error where it is negative or
/// too large.
pub fn try_cast(val: i128) -> (r: Result<usize, RusterioError>)
    ensures
        r == if 0 <= val <= usize::MAX {
            Ok::<usize, RusterioError>(val as usize)
        } else {
            Err::<usize, RusterioError>(RusterioError::Uncastable)
        },
{
    match num_cast(val) {
        Some(v) => Ok(v),
        None => Err(RusterioError::Uncastable),
    }
}

/// Both numbers of `tuple` as pixel coordinates, or the cast error where
/// either does not fit.
pub fn try_tuple_cast(tuple: (i128, i128)) -> (r: Result<(usize, usize), RusterioError>)
    ensures
        r == if 0 <= tuple.0 <= usize::MAX && 0 <= tuple.1 <= usize::MAX {
            Ok::<(usize, usize), RusterioError>((tuple.0 as usize, tuple.1 as usize))
        } else {
            Err::<(usize, usize), RusterioError>(RusterioError::Uncastable)
        },
{
    let x = try_cast(tuple.0)?;
    let y = try_cast(tuple.1)?;
    Ok((x, y))
}

} // verus!
