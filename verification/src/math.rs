//! Integer arithmetic of the pool: square roots, proportional shares and fees.

use vstd::prelude::*;

verus! {

/// `r` is the integer square root of `n`: the largest number whose square
/// does not exceed `n`.
pub open spec fn is_sqrt(n: nat, r: nat) -> bool {
    r * r <= n < (r + 1) * (r + 1)
}

/// The integer square root of `n`.
pub open spec fn isqrt(n: nat) -> nat {
    choose|r: nat| is_sqrt(n, r)
}

/// A number has at most one integer square root.
pub proof fn lemma_sqrt_unique(n: nat, r1: nat, r2: nat)
    requires
        is_sqrt(n, r1),
        is_sqrt(n, r2),
    ensures
        r1 == r2,
{
    assert(r1 < r2 + 1) by (nonlinear_arith)
        requires
            r1 * r1 < (r2 + 1) * (r2 + 1),
    ;
    assert(r2 < r1 + 1) by (nonlinear_arith)
        requires
            r2 * r2 < (r1 + 1) * (r1 + 1),
    ;
}

/// Every number has an integer square root, and `isqrt` names it.
pub proof fn lemma_isqrt_is_sqrt(n: nat)
    ensures
        is_sqrt(n, isqrt(n)),
    decreases n,
{
    if n == 0 {
        assert(0nat * 0nat == 0 && (0nat + 1) * (0nat + 1) == 1) by (nonlinear_arith);
        assert(is_sqrt(0, 0));
    } else {
        lemma_isqrt_is_sqrt((n - 1) as nat);
        let r = isqrt((n - 1) as nat);
        if (r + 1) * (r + 1) <= n {
            assert((r + 2) * (r + 2) > (r + 1) * (r + 1)) by (nonlinear_arith);
            assert(is_sqrt(n, r + 1));
        } else {
            assert(is_sqrt(n, r));
        }
    }
}

/// A number that meets the definition is the integer square root.
pub proof fn lemma_isqrt_eq(n: nat, r: nat)
    requires
        is_sqrt(n, r),
    ensures
        isqrt(n) == r,
{
    lemma_isqrt_is_sqrt(n);
    lemma_sqrt_unique(n, r, isqrt(n));
}

/// The integer square root does not decrease as its argument grows.
pub proof fn lemma_isqrt_monotonic(m: nat, n: nat)
    requires
        m <= n,
    ensures
        isqrt(m) <= isqrt(n),
{
    lemma_isqrt_is_sqrt(m);
    lemma_isqrt_is_sqrt(n);
    let a = isqrt(m);
    let b = isqrt(n);
    assert(a < b + 1) by (nonlinear_arith)
        requires
            a * a < (b + 1) * (b + 1),
    ;
}

/// Computes the integer square root by bisection.
pub fn sqrt(n: u128) -> (r: u128)
    ensures
        r == isqrt(n as nat),
        is_sqrt(n as nat, r as nat),
{
    let mut lo: u128 = 0;
    let mut hi: u128 = 0x1_0000_0000_0000_0000;
    assert(0x1_0000_0000_0000_0000int * 0x1_0000_0000_0000_0000int > u128::MAX) by (nonlinear_arith);
    while hi - lo > 1
        invariant
            lo < hi <= 0x1_0000_0000_0000_0000,
            lo * lo <= n < hi * hi,
        decreases hi - lo,
    {
        let mid: u128 = lo + (hi - lo) / 2;
        assert(mid * mid <= 0xffff_ffff_ffff_ffff * 0xffff_ffff_ffff_ffff) by (nonlinear_arith)
            requires
                mid <= 0xffff_ffff_ffff_ffff,
        ;
        assert(0xffff_ffff_ffff_ffff * 0xffff_ffff_ffff_ffff <= u128::MAX) by (nonlinear_arith);
        if mid * mid <= n {
            lo = mid;
        } else {
            hi = mid;
        }
    }
    proof {
        lemma_isqrt_eq(n as nat, lo as nat);
    }
    lo
}

/// What is left of `a` when `b` is taken from it: nothing where `b` is the
/// larger.
pub open spec fn minus(a: nat, b: nat) -> nat {
    if a >= b {
        (a - b) as nat
    } else {
        0
    }
}

/// The smaller of two amounts.
pub open spec fn min_nat(a: nat, b: nat) -> nat {
    if a <= b {
        a
    } else {
        b
    }
}

/// `a * b / d`, the share of `a` in proportion `b : d`, rounded down; `None`
/// when the divisor is zero or the product does not fit the machine word.
pub open spec fn mul_div(a: nat, b: nat, d: nat) -> Option<nat> {
    if d == 0 || a * b > u128::MAX {
        None
    } else {
        Some((a * b / d) as nat)
    }
}

/// Computes `a * b / d` with the product checked against overflow.
pub fn checked_mul_div(a: u128, b: u128, d: u128) -> (r: Option<u128>)
    ensures
        r.is_some() == mul_div(a as nat, b as nat, d as nat).is_some(),
        r matches Some(q) ==> mul_div(a as nat, b as nat, d as nat) == Some(q as nat),
{
    if d == 0 {
        return None;
    }
    match a.checked_mul(b) {
        None => None,
        Some(p) => Some(p / d),
    }
}

/// A proportional share never exceeds the whole: `a * b / d <= b` when
/// `a <= d`.
pub proof fn lemma_share_bounded(a: nat, b: nat, d: nat)
    requires
        a <= d,
        d > 0,
    ensures
        a * b / d <= b,
{
    assert(a * b <= d * b) by (nonlinear_arith)
        requires
            a <= d,
    ;
    vstd::arithmetic::div_mod::lemma_div_is_ordered((a * b) as int, (d * b) as int, d as int);
    assert(d * b == b * d) by (nonlinear_arith);
    vstd::arithmetic::div_mod::lemma_div_multiples_vanish(b as int, d as int);
}

/// The fee charged on `amount` at `rate` parts in `denominator`, rounded down.
pub open spec fn proportional_fee(amount: nat, rate: nat, denominator: nat) -> nat {
    (amount * rate / denominator) as nat
}

/// Computes the proportional fee without forming the product
/// `amount * rate`, which may not fit the machine word.
pub fn fee_of(amount: u128, rate: u128, denominator: u128) -> (fee: u128)
    requires
        0 < denominator <= 0xffff_ffff_ffff_ffff,
        rate <= denominator,
    ensures
        fee == proportional_fee(amount as nat, rate as nat, denominator as nat),
        fee <= amount,
{
    let q: u128 = amount / denominator;
    let r: u128 = amount % denominator;
    proof {
        let (a, f, d) = (amount as int, rate as int, denominator as int);
        let (qi, ri) = (q as int, r as int);
        assert(a == d * qi + ri) by {
            vstd::arithmetic::div_mod::lemma_fundamental_div_mod(a, d);
        }
        assert(qi * f <= qi * d && ri * f <= ri * d && ri * d < d * d) by (nonlinear_arith)
            requires
                0 <= f <= d,
                0 <= qi,
                0 <= ri < d,
        ;
        assert(d * d <= u128::MAX) by (nonlinear_arith)
            requires
                0 < d <= 0xffff_ffff_ffff_ffff,
        ;
        assert(a * f == d * (qi * f) + ri * f) by (nonlinear_arith)
            requires
                a == d * qi + ri,
        ;
        vstd::arithmetic::div_mod::lemma_div_multiples_vanish_fancy(qi * f, 0, d);
        vstd::arithmetic::div_mod::lemma_hoist_over_denominator(ri * f, qi * f, d as nat);
        assert(qi * d == d * qi) by (nonlinear_arith);
        vstd::arithmetic::div_mod::lemma_div_is_ordered(ri * f, ri * d, d);
        vstd::arithmetic::div_mod::lemma_div_multiples_vanish(ri, d);
    }
    q * rate + r * rate / denominator
}

} // verus!
