//! Powers of ten and decimal rescaling on unbounded integers, with checked
//! executable counterparts on `u128`.
use vstd::arithmetic::div_mod::{lemma_div_denominator, lemma_div_is_ordered_by_denominator};
use vstd::arithmetic::mul::lemma_mul_inequality;
use vstd::prelude::*;

verus! {

pub open spec fn pow10(n: nat) -> nat
    decreases n,
{
    if n == 0 {
        1
    } else {
        10 * pow10((n - 1) as nat)
    }
}

pub proof fn lemma_pow10_positive(n: nat)
    ensures
        pow10(n) >= 1,
    decreases n,
{
    if n > 0 {
        lemma_pow10_positive((n - 1) as nat);
    }
}

pub proof fn lemma_pow10_monotone(a: nat, b: nat)
    requires
        a <= b,
    ensures
        pow10(a) <= pow10(b),
    decreases b,
{
    if a < b {
        lemma_pow10_monotone(a, (b - 1) as nat);
        lemma_pow10_positive((b - 1) as nat);
    }
}

/// `a` divided by `10^k`, rounded down.
pub fn div_pow10(a: u128, k: u32) -> (r: u128)
    ensures
        r == a as nat / pow10(k as nat),
{
    let mut v: u128 = a;
    let mut j: u32 = 0;
    assert(pow10(0) == 1);
    while j < k && v > 0
        invariant
            j <= k,
            v == a as nat / pow10(j as nat),
        decreases k - j,
    {
        proof {
            lemma_pow10_positive(j as nat);
            lemma_div_denominator(a as int, pow10(j as nat) as int, 10);
            assert(pow10(j as nat) * 10 == pow10((j + 1) as nat));
        }
        v = v / 10;
        j = j + 1;
    }
    proof {
        if j < k {
            lemma_pow10_positive(j as nat);
            lemma_pow10_monotone(j as nat, k as nat);
            lemma_div_is_ordered_by_denominator(a as int, pow10(j as nat) as int, pow10(k as nat) as int);
        }
    }
    v
}

/// `a` times `10^k`, or `None` where that exceeds `u128::MAX`.
pub fn mul_pow10(a: u128, k: u32) -> (r: Option<u128>)
    ensures
        r.is_some() <==> a * pow10(k as nat) <= u128::MAX,
        r.is_some() ==> r.unwrap() == a * pow10(k as nat),
{
    if a == 0 {
        assert(a * pow10(k as nat) == 0);
        return Some(0);
    }
    let mut v: u128 = a;
    let mut j: u32 = 0;
    assert(pow10(0) == 1);
    while j < k
        invariant
            j <= k,
            a > 0,
            v == a * pow10(j as nat),
        decreases k - j,
    {
        proof {
            assert(a * pow10((j + 1) as nat) == (a * pow10(j as nat)) * 10) by (nonlinear_arith)
                requires
                    pow10((j + 1) as nat) == 10 * pow10(j as nat),
            ;
        }
        if v > u128::MAX / 10 {
            proof {
                lemma_pow10_monotone((j + 1) as nat, k as nat);
                lemma_mul_inequality(pow10((j + 1) as nat) as int, pow10(k as nat) as int, a as int);
                assert(a * pow10(k as nat) >= a * pow10((j + 1) as nat)) by (nonlinear_arith)
                    requires
                        pow10((j + 1) as nat) <= pow10(k as nat),
                        a > 0,
                ;
            }
            return None;
        }
        v = v * 10;
        j = j + 1;
    }
    Some(v)
}

} // verus!
