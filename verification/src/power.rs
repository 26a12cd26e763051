//! Power-law step weights.
//!
//! A ladder step `i` carries the weight `i` raised to the configured growth
//! exponent, held in fixed-point units.  A whole-number exponent is computed
//! here by repeated multiplication and proved exact; a fractional exponent is
//! obtained from the `decimal` crate's 128-bit decimal power function, whose
//! result is only named, never restated.

use vstd::prelude::*;
use vstd::arithmetic::power::pow;
use crate::dec::SCALE;

verus! {

/// The value of `base` raised to `growth_units / SCALE`, scaled to units and
/// rounded to an integer by the decimal power routine.  The result depends on
/// the two arguments alone; nothing else is assumed of it.
pub uninterp spec fn pow_scaled(base: int, growth_units: int) -> int;

/// Relies on `decimal::d128::pow` (IEEE 754-2008 decimal128, decNumber):
/// raises `base` to the exact decimal `growth_units / SCALE`, scales by
/// `SCALE` and rounds to an integer; the result is a function of the
/// arguments alone.  `None` when it does not fit a unit count.
#[verifier::external_body]
fn pow_units(base: u64, growth_units: i64) -> (r: Option<i64>)
    requires
        base >= 1,
    ensures
        (match r {
            Some(u) => u == pow_scaled(base as int, growth_units as int) && 0 <= u,
            None => pow_scaled(base as int, growth_units as int) > i64::MAX,
        }),
        base == 1 ==> r == Some(SCALE),
{
    let b = decimal::d128::from(base);
    let e = decimal::d128::from(growth_units) / decimal::d128::from(SCALE as u64);
    let scaled = b.pow(e) * decimal::d128::from(SCALE as u64);
    let q = scaled.quantize(decimal::d128::from(1u32));
    <i64 as core::str::FromStr>::from_str(&q.to_string()).ok()
}

/// `SCALE * base^k` by repeated multiplication; `None` when it leaves the
/// representable range.
fn pow_exact(base: i64, k: u64) -> (r: Option<i64>)
    requires
        base >= 1,
    ensures
        (match r {
            Some(u) => u == SCALE * pow(base as int, k as nat) && SCALE <= u,
            None => SCALE * pow(base as int, k as nat) > i64::MAX,
        }),
        base == 1 ==> r == Some(SCALE),
{
    proof {
        vstd::arithmetic::power::lemma_pow0(base as int);
    }
    let mut acc: u128 = SCALE as u128;
    let mut j: u64 = 0;
    while j < k
        invariant
            0 <= j <= k,
            base >= 1,
            acc == SCALE * pow(base as int, j as nat),
            SCALE <= acc <= i64::MAX,
        decreases k - j,
    {
        proof {
            vstd::arithmetic::mul::lemma_mul_upper_bound(
                acc as int,
                i64::MAX as int,
                base as int,
                i64::MAX as int,
            );
            vstd::arithmetic::mul::lemma_mul_is_associative(
                SCALE as int,
                pow(base as int, j as nat),
                base as int,
            );
            assert(pow(base as int, (j + 1) as nat) == pow(base as int, j as nat) * (
            base as int)) by {
                vstd::arithmetic::power::lemma_pow1(base as int);
                vstd::arithmetic::power::lemma_pow_adds(base as int, j as nat, 1);
            }
        }
        proof {
            vstd::arithmetic::mul::lemma_mul_increases(base as int, acc as int);
            vstd::arithmetic::mul::lemma_mul_is_commutative(base as int, acc as int);
        }
        let next: u128 = acc * (base as u128);
        if next > i64::MAX as u128 {
            proof {
                vstd::arithmetic::mul::lemma_mul_basics(acc as int);
                lemma_pow_exact_overflow(base as int, j as nat + 1, k as nat, next as int);
            }
            return None;
        }
        acc = next;
        j = j + 1;
    }
    proof {
        if base == 1 {
            vstd::arithmetic::power::lemma1_pow(k as nat);
        }
    }
    Some(acc as i64)
}

/// If the partial product already exceeds the range, so does the whole power.
proof fn lemma_pow_exact_overflow(base: int, j: nat, k: nat, partial: int)
    requires
        base >= 1,
        j <= k,
        partial == SCALE * pow(base, j),
        partial > i64::MAX,
    ensures
        SCALE * pow(base, k) > i64::MAX,
{
    vstd::arithmetic::power::lemma_pow_adds(base, j, (k - j) as nat);
    vstd::arithmetic::power::lemma_pow_positive(base, (k - j) as nat);
    vstd::arithmetic::mul::lemma_mul_is_associative(SCALE as int, pow(base, j), pow(
        base,
        (k - j) as nat,
    ));
    vstd::arithmetic::mul::lemma_mul_increases(pow(base, (k - j) as nat), partial);
}

/// The weight of step `base` under growth exponent `growth_units / SCALE`:
/// exact for whole-number exponents, named for fractional ones.
pub open spec fn spec_weight(base: int, growth_units: int) -> int {
    if growth_units >= 0 && growth_units % (SCALE as int) == 0 {
        SCALE * pow(base, (growth_units / (SCALE as int)) as nat)
    } else {
        pow_scaled(base, growth_units)
    }
}

/// Computes one step weight; `None` when it does not fit a unit count.
pub fn weight(base: i64, growth_units: i64) -> (r: Option<i64>)
    requires
        base >= 1,
    ensures
        (match r {
            Some(u) => u == spec_weight(base as int, growth_units as int) && 0 <= u,
            None => spec_weight(base as int, growth_units as int) > i64::MAX,
        }),
        base == 1 ==> r == Some(SCALE),
{
    if growth_units >= 0 && (growth_units as u64) % (SCALE as u64) == 0 {
        let k = (growth_units as u64) / (SCALE as u64);
        proof {
            if base == 1 {
                vstd::arithmetic::power::lemma1_pow(k as nat);
            }
        }
        pow_exact(base, k)
    } else {
        pow_units(base as u64, growth_units)
    }
}

/// A power of a nonnegative base is nonnegative.
pub proof fn lemma_pow_nonneg(b: int, e: nat)
    requires
        b >= 0,
    ensures
        pow(b, e) >= 0,
    decreases e,
{
    reveal(pow);
    if e > 0 {
        lemma_pow_nonneg(b, (e - 1) as nat);
        vstd::arithmetic::mul::lemma_mul_nonnegative(b, pow(b, (e - 1) as nat));
    }
}

/// Raising a larger base to the same exponent gives a larger power.
pub proof fn lemma_pow_base_monotone(b1: int, b2: int, e: nat)
    requires
        0 <= b1 <= b2,
    ensures
        pow(b1, e) <= pow(b2, e),
    decreases e,
{
    reveal(pow);
    if e > 0 {
        lemma_pow_base_monotone(b1, b2, (e - 1) as nat);
        lemma_pow_nonneg(b1, (e - 1) as nat);
        vstd::arithmetic::mul::lemma_mul_inequality(b1, b2, pow(b1, (e - 1) as nat));
        vstd::arithmetic::mul::lemma_mul_is_commutative(b1, pow(b1, (e - 1) as nat));
        vstd::arithmetic::mul::lemma_mul_is_commutative(b2, pow(b1, (e - 1) as nat));
        if b2 > 0 {
            vstd::arithmetic::mul::lemma_mul_left_inequality(
                b2,
                pow(b1, (e - 1) as nat),
                pow(b2, (e - 1) as nat),
            );
        }
    }
}

/// For whole-number growth exponents, weights are never negative.
pub proof fn lemma_weight_integral_nonneg(base: int, growth_units: int)
    requires
        base >= 0,
        growth_units >= 0,
        growth_units % (SCALE as int) == 0,
    ensures
        spec_weight(base, growth_units) >= 0,
{
    let e = (growth_units / (SCALE as int)) as nat;
    lemma_pow_nonneg(base, e);
    vstd::arithmetic::mul::lemma_mul_nonnegative(SCALE as int, pow(base, e));
}

/// For whole-number growth exponents, the first step's weight is one whole.
pub proof fn lemma_weight_integral_first(growth_units: int)
    requires
        growth_units >= 0,
        growth_units % (SCALE as int) == 0,
    ensures
        spec_weight(1, growth_units) == SCALE,
{
    let e = (growth_units / (SCALE as int)) as nat;
    vstd::arithmetic::power::lemma1_pow(e);
}

/// For whole-number growth exponents, a later step never weighs less.
pub proof fn lemma_weight_base_monotone(b1: int, b2: int, growth_units: int)
    requires
        0 <= b1 <= b2,
        growth_units >= 0,
        growth_units % (SCALE as int) == 0,
    ensures
        spec_weight(b1, growth_units) <= spec_weight(b2, growth_units),
{
    let e = (growth_units / (SCALE as int)) as nat;
    lemma_pow_base_monotone(b1, b2, e);
    vstd::arithmetic::mul::lemma_mul_left_inequality(SCALE as int, pow(b1, e), pow(b2, e));
}

} // verus!
