//! Transfer rates as the queue shows them ("900 B/s", "2.0 KB/s", "15 MB/s").
//!
//! A rate of 1024 bytes per second or more is shown in the largest of KB/s, MB/s,
//! GB/s and TB/s that keeps the value below 1024 (TB/s at most), with one decimal
//! below 10 and none from 10 on. The value is that of the rate as a 64-bit float
//! divided by a power of 1024, and it is rounded to the shown digits with ties
//! going to the even digit.
use vstd::prelude::*;
use crate::text::{decimal, digit_char, push_char, push_decimal, push_str};

verus! {

/// 2 to the power 53: below it every integer is an exact 64-bit float.
pub open spec fn exact_limit() -> nat {
    0x20_0000_0000_0000
}

/// The spacing of 64-bit floats around `n`, for `n` below 2 to the power 64:
/// the least power of two `2^k` with `n / 2^k` below 2 to the power 53.
pub open spec fn float_spacing(n: nat, k: nat) -> nat
    decreases 12 - k,
{
    if k >= 11 || n / vstd::arithmetic::power2::pow2(k) < exact_limit() {
        vstd::arithmetic::power2::pow2(k)
    } else {
        float_spacing(n, k + 1)
    }
}

/// `num / den` rounded to the nearest integer, ties to the even one.
pub open spec fn round_half_even(num: nat, den: nat) -> nat {
    let q = num / den;
    let r = num % den;
    if 2 * r > den || (2 * r == den && q % 2 == 1) { q + 1 } else { q }
}

/// `n` as the nearest 64-bit float, ties to even.
pub open spec fn as_float(n: nat) -> nat {
    let u = float_spacing(n, 0);
    round_half_even(n, u) * u
}

/// The unit step (a power of 1024 from 1024 up) and the unit's name for a value `x`
/// of at least 1024 bytes per second.
pub open spec fn rate_unit(x: nat) -> (nat, Seq<char>) {
    if x < 1024 * 1024 {
        (1024, "KB/s"@)
    } else if x < 1024 * 1024 * 1024 {
        (1024 * 1024, "MB/s"@)
    } else if x < 1024 * 1024 * 1024 * 1024 {
        (1024 * 1024 * 1024, "GB/s"@)
    } else {
        (1024 * 1024 * 1024 * 1024, "TB/s"@)
    }
}

/// The text of a rate of `bps` bytes per second.
pub open spec fn rate_text(bps: nat) -> Seq<char> {
    if bps < 1024 {
        decimal(bps) + " B/s"@
    } else {
        let x = as_float(bps);
        let (step, unit) = rate_unit(x);
        if x < 10 * step {
            let tenths = round_half_even(10 * x, step);
            decimal(tenths / 10) + seq!['.', digit_char(tenths % 10)] + seq![' '] + unit
        } else {
            decimal(round_half_even(x, step)) + seq![' '] + unit
        }
    }
}

proof fn lemma_round_bounds(num: nat, den: nat)
    requires
        den > 0,
    ensures
        round_half_even(num, den) <= num / den + 1,
        round_half_even(num, den) * den <= num + den,
        num < 10 * den ==> round_half_even(num, den) <= 10,
{
    let q = num / den;
    assert(q * den <= num) by (nonlinear_arith)
        requires q == num / den, den > 0;
    assert((q + 1) * den == q * den + den) by (nonlinear_arith);
    if num < 10 * den {
        assert(q < 10) by (nonlinear_arith)
            requires q == num / den, den > 0, num < 10 * den;
    }
}

/// `num / den` rounded to the nearest integer, ties to the even one.
pub(crate) fn divide_round_even(num: u128, den: u128) -> (r: u128)
    requires
        den > 0,
        num / den < u128::MAX,
    ensures
        r == round_half_even(num as nat, den as nat),
{
    let q = num / den;
    let rem = num % den;
    if rem > den - rem || (rem == den - rem && q % 2 == 1) {
        q + 1
    } else {
        q
    }
}

/// The spacing of 64-bit floats around `n`.
fn spacing_of(n: u64) -> (u: u128)
    ensures
        u == float_spacing(n as nat, 0),
        1 <= u <= 2048,
{
    let mut k: u32 = 0;
    let mut u: u128 = 1;
    proof {
        vstd::arithmetic::power2::lemma2_to64();
    }
    while k < 11 && (n as u128) / u >= 0x20_0000_0000_0000
        invariant
            k <= 11,
            1 <= u <= 2048,
            u == vstd::arithmetic::power2::pow2(k as nat),
            float_spacing(n as nat, 0) == float_spacing(n as nat, k as nat),
        decreases 11 - k,
    {
        proof {
            vstd::arithmetic::power2::lemma_pow2_adds(k as nat, 1);
            vstd::arithmetic::power2::lemma2_to64();
            if k + 1 < 11 {
                vstd::arithmetic::power2::lemma_pow2_strictly_increases((k + 1) as nat, 11);
            }
        }
        k += 1;
        u = u * 2;
    }
    u
}

/// The text of a rate of `bytes_per_second`.
pub fn format_rate(bytes_per_second: u64) -> (r: String)
    ensures
        r@ == rate_text(bytes_per_second as nat),
{
    let mut r = String::new();
    if bytes_per_second < 1024 {
        push_decimal(&mut r, bytes_per_second);
        push_str(&mut r, " B/s");
        return r;
    }
    let u = spacing_of(bytes_per_second);
    proof {
        lemma_round_bounds(bytes_per_second as nat, u as nat);
    }
    let x: u128 = divide_round_even(bytes_per_second as u128, u) * u;
    assert(x <= 0x1_0000_0000_0000_0800);
    let (step, unit): (u128, &str) = if x < 1024 * 1024 {
        (1024, "KB/s")
    } else if x < 1024 * 1024 * 1024 {
        (1024 * 1024, "MB/s")
    } else if x < 1024 * 1024 * 1024 * 1024 {
        (1024 * 1024 * 1024, "GB/s")
    } else {
        (1024 * 1024 * 1024 * 1024, "TB/s")
    };
    assert(step == rate_unit(x as nat).0 && unit@ == rate_unit(x as nat).1);
    proof {
        lemma_round_bounds(x as nat, step as nat);
        lemma_round_bounds((10 * x) as nat, step as nat);
        assert(x as nat / step as nat <= x as nat / 1024) by {
            vstd::arithmetic::div_mod::lemma_div_is_ordered_by_denominator(x as int, 1024, step as int);
        }
    }
    if x < 10 * step {
        let tenths = divide_round_even(10 * x, step);
        push_decimal(&mut r, (tenths / 10) as u64);
        push_char(&mut r, '.');
        push_char(&mut r, crate::text::digit((tenths % 10) as u64));
        push_char(&mut r, ' ');
        push_str(&mut r, unit);
        assert(r@ =~= decimal((tenths / 10) as nat) + seq!['.', digit_char((tenths % 10) as nat)] + seq![' '] + unit@);
    } else {
        let whole = divide_round_even(x, step);
        push_decimal(&mut r, whole as u64);
        push_char(&mut r, ' ');
        push_str(&mut r, unit);
        assert(r@ =~= decimal(whole as nat) + seq![' '] + unit@);
    }
    r
}

} // verus!
