//! Rounding to IEEE 754 single precision (binary32), for non-negative values
//! counted in units of 2^-149, the spacing of the smallest single-precision
//! numbers: every non-negative single is then a whole number of units.
use vstd::prelude::*;
use vstd::arithmetic::power2::{lemma_pow2_adds, lemma_pow2_pos, lemma_pow2_strictly_increases, pow2};
use vstd::arithmetic::div_mod::{lemma_fundamental_div_mod, lemma_fundamental_div_mod_converse};
use crate::transfer::rate::{divide_round_even, round_half_even};

verus! {

/// The binade of `num / den` units, searched from `j` up: the least exponent `j`
/// with the value below 2^(j + 24) units, where singles are 2^j units apart.
pub open spec fn binade_from(num: nat, den: nat, j: nat) -> nat
    decreases 300 - j,
{
    if j >= 300 || num < den * pow2(j + 24) {
        j
    } else {
        binade_from(num, den, j + 1)
    }
}

/// `num / den` units rounded to the nearest single-precision value, ties to an
/// even mantissa (for values below the largest single).
pub open spec fn single_round(num: nat, den: nat) -> nat {
    let j = binade_from(num, den, 0);
    round_half_even(num, den * pow2(j)) * pow2(j)
}

proof fn lemma_binade_is(num: nat, den: nat, j: nat, target: nat)
    requires
        j <= target < 300,
        num < den * pow2(target + 24),
        forall|i: nat| j <= i < target ==> num >= den * #[trigger] pow2(i + 24),
    ensures
        binade_from(num, den, j) == target,
    decreases target - j,
{
    if j < target {
        assert(num >= den * pow2(j + 24));
        lemma_binade_is(num, den, j + 1, target);
    }
}

/// Rounding half to even does not change when both sides are scaled alike.
proof fn lemma_round_scaled(a: nat, b: nat, c: nat)
    requires
        b > 0,
        c > 0,
    ensures
        round_half_even(a * c, b * c) == round_half_even(a, b),
{
    let q = a / b;
    let r = a % b;
    lemma_fundamental_div_mod(a as int, b as int);
    assert(a * c == q * (b * c) + r * c) by (nonlinear_arith)
        requires
            a == b * q + r,
    ;
    assert(r * c < b * c) by (nonlinear_arith)
        requires
            r < b,
            c > 0,
    ;
    assert(b * c > 0) by (nonlinear_arith)
        requires
            b > 0,
            c > 0,
    ;
    lemma_fundamental_div_mod_converse((a * c) as int, (b * c) as int, q as int, (r * c) as int);
    assert((2 * (r * c) > b * c) == (2 * r > b)) by (nonlinear_arith)
        requires
            c > 0,
    ;
    assert((2 * (r * c) == b * c) == (2 * r == b)) by (nonlinear_arith)
        requires
            c > 0,
    ;
}

/// Half-to-even rounding of `num / den` lies between the quotient and one more.
proof fn lemma_round_between(num: nat, den: nat)
    requires
        den > 0,
    ensures
        num / den <= round_half_even(num, den) <= num / den + 1,
{
}

proof fn lemma_scale_up(a: nat, b: nat, x: nat, y: nat)
    requires
        a >= b * pow2(x),
    ensures
        a * pow2(y) >= b * pow2(x + y),
{
    lemma_pow2_adds(x, y);
    lemma_pow2_pos(y);
    assert(a * pow2(y) >= (b * pow2(x)) * pow2(y)) by (nonlinear_arith)
        requires
            a >= b * pow2(x),
            pow2(y) > 0,
    ;
    assert((b * pow2(x)) * pow2(y) == b * (pow2(x) * pow2(y))) by (nonlinear_arith);
}

proof fn lemma_scale_below(a: nat, b: nat, x: nat, y: nat)
    requires
        a < b * pow2(x),
    ensures
        a * pow2(y) < b * pow2(x + y),
{
    lemma_pow2_adds(x, y);
    lemma_pow2_pos(y);
    assert(a * pow2(y) < (b * pow2(x)) * pow2(y)) by (nonlinear_arith)
        requires
            a < b * pow2(x),
            pow2(y) > 0,
    ;
    assert((b * pow2(x)) * pow2(y) == b * (pow2(x) * pow2(y))) by (nonlinear_arith);
}

pub proof fn lemma_pow2_monotonic(x: nat, y: nat)
    requires
        x <= y,
    ensures
        pow2(x) <= pow2(y),
{
    if x < y {
        lemma_pow2_strictly_increases(x, y);
    }
}

/// `n * 2^j0 / d` units rounded to single precision, for `n / d` of at least 2^23:
/// the mantissa `m` and exponent `j` of the result `m * 2^j` units.
pub fn round_single(n: u128, d: u128, j0: u32) -> (r: (u128, u32))
    requires
        d > 0,
        n >= d * 0x80_0000,
        n < 0x1_0000_0000_0000_0000_0000_0000,
        j0 <= 200,
    ensures
        r.0 * pow2(r.1 as nat) == single_round((n * pow2(j0 as nat)) as nat, d as nat),
        0x80_0000 <= r.0 <= 0x100_0000,
        j0 <= r.1 <= j0 + 72,
        n < d * pow2((r.1 - j0 + 24) as nat),
        r.1 > j0 ==> n >= d * pow2((r.1 - j0 + 23) as nat),
        r.0 == round_half_even(n as nat, (d * pow2((r.1 - j0) as nat)) as nat),
{
    proof {
        vstd::arithmetic::power2::lemma2_to64();
        vstd::arithmetic::power2::lemma2_to64_rest();
    }
    let q = n / d;
    assert(q * d <= n) by (nonlinear_arith)
        requires
            q == n / d,
            d > 0,
    ;
    assert(q >= 0x80_0000) by (nonlinear_arith)
        requires
            q == n / d,
            d > 0,
            n >= d * 0x80_0000,
    ;
    assert(q < 0x1_0000_0000_0000_0000_0000_0000) by (nonlinear_arith)
        requires
            q == n / d,
            d > 0,
            n < 0x1_0000_0000_0000_0000_0000_0000,
    ;
    let mut k: u32 = 0;
    let mut p: u128 = 0x100_0000;
    let mut s: u128 = 1;
    while q >= p
        invariant
            k <= 72,
            p == pow2((k + 24) as nat),
            s == pow2(k as nat),
            s * 0x100_0000 == p,
            q < 0x1_0000_0000_0000_0000_0000_0000,
            forall|i: nat| i < k ==> q >= #[trigger] pow2(i + 24),
        decreases 72 - k,
    {
        proof {
            vstd::arithmetic::power2::lemma2_to64();
            vstd::arithmetic::power2::lemma2_to64_rest();
            lemma_pow2_adds(64, 32);
            if k >= 72 {
                lemma_pow2_monotonic(96, (k + 24) as nat);
            }
            lemma_pow2_adds((k + 24) as nat, 1);
            lemma_pow2_adds(k as nat, 1);
            assert forall|i: nat| i < k + 1 implies q >= #[trigger] pow2(i + 24) by {
                if i == k {
                    assert(i + 24 == (k + 24) as nat);
                }
            }
        }
        k = k + 1;
        p = p * 2;
        s = s * 2;
    }
    let ghost kk = k as nat;
    assert(q < pow2(kk + 24));
    assert(n < d * pow2(kk + 24)) by {
        lemma_fundamental_div_mod(n as int, d as int);
        assert(n < d * (q + 1)) by (nonlinear_arith)
            requires
                n == d * q + n % d,
                n % d < d,
        ;
        assert(d * (q + 1) <= d * pow2(kk + 24)) by (nonlinear_arith)
            requires
                q + 1 <= pow2(kk + 24),
    ;
    }
    assert(k > 0 ==> n >= d * pow2(kk + 23)) by {
        if k > 0 {
            assert(q >= pow2((kk - 1) as nat + 24));
            assert((kk - 1) as nat + 24 == kk + 23);
            assert(n >= d * q) by (nonlinear_arith)
                requires
                    q * d <= n,
            ;
            assert(d * q >= d * pow2(kk + 23)) by (nonlinear_arith)
                requires
                    q >= pow2(kk + 23),
            ;
        }
    }
    proof {
        lemma_pow2_adds(kk, 24);
        lemma_pow2_adds(kk, 23);
        lemma_pow2_pos(kk);
    }
    assert(d * s * 0x80_0000 <= n) by {
        if k == 0 {
            assert(s == 1);
            assert(d * s * 0x80_0000 <= n) by (nonlinear_arith)
                requires
                    s == 1,
                    n >= d * 0x80_0000,
            ;
        } else {
            vstd::arithmetic::power2::lemma2_to64();
            assert(pow2(23) == 0x80_0000);
            assert(pow2(kk + 23) == s * 0x80_0000);
            assert(n >= d * pow2(kk + 23));
            assert(d * s * 0x80_0000 <= n) by (nonlinear_arith)
                requires
                    n >= d * (s * 0x80_0000),
            ;
        }
    }
    assert(d * s <= n) by (nonlinear_arith)
        requires
            d * s * 0x80_0000 <= n,
    ;
    let den = d * s;
    assert(den * 0x80_0000 <= n);
    assert(n < den * 0x100_0000) by {
        assert(pow2(24) == 0x100_0000);
        assert(d * pow2(kk + 24) == d * (s * 0x100_0000));
        assert(d * (s * 0x100_0000) == den * 0x100_0000) by (nonlinear_arith)
            requires
                den == d * s,
        ;
    }
    assert(n / den < 0x100_0000) by (nonlinear_arith)
        requires
            n < den * 0x100_0000,
            den > 0,
    ;
    assert(n / den >= 0x80_0000) by (nonlinear_arith)
        requires
            den * 0x80_0000 <= n,
            den > 0,
    ;
    let m = divide_round_even(n, den);
    proof {
        lemma_round_between(n as nat, den as nat);
        let num = (n * pow2(j0 as nat)) as nat;
        let target = (j0 + kk) as nat;
        assert(target < 300);
        lemma_scale_below(n as nat, d as nat, kk + 24, j0 as nat);
        assert(kk + 24 + j0 == target + 24);
        assert forall|i: nat| 0 <= i < target implies num >= d * #[trigger] pow2(i + 24) by {
            if i < j0 {
                lemma_scale_up(n as nat, d as nat, 23, j0 as nat);
                assert(pow2(23) == 0x80_0000);
                lemma_pow2_monotonic(i + 24, 23 + j0 as nat);
                assert(d * pow2(i + 24) <= d * pow2(23 + j0 as nat)) by (nonlinear_arith)
                    requires
                        pow2(i + 24) <= pow2(23 + j0 as nat),
                ;
            } else {
                let t = (i - j0) as nat;
                assert(t < kk);
                assert(q >= pow2(t + 24));
                assert(n >= d * pow2(t + 24)) by {
                    assert(n >= d * q) by (nonlinear_arith)
                        requires
                            q * d <= n,
                    ;
                    assert(d * q >= d * pow2(t + 24)) by (nonlinear_arith)
                        requires
                            q >= pow2(t + 24),
                    ;
                }
                lemma_scale_up(n as nat, d as nat, t + 24, j0 as nat);
                assert(t + 24 + j0 == i + 24);
            }
        }
        lemma_binade_is(num, d as nat, 0, target);
        lemma_pow2_adds(kk, j0 as nat);
        lemma_pow2_pos(j0 as nat);
        lemma_round_scaled(n as nat, den as nat, pow2(j0 as nat));
        assert(den * pow2(j0 as nat) == d * pow2(target)) by {
            assert(pow2(target) == s * pow2(j0 as nat));
            assert((d * s) * pow2(j0 as nat) == d * (s * pow2(j0 as nat))) by (nonlinear_arith);
        }
    }
    (m, j0 + k)
}

proof fn lemma_binade_scaled(a: nat, b: nat, c: nat, j: nat)
    requires
        c > 0,
    ensures
        binade_from(a * c, b * c, j) == binade_from(a, b, j),
    decreases 300 - j,
{
    let p = pow2(j + 24);
    assert((a * c < (b * c) * p) == (a < b * p)) by (nonlinear_arith)
        requires
            c > 0,
    ;
    if j < 300 && !(a < b * p) {
        lemma_binade_scaled(a, b, c, j + 1);
    }
}

/// Rounding to single precision depends on the quotient only.
pub proof fn lemma_single_round_scaled(a: nat, b: nat, c: nat)
    requires
        b > 0,
        c > 0,
    ensures
        single_round(a * c, b * c) == single_round(a, b),
{
    lemma_binade_scaled(a, b, c, 0);
    let j = binade_from(a, b, 0);
    lemma_pow2_pos(j);
    assert((b * c) * pow2(j) == (b * pow2(j)) * c) by (nonlinear_arith);
    assert(b * pow2(j) > 0) by (nonlinear_arith)
        requires
            b > 0,
            pow2(j) > 0,
    ;
    lemma_round_scaled(a, b * pow2(j), c);
}

/// Zero rounds to zero.
pub proof fn lemma_single_round_zero(b: nat)
    requires
        b > 0,
    ensures
        single_round(0, b) == 0,
{
    let j = binade_from(0, b, 0);
    lemma_pow2_pos(j);
    let den = b * pow2(j);
    assert(den > 0) by (nonlinear_arith)
        requires
            b > 0,
            pow2(j) > 0,
            den == b * pow2(j),
    ;
    assert(0nat / den == 0);
    assert(0nat % den == 0);
    assert(round_half_even(0, den) == 0);
}

proof fn lemma_binade_at_most(num: nat, den: nat, j: nat, t: nat)
    requires
        j <= t < 300,
        num < den * pow2(t + 24),
    ensures
        binade_from(num, den, j) <= t,
    decreases t - j,
{
    if j < t && !(num < den * pow2(j + 24)) {
        lemma_binade_at_most(num, den, j + 1, t);
    }
}

/// A value that a single holds exactly is its own rounding: a whole number of at
/// most 2^24 steps of 2^e units.
pub proof fn lemma_single_round_exact(m: nat, e: nat)
    requires
        m <= 0x100_0000,
        e < 270,
    ensures
        single_round(m * pow2(e), 1) == m * pow2(e),
{
    vstd::arithmetic::power2::lemma2_to64();
    let x = m * pow2(e);
    lemma_pow2_adds(e, 24);
    lemma_pow2_adds(e, 25);
    lemma_pow2_pos(e);
    assert(x < pow2(e + 25)) by (nonlinear_arith)
        requires
            x == m * pow2(e),
            m <= 0x100_0000,
            pow2(e + 25) == pow2(e) * 0x200_0000,
            pow2(e) > 0,
    ;
    assert(x < 1 * pow2(e + 1 + 24));
    lemma_binade_at_most(x, 1, 0, e + 1);
    let j = binade_from(x, 1, 0);
    if j == e + 1 {
        // x reaches 2^(e + 24): then m is 2^24 and x is 2^23 steps of 2^(e + 1)
        assert(!(x < 1 * pow2(e + 24))) by {
            if x < 1 * pow2(e + 24) {
                lemma_binade_at_most(x, 1, 0, e);
            }
        }
        assert(m == 0x100_0000) by (nonlinear_arith)
            requires
                x == m * pow2(e),
                x >= pow2(e) * 0x100_0000,
                m <= 0x100_0000,
                pow2(e) > 0,
        ;
        lemma_pow2_adds(e, 1);
        let w = 0x80_0000nat;
        assert(pow2(j) == pow2(e) * 2);
        assert(x == 0x100_0000 * pow2(e));
        assert(x == w * pow2(j)) by (nonlinear_arith)
            requires
                x == 0x100_0000 * pow2(e),
                pow2(j) == pow2(e) * 2,
                w == 0x80_0000,
        ;
        lemma_pow2_pos(j);
        vstd::arithmetic::div_mod::lemma_fundamental_div_mod_converse(x as int, pow2(j) as int, w as int, 0);
    } else {
        assert(j <= e);
        let d = (e - j) as nat;
        lemma_pow2_adds(d, j);
        lemma_pow2_pos(j);
        let w = m * pow2(d);
        assert(x == w * pow2(j)) by (nonlinear_arith)
            requires
                x == m * pow2(e),
                pow2(e) == pow2(d) * pow2(j),
                w == m * pow2(d),
        ;
        vstd::arithmetic::div_mod::lemma_fundamental_div_mod_converse(x as int, pow2(j) as int, w as int, 0);
        assert(round_half_even(x, 1 * pow2(j)) == w);
    }
}

/// 2 to the power `e`, as a machine integer.
pub fn pow2_u128(e: u32) -> (r: u128)
    requires
        e < 128,
    ensures
        r == pow2(e as nat),
{
    let mut r: u128 = 1;
    let mut i: u32 = 0;
    proof {
        vstd::arithmetic::power2::lemma2_to64();
    }
    while i < e
        invariant
            i <= e,
            e < 128,
            r == pow2(i as nat),
        decreases e - i,
    {
        proof {
            vstd::arithmetic::power2::lemma2_to64();
            lemma_pow2_adds(i as nat, 1);
            lemma_pow2_monotonic((i + 1) as nat, 127);
            assert(pow2(127) < 0x1_0000_0000_0000_0000_0000_0000_0000_0000) by {
                lemma_pow2_adds(64, 63);
                vstd::arithmetic::power2::lemma2_to64_rest();
            }
        }
        r = r * 2;
        i = i + 1;
    }
    r
}

} // verus!
