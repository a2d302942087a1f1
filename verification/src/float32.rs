//! The single-precision (IEEE 754 binary32) arithmetic that the caps rule is
//! defined by, carried out exactly on integers: rounding to the nearest
//! binary32 value with ties to even, and comparison with a threshold given
//! by its bit pattern. A finite non-negative value is written as a pair
//! `(m, e)` standing for `m * 2^e`.

use vstd::prelude::*;

verus! {

/// `2^k`.
pub open spec fn two_pow(k: nat) -> nat
    decreases k,
{
    if k == 0 { 1 } else { 2 * two_pow((k - 1) as nat) }
}

/// `n / d` rounded to an integer, ties to even.
pub open spec fn rne(n: nat, d: nat) -> nat {
    let q = n / d;
    let r = n % d;
    if 2 * r > d || (2 * r == d && q % 2 == 1) { q + 1 } else { q }
}

/// How far `n / d` is from lying in `[2^23, 2^24)`.
pub open spec fn binade_distance(n: nat, d: nat) -> nat {
    if n < 0x80_0000 * d {
        (0x80_0000 * d - n) as nat
    } else if n >= 0x100_0000 * d {
        (n - 0x100_0000 * d + 1) as nat
    } else {
        0
    }
}

/// Each scaling step of `f32_round` brings `n / d` closer to `[2^23, 2^24)`.
pub proof fn lemma_binade_step(n: nat, d: nat)
    requires
        n > 0,
        d > 0,
    ensures
        n < 0x80_0000 * d ==> binade_distance(2 * n, d) < binade_distance(n, d),
        n >= 0x100_0000 * d ==> binade_distance(n, 2 * d) < binade_distance(n, d),
{
}

/// The binary32 value nearest to `n / d` (ties to even), as `(m, e)` with a
/// 24-bit significand `m` (or `2^24` when rounding carries over): `n / d` is
/// scaled by powers of two into `[2^23, 2^24)`, where it is rounded to an
/// integer. Zero is `(0, 0)`. (The values met here stay in the normal range
/// of binary32, where this is exactly its rounding.)
pub open spec fn f32_round(n: nat, d: nat) -> (nat, int)
    decreases binade_distance(n, d),
{
    if n == 0 || d == 0 {
        (0, 0)
    } else if n < 0x80_0000 * d {
        proof {
            lemma_binade_step(n, d);
        }
        let r = f32_round(2 * n, d);
        (r.0, r.1 - 1)
    } else if n >= 0x100_0000 * d {
        proof {
            lemma_binade_step(n, d);
        }
        let r = f32_round(n, 2 * d);
        (r.0, r.1 + 1)
    } else {
        (rne(n, d), 0)
    }
}

/// A value scaled by `2^k`.
pub open spec fn f32_shift(v: (nat, int), k: int) -> (nat, int) {
    (v.0, v.1 + k)
}

/// What `(upper as f32 / letters as f32) * 100.0` computes for counts of
/// characters: each count rounded to binary32, their quotient rounded, and
/// the quotient times one hundred rounded.
pub open spec fn caps_percent(upper: nat, letters: nat) -> (nat, int) {
    let a = f32_round(upper, 1);
    let b = f32_round(letters, 1);
    let q = f32_shift(f32_round(a.0, b.0), a.1 - b.1);
    f32_shift(f32_round(q.0 * 100, 1), q.1)
}

/// Whether `mp * 2^ep >= mt * 2^et`.
pub open spec fn value_ge(mp: nat, ep: int, mt: nat, et: int) -> bool {
    if ep >= et {
        mp * two_pow((ep - et) as nat) >= mt
    } else {
        mp >= mt * two_pow((et - ep) as nat)
    }
}

/// Whether a finite non-negative value `p` compares `>=` with the binary32
/// number whose bit pattern is `bits`: never for NaN or positive infinity,
/// always for negative infinity, negative numbers and negative zero, and
/// by value otherwise (subnormal numbers included).
pub open spec fn reaches_bits(p: (nat, int), bits: u32) -> bool {
    let sign = bits / 0x8000_0000;
    let ef = (bits / 0x80_0000) % 0x100;
    let frac = bits % 0x80_0000;
    if ef == 0xff {
        frac == 0 && sign == 1
    } else if sign == 1 {
        true
    } else {
        value_ge(
            p.0,
            p.1,
            if ef == 0 { frac as nat } else { (frac + 0x80_0000) as nat },
            if ef == 0 { -149 } else { ef - 150 },
        )
    }
}

proof fn lemma_two_pow_grows(k: nat)
    requires
        k >= 25,
    ensures
        two_pow(k) >= 0x200_0000,
    decreases k,
{
    if k == 25 {
        reveal_with_fuel(two_pow, 26);
    } else {
        lemma_two_pow_grows((k - 1) as nat);
    }
}

/// `2^k` for small `k`.
fn two_pow_exec(k: u32) -> (r: u64)
    requires
        k <= 24,
    ensures
        r == two_pow(k as nat),
        r <= 0x100_0000,
{
    let mut r: u64 = 1;
    let mut i: u32 = 0;
    proof {
        lemma_two_pow_le(0, 24);
    }
    while i < k
        invariant
            i <= k <= 24,
            r == two_pow(i as nat),
            r <= two_pow(24),
            two_pow(24) == 0x100_0000,
        decreases k - i,
    {
        proof {
            lemma_two_pow_le((i + 1) as nat, 24);
        }
        r = 2 * r;
        i = i + 1;
    }
    r
}

proof fn lemma_two_pow_le(a: nat, b: nat)
    requires
        a <= b,
    ensures
        two_pow(a) <= two_pow(b),
        two_pow(24) == 0x100_0000,
    decreases b,
{
    reveal_with_fuel(two_pow, 25);
    if a < b {
        lemma_two_pow_le(a, (b - 1) as nat);
    }
}

/// Rounds `n / d` to binary32, as `f32_round`.
pub fn round_f32(n0: u128, d0: u128) -> (r: (u32, i128))
    requires
        n0 <= 0xffff_ffff_ffff_ffff,
        0 < d0 <= 0x200_0000,
    ensures
        r.0 as nat == f32_round(n0 as nat, d0 as nat).0,
        r.1 as int == f32_round(n0 as nat, d0 as nat).1,
        r.0 <= 0x100_0000,
        n0 > 0 ==> r.0 >= 0x80_0000,
        n0 == 0 ==> r.0 == 0 && r.1 == 0,
        -0x1_0000_0000_0000_0000 <= r.1 <= 0x200_0000_0000,
{
    if n0 == 0 {
        return (0, 0);
    }
    let mut n: u128 = n0;
    let mut d: u128 = d0;
    let mut e: i128 = 0;
    while n < 0x80_0000 * d || n >= 0x100_0000 * d
        invariant
            0 < n <= 0xffff_ffff_ffff_ffff,
            0 < d <= 0x200_0000_0000,
            d <= 0x200_0000 || n >= 0x80_0000 * d,
            -(n as int) <= e <= d,
            f32_round(n0 as nat, d0 as nat) == f32_shift(f32_round(n as nat, d as nat), e as int),
        decreases binade_distance(n as nat, d as nat),
    {
        proof {
            lemma_binade_step(n as nat, d as nat);
        }
        if n < 0x80_0000 * d {
            n = 2 * n;
            e = e - 1;
        } else {
            d = 2 * d;
            e = e + 1;
        }
    }
    let q = n / d;
    let rem = n % d;
    assert(0x80_0000 <= q < 0x100_0000) by (nonlinear_arith)
        requires
            0x80_0000 * d <= n < 0x100_0000 * d,
            q == n / d,
            d > 0,
    ;
    let m = if 2 * rem > d || (2 * rem == d && q % 2 == 1) { q + 1 } else { q };
    (m as u32, e)
}

/// Whether `mp * 2^ep >= mt * 2^et`, for significands of binary32 values.
pub fn value_ge_exec(mp: u32, ep: i128, mt: u32, et: i128) -> (r: bool)
    requires
        mp <= 0x100_0000,
        mt < 0x100_0000,
        -0x1_0000_0000_0000_0000_0000 <= ep <= 0x1_0000_0000_0000_0000_0000,
        -0x1_0000_0000_0000_0000_0000 <= et <= 0x1_0000_0000_0000_0000_0000,
    ensures
        r == value_ge(mp as nat, ep as int, mt as nat, et as int),
{
    if ep >= et {
        let k: i128 = ep - et;
        if mp == 0 {
            assert(0 * two_pow(k as nat) == 0);
            return mt == 0;
        }
        if k >= 25 {
            proof {
                lemma_two_pow_grows(k as nat);
                assert(mp * two_pow(k as nat) >= two_pow(k as nat)) by (nonlinear_arith)
                    requires
                        mp >= 1,
                ;
            }
            return true;
        }
        let p = two_pow_exec(k as u32);
        assert(mp * p <= 0x100_0000 * 0x100_0000) by (nonlinear_arith)
            requires
                mp <= 0x100_0000,
                p <= 0x100_0000,
        ;
        (mp as u64) * p >= mt as u64
    } else {
        let k: i128 = et - ep;
        if k >= 25 {
            proof {
                lemma_two_pow_grows(k as nat);
                assert(mt * two_pow(k as nat) >= 1 * two_pow(k as nat) || mt == 0) by (nonlinear_arith);
            }
            return mt == 0;
        }
        let p = two_pow_exec(k as u32);
        assert(mt * p <= 0x100_0000 * 0x100_0000) by (nonlinear_arith)
            requires
                mt <= 0x100_0000,
                p <= 0x100_0000,
        ;
        mp as u64 >= (mt as u64) * p
    }
}

/// Decides `caps_percent(upper, letters)` reaching the threshold with the
/// bit pattern `bits`.
pub fn caps_reach(upper: usize, letters: usize, bits: u32) -> (r: bool)
    requires
        letters > 0,
    ensures
        r == reaches_bits(caps_percent(upper as nat, letters as nat), bits),
{
    let a = round_f32(upper as u128, 1);
    let b = round_f32(letters as u128, 1);
    let q0 = round_f32(a.0 as u128, b.0 as u128);
    let q: (u32, i128) = (q0.0, q0.1 + a.1 - b.1);
    let p0 = round_f32(q.0 as u128 * 100, 1);
    let p: (u32, i128) = (p0.0, p0.1 + q.1);
    let sign = bits / 0x8000_0000;
    let ef = (bits / 0x80_0000) % 0x100;
    let frac = bits % 0x80_0000;
    if ef == 0xff {
        frac == 0 && sign == 1
    } else if sign == 1 {
        true
    } else {
        let mt: u32 = if ef == 0 { frac } else { frac + 0x80_0000 };
        let et: i128 = if ef == 0 { -149 } else { ef as i128 - 150 };
        value_ge_exec(p.0, p.1, mt, et)
    }
}

} // verus!
