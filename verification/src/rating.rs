//! Bit-exact integer model of the engine's floating-point ratings.
//!
//! The engine rates candidates with `range_float(0, 1)`, which takes the
//! low 23 bits `m` of a raw draw and computes, in IEEE single precision,
//! `1 - m / 0x7FFFFF`, then rounds the result to seven significant decimal
//! digits through a double-precision round trip. Ratings are only ever
//! compared with each other and with constants, and comparing non-negative
//! IEEE values is the same as comparing their bit patterns as integers.
//! This module therefore computes the exact final bit pattern with integer
//! arithmetic alone: correctly rounded binary significands are produced by
//! `round_rat`, and `rating_bits` chains the division, the subtraction and
//! the decimal rounding exactly as the engine's arithmetic does.

use vstd::prelude::*;
use vstd::arithmetic::power2::*;
use vstd::arithmetic::div_mod::lemma_fundamental_div_mod;

verus! {

/// The divisor of the engine's 23-bit-to-unit-interval conversion.
pub const RAW_DIVISOR: u32 = 0x7F_FFFF;

/// Powers of five, used to split powers of ten into binary and
/// five-power parts.
pub open spec fn pow5(e: nat) -> int
    decreases e,
{
    if e == 0 {
        1
    } else {
        5 * pow5((e - 1) as nat)
    }
}

/// How often `num` must be doubled to reach `den`.
pub open spec fn norm_shift(num: int, den: int) -> nat
    decreases (if num < den { den - num } else { 0 }) when 1 <= num
{
    if num >= den {
        0
    } else {
        (norm_shift(2 * num, den) + 1) as nat
    }
}

proof fn lemma_norm_shift(num: int, den: int)
    requires
        1 <= num,
        1 <= den,
    ensures
        den <= num * pow2(norm_shift(num, den)),
        norm_shift(num, den) >= 1 ==> num * pow2((norm_shift(num, den) - 1) as nat) < den,
    decreases (if num < den { den - num } else { 0 }),
{
    lemma2_to64();
    if num >= den {
        assert(num * pow2(0) == num) by (nonlinear_arith)
            requires
                pow2(0) == 1,
        ;
    } else {
        lemma_norm_shift(2 * num, den);
        let k = norm_shift(2 * num, den);
        assert(pow2(k + 1) == 2 * pow2(k)) by {
            lemma_pow2_unfold(k + 1);
        }
        assert(num * pow2(k + 1) == (2 * num) * pow2(k)) by (nonlinear_arith)
            requires
                pow2(k + 1) == 2 * pow2(k),
        ;
        if k >= 1 {
            assert(pow2(k) == 2 * pow2((k - 1) as nat)) by {
                lemma_pow2_unfold(k);
            }
            assert(num * pow2(k) == (2 * num) * pow2((k - 1) as nat)) by (nonlinear_arith)
                requires
                    pow2(k) == 2 * pow2((k - 1) as nat),
            ;
        } else {
            assert(num * pow2(0) == num) by (nonlinear_arith)
                requires
                    pow2(0) == 1,
            ;
        }
    }
}

proof fn lemma_norm_shift_le(num: int, den: int, j: nat)
    requires
        1 <= num,
        1 <= den,
        den <= num * pow2(j),
    ensures
        norm_shift(num, den) <= j,
    decreases (if num < den { den - num } else { 0 }),
{
    if num >= den {
    } else {
        assert(j >= 1) by {
            if j == 0 {
                lemma2_to64();
                assert(num * pow2(0) == num) by (nonlinear_arith)
                    requires
                        pow2(0) == 1,
                ;
            }
        }
        assert(pow2(j) == 2 * pow2((j - 1) as nat)) by {
            lemma_pow2_unfold(j);
        }
        assert((2 * num) * pow2((j - 1) as nat) == num * pow2(j)) by (nonlinear_arith)
            requires
                pow2(j) == 2 * pow2((j - 1) as nat),
        ;
        lemma_norm_shift_le(2 * num, den, (j - 1) as nat);
    }
}


proof fn lemma_pow2_extra()
    ensures
        pow2(120) == 0x1000000000000000000000000000000,
        pow2(126) == 0x40000000000000000000000000000000,
        pow2(127) == 0x80000000000000000000000000000000,
        pow2(128) == 0x100000000000000000000000000000000,
{
    lemma2_to64();
    lemma2_to64_rest();
    lemma_pow2_adds(60, 60);
    lemma_pow2_adds(63, 63);
    lemma_pow2_adds(64, 63);
    lemma_pow2_adds(64, 64);
}

/// Executable power of two.
fn pow2_128(e: u32) -> (r: u128)
    requires
        e <= 127,
    ensures
        r == pow2(e as nat),
{
    let mut i: u32 = 0;
    let mut r: u128 = 1;
    proof {
        lemma2_to64();
    }
    while i < e
        invariant
            i <= e <= 127,
            r == pow2(i as nat),
        decreases e - i,
    {
        proof {
            lemma_pow2_unfold((i + 1) as nat);
            if i + 1 < 128 {
                lemma_pow2_strictly_increases((i + 1) as nat, 128);
            }
            lemma_pow2_extra();
        }
        r = r * 2;
        i = i + 1;
    }
    r
}

/// Executable power of two in a 64-bit word.
fn pow2_64(e: u32) -> (r: u64)
    requires
        e <= 63,
    ensures
        r == pow2(e as nat),
{
    let r = pow2_128(e);
    proof {
        lemma_pow2_strictly_increases(e as nat, 64);
        lemma2_to64_rest();
    }
    r as u64
}

/// How often `num` must be doubled to reach `den`, executable.
fn norm_shift_exec(num: u128, den: u128) -> (k: u32)
    requires
        1 <= num,
        1 <= den,
        den <= pow2(126),
        den <= num * pow2(120),
    ensures
        k == norm_shift(num as int, den as int),
        k <= 120,
{
    let mut sh = num;
    let mut k: u32 = 0;
    proof {
        lemma2_to64();
        lemma_pow2_extra();
        lemma_norm_shift_le(num as int, den as int, 120);
        assert(num * pow2(0) == num) by (nonlinear_arith)
            requires
                pow2(0) == 1,
        ;
    }
    while sh < den
        invariant
            1 <= sh,
            1 <= den,
            den <= 0x40000000000000000000000000000000,
            sh == num * pow2(k as nat),
            norm_shift(num as int, den as int) == k + norm_shift(sh as int, den as int),
            norm_shift(num as int, den as int) <= 120,
        decreases (if sh < den { den - sh } else { 0 }),
    {
        proof {
            assert(norm_shift(sh as int, den as int)
                == 1 + norm_shift(2 * (sh as int), den as int));
            assert(k < 120) by {
                if norm_shift(sh as int, den as int) == 0 {
                    assert(sh >= den);
                }
            }
            lemma_pow2_unfold((k + 1) as nat);
            assert(num * pow2((k + 1) as nat) == 2 * (num * pow2(k as nat))) by (nonlinear_arith)
                requires
                    pow2((k + 1) as nat) == 2 * pow2(k as nat),
            ;
        }
        sh = sh * 2;
        k = k + 1;
    }
    k
}

/// A positive rational `num / den`, correctly rounded (to nearest, ties
/// to even) to a binary significand of `prec` bits. The result `(s, k)`
/// represents the value `s * 2^(1 - prec - k)` with `2^(prec-1) <= s < 2^prec`.
pub open spec fn spec_round_rat(num: int, den: int, prec: nat) -> (int, int) {
    let k = norm_shift(num, den);
    let t = num * pow2((k + prec - 1) as nat);
    let q = t / den;
    let rem = t % den;
    let rounded = if 2 * rem > den || (2 * rem == den && q % 2 == 1) {
        q + 1
    } else {
        q
    };
    if rounded == pow2(prec) {
        (pow2((prec - 1) as nat) as int, k - 1)
    } else {
        (rounded, k as int)
    }
}

/// Executable correctly rounded binary significand of `num / den`.
#[verifier::rlimit(60)]
fn round_rat(num: u128, den: u128, prec: u32) -> (r: (u64, u32))
    requires
        1 <= num,
        1 <= den,
        den <= 0x8000_0000_0000,  // 2^47
        2 * num <= 3 * den,
        4 <= prec <= 53,
    ensures
        (r.0 as int, r.1 as int) == spec_round_rat(num as int, den as int, prec as nat),
        pow2((prec - 1) as nat) <= r.0 < pow2(prec as nat),
        r.1 <= 47,
        r.1 == 0 ==> 2 * r.0 <= 3 * pow2((prec - 1) as nat) + 2,
        num == den ==> (r.0 == pow2((prec - 1) as nat) && r.1 == 0),
    {
    proof {
        lemma2_to64();
        lemma2_to64_rest();
        lemma_pow2_extra();
        assert(den <= num * pow2(120)) by (nonlinear_arith)
            requires
                1 <= num,
                den <= 0x8000_0000_0000,
                pow2(120) == 0x1000000000000000000000000000000,
        ;
    }
    let k = norm_shift_exec(num, den);
    proof {
        lemma_norm_shift(num as int, den as int);
        assert(den <= num * pow2(47)) by (nonlinear_arith)
            requires
                1 <= num,
                den <= 0x8000_0000_0000,
                pow2(47) == 0x800000000000,
        ;
        lemma_norm_shift_le(num as int, den as int, 47);
    }
    // num * 2^k < 2 * den, hence t < 2^prec * den <= 2^100 fits in u128.
    let p = pow2_128(k + prec - 1);
    proof {
        let ki = k as nat;
        let pr = prec as nat;
        lemma_pow2_adds(ki, (pr - 1) as nat);
        if k == 0 {
            assert(num * pow2(0) == num) by (nonlinear_arith)
                requires
                    pow2(0) == 1,
            ;
        } else {
            lemma_norm_shift(num as int, den as int);
            lemma_pow2_unfold(ki);
            assert(num * pow2(ki) == 2 * (num * pow2((ki - 1) as nat))) by (nonlinear_arith)
                requires
                    pow2(ki) == 2 * pow2((ki - 1) as nat),
            ;
        }
        assert(num * pow2(ki) < 2 * den);
        assert(num * (pow2(ki) * pow2((pr - 1) as nat)) == (num * pow2(ki)) * pow2((pr - 1) as nat))
            by (nonlinear_arith);
        assert((num * pow2(ki)) * pow2((pr - 1) as nat) <= (2 * den) * pow2((pr - 1) as nat))
            by (nonlinear_arith)
            requires
                num * pow2(ki) <= 2 * den,
                pow2((pr - 1) as nat) >= 1,
        ;
        lemma_pow2_pos((pr - 1) as nat);
        assert(pow2((pr - 1) as nat) <= pow2(52)) by {
            if pr < 53 {
                lemma_pow2_strictly_increases((pr - 1) as nat, 52);
            }
        }
        assert((2 * den) * pow2((pr - 1) as nat) <= 2 * 0x8000_0000_0000 * pow2(52))
            by (nonlinear_arith)
            requires
                den <= 0x8000_0000_0000,
                pow2((pr - 1) as nat) <= pow2(52),
                pow2(52) >= 1,
        ;
    }
    let t = num * p;
    let q = t / den;
    let rem = t % den;
    proof {
        lemma_fundamental_div_mod(t as int, den as int);
        // bounds on q: den * 2^(prec-1) <= t < den * 2^prec
        let ki = k as nat;
        let pr = prec as nat;
        assert(den * pow2((pr - 1) as nat) <= t) by (nonlinear_arith)
            requires
                t == num * (pow2(ki) * pow2((pr - 1) as nat)),
                den <= num * pow2(ki),
                pow2((pr - 1) as nat) >= 1,
        ;
        assert(t < (2 * den) * pow2((pr - 1) as nat)) by (nonlinear_arith)
            requires
                t == num * (pow2(ki) * pow2((pr - 1) as nat)),
                num * pow2(ki) < 2 * den,
                pow2((pr - 1) as nat) >= 1,
        ;
        lemma_pow2_unfold(pr);
        assert(pow2((pr - 1) as nat) <= q) by (nonlinear_arith)
            requires
                t == den * q + rem,
                0 <= rem < den,
                1 <= den,
                den * pow2((pr - 1) as nat) <= t,
        ;
        assert(q < pow2(pr)) by (nonlinear_arith)
            requires
                t == den * q + rem,
                0 <= rem < den,
                1 <= den,
                t < (2 * den) * pow2((pr - 1) as nat),
                pow2(pr) == 2 * pow2((pr - 1) as nat),
        ;
        if k == 0 {
            // value <= 3/2, so no carry past 2^prec is possible
            assert(2 * t <= 3 * (den * pow2((pr - 1) as nat))) by (nonlinear_arith)
                requires
                    t == num * (pow2(0) * pow2((pr - 1) as nat)),
                    pow2(0) == 1,
                    2 * num <= 3 * den,
                    pow2((pr - 1) as nat) >= 1,
            ;
            assert(2 * q <= 3 * pow2((pr - 1) as nat)) by (nonlinear_arith)
                requires
                    t == den * q + rem,
                    0 <= rem < den,
                    1 <= den,
                    2 * t <= 3 * (den * pow2((pr - 1) as nat)),
            ;
        }
        if num == den {
            assert(k == 0);
            assert(t == den * pow2((pr - 1) as nat)) by (nonlinear_arith)
                requires
                    t == num * (pow2(0) * pow2((pr - 1) as nat)),
                    pow2(0) == 1,
                    num == den,
            ;
            assert(q == pow2((pr - 1) as nat) && rem == 0) by (nonlinear_arith)
                requires
                    t == den * q + rem,
                    0 <= rem < den,
                    1 <= den,
                    t == den * pow2((pr - 1) as nat),
            ;
        }
    }
    let q64 = q as u64;
    let rounded = if 2 * rem > den || (2 * rem == den && q64 % 2 == 1) {
        q64 + 1
    } else {
        q64
    };
    let top = pow2_64(prec);
    proof {
        if k == 0 && rounded == top {
            assert(2 * (q64 + 1) <= 3 * pow2((prec - 1) as nat) + 2);
            lemma_pow2_unfold(prec as nat);
            lemma_pow2_pos((prec - 1) as nat);
            assert(pow2((prec - 1) as nat) >= 8) by {
                lemma_pow2_strictly_increases(2, (prec - 1) as nat);
                lemma2_to64();
            }
        }
    }
    if rounded == top {
        let half = pow2_64(prec - 1);
        (half, k - 1)
    } else {
        (rounded, k)
    }
}


/// Powers of ten.
pub open spec fn pow10(e: nat) -> int {
    pow2(e) * pow5(e)
}

/// The number of significant decimal digits kept by the engine's rounding
/// depends on the decade of the value; these are the largest single-precision
/// bit patterns whose base-ten logarithm, computed and ceiled in single
/// precision, still reaches the next decade down.
pub open spec fn spec_decade_shift(xbits: int) -> nat {
    if xbits <= 0x33D6_BF9C {
        14
    } else if xbits <= 0x3586_37C1 {
        13
    } else if xbits <= 0x3727_C5B2 {
        12
    } else if xbits <= 0x38D1_B71B {
        11
    } else if xbits <= 0x3A83_1270 {
        10
    } else if xbits <= 0x3C23_D70B {
        9
    } else if xbits <= 0x3DCC_CCCD {
        8
    } else {
        7
    }
}

/// A positive integer rounded to at most 53 significant bits, ties to even:
/// the pair `(p', g)` with `p'` below `2^53` standing for `p' * 2^g`.
pub open spec fn spec_round53(p: int) -> (int, int) {
    if p < pow2(53) {
        (p, 0)
    } else {
        let g = norm_shift(pow2(53) as int, p + 1);
        let q = p / (pow2(g as nat) as int);
        let rem = p % (pow2(g as nat) as int);
        let rounded = if 2 * rem > pow2(g as nat) || (2 * rem == pow2(g as nat) && q % 2 == 1) {
            q + 1
        } else {
            q
        };
        if rounded == pow2(53) {
            (pow2(52) as int, g + 1int)
        } else {
            (rounded, g as int)
        }
    }
}

/// The engine's rounding of a value `x` in `(0, 1]` to seven significant
/// decimal digits, on the exact binary representation `(mx, kx)` of `x`
/// (`x == mx * 2^(-23 - kx)`): scale by the decade-dependent power of ten
/// in double precision, round half away from zero to an integer `n`, and
/// divide back, landing in single precision. Returns the bit pattern.
pub open spec fn spec_precision7(mx: int, kx: int) -> u32 {
    let xbits = (127 - kx) * 0x80_0000 + (mx - 0x80_0000);
    let s = spec_decade_shift(xbits);
    let scaled = spec_round53(mx * pow5(s));
    let p64 = scaled.0;
    let g = scaled.1;
    let hh = (kx + 23 - s - g) as nat;
    let n0 = p64 / (pow2(hh) as int);
    let remn = p64 % (pow2(hh) as int);
    let n = if 2 * remn >= pow2(hh) {
        n0 + 1
    } else {
        n0
    };
    if n == 0 {
        0
    } else {
        let back = spec_round_rat(n, pow10(s), 53);
        let m53 = back.0;
        let k53 = back.1;
        let top = m53 / (pow2(29) as int);
        let fr = m53 % (pow2(29) as int);
        let sf = if fr > pow2(28) || (fr == pow2(28) && top % 2 == 1) {
            top + 1
        } else {
            top
        };
        let bits = if sf == pow2(24) {
            (127 - (k53 - 1)) * 0x80_0000
        } else {
            (127 - k53) * 0x80_0000 + (sf - 0x80_0000)
        };
        bits as u32
    }
}

/// The bit pattern of the engine's `range_float(0, 1)` rating derived
/// from the raw draw `v`.
pub open spec fn spec_rating(v: u32) -> u32 {
    let m = (v & RAW_DIVISOR) as int;
    if m == RAW_DIVISOR {
        0
    } else if m == 0 {
        0x3F80_0000
    } else {
        let q = spec_round_rat(m, RAW_DIVISOR as int, 24);
        let mq = q.0;
        let kq = q.1;
        let denx = pow2((kq + 23) as nat) as int;
        let numx = denx - mq;
        if numx < 1 {
            0
        } else {
            let x = spec_round_rat(numx, denx, 24);
            spec_precision7(x.0, x.1)
        }
    }
}

/// Executable power of five for the decade shifts.
fn pow5_64(e: u32) -> (r: u64)
    requires
        7 <= e <= 14,
    ensures
        r == pow5(e as nat),
{
    proof {
        reveal_with_fuel(pow5, 15);
    }
    if e == 7 {
        78125
    } else if e == 8 {
        390625
    } else if e == 9 {
        1953125
    } else if e == 10 {
        9765625
    } else if e == 11 {
        48828125
    } else if e == 12 {
        244140625
    } else if e == 13 {
        1220703125
    } else {
        6103515625
    }
}

/// Bit pattern of the engine's `range_float(0, 1)` result for a raw draw.
#[verifier::rlimit(100)]
pub fn rating_bits(v: u32) -> (r: u32)
    ensures
        r == spec_rating(v),
{
    proof {
        lemma2_to64();
        lemma2_to64_rest();
    }
    let m = v & RAW_DIVISOR;
    proof {
        assert(m == v & 0x7F_FFFF);
        assert(m <= 0x7F_FFFF) by (bit_vector)
            requires
                m == v & 0x7F_FFFF,
        ;
    }
    if m == RAW_DIVISOR {
        return 0;
    }
    if m == 0 {
        return 0x3F80_0000;
    }
    let (mq, kq) = round_rat(m as u128, RAW_DIVISOR as u128, 24);
    proof {
        lemma_norm_shift_le(m as int, 0x7F_FFFF, 23);
        assert(m as int * pow2(23) >= 0x7F_FFFF) by (nonlinear_arith)
            requires
                m >= 1,
                pow2(23) == 0x80_0000,
        ;
        assert(kq <= 23);
    }
    let denx64 = pow2_64(kq + 23);
    if mq >= denx64 {
        return 0;
    }
    let numx = denx64 - mq;
    proof {
        lemma_pow2_strictly_increases((kq + 23) as nat, 47);
        lemma_pow2_strictly_increases(23, (kq + 24) as nat);
    }
    let (mx, kx) = round_rat(numx as u128, denx64 as u128, 24);
    precision7(mx, kx)
}

/// Executable form of `spec_precision7`.
#[verifier::rlimit(100)]
fn precision7(mx: u64, kx: u32) -> (r: u32)
    requires
        pow2(23) <= mx < pow2(24),
        kx <= 47,
        kx == 0 ==> mx == pow2(23),
    ensures
        r == spec_precision7(mx as int, kx as int),
{
    proof {
        lemma2_to64();
        lemma2_to64_rest();
    }
    let xbits = (127 - kx) * 0x80_0000 + (mx as u32 - 0x80_0000);
    let s: u32 = if xbits <= 0x33D6_BF9C {
        14
    } else if xbits <= 0x3586_37C1 {
        13
    } else if xbits <= 0x3727_C5B2 {
        12
    } else if xbits <= 0x38D1_B71B {
        11
    } else if xbits <= 0x3A83_1270 {
        10
    } else if xbits <= 0x3C23_D70B {
        9
    } else if xbits <= 0x3DCC_CCCD {
        8
    } else {
        7
    };
    proof {
        // when kx == 0 the value is exactly one, whose decade keeps shift 7
        if kx == 0 {
            assert(xbits == 0x3F80_0000);
        }
        assert(s == spec_decade_shift(xbits as int));
    }
    let p5 = pow5_64(s);
    proof {
        reveal_with_fuel(pow5, 15);
        assert(mx * p5 < 0x200_0000_0000_0000) by (nonlinear_arith)
            requires
                mx < 0x100_0000,
                p5 <= 6103515625,
        ;
    }
    let p = mx * p5;
    let c53 = pow2_64(53);
    let ghost spec_scaled = spec_round53(p as int);
    let mut p64: u64 = p;
    let mut g: u32 = 0;
    if p >= c53 {
        proof {
            lemma_pow2_extra();
            assert((pow2(53) as u128) * pow2(120) >= (p + 1) as int) by (nonlinear_arith)
                requires
                    p < 0x200_0000_0000_0000,
                    pow2(53) == 0x20_0000_0000_0000,
                    pow2(120) == 0x1000000000000000000000000000000,
            ;
            assert((p + 1) as int <= pow2(53) * pow2(4)) by (nonlinear_arith)
                requires
                    p < 0x200_0000_0000_0000,
                    pow2(53) == 0x20_0000_0000_0000,
                    pow2(4) == 0x10,
            ;
        }
        let gg = norm_shift_exec(c53 as u128, (p + 1) as u128);
        proof {
            lemma_norm_shift_le(pow2(53) as int, (p + 1) as int, 4);
            lemma_norm_shift(pow2(53) as int, (p + 1) as int);
            assert(gg >= 1) by {
                if norm_shift(pow2(53) as int, (p + 1) as int) == 0 {
                    assert(pow2(53) >= p + 1);
                }
            }
        }
        let pg = pow2_64(gg);
        let q = p / pg;
        let rem = p % pg;
        let half = pg / 2;
        proof {
            lemma_fundamental_div_mod(p as int, pg as int);
            lemma_pow2_unfold(gg as nat);
            assert(half == pow2((gg - 1) as nat));
            // q < 2^53 since p + 1 <= 2^53 * 2^gg
            assert(q < pow2(53)) by (nonlinear_arith)
                requires
                    p == pg * q + rem,
                    0 <= rem < pg,
                    1 <= pg,
                    (p + 1) as int <= pow2(53) * pg,
            ;
            lemma_norm_shift(pow2(53) as int, (p + 1) as int);
        }
        let p1 = if rem > half || (rem == half && q % 2 == 1) {
            q + 1
        } else {
            q
        };
        if p1 == c53 {
            p64 = c53 / 2;
            g = gg + 1;
        } else {
            p64 = p1;
            g = gg;
        }
        proof {
            assert(2 * rem > pg <==> rem > half);
            assert(2 * rem == pg <==> rem == half);
            assert((p64 as int, g as int) == spec_round53(p as int));
            lemma_pow2_unfold((gg + 1) as nat);
            assert(p1 * pg <= p + pg) by (nonlinear_arith)
                requires
                    p == pg * q + rem,
                    0 <= rem < pg,
                    1 <= pg,
                    p1 <= q + 1,
            ;
            if p1 == c53 {
                assert(p64 * pow2(g as nat) == p1 * pg) by (nonlinear_arith)
                    requires
                        2 * (p64 as int) == p1 as int,
                        pow2(g as nat) == 2 * pg,
                ;
            }
            assert(p64 * pow2(g as nat) <= p + pow2(g as nat)) by (nonlinear_arith)
                requires
                    p64 * pow2(g as nat) <= p + pg,
                    pg <= pow2(g as nat),
            ;
        }
    }
    proof {
        assert((p64 as int, g as int) == spec_round53(p as int));
        assert(g <= 5 && p64 <= pow2(53));
        if p < c53 {
            assert(p64 * pow2(0) == p64) by (nonlinear_arith)
                requires
                    pow2(0) == 1,
            ;
        }
        assert(p64 * pow2(g as nat) <= p + pow2(g as nat));
    }
    // the scale-back shift: positive because the decade shift and the
    // 53-bit excess together stay far below kx + 23
    let hh = kx + 23 - s - g;
    proof {
        assert(1 <= hh <= 63);
    }
    let ph = pow2_64(hh);
    let n0 = p64 / ph;
    let remn = p64 % ph;
    let n = if 2 * remn >= ph {
        n0 + 1
    } else {
        n0
    };
    if n == 0 {
        proof {
            assert(spec_precision7(mx as int, kx as int) == 0);
        }
        return 0;
    }
    let pw = pow2_64(s);
    proof {
        assert(pow2(s as nat) <= pow2(14)) by {
            if (s as nat) < 14 {
                lemma_pow2_strictly_increases(s as nat, 14);
            }
        }
        assert(pow2(7) <= pow2(s as nat)) by {
            if 7 < s {
                lemma_pow2_strictly_increases(7, s as nat);
            }
        }
        assert(pw * p5 < 0x8000_0000_0000) by (nonlinear_arith)
            requires
                pw <= 0x4000,
                p5 <= 6103515625,
        ;
        assert(pw * p5 >= 128 * 78125) by (nonlinear_arith)
            requires
                pw >= 128,
                p5 >= 78125,
        ;
    }
    let p10 = pw * p5;
    proof {
        assert(p10 == pow10(s as nat));
        // n is at most 10^s + 2: unwind the roundings one scale at a time
        lemma_fundamental_div_mod(p64 as int, ph as int);
        assert(n * ph <= p64 + ph) by (nonlinear_arith)
            requires
                p64 == ph * n0 + remn,
                0 <= remn < ph,
                1 <= ph,
                n <= n0 + 1,
        ;
        let pg = pow2(g as nat);
        assert(p64 * pg <= p + pg) by {
            if g == 0 {
                assert(pow2(0) == 1);
                assert(p64 == p);
                assert(p64 * 1 == p64) by (nonlinear_arith);
            } else {
                assert(p64 * pg <= p + pg);
            }
        }
        lemma_pow2_adds(hh as nat, g as nat);
        assert((n * ph) * pg <= (p64 + ph) * pg) by (nonlinear_arith)
            requires
                n * ph <= p64 + ph,
                pg >= 1,
        ;
        assert((n * ph) * pg == n * pow2((hh + g) as nat)) by (nonlinear_arith)
            requires
                ph * pg == pow2((hh + g) as nat),
        ;
        assert((p64 + ph) * pg == p64 * pg + ph * pg) by (nonlinear_arith);
        assert(n * pow2((hh + g) as nat) <= p + pg + pow2((hh + g) as nat));
        // p is bounded by 2^(kx+23) * 5^s
        assert(mx <= pow2((kx + 23) as nat)) by {
            if kx == 0 {
            } else if kx == 1 {
                assert(pow2((kx + 23) as nat) == pow2(24));
            } else {
                lemma_pow2_strictly_increases(24, (kx + 23) as nat);
            }
        }
        assert(p <= pow2((kx + 23) as nat) * pow5(s as nat)) by (nonlinear_arith)
            requires
                p == mx * pow5(s as nat),
                mx <= pow2((kx + 23) as nat),
                pow5(s as nat) >= 1,
        ;
        // fold the power-of-two slack into one extra term
        assert(hh + g == kx + 23 - s);
        assert(pg + pow2((hh + g) as nat) <= 2 * pow2((hh + g) as nat)) by {
            if (g as nat) < ((hh + g) as nat) {
                lemma_pow2_strictly_increases(g as nat, (hh + g) as nat);
            }
        }
        assert(n * pow2((kx + 23 - s) as nat) <= pow2((kx + 23) as nat) * pow5(s as nat) + 2 * pow2(
            (kx + 23 - s) as nat,
        ));
        lemma_pow2_adds((kx + 23 - s) as nat, s as nat);
        assert((n * pow2((kx + 23 - s) as nat)) * pow2(s as nat) == n * pow2((kx + 23) as nat))
            by (nonlinear_arith)
            requires
                pow2((kx + 23 - s) as nat) * pow2(s as nat) == pow2((kx + 23) as nat),
        ;
        assert((pow2((kx + 23) as nat) * pow5(s as nat) + 2 * pow2((kx + 23 - s) as nat)) * pow2(
            s as nat,
        ) == pow2((kx + 23) as nat) * (pow5(s as nat) * pow2(s as nat)) + 2 * pow2(
            (kx + 23) as nat,
        )) by (nonlinear_arith)
            requires
                pow2((kx + 23 - s) as nat) * pow2(s as nat) == pow2((kx + 23) as nat),
        ;
        assert(n * pow2((kx + 23) as nat) <= pow2((kx + 23) as nat) * (pow10(s as nat) + 2))
            by (nonlinear_arith)
            requires
                n * pow2((kx + 23 - s) as nat) <= pow2((kx + 23) as nat) * pow5(s as nat) + 2
                    * pow2((kx + 23 - s) as nat),
                pow2((kx + 23 - s) as nat) * pow2(s as nat) == pow2((kx + 23) as nat),
                pow10(s as nat) == pow2(s as nat) * pow5(s as nat),
                pow2(s as nat) >= 1,
                pow5(s as nat) >= 1,
                pow2((kx + 23 - s) as nat) >= 1,
                pow2((kx + 23) as nat) >= 1,
        ;
        assert(n <= pow10(s as nat) + 2) by (nonlinear_arith)
            requires
                n * pow2((kx + 23) as nat) <= pow2((kx + 23) as nat) * (pow10(s as nat) + 2),
                pow2((kx + 23) as nat) >= 1,
        ;
    }
    let (m53, k53) = round_rat(n as u128, p10 as u128, 53);
    let top = m53 / 0x2000_0000;
    let fr = m53 % 0x2000_0000;
    let sf = if fr > 0x1000_0000 || (fr == 0x1000_0000 && top % 2 == 1) {
        top + 1
    } else {
        top
    };
    proof {
        lemma_fundamental_div_mod(m53 as int, 0x2000_0000);
        if k53 == 0 {
            assert(top <= 0xC0_0000) by (nonlinear_arith)
                requires
                    m53 == 0x2000_0000 * top + fr,
                    0 <= fr < 0x2000_0000,
                    2 * m53 <= 3 * pow2(52) + 2,
                    pow2(52) == 0x10_0000_0000_0000,
            ;
        }
    }
    if sf == 0x100_0000 {
        let bits = (127 - (k53 - 1)) * 0x80_0000;
        proof {
            assert(bits == spec_precision7(mx as int, kx as int));
        }
        bits
    } else {
        let bits = (127 - k53) * 0x80_0000 + (sf as u32 - 0x80_0000);
        proof {
            assert(bits == spec_precision7(mx as int, kx as int));
        }
        bits
    }
}

} // verus!
