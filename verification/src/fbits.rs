//! Integer interpretation of IEEE 754 single-precision bit patterns.
//!
//! Tensor cells arrive from the inference stage as raw 32-bit words. The
//! library never computes with floating point; instead it reads the sign,
//! exponent and fraction fields of each word and derives the two integer
//! views the pipeline needs: truncation to a class label, and a fixed-point
//! score in millionths used for thresholding and statistics.
//!
//! The magnitude of a finite value with exponent field `e` and fraction
//! field `m` is `m * 2^(1-150)` when `e == 0` (subnormal) and
//! `(2^23 + m) * 2^(e-150)` otherwise; both are `mag_num / 2^149` for the
//! numerator defined here.

use vstd::prelude::*;
use vstd::arithmetic::power2::{pow2, lemma_pow2_adds, lemma_pow2_pos, lemma_pow2_strictly_increases, lemma_pow2_unfold, lemma2_to64};
use vstd::arithmetic::div_mod::{lemma_basic_div, lemma_div_is_ordered, lemma_div_denominator, lemma_div_by_multiple};
use vstd::arithmetic::mul::{lemma_mul_is_associative, lemma_mul_is_commutative, lemma_mul_inequality, lemma_mul_strict_inequality};

verus! {

/// Sign bit of the word: true for negative values (including negative zero).
pub open spec fn f32_sign(bits: u32) -> bool {
    bits >= 0x8000_0000
}

/// The 8-bit exponent field.
pub open spec fn f32_exp(bits: u32) -> nat {
    (((bits / 0x0080_0000) % 256) as nat)
}

/// The 23-bit fraction field.
pub open spec fn f32_frac(bits: u32) -> nat {
    ((bits % 0x0080_0000) as nat)
}

/// A word with an all-ones exponent and a non-zero fraction is not a number.
pub open spec fn f32_is_nan(bits: u32) -> bool {
    f32_exp(bits) == 255 && f32_frac(bits) != 0
}

/// Numerator of the magnitude over the fixed denominator `2^149`.
/// Infinities take the numerator of their field values, which exceeds every
/// finite one, so saturating consumers need no special case for them.
pub open spec fn f32_mag_num(bits: u32) -> nat {
    if f32_exp(bits) == 0 {
        f32_frac(bits)
    } else {
        (0x0080_0000 + f32_frac(bits)) * pow2((f32_exp(bits) - 1) as nat)
    }
}

/// The value truncated toward zero and saturated to `i32`, with NaN mapped
/// to zero: the semantics of Rust's float-to-integer cast, stated over the
/// bit pattern alone.
pub open spec fn f32_trunc(bits: u32) -> int {
    if f32_is_nan(bits) {
        0
    } else {
        let t = f32_mag_num(bits) / pow2(149);
        if f32_sign(bits) {
            if t >= 0x8000_0000 {
                -0x8000_0000
            } else {
                -(t as int)
            }
        } else {
            if t >= 0x7fff_ffff {
                0x7fff_ffff
            } else {
                t as int
            }
        }
    }
}

/// The value as a fixed-point count of millionths, floored, clamped to
/// `[0, 1_000_000]`; NaN and negative values count as zero. Detection
/// scores are confidences in the unit interval, so the clamp only guards
/// against malformed input.
pub open spec fn f32_micros(bits: u32) -> nat {
    if f32_is_nan(bits) || f32_sign(bits) {
        0
    } else {
        let t = (f32_mag_num(bits) * 1_000_000) / pow2(149);
        if t > 1_000_000 {
            1_000_000
        } else {
            t
        }
    }
}

/// `2^k` as a machine word.
pub fn pow2_u64(k: u64) -> (r: u64)
    requires
        k <= 63,
    ensures
        r as nat == pow2(k as nat),
        r >= 1,
{
    let mut i: u64 = 0;
    let mut acc: u64 = 1;
    assert(acc as nat == pow2(0)) by {
        lemma2_to64();
    }
    while i < k
        invariant
            i <= k <= 63,
            acc as nat == pow2(i as nat),
        decreases k - i,
    {
        proof {
            lemma_pow2_unfold((i + 1) as nat);
            lemma_pow2_strictly_increases((i + 1) as nat, 64);
            lemma2_to64_plus();
        }
        acc = acc * 2;
        i = i + 1;
    }
    proof {
        lemma_pow2_pos(k as nat);
    }
    acc
}

/// `pow2(64)` written out, for overflow bounds.
proof fn lemma2_to64_plus()
    ensures
        pow2(64) == 0x10000000000000000,
{
    lemma2_to64();
    lemma_pow2_adds(32, 32);
}

/// Strict bounds on two factors bound their product strictly.
proof fn lemma_mul_bound_lt(a: int, ab: int, b: int, bb: int)
    requires
        0 <= a < ab,
        0 <= b < bb,
    ensures
        a * b < ab * bb,
{
    assert(a * b < ab * bb) by (nonlinear_arith)
        requires
            0 <= a < ab,
            0 <= b < bb,
    ;
}

/// Dividing `a * 2^k1` by `2^k2` equals dividing `a` by `2^(k2-k1)`.
proof fn lemma_mul_pow2_div_pow2(a: nat, k1: nat, k2: nat)
    requires
        k1 <= k2,
    ensures
        (a * pow2(k1)) / pow2(k2) == a / pow2((k2 - k1) as nat),
{
    let rest = (k2 - k1) as nat;
    lemma_pow2_pos(k1);
    lemma_pow2_pos(rest);
    lemma_pow2_adds(k1, rest);
    lemma_div_denominator((a * pow2(k1)) as int, pow2(k1) as int, pow2(rest) as int);
    lemma_mul_is_commutative(a as int, pow2(k1) as int);
    lemma_div_by_multiple(a as int, pow2(k1) as int);
}

/// Dividing `a * 2^k1` by `2^k2` when `k1 >= k2` multiplies `a` by the
/// remaining power.
proof fn lemma_mul_pow2_div_pow2_up(a: nat, k1: nat, k2: nat)
    requires
        k2 <= k1,
    ensures
        (a * pow2(k1)) / pow2(k2) == a * pow2((k1 - k2) as nat),
{
    let rest = (k1 - k2) as nat;
    lemma_pow2_pos(k2);
    lemma_pow2_pos(rest);
    lemma_pow2_adds(rest, k2);
    assert(a * pow2(k1) == (a * pow2(rest)) * pow2(k2)) by {
        lemma_mul_is_associative(a as int, pow2(rest) as int, pow2(k2) as int);
    }
    lemma_div_by_multiple((a * pow2(rest)) as int, pow2(k2) as int);
}

/// A normal or infinite word's magnitude numerator, bounded above:
/// `sig * 2^(e-1) < 2^(23+e)` since `sig < 2^24`.
proof fn lemma_mag_upper(bits: u32)
    requires
        f32_exp(bits) != 0,
    ensures
        f32_mag_num(bits) < pow2((23 + f32_exp(bits)) as nat),
{
    let e = f32_exp(bits);
    let sig = (0x0080_0000 + f32_frac(bits)) as nat;
    assert(sig < pow2(24)) by {
        lemma2_to64();
    }
    lemma_pow2_pos((e - 1) as nat);
    lemma_mul_strict_inequality(sig as int, pow2(24) as int, pow2((e - 1) as nat) as int);
    lemma_pow2_adds(24, (e - 1) as nat);
}

/// A normal or infinite word's magnitude numerator, bounded below:
/// `sig * 2^(e-1) >= 2^(22+e)` since `sig >= 2^23`.
proof fn lemma_mag_lower(bits: u32)
    requires
        f32_exp(bits) != 0,
    ensures
        f32_mag_num(bits) >= pow2((22 + f32_exp(bits)) as nat),
{
    let e = f32_exp(bits);
    let sig = (0x0080_0000 + f32_frac(bits)) as nat;
    assert(sig >= pow2(23)) by {
        lemma2_to64();
    }
    lemma_pow2_pos((e - 1) as nat);
    lemma_mul_inequality(pow2(23) as int, sig as int, pow2((e - 1) as nat) as int);
    lemma_pow2_adds(23, (e - 1) as nat);
}

/// Truncate the value held in an IEEE 754 single-precision bit pattern
/// toward zero, saturating to the `i32` range, NaN to zero.
pub fn f32_bits_trunc_i32(bits: u32) -> (r: i32)
    ensures
        r as int == f32_trunc(bits),
{
    let e: u32 = (bits / 0x0080_0000) % 256;
    let m: u32 = bits % 0x0080_0000;
    let neg: bool = bits >= 0x8000_0000;
    if e == 255 && m != 0 {
        0
    } else if e < 127 {
        assert(f32_mag_num(bits) / pow2(149) == 0) by {
            lemma_pow2_pos(149);
            if e != 0 {
                lemma_mag_upper(bits);
                if 23 + e < 149 {
                    lemma_pow2_strictly_increases((23 + e) as nat, 149);
                }
            } else {
                assert(f32_frac(bits) < pow2(149)) by {
                    lemma2_to64();
                    lemma_pow2_strictly_increases(23, 149);
                }
            }
            lemma_basic_div(f32_mag_num(bits) as int, pow2(149) as int);
        }
        0
    } else if e >= 158 {
        assert(f32_mag_num(bits) / pow2(149) >= 0x8000_0000) by {
            lemma_mag_lower(bits);
            assert(pow2((22 + e) as nat) == pow2((e - 127) as nat) * pow2(149)) by {
                lemma_pow2_adds((e - 127) as nat, 149);
            }
            assert((pow2((e - 127) as nat) * pow2(149)) / pow2(149) == pow2((e - 127) as nat)) by {
                lemma_pow2_pos(149);
                lemma_div_by_multiple(pow2((e - 127) as nat) as int, pow2(149) as int);
            }
            assert(pow2((e - 127) as nat) >= pow2(31)) by {
                if e > 158 {
                    lemma_pow2_strictly_increases(31, (e - 127) as nat);
                }
            }
            assert(pow2(31) == 0x8000_0000) by {
                lemma2_to64();
                lemma_pow2_adds(16, 15);
            }
            lemma_pow2_pos(149);
            lemma_div_is_ordered(
                (pow2((e - 127) as nat) * pow2(149)) as int,
                f32_mag_num(bits) as int,
                pow2(149) as int,
            );
        }
        if neg {
            i32::MIN
        } else {
            i32::MAX
        }
    } else {
        // 127 <= e <= 157: the magnitude floor fits well under 2^31.
        let sig: u64 = 0x0080_0000u64 + (m as u64);
        let ghost spec_t = f32_mag_num(bits) / pow2(149);
        let t: u64 = if e <= 150 {
            let d = pow2_u64((150 - e) as u64);
            proof {
                lemma_mul_pow2_div_pow2(sig as nat, (e - 1) as nat, 149);
            }
            sig / d
        } else {
            let p = pow2_u64((e - 150) as u64);
            proof {
                lemma_mul_pow2_div_pow2_up(sig as nat, (e - 1) as nat, 149);
                assert(sig as nat * pow2((e - 150) as nat) < pow2(31)) by {
                    lemma2_to64();
                    assert(pow2((e - 150) as nat) <= pow2(7)) by {
                        if e - 150 < 7 {
                            lemma_pow2_strictly_increases((e - 150) as nat, 7);
                        }
                    }
                    lemma_mul_inequality(
                        pow2((e - 150) as nat) as int,
                        pow2(7) as int,
                        sig as int,
                    );
                    lemma_mul_is_commutative(pow2((e - 150) as nat) as int, sig as int);
                    lemma_mul_is_commutative(pow2(7) as int, sig as int);
                    lemma_mul_strict_inequality(sig as int, pow2(24) as int, pow2(7) as int);
                    lemma_pow2_adds(24, 7);
                    lemma_pow2_adds(16, 15);
                }
                assert(pow2(31) < 0x10000000000000000) by {
                    lemma_pow2_strictly_increases(31, 64);
                    lemma2_to64_plus();
                }
            }
            sig * p
        };
        proof {
            assert(t as nat == spec_t);
            assert(spec_t < 0x8000_0000) by {
                if e <= 150 {
                    lemma_pow2_pos((150 - e) as nat);
                    assert(sig as nat / pow2((150 - e) as nat) <= sig as nat) by {
                        vstd::arithmetic::div_mod::lemma_div_nonincreasing(
                            sig as int,
                            pow2((150 - e) as nat) as int,
                        );
                    }
                } else {
                    assert(pow2(31) == 0x8000_0000) by {
                        lemma2_to64();
                        lemma_pow2_adds(16, 15);
                    }
                }
            }
        }
        if neg {
            0i32 - (t as i32)
        } else {
            t as i32
        }
    }
}

/// Read the value held in an IEEE 754 single-precision bit pattern as a
/// count of millionths, floored and clamped to `[0, 1_000_000]`; NaN and
/// negative values give zero.
pub fn f32_bits_micros(bits: u32) -> (r: u64)
    ensures
        r as nat == f32_micros(bits),
{
    let e: u32 = (bits / 0x0080_0000) % 256;
    let m: u32 = bits % 0x0080_0000;
    if bits >= 0x8000_0000 || (e == 255 && m != 0) {
        0
    } else if e >= 127 {
        // Magnitude at least one: the clamp applies.
        assert({
            let t = (f32_mag_num(bits) * 1_000_000) / pow2(149);
            t >= 1_000_000
        }) by {
            lemma_mag_lower(bits);
            assert(pow2((22 + e) as nat) >= pow2(149)) by {
                if 22 + e > 149 {
                    lemma_pow2_strictly_increases(149, (22 + e) as nat);
                }
            }
            assert(f32_mag_num(bits) * 1_000_000 >= pow2(149) * 1_000_000) by {
                lemma_mul_inequality(pow2(149) as int, f32_mag_num(bits) as int, 1_000_000);
            }
            lemma_pow2_pos(149);
            lemma_div_is_ordered(
                (pow2(149) * 1_000_000) as int,
                (f32_mag_num(bits) * 1_000_000) as int,
                pow2(149) as int,
            );
            lemma_mul_is_commutative(pow2(149) as int, 1_000_000);
            lemma_div_by_multiple(1_000_000, pow2(149) as int);
        }
        1_000_000
    } else if e <= 106 {
        // Magnitude under a millionth: the floor is zero.
        assert((f32_mag_num(bits) * 1_000_000) / pow2(149) == 0) by {
            lemma_pow2_pos(149);
            assert(1_000_000 < pow2(20)) by {
                lemma2_to64();
            }
            if e == 0 {
                assert(f32_mag_num(bits) < pow2(23)) by {
                    lemma2_to64();
                }
                lemma_mul_bound_lt(
                    f32_mag_num(bits) as int,
                    pow2(23) as int,
                    1_000_000,
                    pow2(20) as int,
                );
                lemma_pow2_adds(23, 20);
                lemma_pow2_strictly_increases(43, 149);
            } else {
                lemma_mag_upper(bits);
                lemma_mul_bound_lt(
                    f32_mag_num(bits) as int,
                    pow2((23 + e) as nat) as int,
                    1_000_000,
                    pow2(20) as int,
                );
                lemma_pow2_adds((23 + e) as nat, 20);
                if 43 + e < 149 {
                    lemma_pow2_strictly_increases((43 + e) as nat, 149);
                }
            }
            lemma_basic_div((f32_mag_num(bits) * 1_000_000) as int, pow2(149) as int);
        }
        0
    } else {
        // 107 <= e <= 126: compute the floored millionths exactly.
        let sig: u64 = 0x0080_0000u64 + (m as u64);
        let d = pow2_u64((150 - e) as u64);
        proof {
            assert((f32_mag_num(bits) * 1_000_000) / pow2(149) == (sig as nat * 1_000_000) / pow2(
                (150 - e) as nat,
            )) by {
                assert(f32_mag_num(bits) * 1_000_000 == (sig as nat * 1_000_000) * pow2(
                    (e - 1) as nat,
                )) by {
                    lemma_mul_is_associative(sig as int, pow2((e - 1) as nat) as int, 1_000_000);
                    lemma_mul_is_commutative(pow2((e - 1) as nat) as int, 1_000_000);
                    lemma_mul_is_associative(sig as int, 1_000_000, pow2((e - 1) as nat) as int);
                }
                lemma_mul_pow2_div_pow2(sig as nat * 1_000_000, (e - 1) as nat, 149);
            }
            assert(sig as nat * 1_000_000 < pow2(44)) by {
                lemma2_to64();
                lemma_pow2_adds(24, 20);
                lemma_mul_bound_lt(sig as int, pow2(24) as int, 1_000_000, pow2(20) as int);
            }
            assert(pow2(44) <= 0x10000000000000000) by {
                lemma_pow2_strictly_increases(44, 64);
                lemma2_to64_plus();
            }
            assert((sig as nat * 1_000_000) / pow2((150 - e) as nat) <= 1_000_000) by {
                lemma_pow2_pos((150 - e) as nat);
                assert(sig as nat * 1_000_000 <= 1_000_000 * pow2(24)) by {
                    lemma2_to64();
                    lemma_mul_inequality(sig as int, pow2(24) as int, 1_000_000);
                    lemma_mul_is_commutative(pow2(24) as int, 1_000_000);
                }
                assert(pow2(24) <= pow2((150 - e) as nat)) by {
                    if (150 - e) as nat != 24 {
                        lemma_pow2_strictly_increases(24, (150 - e) as nat);
                    }
                }
                assert(1_000_000 * pow2(24) <= 1_000_000 * pow2((150 - e) as nat)) by {
                    lemma_mul_inequality(
                        pow2(24) as int,
                        pow2((150 - e) as nat) as int,
                        1_000_000,
                    );
                    lemma_mul_is_commutative(pow2(24) as int, 1_000_000);
                    lemma_mul_is_commutative(pow2((150 - e) as nat) as int, 1_000_000);
                }
                lemma_div_is_ordered(
                    (sig as nat * 1_000_000) as int,
                    (1_000_000 * pow2((150 - e) as nat)) as int,
                    pow2((150 - e) as nat) as int,
                );
                lemma_mul_is_commutative(pow2((150 - e) as nat) as int, 1_000_000);
                lemma_div_by_multiple(1_000_000, pow2((150 - e) as nat) as int);
            }
        }
        (sig * 1_000_000) / d
    }
}

} // verus!
