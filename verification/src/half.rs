//! Half-precision numbers and their single-precision counterparts, by their bits.
use crate::arith::{nearest_even, nearest_even_of_multiple};
use vstd::arithmetic::power2::{lemma2_to64, lemma_pow2_adds, lemma_pow2_pos, pow2};
use vstd::prelude::*;

verus! {

/// The bits of a half-precision number: sign, exponent, fraction.
pub open spec fn half_parts(bits: u16) -> (int, int, int) {
    (bits as int / 0x8000, (bits as int / 0x400) % 32, bits as int % 0x400)
}

/// The bits of a single-precision number: sign, exponent, fraction.
pub open spec fn single_parts(bits: u32) -> (int, int, int) {
    (bits as int / 0x8000_0000, (bits as int / 0x80_0000) % 256, bits as int % 0x80_0000)
}

/// The size of a finite half-precision number, in units of two to the minus 24.
pub open spec fn half_units(bits: u16) -> nat {
    let (_, e, f) = half_parts(bits);
    if e == 0 {
        f as nat
    } else {
        ((1024 + f) * pow2((e - 1) as nat)) as nat
    }
}

/// The size of a finite single-precision number, in units of two to the minus 149.
pub open spec fn single_units(bits: u32) -> nat {
    let (_, e, f) = single_parts(bits);
    if e == 0 {
        f as nat
    } else {
        ((0x80_0000 + f) * pow2((e - 1) as nat)) as nat
    }
}

/// Whether half-precision bits stand for a finite number.
pub open spec fn half_finite(bits: u16) -> bool {
    half_parts(bits).1 != 31
}

/// Whether half-precision bits stand for no number.
pub open spec fn half_nan(bits: u16) -> bool {
    half_parts(bits).1 == 31 && half_parts(bits).2 != 0
}

/// The position of the highest bit of a fraction.
pub open spec fn high_bit(f: int) -> nat {
    if f >= 512 {
        9
    } else if f >= 256 {
        8
    } else if f >= 128 {
        7
    } else if f >= 64 {
        6
    } else if f >= 32 {
        5
    } else if f >= 16 {
        4
    } else if f >= 8 {
        3
    } else if f >= 4 {
        2
    } else if f >= 2 {
        1
    } else {
        0
    }
}

/// The single-precision bits of a half-precision number.
pub open spec fn widened(bits: u16) -> int {
    let (s, e, f) = half_parts(bits);
    let sign = s * 0x8000_0000;
    if e == 31 {
        sign + 255 * 0x80_0000 + f * 0x2000
    } else if e > 0 {
        sign + (e + 112) * 0x80_0000 + f * 0x2000
    } else if f == 0 {
        sign
    } else {
        let k = high_bit(f);
        sign + (103 + k) * 0x80_0000 + (f * pow2((23 - k) as nat) - 0x80_0000)
    }
}

/// The half-precision bits nearest to a single-precision number; the even ones of two that are
/// equally near.
pub open spec fn narrowed(bits: u32) -> int {
    let (s, e, f) = single_parts(bits);
    let sign = s * 0x8000;
    if e == 255 {
        if f == 0 {
            sign + 0x7c00
        } else {
            sign + 0x7e00
        }
    } else if e - 112 >= 31 {
        sign + 0x7c00
    } else if e - 112 < -10 {
        sign
    } else if e - 112 <= 0 {
        sign + nearest_even((0x80_0000 + f) as nat, pow2((14 - (e - 112)) as nat))
    } else {
        sign + (e - 112) * 1024 + nearest_even(f as nat, 8192)
    }
}

fn power_of_two(n: u32) -> (r: u32)
    requires
        n <= 24,
    ensures
        r == pow2(n as nat),
{
    proof {
        lemma2_to64();
    }
    match n {
        0 => 1,
        1 => 2,
        2 => 4,
        3 => 8,
        4 => 16,
        5 => 32,
        6 => 64,
        7 => 128,
        8 => 256,
        9 => 512,
        10 => 1024,
        11 => 2048,
        12 => 4096,
        13 => 8192,
        14 => 16384,
        15 => 32768,
        16 => 65536,
        17 => 131072,
        18 => 262144,
        19 => 524288,
        20 => 1048576,
        21 => 2097152,
        22 => 4194304,
        23 => 8388608,
        _ => 16777216,
    }
}

fn highest_bit(f: u32) -> (r: u32)
    requires
        0 < f < 1024,
    ensures
        r == high_bit(f as int),
        r <= 9,
{
    if f >= 512 {
        9
    } else if f >= 256 {
        8
    } else if f >= 128 {
        7
    } else if f >= 64 {
        6
    } else if f >= 32 {
        5
    } else if f >= 16 {
        4
    } else if f >= 8 {
        3
    } else if f >= 4 {
        2
    } else if f >= 2 {
        1
    } else {
        0
    }
}

proof fn lemma_leading_bit(f: int)
    requires
        0 < f < 1024,
    ensures
        0x80_0000 <= f * pow2((23 - high_bit(f)) as nat) < 0x100_0000,
        high_bit(f) <= 9,
{
    lemma2_to64();
    let k = high_bit(f);
    let p = pow2((23 - k) as nat);
    if k == 9 {
        assert(f * p == f * 16384);
    } else if k == 8 {
        assert(f * p == f * 32768);
    } else if k == 7 {
        assert(f * p == f * 65536);
    } else if k == 6 {
        assert(f * p == f * 131072);
    } else if k == 5 {
        assert(f * p == f * 262144);
    } else if k == 4 {
        assert(f * p == f * 524288);
    } else if k == 3 {
        assert(f * p == f * 1048576);
    } else if k == 2 {
        assert(f * p == f * 2097152);
    } else if k == 1 {
        assert(f * p == f * 4194304);
    } else {
        assert(f * p == f * 8388608);
    }
}

/// The single-precision bits of a half-precision number.
pub fn f16_bits_to_f32(bits: u16) -> (r: u32)
    ensures
        r == widened(bits),
{
    let sign: u32 = (bits as u32 / 0x8000) * 0x8000_0000;
    let exponent: u32 = (bits as u32 / 0x400) % 32;
    let fraction: u32 = bits as u32 % 0x400;
    if exponent == 31 {
        sign + 255 * 0x80_0000 + fraction * 0x2000
    } else if exponent > 0 {
        sign + (exponent + 112) * 0x80_0000 + fraction * 0x2000
    } else if fraction == 0 {
        sign
    } else {
        let k: u32 = highest_bit(fraction);
        let p: u32 = power_of_two(23 - k);
        proof {
            lemma_leading_bit(fraction as int);
        }
        sign + (103 + k) * 0x80_0000 + (fraction * p - 0x80_0000)
    }
}

fn round_even(a: u32, b: u32) -> (r: u32)
    requires
        0 < b <= 0x100_0000,
        a < 0x100_0000,
    ensures
        r == nearest_even(a as nat, b as nat),
        r <= a / b + 1,
{
    let q: u32 = a / b;
    let rest: u32 = a % b;
    assert(q <= a) by {
        vstd::arithmetic::div_mod::lemma_div_is_ordered_by_denominator(a as int, 1, b as int);
    }
    if 2 * rest > b || (2 * rest == b && q % 2 == 1) {
        q + 1
    } else {
        q
    }
}

/// The half-precision bits nearest to a single-precision number.
pub fn f32_to_f16_bits(bits: u32) -> (r: u16)
    ensures
        r == narrowed(bits),
{
    let sign: u32 = (bits / 0x8000_0000) * 0x8000;
    let exponent: u32 = (bits / 0x80_0000) % 256;
    let fraction: u32 = bits % 0x80_0000;
    if exponent == 255 {
        if fraction == 0 {
            return (sign + 0x7c00) as u16;
        }
        return (sign + 0x7e00) as u16;
    }
    if exponent >= 143 {
        return (sign + 0x7c00) as u16;
    }
    if exponent < 102 {
        return sign as u16;
    }
    if exponent <= 112 {
        let divisor: u32 = power_of_two(126 - exponent);
        proof {
            lemma2_to64();
            lemma_pow2_pos((126 - exponent) as nat);
            assert(divisor >= 16384) by {
                if exponent < 112 {
                    vstd::arithmetic::power2::lemma_pow2_strictly_increases(
                        14,
                        (126 - exponent) as nat,
                    );
                }
            }
        }
        let rounded: u32 = round_even(0x80_0000 + fraction, divisor);
        assert(rounded <= 1024) by {
            let a: int = 0x80_0000 + fraction;
            vstd::arithmetic::div_mod::lemma_div_is_ordered_by_denominator(
                a,
                16384,
                divisor as int,
            );
        }
        return (sign + rounded) as u16;
    }
    let rounded: u32 = round_even(fraction, 8192);
    (sign + (exponent - 112) * 1024 + rounded) as u16
}

/// A single-precision number rounded to half precision, in single precision again.
pub fn round_f32_to_f16(bits: u32) -> (r: u32)
    ensures
        r == widened(narrowed(bits) as u16),
{
    f16_bits_to_f32(f32_to_f16_bits(bits))
}

// ---------------------------------------------------------------------
// What holds of the conversions
// ---------------------------------------------------------------------

proof fn lemma_widened_parts(bits: u16)
    ensures
        0 <= widened(bits) <= u32::MAX,
        ({
            let (s, e, f) = half_parts(bits);
            let (ws, we, wf) = single_parts(widened(bits) as u32);
            &&& ws == s
            &&& e == 31 ==> we == 255 && wf == f * 0x2000
            &&& 0 < e < 31 ==> we == e + 112 && wf == f * 0x2000
            &&& e == 0 && f == 0 ==> we == 0 && wf == 0
            &&& e == 0 && f > 0 ==> we == 103 + high_bit(f) && wf == f * pow2(
                (23 - high_bit(f)) as nat,
            ) - 0x80_0000
        }),
{
    let (s, e, f) = half_parts(bits);
    if e == 0 && f > 0 {
        lemma_leading_bit(f);
        let m = f * pow2((23 - high_bit(f)) as nat) - 0x80_0000;
        assert(widened(bits) == s * 0x8000_0000 + (103 + high_bit(f)) * 0x80_0000 + m);
    }
}

/// Widening keeps the number: sign and size stay, in whatever units they are measured.
pub proof fn widening_keeps_the_number(bits: u16)
    requires
        half_finite(bits),
    ensures
        single_parts(widened(bits) as u32).0 == half_parts(bits).0,
        single_parts(widened(bits) as u32).1 != 255,
        single_units(widened(bits) as u32) == half_units(bits) * pow2(125),
{
    lemma_widened_parts(bits);
    lemma2_to64();
    let (s, e, f) = half_parts(bits);
    let (ws, we, wf) = single_parts(widened(bits) as u32);
    if e > 0 {
        lemma_pow2_adds((e - 1) as nat, 125);
        lemma_pow2_adds(13, (e + 111) as nat);
        let a = pow2((e - 1) as nat) as int;
        let b = pow2(125) as int;
        let c = pow2((e + 111) as nat) as int;
        assert(8192 * c == a * b);
        assert((0x80_0000 + f * 8192) * c == (1024 + f) * (8192 * c)) by (nonlinear_arith);
        assert(((1024 + f) * a) * b == (1024 + f) * (a * b)) by (nonlinear_arith);
    } else if f > 0 {
        let k = high_bit(f);
        lemma_leading_bit(f);
        lemma_pow2_adds((23 - k) as nat, (102 + k) as nat);
        let p = pow2((23 - k) as nat) as int;
        let c = pow2((102 + k) as nat) as int;
        assert(p * c == pow2(125));
        assert((f * p) * c == f * (p * c)) by (nonlinear_arith);
        assert(0x80_0000 + wf == f * p);
    } else {
        assert(0 * pow2(125) == 0);
    }
}

/// Narrowing what was widened gives the same bits back, for everything that is a number or an
/// infinity.
pub proof fn narrowing_undoes_widening(bits: u16)
    requires
        !half_nan(bits),
    ensures
        narrowed(widened(bits) as u32) == bits,
{
    lemma_widened_parts(bits);
    lemma2_to64();
    let (s, e, f) = half_parts(bits);
    assert(bits == s * 0x8000 + e * 1024 + f);
    let (ws, we, wf) = single_parts(widened(bits) as u32);
    if e == 31 {
    } else if e > 0 {
        nearest_even_of_multiple(f as nat, 8192);
    } else if f > 0 {
        let k = high_bit(f);
        lemma_leading_bit(f);
        let p = pow2((23 - k) as nat);
        assert(14 - (we - 112) == 23 - k);
        assert(0x80_0000 + wf == f * p);
        lemma_pow2_pos((23 - k) as nat);
        nearest_even_of_multiple(f as nat, p);
    }
}

/// Whether single-precision bits stand for no number.
pub open spec fn single_nan(bits: u32) -> bool {
    single_parts(bits).1 == 255 && single_parts(bits).2 != 0
}

proof fn lemma_narrowed_range(bits: u32)
    ensures
        0 <= narrowed(bits) <= u16::MAX,
        !single_nan(bits) ==> !half_nan(narrowed(bits) as u16),
{
    let (s, e, f) = single_parts(bits);
    lemma2_to64();
    if 102 <= e <= 112 {
        let n = (126 - e) as nat;
        let d = pow2(n) as int;
        lemma_pow2_pos(n);
        if n > 14 {
            vstd::arithmetic::power2::lemma_pow2_strictly_increases(14, n);
        }
        assert(d >= 16384);
        let a: int = 0x80_0000 + f;
        vstd::arithmetic::div_mod::lemma_div_is_ordered_by_denominator(a, 16384, d);
        assert(a / 16384 <= 1023);
        let r = nearest_even(a as nat, d as nat);
        assert(r <= a / d + 1);
        assert(0 <= a / d) by {
            vstd::arithmetic::div_mod::lemma_div_pos_is_pos(a, d);
        }
        assert(narrowed(bits) == s * 0x8000 + r);
        assert(0 <= r <= 1024);
    } else if 112 < e < 143 {
        let r = nearest_even(f as nat, 8192);
        assert(r <= 1024);
        assert(narrowed(bits) == s * 0x8000 + (e - 112) * 1024 + r);
    }
}

/// Rounding to half precision a second time changes nothing.
pub proof fn rounding_is_stable(bits: u32)
    requires
        !single_nan(bits),
    ensures
        narrowed(widened(narrowed(bits) as u16) as u32) == narrowed(bits),
{
    lemma_narrowed_range(bits);
    narrowing_undoes_widening(narrowed(bits) as u16);
}

} // verus!
