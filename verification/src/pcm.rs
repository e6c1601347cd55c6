//! Samples of 16 bits from single-precision values, which are given by their bits.
use crate::arith::{nearest_even, nearest_even_is_near};
use crate::single::{round_nat, single_nat, spacing, spacing_is_small, spacing_of_binade};
use vstd::arithmetic::power2::{
    lemma2_to64, lemma2_to64_rest, lemma_pow2_strictly_increases, pow2,
};
use vstd::prelude::*;

verus! {

// ---------------------------------------------------------------------
// Values
// ---------------------------------------------------------------------

/// The exponent of a value, as it is stored.
pub open spec fn exponent(bits: u32) -> nat {
    ((bits / 0x80_0000) % 256) as nat
}

/// The fraction of a value, as it is stored.
pub open spec fn fraction(bits: u32) -> nat {
    (bits % 0x80_0000) as nat
}

/// The digits of a value: its size is this number with as many binary places as `places` says.
pub open spec fn digits(bits: u32) -> nat {
    if exponent(bits) == 0 {
        fraction(bits)
    } else {
        fraction(bits) + 0x80_0000
    }
}

/// How many binary places the digits of a value have, where the value is below two.
pub open spec fn places(bits: u32) -> nat {
    if exponent(bits) == 0 {
        149
    } else {
        (150 - exponent(bits)) as nat
    }
}

/// The digits of a value with its sign.
pub open spec fn signed_digits(bits: u32) -> int {
    if bits < 0x8000_0000 {
        digits(bits) as int
    } else {
        -(digits(bits) as int)
    }
}

/// Whether bits stand for no number.
pub open spec fn is_no_number(bits: u32) -> bool {
    exponent(bits) == 255 && fraction(bits) != 0
}

/// Whether a value is a number from minus one to one.
pub open spec fn is_within_one(bits: u32) -> bool {
    exponent(bits) < 127 || exponent(bits) == 127 && fraction(bits) == 0
}

// ---------------------------------------------------------------------
// Samples
// ---------------------------------------------------------------------

/// The size of the sample for a value: the value, held within one, times 32767 in single precision,
/// cut to a whole number.
pub open spec fn sample_size(bits: u32) -> nat {
    if is_no_number(bits) {
        0
    } else if exponent(bits) >= 127 {
        32767
    } else {
        single_nat(digits(bits) * 32767) / pow2(places(bits))
    }
}

/// The sample for a value.
pub open spec fn sample_of(bits: u32) -> i16 {
    if bits < 0x8000_0000 {
        sample_size(bits) as i16
    } else {
        -(sample_size(bits) as int) as i16
    }
}

/// The samples for values.
pub open spec fn samples_of(values: Seq<u32>) -> Seq<i16> {
    values.map_values(|bits: u32| sample_of(bits))
}

/// Whether a sample, over 32768, differs from a value by no more than two parts in 32768.
pub open spec fn is_close(sample: i16, bits: u32) -> bool {
    let unit = pow2(places(bits)) as int;
    -2 * unit <= sample * unit - 32768 * signed_digits(bits) <= 2 * unit
}

proof fn lemma_product(m: nat)
    requires
        m < 0x100_0000,
    ensures
        single_nat(m * 32767) <= m * 32767 + 0x8000,
        m * 32767 <= single_nat(m * 32767) + 0x8000,
        m >= 0x80_0000 ==> single_nat(m * 32767) % 0x4000 == 0 && m * 32767 <= single_nat(m * 32767)
            + 0x4000 && single_nat(m * 32767) <= m * 32767 + 0x4000,
{
    let n = m * 32767;
    let g = spacing(n);
    lemma2_to64();
    spacing_is_small(n);
    nearest_even_is_near(n, g);
    let q = nearest_even(n, g);
    assert(n < 0x80_0000_0000);
    if n >= 0x100_0000 {
        assert(g <= 0x1_0000) by (nonlinear_arith)
            requires
                g * 0x80_0000 <= n,
                n < 0x80_0000_0000,
        ;
    }
    if m >= 0x80_0000 {
        lemma2_to64_rest();
        if n < 0x40_0000_0000 {
            spacing_of_binade(n, 14);
            assert(q * 0x4000 % 0x4000 == 0) by {
                vstd::arithmetic::div_mod::lemma_mod_multiples_basic(q as int, 0x4000);
            }
        } else {
            spacing_of_binade(n, 15);
            assert(q * 0x8000 == (2 * q) * 0x4000);
            assert((2 * q) * 0x4000 % 0x4000 == 0) by {
                vstd::arithmetic::div_mod::lemma_mod_multiples_basic(2 * q as int, 0x4000);
            }
        }
    }
}

pub(crate) proof fn lemma_size(bits: u32)
    ensures
        sample_size(bits) <= 32767,
{
    if !is_no_number(bits) && exponent(bits) < 127 {
        let n = digits(bits) * 32767;
        lemma_product(digits(bits));
        let r = single_nat(n);
        lemma2_to64();
        if places(bits) > 24 {
            lemma_pow2_strictly_increases(24, places(bits));
        }
        let unit = pow2(places(bits));
        assert(r < 32768 * unit);
        vstd::arithmetic::div_mod::lemma_fundamental_div_mod(r as int, unit as int);
        vstd::arithmetic::div_mod::lemma_mod_bound(r as int, unit as int);
        let s = r / unit;
        assert(s < 32768) by (nonlinear_arith)
            requires
                r < 32768 * unit,
                unit * s <= r,
                unit > 0,
        ;
    }
}

/// The sample for a value.
pub fn sample(bits: u32) -> (r: i16)
    ensures
        r == sample_of(bits),
{
    proof {
            lemma_size(bits);
    }
    let e: u32 = (bits / 0x80_0000) % 256;
    let f: u32 = bits % 0x80_0000;
    let size: i16 = if e == 255 && f != 0 {
        0
    } else if e >= 127 {
        32767
    } else {
        let m: u32 = if e == 0 {
            f
        } else {
            f + 0x80_0000
        };
        let k: u64 = if e == 0 {
            149
        } else {
            150 - e as u64
        };
        let product: u128 = round_nat(m as u128 * 32767);
        proof {
            lemma_product(m as nat);
            lemma2_to64();
        }
        let whole: u64 = product as u64;
        if k >= 64 {
            proof {
                if k > 64 {
                    lemma_pow2_strictly_increases(64, k as nat);
                }
                vstd::arithmetic::div_mod::lemma_basic_div(whole as int, pow2(k as nat) as int);
            }
            0
        } else {
            proof {
                vstd::bits::lemma_u64_shr_is_div(whole, k);
            }
            (whole >> k) as i16
        }
    };
    if bits < 0x8000_0000 {
        size
    } else {
        -size
    }
}

/// The samples for values.
pub fn samples(values: &[u32]) -> (r: Vec<i16>)
    ensures
        r@ == samples_of(values@),
{
    let mut out: Vec<i16> = Vec::new();
    let mut i: usize = 0;
    while i < values.len()
        invariant
            i <= values@.len(),
            out@ == samples_of(values@).take(i as int),
        decreases values@.len() - i,
    {
        let v: i16 = sample(values[i]);
        out.push(v);
        assert(samples_of(values@).take(i as int + 1) =~= samples_of(values@).take(i as int).push(v));
        i = i + 1;
    }
    assert(samples_of(values@).take(i as int) =~= samples_of(values@));
    out
}

/// The sample for a value within one, over 32768, differs from the value by no more than two parts
/// in 32768.
pub proof fn samples_are_close(bits: u32)
    requires
        is_within_one(bits),
    ensures
        is_close(sample_of(bits), bits),
{
    let m = digits(bits) as int;
    let k = places(bits);
    let unit = pow2(k) as int;
    let s = sample_size(bits) as int;
    lemma_size(bits);
    lemma2_to64();
    if exponent(bits) == 127 {
        assert(m == unit);
    } else {
        if k > 24 {
            lemma_pow2_strictly_increases(24, k);
        }
        lemma_product(m as nat);
        let r = single_nat((m * 32767) as nat) as int;
        vstd::arithmetic::div_mod::lemma_fundamental_div_mod(r, unit);
        vstd::arithmetic::div_mod::lemma_mod_bound(r, unit);
        let loss = r % unit;
        assert(unit * s == s * unit) by (nonlinear_arith);
        if k == 24 {
            assert(m >= 0x80_0000);
            assert(loss % 0x4000 == 0);
            assert(loss <= unit - 0x4000);
        } else {
            if k > 25 {
                lemma_pow2_strictly_increases(25, k);
            }
            assert(pow2(25) == 0x200_0000);
        }
    }
    assert(-2 * unit <= s * unit - 32768 * m <= 2 * unit);
    assert((-s) * unit == -(s * unit)) by (nonlinear_arith);
}

} // verus!
