//! Whole numbers and their quotients as single precision holds them.
use crate::arith::{nearest_even, nearest_even_is_near, nearest_even_of_multiple};
use vstd::arithmetic::power2::{
    lemma2_to64, lemma2_to64_rest, lemma_pow2_strictly_increases, lemma_pow2_unfold, pow2,
};
use vstd::prelude::*;

verus! {

/// How far apart the single-precision numbers around a whole number lie.
pub open spec fn spacing(n: nat) -> nat
    decreases n,
{
    if n < 0x100_0000 {
        1
    } else {
        2 * spacing(n / 2)
    }
}

/// The single-precision number nearest to a whole number.
pub open spec fn single_nat(n: nat) -> nat {
    nearest_even(n, spacing(n)) * spacing(n)
}

/// The single-precision number nearest to a whole number of either sign.
pub open spec fn single_int(n: int) -> int {
    if n < 0 {
        -(single_nat((-n) as nat) as int)
    } else {
        single_nat(n as nat) as int
    }
}

proof fn lemma_spacing(n: nat)
    ensures
        spacing(n) >= 1,
        n < 0x100_0000 || spacing(n) * 0x80_0000 <= n,
    decreases n,
{
    if n >= 0x100_0000 {
        lemma_spacing(n / 2);
        if n / 2 < 0x100_0000 {
            assert(spacing(n / 2) == 1);
        }
    }
}

/// Single-precision numbers lie close to each other, as seen from where they are.
pub proof fn spacing_is_small(n: nat)
    ensures
        spacing(n) >= 1,
        n < 0x100_0000 ==> spacing(n) == 1,
        n < 0x100_0000 || spacing(n) * 0x80_0000 <= n,
{
    lemma_spacing(n);
}

/// Between two powers of two, single-precision numbers are equally far apart.
pub proof fn spacing_of_binade(n: nat, j: nat)
    requires
        pow2(23 + j) <= n < pow2(24 + j),
    ensures
        spacing(n) == pow2(j),
    decreases j,
{
    lemma2_to64();
    if j > 0 {
        lemma_pow2_unfold(23 + j);
        lemma_pow2_unfold(24 + j);
        lemma_pow2_unfold(j);
        if j > 1 {
            lemma_pow2_strictly_increases(24, 23 + j);
        }
        spacing_of_binade(n / 2, (j - 1) as nat);
    }
}

/// A whole number below the twenty-fourth power of two is held as it is.
pub proof fn small_numbers_are_held(n: int)
    requires
        -0x100_0000 < n < 0x100_0000,
    ensures
        single_int(n) == n,
{
    let m = if n < 0 {
        (-n) as nat
    } else {
        n as nat
    };
    assert(spacing(m) == 1);
    nearest_even_of_multiple(m, 1);
    assert(nearest_even(m, 1) == m);
}

proof fn lemma_single_near(n: nat)
    ensures
        single_nat(n) <= n + spacing(n),
        spacing(n) <= n + 1,
{
    lemma_spacing(n);
    nearest_even_is_near(n, spacing(n));
    let b = spacing(n);
    let q = nearest_even(n, b);
    assert(q * b <= n + b) by (nonlinear_arith)
        requires
            2 * (q * b) <= 2 * n + b,
            b >= 0,
    ;
}

/// How many units make one where quotients are counted in units: two to the 49.
pub const ONE: u128 = 0x2_0000_0000_0000;

/// The single-precision number nearest to a quotient of whole numbers, in units. Quotients below
/// half of the last place of one are rounded to a unit, which makes no difference where one is added
/// to them.
pub open spec fn single_quotient(p: nat, q: nat) -> nat {
    let top = p * ONE as nat;
    let gap = spacing(top / q);
    nearest_even(top, q * gap) * gap
}

proof fn lemma_shifted_is_held(c: nat, a: nat) -> (t: nat)
    requires
        c < 0x100_0000,
    ensures
        c * pow2(a) == t * spacing(c * pow2(a)),
    decreases a,
{
    let n = c * pow2(a);
    if n < 0x100_0000 {
        assert(n * 1 == n);
        n
    } else if a == 0 {
        lemma2_to64();
        assert(c * 1 == c);
        c
    } else {
        lemma_pow2_unfold(a);
        let b = (a - 1) as nat;
        assert(n == 2 * (c * pow2(b))) by (nonlinear_arith)
            requires
                n == c * (2 * pow2(b)),
        ;
        let t = lemma_shifted_is_held(c, b);
        let g = spacing(n / 2);
        assert(n == t * (2 * g)) by (nonlinear_arith)
            requires
                n == 2 * (t * g),
        ;
        t
    }
}

proof fn lemma_whole_is_held(c: nat)
    requires
        c < 0x100_0000,
    ensures
        single_nat(c * ONE as nat) == c * ONE as nat,
        exists|t: nat| c * ONE as nat == #[trigger] (t * spacing(c * ONE as nat)),
{
    lemma2_to64_rest();
    let t = lemma_shifted_is_held(c, 49);
    lemma_spacing(c * ONE as nat);
    nearest_even_of_multiple(t, spacing(c * ONE as nat));
}

proof fn lemma_whole_quotient(c: nat, q: nat)
    requires
        c < 0x100_0000,
        q > 0,
    ensures
        single_quotient(c * q, q) == c * ONE as nat,
{
    let whole = c * ONE as nat;
    let top = (c * q) * ONE as nat;
    lemma_whole_is_held(c);
    assert(top == whole * q) by (nonlinear_arith)
        requires
            top == (c * q) * ONE as nat,
            whole == c * ONE as nat,
    ;
    vstd::arithmetic::div_mod::lemma_div_by_multiple(whole as int, q as int);
    let gap = spacing(whole);
    lemma_spacing(whole);
    let t = choose|t: nat| whole == #[trigger] (t * gap);
    assert(top == t * (q * gap)) by (nonlinear_arith)
        requires
            top == whole * q,
            whole == t * gap,
    ;
    assert(q * gap > 0) by (nonlinear_arith)
        requires
            q > 0,
            gap > 0,
    ;
    nearest_even_of_multiple(t, q * gap);
}

/// A quotient of whole numbers that leaves no rest is exact in single precision, with one added to
/// it too.
pub proof fn whole_quotients_are_exact(c: nat, q: nat)
    requires
        c + 1 < 0x100_0000,
        q > 0,
    ensures
        single_nat(single_quotient(c * q, q) + ONE as nat) == (c + 1) * ONE as nat,
{
    lemma_whole_quotient(c, q);
    lemma_whole_is_held(c + 1);
    assert((c + 1) * ONE as nat == c * ONE as nat + ONE as nat) by (nonlinear_arith);
}

proof fn lemma_quotient_near(p: nat, q: nat)
    requires
        0 < p,
        0 < q,
        p + q < 0x40_0000,
    ensures
        ({
            let y = single_nat(single_quotient(p, q) + ONE as nat);
            let exact = (p + q) * ONE as nat;
            2 * exact <= 2 * (y * q) + ONE && 2 * (y * q) <= 2 * exact + ONE
        }),
{
    let one = ONE as nat;
    let top = p * one;
    let w = top / q;
    let gap = spacing(w);
    lemma_spacing(w);
    vstd::arithmetic::div_mod::lemma_fundamental_div_mod(top as int, q as int);
    vstd::arithmetic::div_mod::lemma_mod_bound(top as int, q as int);
    let wide = q * gap;
    assert(0 < wide <= 0x1_0000_0000_0000) by {
        if w < 0x100_0000 {
            assert(q * 1 == q);
        } else {
            assert(wide * 0x80_0000 <= q * w) by (nonlinear_arith)
                requires
                    wide == q * gap,
                    gap * 0x80_0000 <= w,
            ;
            assert(wide > 0) by (nonlinear_arith)
                requires
                    wide == q * gap,
                    q > 0,
                    gap > 0,
            ;
        }
    }
    let n = nearest_even(top, wide);
    nearest_even_is_near(top, wide);
    let x = n * gap;
    assert(n * wide == x * q) by (nonlinear_arith)
        requires
            wide == q * gap,
            x == n * gap,
    ;
    let z = x + one;
    let step = spacing(z);
    lemma_spacing(z);
    let m = nearest_even(z, step);
    nearest_even_is_near(z, step);
    let y = m * step;
    assert(z * q == x * q + one * q) by (nonlinear_arith)
        requires
            z == x + one,
    ;
    assert(q * step * 0x80_0000 <= z * q) by (nonlinear_arith)
        requires
            step * 0x80_0000 <= z,
    ;
    let far = q * step;
    assert(2 * (y * q) <= 2 * (z * q) + far && 2 * (z * q) <= 2 * (y * q) + far)
        by (nonlinear_arith)
        requires
            2 * y <= 2 * z + step,
            2 * z <= 2 * y + step,
            far == q * step,
    ;
    assert((p + q) * one == top + one * q) by (nonlinear_arith)
        requires
            top == p * one,
    ;
}

/// The quotient of small whole numbers, with one added to it, rounds up to the same whole number in
/// single precision as it does exactly.
pub proof fn quotients_round_up(p: nat, q: nat)
    requires
        0 < p,
        0 < q,
        p + q < 0x40_0000,
    ensures
        (single_nat(single_quotient(p, q) + ONE as nat) + ONE - 1) / (ONE as int) == (p + q + q - 1)
            / (q as int),
{
    let one = ONE as int;
    let f = (p + q) as int;
    let y = single_nat(single_quotient(p, q) + ONE as nat) as int;
    let up = (y + one - 1) / one;
    vstd::arithmetic::div_mod::lemma_fundamental_div_mod(y + one - 1, one);
    vstd::arithmetic::div_mod::lemma_mod_bound(y + one - 1, one);
    vstd::arithmetic::div_mod::lemma_fundamental_div_mod(p as int, q as int);
    vstd::arithmetic::div_mod::lemma_mod_bound(p as int, q as int);
    let c = p / q;
    assert(c <= p) by {
        vstd::arithmetic::div_mod::lemma_div_is_ordered_by_denominator(p as int, 1, q as int);
    }
    assert(q * c == c * q) by (nonlinear_arith);
    assert((c + 1) * q == c * q + q) by (nonlinear_arith);
    if p % q == 0 {
        whole_quotients_are_exact(c, q);
        assert(y == (c + 1) * one);
        assert(up == c + 1) by {
            vstd::arithmetic::div_mod::lemma_fundamental_div_mod_converse(
                y + one - 1,
                one,
                c as int + 1,
                one - 1,
            );
        }
        vstd::arithmetic::div_mod::lemma_fundamental_div_mod_converse(
            f + q - 1,
            q as int,
            c as int + 1,
            q - 1,
        );
    } else {
        lemma_quotient_near(p, q);
        assert(f <= up * q) by (nonlinear_arith)
            requires
                2 * (f * one) <= 2 * (y * q as int) + one,
                y <= one * up,
                q > 0,
                one > 0,
        ;
        assert((up - 1) * q <= f) by (nonlinear_arith)
            requires
                2 * (y * q as int) <= 2 * (f * one) + one,
                one * up < y + one,
                q > 0,
                one > 0,
        ;
        assert((up - 1) * q != f) by {
            if (up - 1) * q == f {
                assert((up - 2) * q == p) by (nonlinear_arith)
                    requires
                        (up - 1) * q == p + q,
                ;
                vstd::arithmetic::div_mod::lemma_mod_multiples_basic(up - 2, q as int);
            }
        }
        assert((up - 1) * q == up * q - q) by (nonlinear_arith);
        vstd::arithmetic::div_mod::lemma_fundamental_div_mod_converse(
            f + q - 1,
            q as int,
            up,
            f + q - 1 - up * q,
        );
    }
}

/// How far apart the single-precision numbers around a whole number lie.
fn gap_around(n: u128) -> (r: u128)
    requires
        n < 0x100_0000_0000_0000_0000_0000_0000_0000,
    ensures
        r == spacing(n as nat),
        1 <= r <= n + 1,
        r == 1 || r <= n,
{
    let mut gap: u128 = 1;
    let mut m: u128 = n;
    while m >= 0x100_0000
        invariant
            spacing(n as nat) == gap * spacing(m as nat),
            m <= n,
            gap >= 1,
            gap * m <= n,
            n < 0x100_0000_0000_0000_0000_0000_0000_0000,
        decreases m,
    {
        assert(gap * (m / 2) * 2 <= gap * m) by (nonlinear_arith)
            requires
                gap >= 1,
        ;
        assert((2 * gap) * spacing((m / 2) as nat) == gap * (2 * spacing((m / 2) as nat)))
            by (nonlinear_arith);
        assert(gap <= gap * m) by (nonlinear_arith)
            requires
                m >= 1,
                gap >= 1,
        ;
        assert((2 * gap) * (m / 2) == gap * (m / 2) * 2) by (nonlinear_arith);
        gap = 2 * gap;
        m = m / 2;
    }
    assert(spacing(m as nat) == 1);
    assert(gap * spacing(m as nat) == gap) by (nonlinear_arith)
        requires
            spacing(m as nat) == 1,
    ;
    proof {
        lemma_spacing(n as nat);
    }
    gap
}

fn round_to(n: u128, gap: u128) -> (r: u128)
    requires
        gap >= 1,
        n < 0x100_0000_0000_0000_0000_0000_0000_0000,
        gap < 0x100_0000_0000_0000_0000_0000_0000_0000,
    ensures
        r == nearest_even(n as nat, gap as nat),
        r * gap <= n + gap,
        r <= n + 1,
{
    let q: u128 = n / gap;
    let rest: u128 = n % gap;
    proof {
        vstd::arithmetic::div_mod::lemma_div_is_ordered_by_denominator(n as int, 1, gap as int);
        vstd::arithmetic::div_mod::lemma_mod_bound(n as int, gap as int);
        nearest_even_is_near(n as nat, gap as nat);
    }
    if 2 * rest > gap || (2 * rest == gap && q % 2 == 1) {
        q + 1
    } else {
        q
    }
}

/// The single-precision number nearest to a whole number.
pub fn round_nat(n: u128) -> (r: u128)
    requires
        n < 0x100_0000_0000_0000_0000_0000_0000_0000,
    ensures
        r == single_nat(n as nat),
        r <= 2 * n + 1,
{
    let gap: u128 = gap_around(n);
    round_to(n, gap) * gap
}

/// The single-precision number nearest to a quotient of whole numbers, in units.
pub fn round_quotient(p: u128, q: u128) -> (r: u128)
    requires
        p < 0x20_0000_0000_0000_0000,
        1 <= q < 0x20_0000_0000_0000_0000,
    ensures
        r == single_quotient(p as nat, q as nat),
        r < 0xc0_0000_0000_0000_0000_0000_0000_0000,
{
    assert(p * ONE <= 0x20_0000_0000_0000_0000 * 0x2_0000_0000_0000) by (nonlinear_arith)
        requires
            p <= 0x20_0000_0000_0000_0000,
            ONE == 0x2_0000_0000_0000,
    ;
    let top: u128 = p * ONE;
    let whole: u128 = top / q;
    proof {
        vstd::arithmetic::div_mod::lemma_div_is_ordered_by_denominator(top as int, 1, q as int);
        vstd::arithmetic::div_mod::lemma_fundamental_div_mod(top as int, q as int);
        vstd::arithmetic::div_mod::lemma_mod_bound(top as int, q as int);
    }
    let gap: u128 = gap_around(whole);
    assert(q * gap <= q + top) by (nonlinear_arith)
        requires
            gap == 1 || gap <= whole,
            q * whole <= top,
            q >= 1,
    ;
    assert(q * gap >= gap && q * gap >= 1) by (nonlinear_arith)
        requires
            q >= 1,
            gap >= 1,
    ;
    let near: u128 = round_to(top, q * gap);
    assert(near * gap <= near * (q * gap)) by (nonlinear_arith)
        requires
            gap <= q * gap,
    ;
    near * gap
}

/// The single-precision number nearest to a whole number of either sign.
pub fn round_int(n: i128) -> (r: i128)
    requires
        -0x1_0000_0000_0000_0000_0000 < n < 0x1_0000_0000_0000_0000_0000,
    ensures
        r == single_int(n as int),
        n >= 0 ==> 0 <= r <= 2 * n + 1,
        n < 0 ==> 2 * n - 1 <= r <= 0,
{
    if n < 0 {
        -(round_nat((-n) as u128) as i128)
    } else {
        round_nat(n as u128) as i128
    }
}

} // verus!
