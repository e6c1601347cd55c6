//! Rows and columns in flat storage.
use vstd::arithmetic::div_mod::{
    lemma_fundamental_div_mod, lemma_fundamental_div_mod_converse, lemma_mod_bound,
};
use vstd::prelude::*;

verus! {

/// The cell in row `i` and column `j` of rows with `m` columns lies inside `n` rows, and its place
/// tells row and column.
pub proof fn lemma_cell(i: int, n: int, j: int, m: int)
    requires
        0 <= i < n,
        0 <= j < m,
    ensures
        0 <= i * m + j < n * m,
        (i * m + j) / m == i,
        (i * m + j) % m == j,
{
    assert(i * m + m <= n * m) by (nonlinear_arith)
        requires
            i + 1 <= n,
            m > 0,
    ;
    assert(0 <= i * m) by (nonlinear_arith)
        requires
            0 <= i,
            m > 0,
    ;
    assert(i * m + j == i * m + j);
    lemma_fundamental_div_mod_converse(i * m + j, m, i, j);
}

/// Every place in `n` rows with `m` columns is that of its row and column.
pub proof fn lemma_place(k: int, n: int, m: int)
    requires
        0 <= k < n * m,
        m > 0,
    ensures
        0 <= k / m < n,
        0 <= k % m < m,
        (k / m) * m + k % m == k,
{
    lemma_fundamental_div_mod(k, m);
    lemma_mod_bound(k, m);
    let q = k / m;
    assert(m * q == q * m) by (nonlinear_arith);
    assert(q >= 0) by {
        vstd::arithmetic::div_mod::lemma_div_pos_is_pos(k, m);
    }
    assert(q < n) by (nonlinear_arith)
        requires
            q * m + k % m == k,
            0 <= k % m,
            k < n * m,
            m > 0,
    ;
}

/// Fewer rows take no more places.
pub proof fn lemma_rows_monotone(a: int, b: int, m: int)
    requires
        0 <= a <= b,
        0 <= m,
    ensures
        0 <= a * m <= b * m,
{
    assert(0 <= a * m <= b * m) by (nonlinear_arith)
        requires
            0 <= a <= b,
            0 <= m,
    ;
}

/// Fewer rows, counted from any number, take no more places.
pub proof fn lemma_rows_monotone_any(a: int, b: int, m: int)
    requires
        a <= b,
        0 <= m,
    ensures
        a * m <= b * m,
{
    assert(a * m <= b * m) by (nonlinear_arith)
        requires
            a <= b,
            0 <= m,
    ;
}

/// One row more takes the columns of one row more.
pub proof fn lemma_next_row(i: int, m: int)
    ensures
        (i + 1) * m == i * m + m,
{
    assert((i + 1) * m == i * m + m) by (nonlinear_arith);
}

/// The whole number nearest to `a / b`; the even one of two that are equally near.
pub open spec fn nearest_even(a: nat, b: nat) -> nat {
    let q = a / b;
    let rest = a % b;
    if 2 * rest > b || (2 * rest == b && q % 2 == 1) {
        q + 1
    } else {
        q
    }
}

/// Rounding to the nearest whole number is off by at most a half.
pub proof fn nearest_even_is_near(a: nat, b: nat)
    requires
        b > 0,
    ensures
        2 * (nearest_even(a, b) * b) <= 2 * a + b,
        2 * a <= 2 * (nearest_even(a, b) * b) + b,
{
    lemma_fundamental_div_mod(a as int, b as int);
    lemma_mod_bound(a as int, b as int);
    let q = (a / b) as int;
    assert((q + 1) * b as int == q * b as int + b as int) by (nonlinear_arith);
    assert(b as int * q == q * b as int) by (nonlinear_arith);
}

/// Multiples need no rounding.
pub proof fn nearest_even_of_multiple(q: nat, b: nat)
    requires
        b > 0,
    ensures
        nearest_even(q * b, b) == q,
{
    assert(q * b + 0 == q * b);
    lemma_fundamental_div_mod_converse((q * b) as int, b as int, q as int, 0);
}

} // verus!
