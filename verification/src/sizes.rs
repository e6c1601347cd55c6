//! Sizes that must fit, and what is said where they do not.
use crate::error::{message, mismatch, size_mismatch, ErrorView, InferError};
use crate::text::{list_text, show_sizes, sizes};
use vstd::prelude::*;
use vstd::string::*;

verus! {

/// The first error, if there is one; else the second.
pub open spec fn or_else(first: Option<ErrorView>, second: Option<ErrorView>) -> Option<ErrorView> {
    match first {
        Some(e) => Some(e),
        None => second,
    }
}

/// Whether an executable finding is the given one.
pub open spec fn is_finding(r: Result<(), InferError>, s: Option<ErrorView>) -> bool {
    match r {
        Ok(_) => s is None,
        Err(e) => s == Some(e@),
    }
}

/// The product of two sizes, or an error under the given name where it is too large.
pub open spec fn product_of(a: nat, b: nat, name: Seq<char>) -> Result<usize, ErrorView> {
    if a * b > usize::MAX {
        Err(message(name + " overflow"@))
    } else {
        Ok((a * b) as usize)
    }
}

/// The sum of two sizes, or an error under the given name where it is too large.
pub open spec fn sum_of(a: nat, b: nat, name: Seq<char>) -> Result<usize, ErrorView> {
    if a + b > usize::MAX {
        Err(message(name + " overflow"@))
    } else {
        Ok((a + b) as usize)
    }
}

/// Multiplies two sizes.
pub fn checked_mul(a: usize, b: usize, name: &str) -> (r: Result<usize, InferError>)
    ensures
        crate::error::infer_outcome(r, product_of(a as nat, b as nat, name@)),
{
    match a.checked_mul(b) {
        Some(n) => Ok(n),
        None => Err(InferError::Message(String::from_str(name).concat(" overflow"))),
    }
}

/// Adds two sizes.
pub fn checked_add(a: usize, b: usize, name: &str) -> (r: Result<usize, InferError>)
    ensures
        crate::error::infer_outcome(r, sum_of(a as nat, b as nat, name@)),
{
    match a.checked_add(b) {
        Some(n) => Ok(n),
        None => Err(InferError::Message(String::from_str(name).concat(" overflow"))),
    }
}

/// What is wrong with a length, if anything.
pub open spec fn len_error(name: Seq<char>, found: nat, expected: nat) -> Option<ErrorView> {
    if found != expected {
        Some(mismatch(name + " length"@, expected, found))
    } else {
        None
    }
}

/// Checks a length.
pub fn expect_len(name: &str, found: usize, expected: usize) -> (r: Result<(), InferError>)
    ensures
        is_finding(r, len_error(name@, found as nat, expected as nat)),
{
    if found != expected {
        let what = String::from_str(name).concat(" length");
        return Err(size_mismatch(what.as_str(), expected, found));
    }
    Ok(())
}

/// What is wrong with the length of a table, if anything.
pub open spec fn table_error(name: Seq<char>, found: nat, a: nat, b: nat) -> Option<ErrorView> {
    match product_of(a, b, name) {
        Err(e) => Some(e),
        Ok(n) => len_error(name, found, n as nat),
    }
}

/// Checks the length of a table.
pub fn expect_table(name: &str, found: usize, a: usize, b: usize) -> (r: Result<(), InferError>)
    ensures
        is_finding(r, table_error(name@, found as nat, a as nat, b as nat)),
{
    match checked_mul(a, b, name) {
        Err(e) => Err(e),
        Ok(n) => expect_len(name, found, n),
    }
}

/// What is wrong with dimensions, if anything.
pub open spec fn dims_error(
    name: Seq<char>,
    found: Seq<usize>,
    expected: Seq<usize>,
) -> Option<ErrorView> {
    if found != expected {
        Some(
            message(
                name + " dimensions mismatch: expected "@ + list_text(sizes(expected)) + ", got "@
                    + list_text(sizes(found)),
            ),
        )
    } else {
        None
    }
}

/// Whether two lists of sizes are the same.
pub fn same_sizes(a: &[usize], b: &[usize]) -> (r: bool)
    ensures
        r == (a@ == b@),
{
    if a.len() != b.len() {
        return false;
    }
    let mut i: usize = 0;
    while i < a.len()
        invariant
            i <= a@.len(),
            a@.len() == b@.len(),
            forall|k: int| 0 <= k < i ==> #[trigger] a@[k] == b@[k],
        decreases a@.len() - i,
    {
        if a[i] != b[i] {
            return false;
        }
        i = i + 1;
    }
    assert(a@ =~= b@);
    true
}

/// Checks dimensions.
pub fn expect_dims(name: &str, found: &[usize], expected: &[usize]) -> (r: Result<(), InferError>)
    ensures
        is_finding(r, dims_error(name@, found@, expected@)),
{
    if !same_sizes(found, expected) {
        let a = show_sizes(expected);
        let b = show_sizes(found);
        return Err(
            InferError::Message(
                String::from_str(name).concat(" dimensions mismatch: expected ").concat(
                    a.as_str(),
                ).concat(", got ").concat(b.as_str()),
            ),
        );
    }
    Ok(())
}

/// A list of one size.
pub open spec fn one_size(a: usize) -> Seq<usize> {
    seq![a]
}

/// A list of two sizes.
pub open spec fn two_sizes(a: usize, b: usize) -> Seq<usize> {
    seq![a, b]
}

/// Checks that there is one dimension of the given size.
pub fn expect_one(name: &str, found: &[usize], a: usize) -> (r: Result<(), InferError>)
    ensures
        is_finding(r, dims_error(name@, found@, one_size(a))),
{
    let mut v: Vec<usize> = Vec::new();
    v.push(a);
    assert(v@ =~= one_size(a));
    expect_dims(name, found, v.as_slice())
}

/// Checks that there are two dimensions of the given sizes.
pub fn expect_two(name: &str, found: &[usize], a: usize, b: usize) -> (r: Result<(), InferError>)
    ensures
        is_finding(r, dims_error(name@, found@, two_sizes(a, b))),
{
    let mut v: Vec<usize> = Vec::new();
    v.push(a);
    v.push(b);
    assert(v@ =~= two_sizes(a, b));
    expect_dims(name, found, v.as_slice())
}

} // verus!
