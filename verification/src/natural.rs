//! Arbitrary-precision amounts.
//!
//! Every amount, identifier and timestamp of the protocol is a `candid::Nat`.
//! The verifier cannot look inside one, so this module names the number a
//! `Nat` stands for and states, for each operation the protocol uses, what the
//! operation does to that number.

use candid::Nat;
use vstd::prelude::*;

verus! {

/// `candid::Nat`, a natural number of any size, taken as it is: nothing is
/// said of how it is laid out.
#[verifier::external_type_specification]
#[verifier::external_body]
pub struct ExNat(candid::Nat);

/// The natural number that a `Nat` holds.
pub uninterp spec fn val(n: &Nat) -> nat;

/// `Nat::from(u64)`: the result holds the given number.
#[verifier::external_body]
pub(crate) fn nat_from_u64(v: u64) -> (r: Nat)
    ensures
        val(&r) == v,
{
    Nat::from(v)
}

/// `Nat::clone`: the copy holds the same number.
pub assume_specification[ <candid::Nat as Clone>::clone ](a: &candid::Nat) -> (r: candid::Nat)
    ensures
        val(&r) == val(a),
;

/// `Nat + Nat`: addition without bound.
#[verifier::external_body]
pub(crate) fn nat_add(a: Nat, b: Nat) -> (r: Nat)
    ensures
        val(&r) == val(&a) + val(&b),
{
    a + b
}

/// `Nat - Nat`. The subtraction panics when the right operand is the larger,
/// so callers must rule that out.
#[verifier::external_body]
pub(crate) fn nat_sub(a: Nat, b: Nat) -> (r: Nat)
    requires
        val(&a) >= val(&b),
    ensures
        val(&r) == val(&a) - val(&b),
{
    a - b
}

/// `Nat * Nat`: multiplication without bound.
#[verifier::external_body]
pub(crate) fn nat_mul(a: Nat, b: Nat) -> (r: Nat)
    ensures
        val(&r) == val(&a) * val(&b),
{
    a * b
}

/// `Nat / Nat`: the quotient rounded down. The division panics on a zero
/// divisor, so callers must rule that out.
#[verifier::external_body]
pub(crate) fn nat_div(a: Nat, b: Nat) -> (r: Nat)
    requires
        val(&b) > 0,
    ensures
        val(&r) == val(&a) / val(&b),
{
    a / b
}

/// `Nat == Nat`: whether both hold the same number.
#[verifier::external_body]
pub(crate) fn nat_eq(a: &Nat, b: &Nat) -> (r: bool)
    ensures
        r == (val(a) == val(b)),
{
    a == b
}

/// `Nat < Nat`: the order of the numbers held.
#[verifier::external_body]
pub(crate) fn nat_lt(a: &Nat, b: &Nat) -> (r: bool)
    ensures
        r == (val(a) < val(b)),
{
    a < b
}

} // verus!
