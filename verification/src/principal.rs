//! Identities.
//!
//! Callers, owners and peer actors are `candid::Principal` values. The
//! protocol never looks inside one: it only asks whether two are the same.

use candid::Principal;
use vstd::prelude::*;

verus! {

/// `candid::Principal`, an identity on the network, taken as it is: nothing
/// is said of how it is laid out.
#[verifier::external_type_specification]
#[verifier::external_body]
pub struct ExPrincipal(candid::Principal);

/// `Principal == Principal`. The comparison is the derived one, over the
/// length and every byte of the identity, so two principals compare equal
/// exactly when they are the same value.
#[verifier::external_body]
pub(crate) fn principal_eq(a: &Principal, b: &Principal) -> (r: bool)
    ensures
        r == (*a == *b),
{
    a == b
}

/// `Principal::anonymous`: the identity of a caller who did not sign.
#[verifier::external_body]
pub(crate) fn anonymous() -> (r: Principal) {
    Principal::anonymous()
}

/// Whether `slot` holds exactly the identity `who`.
pub fn holds(slot: &Option<Principal>, who: &Principal) -> (r: bool)
    ensures
        r == (*slot == Some(*who)),
{
    match slot {
        Some(p) => principal_eq(p, who),
        None => false,
    }
}

/// Whether `who` occurs in `list`.
pub fn listed(list: &Vec<Principal>, who: &Principal) -> (r: bool)
    ensures
        r == list@.contains(*who),
{
    let mut i: usize = 0;
    while i < list.len()
        invariant
            i <= list@.len(),
            forall|j: int| 0 <= j < i ==> list@[j] != *who,
        decreases list@.len() - i,
    {
        if principal_eq(&list[i], who) {
            return true;
        }
        i += 1;
    }
    false
}

} // verus!
