//! Who has taken part, and how often.
//!
//! Each actor keeps a list of the identities that used it, in the order of
//! their first use, and counts the uses of each.

use candid::{Nat, Principal};
use vstd::prelude::*;

use crate::assoc::AssocMap;
use crate::model::Model;
use crate::natural::{nat_add, nat_from_u64};
use crate::principal::listed;

verus! {

/// The list after `who` took part: unchanged if `who` is on it, else with
/// `who` at the end.
pub open spec fn noted(participants: Seq<Principal>, who: Principal) -> Seq<Principal> {
    if participants.contains(who) {
        participants
    } else {
        participants.push(who)
    }
}

/// The counts after `who` took part once more.
pub open spec fn counted(participation: Map<Principal, nat>, who: Principal) -> Map<
    Principal,
    nat,
> {
    if participation.contains_key(who) {
        participation.insert(who, participation[who] + 1)
    } else {
        participation.insert(who, 1)
    }
}

/// Records that `who` took part.
pub fn record_participation(
    participants: &mut Vec<Principal>,
    participation: &mut AssocMap<Principal, Nat>,
    who: Principal,
)
    ensures
        final(participants).model() == noted(old(participants).model(), who),
        final(participation).model() == counted(old(participation).model(), who),
{
    proof {
        assert(participants.model() =~= participants@);
    }
    if !listed(participants, &who) {
        participants.push(who);
    }
    proof {
        assert(participants.model() =~= participants@);
    }
    match participation.get_mut(&who) {
        Some(count) => {
            *count = nat_add(count.clone(), nat_from_u64(1));
        },
        None => {
            participation.insert(who, nat_from_u64(1));
        },
    }
}

/// Taking part puts an identity on the list, and a list that names nobody
/// twice stays so: whoever took part is on it exactly once.
pub proof fn lemma_noted_once(participants: Seq<Principal>, who: Principal)
    requires
        participants.no_duplicates(),
    ensures
        noted(participants, who).no_duplicates(),
        noted(participants, who).contains(who),
        forall|other: Principal|
            participants.contains(other) ==> #[trigger] noted(participants, who).contains(other),
{
    let after = noted(participants, who);
    if participants.contains(who) {
    } else {
        assert(after[participants.len() as int] == who);
        assert forall|i: int, j: int| 0 <= i < after.len() && 0 <= j < after.len() && i != j implies after[i]
            != after[j] by {
            if i < participants.len() && j < participants.len() {
                assert(participants[i] != participants[j]);
            } else if i < participants.len() {
                assert(participants[i] == after[i]);
                assert(participants.contains(after[i]));
            } else if j < participants.len() {
                assert(participants[j] == after[j]);
                assert(participants.contains(after[j]));
            }
        }
        assert forall|other: Principal| participants.contains(other) implies #[trigger] after.contains(
            other,
        ) by {
            let i = choose|i: int| 0 <= i < participants.len() && participants[i] == other;
            assert(after[i] == other);
        }
    }
}

} // verus!
