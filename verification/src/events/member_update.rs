//! A member of the guild has changed.

use crate::events::Member;
use std::collections::HashSet;
use vstd::prelude::*;
use vstd::std_specs::hash::*;

verus! {

broadcast use vstd::std_specs::hash::group_hash_axioms;

/// Takes note of a member that has changed: it is among the boosters from
/// now on if and only if it boosts.
pub fn handle(boosters: &mut HashSet<u64>, member: Member)
    ensures
        final(boosters)@ == if member.premium {
            old(boosters)@.insert(member.user_id)
        } else {
            old(boosters)@.remove(member.user_id)
        },
{
    if member.premium {
        boosters.insert(member.user_id);
    } else {
        boosters.remove(&member.user_id);
    }
}

} // verus!
