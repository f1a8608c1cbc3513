//! A batch of the members of the guild has arrived.

use crate::events::{premium_among, Member};
use std::collections::HashSet;
use vstd::prelude::*;
use vstd::std_specs::hash::*;

verus! {

broadcast use vstd::std_specs::hash::group_hash_axioms;

/// Adds to `boosters` every member that is listed as boosting.
pub fn handle(boosters: &mut HashSet<u64>, members: &Vec<Member>)
    ensures
        final(boosters)@ == old(boosters)@.union(premium_among(members@)),
{
    let mut i: usize = 0;
    assert(boosters@ =~= old(boosters)@.union(premium_among(members@.take(0))));
    while i < members.len()
        invariant
            0 <= i <= members.len(),
            boosters@ == old(boosters)@.union(premium_among(members@.take(i as int))),
        decreases members.len() - i,
    {
        if members[i].premium {
            boosters.insert(members[i].user_id);
        }
        proof {
            let earlier = members@.take(i as int);
            let upto = members@.take(i + 1);
            assert forall|user_id: u64|
                premium_among(upto).contains(user_id) <==> (premium_among(earlier).contains(user_id)
                    || (members@[i as int].premium && members@[i as int].user_id
                    == user_id)) by {
                if premium_among(upto).contains(user_id) {
                    let k = choose|k: int|
                        0 <= k < upto.len() && (#[trigger] upto[k]).user_id == user_id
                            && upto[k].premium;
                    if k < i {
                        assert(earlier[k] == upto[k]);
                    }
                }
                if premium_among(earlier).contains(user_id) {
                    let k = choose|k: int|
                        0 <= k < earlier.len() && (#[trigger] earlier[k]).user_id == user_id
                            && earlier[k].premium;
                    assert(upto[k] == earlier[k]);
                }
                if members@[i as int].premium && members@[i as int].user_id == user_id {
                    assert(upto[i as int] == members@[i as int]);
                }
            }
            assert(boosters@ =~= old(boosters)@.union(premium_among(upto)));
        }
        i = i + 1;
    }
    assert(members@.take(i as int) =~= members@);
}

} // verus!
