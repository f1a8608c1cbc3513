//! The guild has arrived, with its members and its roles.

use crate::events::member_chunk;
use crate::events::{premium_among, Member};
use crate::roles::{brought_in_line, GuildRole, UserCustomRole};
use std::collections::HashSet;
use vstd::prelude::*;
use vstd::std_specs::hash::*;

verus! {

broadcast use vstd::std_specs::hash::group_hash_axioms;

/// The boosters of a guild that has just arrived: the members it lists as
/// boosting, and nobody else.
pub fn boosters_of(members: &Vec<Member>) -> (boosters: HashSet<u64>)
    ensures
        boosters@ == premium_among(members@),
{
    let mut boosters: HashSet<u64> = HashSet::new();
    member_chunk::handle(&mut boosters, members);
    assert(boosters@ =~= premium_among(members@));
    boosters
}

/// Takes in a guild that has just arrived: the boosters are those of its
/// members that it lists as boosting, and the grants show what its roles
/// show.
pub fn handle(
    boosters: &mut HashSet<u64>,
    user_custom_roles: &mut UserCustomRole,
    members: &Vec<Member>,
    roles: &Vec<GuildRole>,
)
    requires
        old(user_custom_roles).wf(),
    ensures
        final(boosters)@ == premium_among(members@),
        final(user_custom_roles).wf(),
        brought_in_line(old(user_custom_roles)@, final(user_custom_roles)@, roles@),
{
    *boosters = boosters_of(members);
    user_custom_roles.sync_display(roles);
}

} // verus!
