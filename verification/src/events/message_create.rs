//! A message was sent.

use crate::checkin::{checked_in, is_new, CheckinNote};
use crate::config::ConfigInner;
use crate::events::{issued_at, timestamp};
use vstd::prelude::*;
use vstd::std_specs::hash::*;

verus! {

broadcast use vstd::std_specs::hash::group_hash_axioms;

/// Whether the message `message_id` of `user_id` in `channel_id` earns its
/// author a unit of energy: a message outside the award zones never does,
/// and leaves no trace; a message inside them is a check-in at the second
/// the message was sent, and earns the unit if that check-in is new.
pub fn handle(
    note: &mut CheckinNote,
    config: &ConfigInner,
    message_id: u64,
    user_id: u64,
    channel_id: u64,
) -> (award: bool)
    requires
        message_id != 0,
    ensures
        !config.zones@.contains(channel_id) ==> !award && final(note)@ == old(note)@,
        config.zones@.contains(channel_id) ==> award == is_new(
            old(note)@,
            user_id,
            issued_at(message_id),
            config.cooldown,
        ) && final(note)@ == checked_in(
            old(note)@,
            user_id,
            issued_at(message_id),
            config.cooldown,
        ),
{
    let sent = timestamp(message_id);
    if !config.zones.contains(&channel_id) {
        return false;
    }
    note.checkin(user_id, sent, config.cooldown)
}

} // verus!
