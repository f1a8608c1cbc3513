//! What the events of the platform change in memory, one module for each
//! kind of event.
//!
//! A message in an award zone may earn its author one unit of energy. The
//! arrival of the guild and the changes of its members decide who boosts.
//! An interaction names the service that is to answer it.

use twilight_model::id::{marker::GenericMarker, Id};
use twilight_util::snowflake::Snowflake;
use vstd::prelude::*;

pub mod guild_create;
pub mod interaction_create;
pub mod member_chunk;
pub mod member_update;
pub mod message_create;

verus! {

/// The millisecond at which the platform counts its ids from: the first of
/// the year 2015.
pub const DISCORD_EPOCH: u64 = 1_420_070_400_000;

/// The millisecond at which an id was issued, which the id carries above its
/// lowest 22 bits.
pub open spec fn issued_at_millis(id: u64) -> int {
    (id >> 22) + DISCORD_EPOCH
}

/// The second at which an id was issued.
pub open spec fn issued_at(id: u64) -> u64 {
    (issued_at_millis(id) / 1000) as u64
}

/// `Snowflake::timestamp`: the millisecond at which an id was issued.
#[verifier::external_body]
fn snowflake_timestamp(id: u64) -> (millis: i64)
    requires
        id != 0,
    ensures
        millis == issued_at_millis(id),
{
    Id::<GenericMarker>::new(id).timestamp()
}

/// The second at which `id` was issued.
pub fn timestamp(id: u64) -> (seconds: u64)
    requires
        id != 0,
    ensures
        seconds == issued_at(id),
{
    let millis = snowflake_timestamp(id);
    assert(0 <= issued_at_millis(id)) by {
        assert(id >> 22 >= 0);
    }
    (millis as u64) / 1000
}

/// A member of the guild, as far as boosting goes.
#[derive(Debug, Clone, Copy)]
pub struct Member {
    pub user_id: u64,
    /// The member boosts the guild.
    pub premium: bool,
}

/// The users that `members` list as boosting.
pub open spec fn premium_among(members: Seq<Member>) -> Set<u64> {
    Set::new(
        |user_id: u64|
            exists|i: int|
                0 <= i < members.len() && (#[trigger] members[i]).user_id == user_id
                    && members[i].premium,
    )
}

} // verus!
