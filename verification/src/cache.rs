//! Everything the bot keeps in memory between events.

use crate::energy::{EnergyBalance, EnergyData};
use crate::roles::{directory_of, CustomRole, UserCustomRole};
use std::collections::HashSet;
use vstd::prelude::*;
use vstd::std_specs::hash::*;

verus! {

broadcast use vstd::std_specs::hash::group_hash_axioms;

/// The number of energy balances kept in memory at most.
pub const ENERGY_CAPACITY: usize = 50;

/// The energy cache, the directory of grants, and the boosters.
#[derive(Debug)]
pub struct Cache {
    pub energy_balance: EnergyBalance,
    pub user_custom_roles: UserCustomRole,
    /// The users whose grants do not lapse for as long as they are listed.
    pub boosters: HashSet<u64>,
}

impl Cache {
    /// The memory of a bot that starts up: no balance is resident, the
    /// directory holds the grants loaded from the store, and nobody is known
    /// to boost.
    pub fn new(roles: Vec<CustomRole>) -> (cache: Cache)
        ensures
            cache.energy_balance.wf(),
            cache.energy_balance@ == Seq::<EnergyData>::empty(),
            cache.energy_balance.cap() == ENERGY_CAPACITY,
            cache.user_custom_roles.wf(),
            cache.user_custom_roles@ == directory_of(roles@),
            cache.boosters@ == Set::<u64>::empty(),
    {
        Cache {
            energy_balance: EnergyBalance::new(ENERGY_CAPACITY),
            user_custom_roles: UserCustomRole::new(roles),
            boosters: HashSet::new(),
        }
    }
}

} // verus!
