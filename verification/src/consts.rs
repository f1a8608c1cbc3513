//! Durations in seconds, and the names by which interactions are told apart.

use vstd::prelude::*;

pub mod colors;
pub mod interact;

verus! {

/// The period of the scan of grants where none is configured.
pub const HOUR_IN_SEC_STR: &'static str = "3600";

/// The period of the write-back of balances where none is configured.
pub const MINUTE_IN_SEC_STR: &'static str = "60";

pub const MINUTE_IN_SEC: u64 = 60;

pub const HOUR_IN_SEC: u64 = MINUTE_IN_SEC * 60;

pub const DAY_IN_SEC: u64 = HOUR_IN_SEC * 24;

/// The length of one renewal period: thirty days.
pub const MONTH_IN_SEC: u64 = DAY_IN_SEC * 30;

} // verus!
