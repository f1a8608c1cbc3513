//! Energy economy and custom-role bookkeeping for a chat-platform bot.
//!
//! The crate holds the in-memory state of the bot and the decisions taken on
//! it: a bounded write-back cache of energy balances, the directory of
//! custom-role grants, the record of check-ins, and the steps of the background
//! reconciler. Everything that talks to the database or to the platform is
//! left to the caller, which hands in what it read and carries out what the
//! functions here ask for.

pub mod background;
pub mod cache;
pub mod checkin;
pub mod config;
pub mod consts;
pub mod energy;
pub mod events;
pub mod ledger;
pub mod recency;
pub mod roles;
pub mod serving;
pub mod store;
pub mod text;
pub mod words;
