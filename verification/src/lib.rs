//! Consistency layer of a live election service: cached records, token
//! resolution, the single-vote ledger and the fan-out of vote events.

pub mod model;
pub mod table;
pub mod tally;
pub mod cache;
pub mod ledger;
pub mod resolver;
pub mod token;
pub mod hub;
pub mod listener;
pub mod access;
pub mod laws;
