//! Position sizing support: trade-quality tiers, exchange account setup, and
//! the search for how long price took to travel a stop-loss distance.

pub mod average;
pub mod exchange;
pub mod input;
pub mod quality;
pub mod search;
pub mod timestamp;
