//! Polymarket event ingestion: the JSON the API returns, the normalised
//! event records, and the decisions of the paging and retry loops.

pub mod events;
pub mod json;
pub mod sync;
