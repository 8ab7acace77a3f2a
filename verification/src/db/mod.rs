//! What the storage layer needs from the library: the statistics periods
//! and the query each period selects.

pub mod stats;
