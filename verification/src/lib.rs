//! News and prediction-market ingestion: RSS feed parsing, the feed
//! registry, Polymarket event normalisation, and the decisions of the
//! ingestion loops and of the command-line interface.

pub mod cli;
pub mod db;
pub mod ingest;
pub mod polymarket;
pub mod rss;
pub mod text;
pub mod time;
pub mod xml;
