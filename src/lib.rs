//! Fan-fiction archive metadata: page extraction into works and series,
//! fandom canonicalisation, and planning of the delivery of downloaded files
//! to reader devices.

pub mod canon;
pub mod config;
pub mod delivery;
pub mod error;
pub mod fetch;
pub mod format;
pub mod names;
pub mod scrape;
pub mod series;
pub mod text;
pub mod work;
