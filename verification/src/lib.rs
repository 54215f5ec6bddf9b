//! Verified core of the Wuthering Waves download manager: server tables,
//! path and URL handling, download planning, the MD5 cache and the decisions
//! taken by the launcher commands.

pub mod text;
pub mod config;
pub mod paths;
pub mod error;
pub mod json;
pub mod urls;
pub mod digest;
pub mod chunks;
pub mod cdn;
pub mod downloads;
pub mod launcher;
pub mod transfer;
pub mod checkout;
pub mod md5_cache;
pub mod progress;
pub mod commands;
