//! A brute-force digest-prefix miner.
//!
//! Given a hexadecimal pattern, the miner enumerates the non-negative
//! integers in increasing order, renders each as its canonical decimal
//! string, hashes that string with SHA-256, and returns the first
//! candidate whose digest starts with the pattern's bytes.

pub mod decimal;
pub mod digest;
pub mod hexcodec;
pub mod miner;
pub mod pattern;
pub mod protocol;

pub use miner::{mine, MinedMatch, SearchError, MAX_INPUT_LENGTH};
pub use pattern::validate_hex_pattern;
pub use protocol::HashingProtocol;
