//! Codex OAuth token management: which stored token to serve, when to refresh
//! it, and what to do with the token endpoint's answer.
//!
//! The library decides; it never talks to the network and never blocks. A
//! caller asks [`manager::CodexAuthManager`] for a token, performs the request
//! that the manager hands out, and feeds the answer back.

pub mod clock;
pub mod constants;
pub mod error;
pub mod guarantees;
pub mod laws;
pub mod manager;
pub mod model;
pub mod rules;
pub mod storage;
pub mod token_store;
pub mod tokens;
pub mod trace;
