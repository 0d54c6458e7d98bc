//! Batching and rate limiting of withdraw requests for a limit-order bot.
//!
//! A batch of withdraw attempts is debounced per deposit id against a
//! cool-down, and the attempts that pass are encoded into one contract call
//! for a remote executor.

pub mod abi;
pub mod admission;
pub mod contract;
pub mod encoder;
pub mod env;
pub mod error;
pub mod msg;
pub mod response;
pub mod state;
pub mod uint256;
