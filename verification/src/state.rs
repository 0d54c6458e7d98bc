//! What the contract keeps between calls.

use crate::env::Timestamp;
use std::collections::HashMap;
use vstd::prelude::*;

verus! {

/// The configuration that is fixed when the contract is set up.
#[derive(Clone, Debug, PartialEq, Eq)]
pub struct State {
    /// The routing token that every outbound instruction carries.
    pub job_id: String,
    /// The address that set the contract up.
    pub owner: String,
}

/// The whole of what the contract keeps: its configuration, the retry delay
/// and, for each deposit, when a withdraw attempt on it was last accepted.
#[derive(Clone, Debug, PartialEq, Eq)]
pub struct Context {
    /// The configuration.
    pub state: State,
    /// The least number of seconds between two accepted attempts on one
    /// deposit.
    pub retry_delay: u64,
    /// The time of the last accepted attempt, by deposit id.
    pub withdraw_timestamp: HashMap<u32, Timestamp>,
}

/// What a `Context` holds.
pub struct ContextView {
    pub job_id: Seq<char>,
    pub owner: Seq<char>,
    pub retry_delay: u64,
    pub withdraw_timestamp: Map<u32, Timestamp>,
}

impl View for Context {
    type V = ContextView;

    open spec fn view(&self) -> ContextView {
        ContextView {
            job_id: self.state.job_id@,
            owner: self.state.owner@,
            retry_delay: self.retry_delay,
            withdraw_timestamp: self.withdraw_timestamp@,
        }
    }
}

} // verus!
