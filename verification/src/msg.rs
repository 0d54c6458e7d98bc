//! The messages that the contract takes and sends.

use crate::uint256::Uint256;
use vstd::prelude::*;

verus! {

/// The message that sets the contract up.
#[derive(Clone, Debug, PartialEq, Eq)]
pub struct InstantiateMsg {
    /// The least number of seconds between two accepted attempts on one
    /// deposit.
    pub retry_delay: u64,
    /// The routing token that every outbound instruction carries.
    pub job_id: String,
}

/// One withdraw attempt with a least amount and a withdraw type.
#[derive(Clone, Copy, Debug, PartialEq, Eq)]
pub struct Deposit {
    /// The deposit to withdraw.
    pub deposit_id: u32,
    /// The least amount of the first token to take out.
    pub min_amount0: Uint256,
    /// The code of the kind of withdrawal.
    pub withdraw_type: u32,
}

/// A batch of withdraw attempts, in one of three shapes.
#[derive(Clone, Debug, PartialEq, Eq)]
pub enum ExecuteMsg {
    /// Attempts that name a deposit and nothing else.
    PutWithdrawIds { deposit_ids: Vec<u32> },
    /// Attempts that name a deposit, a least amount and a withdraw type.
    PutWithdraw { deposits: Vec<Deposit> },
    /// Attempts that name a deposit and say whether they take profit or stop
    /// a loss: the two lists run in parallel.
    PutWithdrawFlagged { deposit_ids: Vec<u32>, profit_taking_or_stop_loss: Vec<bool> },
}

/// The questions that the contract answers.
#[derive(Clone, Copy, Debug, PartialEq, Eq)]
pub enum QueryMsg {
    /// Asks for the routing token.
    GetJobId {  },
}

/// The answer to `QueryMsg::GetJobId`.
#[derive(Clone, Debug, PartialEq, Eq)]
pub struct GetJobIdResponse {
    /// The routing token.
    pub job_id: String,
}

/// An instruction for the remote executor.
#[derive(Clone, Debug, PartialEq, Eq)]
pub struct PalomaMsg {
    /// The routing token of the job that runs the call.
    pub job_id: String,
    /// The bytes of the call.
    pub payload: Vec<u8>,
}

/// What a `PalomaMsg` holds.
pub struct PalomaMsgView {
    pub job_id: Seq<char>,
    pub payload: Seq<u8>,
}

impl View for PalomaMsg {
    type V = PalomaMsgView;

    open spec fn view(&self) -> PalomaMsgView {
        PalomaMsgView { job_id: self.job_id@, payload: self.payload@ }
    }
}

/// The deposit ids of a sequence of attempts, in order.
pub open spec fn deposit_ids(deposits: Seq<Deposit>) -> Seq<u32> {
    Seq::new(deposits.len(), |i: int| deposits[i].deposit_id)
}

} // verus!
