//! The answers to queries.

use crate::msg::GetJobIdResponse;
use crate::state::Context;
use vstd::prelude::*;

verus! {

/// The routing token of the contract.
pub fn get_job_id(deps: &Context) -> (r: GetJobIdResponse)
    ensures
        r.job_id@ == deps@.job_id,
{
    GetJobIdResponse { job_id: deps.state.job_id.clone() }
}

} // verus!
