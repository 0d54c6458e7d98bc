//! The entry points of the contract: setting it up, submitting a batch of
//! withdraw attempts, and asking for the routing token.

use crate::encoder::{batch_fits, is_batch_fitting};
use crate::env::{Env, MessageInfo};
use crate::error::ContractError;
use crate::msg::{ExecuteMsg, GetJobIdResponse, InstantiateMsg, QueryMsg};
use crate::response::{Response, ResponseView};
use crate::state::{Context, ContextView, State};
use std::collections::HashMap;
use vstd::prelude::*;

pub mod execute;
pub mod query;

verus! {

/// What the contract keeps right after it was set up by `owner`.
pub open spec fn fresh(owner: Seq<char>, job_id: Seq<char>, retry_delay: u64) -> ContextView {
    ContextView { job_id, owner, retry_delay, withdraw_timestamp: Map::empty() }
}

/// Sets the contract up: the caller becomes its owner, the routing token and
/// the retry delay are taken from the message, and no attempt is on record.
pub fn instantiate(_env: Env, info: MessageInfo, msg: InstantiateMsg) -> (r: (Context, Response))
    ensures
        r.0@ == fresh(info.sender@, msg.job_id@, msg.retry_delay),
        r.1@ == (ResponseView {
            messages: Seq::empty(),
            attributes: seq![
                ("method"@, "instantiate"@),
                ("owner"@, info.sender@),
                ("job_id"@, msg.job_id@),
            ],
        }),
{
    let state = State { job_id: msg.job_id.clone(), owner: info.sender.clone() };
    let context = Context {
        state,
        retry_delay: msg.retry_delay,
        withdraw_timestamp: HashMap::new(),
    };
    let response = Response::new().add_attribute("method", "instantiate").add_attribute(
        "owner",
        info.sender.as_str(),
    ).add_attribute("job_id", msg.job_id.as_str());
    assert(response@.attributes =~= seq![
        ("method"@, "instantiate"@),
        ("owner"@, info.sender@),
        ("job_id"@, msg.job_id@),
    ]);
    assert(context@.withdraw_timestamp =~= Map::empty());
    (context, response)
}

/// Whether the batch `msg` is small enough for its call to be encoded.
pub open spec fn encodable(msg: ExecuteMsg) -> bool {
    match msg {
        ExecuteMsg::PutWithdrawIds { deposit_ids } => batch_fits(1, deposit_ids.len() as nat),
        ExecuteMsg::PutWithdraw { deposits } => batch_fits(3, deposits.len() as nat),
        ExecuteMsg::PutWithdrawFlagged { deposit_ids, profit_taking_or_stop_loss } =>
            deposit_ids.len() == profit_taking_or_stop_loss.len() ==> batch_fits(
                2,
                deposit_ids.len() as nat,
            ),
    }
}

/// Decides whether the batch `msg` is small enough for its call to be
/// encoded.
pub fn is_encodable(msg: &ExecuteMsg) -> (b: bool)
    ensures
        b == encodable(*msg),
{
    match msg {
        ExecuteMsg::PutWithdrawIds { deposit_ids } => is_batch_fitting(1, deposit_ids.len()),
        ExecuteMsg::PutWithdraw { deposits } => is_batch_fitting(3, deposits.len()),
        ExecuteMsg::PutWithdrawFlagged { deposit_ids, profit_taking_or_stop_loss } => {
            deposit_ids.len() != profit_taking_or_stop_loss.len() || is_batch_fitting(
                2,
                deposit_ids.len(),
            )
        },
    }
}

/// Submits a batch of withdraw attempts, in whichever shape it comes. The
/// batch has to be small enough for its call to be encoded.
pub fn execute(deps: &mut Context, env: Env, _info: MessageInfo, msg: ExecuteMsg) -> (r: Result<
    Response,
    ContractError,
>)
    requires
        encodable(msg),
    ensures
        match msg {
            ExecuteMsg::PutWithdrawIds { deposit_ids } => execute::ids_settled(
                old(deps)@,
                final(deps)@,
                env.block.time,
                deposit_ids@,
                r,
            ),
            ExecuteMsg::PutWithdraw { deposits } => execute::deposits_settled(
                old(deps)@,
                final(deps)@,
                env.block.time,
                deposits@,
                r,
            ),
            ExecuteMsg::PutWithdrawFlagged {
                deposit_ids,
                profit_taking_or_stop_loss,
            } => execute::flagged_settled(
                old(deps)@,
                final(deps)@,
                env.block.time,
                deposit_ids@,
                profit_taking_or_stop_loss@,
                r,
            ),
        },
{
    match msg {
        ExecuteMsg::PutWithdrawIds { deposit_ids } => execute::withdraw_ids(deps, env, deposit_ids),
        ExecuteMsg::PutWithdraw { deposits } => execute::withdraw(deps, env, deposits),
        ExecuteMsg::PutWithdrawFlagged {
            deposit_ids,
            profit_taking_or_stop_loss,
        } => execute::withdraw_flagged(deps, env, deposit_ids, profit_taking_or_stop_loss),
    }
}

/// Answers a question about the contract.
pub fn query(deps: &Context, _env: Env, msg: QueryMsg) -> (r: GetJobIdResponse)
    ensures
        r.job_id@ == deps@.job_id,
{
    match msg {
        QueryMsg::GetJobId {  } => query::get_job_id(deps),
    }
}

} // verus!
