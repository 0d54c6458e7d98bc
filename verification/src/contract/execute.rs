//! Withdraw requests: a batch is admitted attempt by attempt, and the
//! accepted attempts go out in one instruction.

use crate::admission::{
    accepted, admissible, admit_batch, as_ints, lemma_accepted_in_order, lemma_all_pending,
    lemma_debounce, pick, picked, records_after,
};
use crate::encoder::{
    batch_fits, deposit_payload, encode_deposits, encode_flagged, encode_ids, flagged_payload,
    id_payload,
};
use crate::env::{Env, Timestamp, NANOS_PER_SECOND};
use crate::error::ContractError;
use crate::msg::{deposit_ids, Deposit, PalomaMsg, PalomaMsgView};
use crate::response::{Response, ResponseView};
use crate::state::{Context, ContextView};
use vstd::prelude::*;

verus! {

/// The response that carries one instruction for the job `job_id`.
pub open spec fn instruction(job_id: Seq<char>, payload: Seq<u8>) -> ResponseView {
    ResponseView {
        messages: seq![PalomaMsgView { job_id, payload }],
        attributes: seq![("action"@, "multiple_withdraw"@)],
    }
}

/// What a batch of attempts at `now` on the deposits `ids` does to the
/// contract and hands back, where `payload` is the call for its accepted
/// attempts: the accepted attempts are on record and go out in one
/// instruction; where there is none, the batch fails and nothing has changed.
pub open spec fn settled(
    before: ContextView,
    after: ContextView,
    now: Timestamp,
    ids: Seq<u32>,
    payload: Seq<u8>,
    r: Result<Response, ContractError>,
) -> bool {
    &&& after == (ContextView {
        withdraw_timestamp: records_after(
            before.withdraw_timestamp,
            ids,
            before.retry_delay,
            now,
        ),
        ..before
    })
    &&& if accepted(before.withdraw_timestamp, ids, before.retry_delay, now).len() == 0 {
        r == Err::<Response, ContractError>(ContractError::AllPending) && after == before
    } else {
        r is Ok && r->Ok_0@ == instruction(before.job_id, payload)
    }
}

/// What a batch of attempts that name a deposit and nothing else does.
pub open spec fn ids_settled(
    before: ContextView,
    after: ContextView,
    now: Timestamp,
    ids: Seq<u32>,
    r: Result<Response, ContractError>,
) -> bool {
    let positions = accepted(before.withdraw_timestamp, ids, before.retry_delay, now);
    settled(before, after, now, ids, id_payload(picked(ids, positions)), r)
}

/// What a batch of attempts with a least amount and a withdraw type does.
pub open spec fn deposits_settled(
    before: ContextView,
    after: ContextView,
    now: Timestamp,
    deposits: Seq<Deposit>,
    r: Result<Response, ContractError>,
) -> bool {
    let ids = deposit_ids(deposits);
    let positions = accepted(before.withdraw_timestamp, ids, before.retry_delay, now);
    settled(before, after, now, ids, deposit_payload(picked(deposits, positions)), r)
}

/// What a batch of attempts with a flag does: lists of different lengths are
/// turned down before anything else happens.
pub open spec fn flagged_settled(
    before: ContextView,
    after: ContextView,
    now: Timestamp,
    ids: Seq<u32>,
    flags: Seq<bool>,
    r: Result<Response, ContractError>,
) -> bool {
    if ids.len() != flags.len() {
        r == Err::<Response, ContractError>(ContractError::InvalidParameters) && after == before
    } else {
        let positions = accepted(before.withdraw_timestamp, ids, before.retry_delay, now);
        settled(
            before,
            after,
            now,
            ids,
            flagged_payload(picked(ids, positions), picked(flags, positions)),
            r,
        )
    }
}

/// Wraps the bytes of a call into the response that sends them to the job
/// `job_id`.
pub fn instruct(job_id: &String, payload: Vec<u8>) -> (r: Response)
    ensures
        r@ == instruction(job_id@, payload@),
{
    let msg = PalomaMsg { job_id: job_id.clone(), payload };
    let r = Response::new().add_message(msg).add_attribute("action", "multiple_withdraw");
    assert(r@.messages =~= seq![PalomaMsgView { job_id: job_id@, payload: payload@ }]);
    assert(r@.attributes =~= seq![("action"@, "multiple_withdraw"@)]);
    r
}

/// Admits a batch of attempts on the deposits `ids` and says which of them
/// are accepted, if any is.
fn admit_ids(deps: &mut Context, now: Timestamp, ids: &Vec<u32>) -> (r: Option<Vec<usize>>)
    ensures
        final(deps)@ == (ContextView {
            withdraw_timestamp: records_after(
                old(deps)@.withdraw_timestamp,
                ids@,
                old(deps)@.retry_delay,
                now,
            ),
            ..old(deps)@
        }),
        accepted(old(deps)@.withdraw_timestamp, ids@, old(deps)@.retry_delay, now).len() == 0 ==> r
            is None && final(deps)@ == old(deps)@,
        accepted(old(deps)@.withdraw_timestamp, ids@, old(deps)@.retry_delay, now).len() > 0 ==> r
            is Some && as_ints(r->Some_0@) == accepted(
            old(deps)@.withdraw_timestamp,
            ids@,
            old(deps)@.retry_delay,
            now,
        ),
        r is Some ==> r->Some_0.len() <= ids.len(),
        r is Some ==> forall|k: int| 0 <= k < r->Some_0.len() ==> r->Some_0[k] < ids.len(),
{
    let retry_delay = deps.retry_delay;
    let positions = admit_batch(&mut deps.withdraw_timestamp, ids, retry_delay, now);
    proof {
        lemma_all_pending(old(deps)@.withdraw_timestamp, ids@, retry_delay, now);
        lemma_accepted_in_order(old(deps)@.withdraw_timestamp, ids@, retry_delay, now);
        assert(as_ints(positions@).len() == positions.len());
    }
    if positions.len() == 0 {
        None
    } else {
        Some(positions)
    }
}

/// Submits a batch of attempts that name a deposit and nothing else. The
/// batch has to be small enough for its call to be encoded.
pub fn withdraw_ids(deps: &mut Context, env: Env, deposit_ids: Vec<u32>) -> (r: Result<
    Response,
    ContractError,
>)
    requires
        batch_fits(1, deposit_ids.len() as nat),
    ensures
        ids_settled(old(deps)@, final(deps)@, env.block.time, deposit_ids@, r),
{
    match admit_ids(deps, env.block.time, &deposit_ids) {
        None => Err(ContractError::AllPending),
        Some(positions) => {
            let chosen = pick(&deposit_ids, &positions);
            let payload = encode_ids(&chosen);
            Ok(instruct(&deps.state.job_id, payload))
        },
    }
}

/// Submits a batch of attempts with a least amount and a withdraw type. The
/// batch has to be small enough for its call to be encoded.
pub fn withdraw(deps: &mut Context, env: Env, deposits: Vec<Deposit>) -> (r: Result<
    Response,
    ContractError,
>)
    requires
        batch_fits(3, deposits.len() as nat),
    ensures
        deposits_settled(old(deps)@, final(deps)@, env.block.time, deposits@, r),
{
    let mut ids: Vec<u32> = Vec::new();
    let mut i: usize = 0;
    while i < deposits.len()
        invariant
            0 <= i <= deposits.len(),
            ids@ == deposit_ids(deposits@).take(i as int),
        decreases deposits.len() - i,
    {
        ids.push(deposits[i].deposit_id);
        assert(ids@ =~= deposit_ids(deposits@).take(i + 1));
        i = i + 1;
    }
    assert(ids@ =~= deposit_ids(deposits@));
    match admit_ids(deps, env.block.time, &ids) {
        None => Err(ContractError::AllPending),
        Some(positions) => {
            let chosen = pick(&deposits, &positions);
            let payload = encode_deposits(&chosen);
            Ok(instruct(&deps.state.job_id, payload))
        },
    }
}

/// Submits a batch of attempts with a flag each, the deposits and the flags
/// in two lists that run in parallel. Where the lists are of one length, the
/// batch has to be small enough for its call to be encoded.
pub fn withdraw_flagged(
    deps: &mut Context,
    env: Env,
    deposit_ids: Vec<u32>,
    profit_taking_or_stop_loss: Vec<bool>,
) -> (r: Result<Response, ContractError>)
    requires
        deposit_ids.len() == profit_taking_or_stop_loss.len() ==> batch_fits(
            2,
            deposit_ids.len() as nat,
        ),
    ensures
        flagged_settled(
            old(deps)@,
            final(deps)@,
            env.block.time,
            deposit_ids@,
            profit_taking_or_stop_loss@,
            r,
        ),
{
    if deposit_ids.len() != profit_taking_or_stop_loss.len() {
        return Err(ContractError::InvalidParameters);
    }
    match admit_ids(deps, env.block.time, &deposit_ids) {
        None => Err(ContractError::AllPending),
        Some(positions) => {
            let chosen = pick(&deposit_ids, &positions);
            let flags = pick(&profit_taking_or_stop_loss, &positions);
            let payload = encode_flagged(&chosen, &flags);
            Ok(instruct(&deps.state.job_id, payload))
        },
    }
}

/// Debounce: where a request for one deposit at `first` finds an attempt on
/// it admissible, it succeeds; a second request for the deposit at `second`
/// then fails with `AllPending` and changes nothing as long as `second` is no
/// more than the retry delay after `first`, and succeeds once more than the
/// retry delay has passed.
pub proof fn lemma_requests_debounce(
    start: ContextView,
    between: ContextView,
    end: ContextView,
    id: u32,
    first: Timestamp,
    second: Timestamp,
    payloads: (Seq<u8>, Seq<u8>),
    results: (Result<Response, ContractError>, Result<Response, ContractError>),
)
    requires
        admissible(start.withdraw_timestamp, id, start.retry_delay, first),
        settled(start, between, first, seq![id], payloads.0, results.0),
        settled(between, end, second, seq![id], payloads.1, results.1),
    ensures
        results.0 is Ok,
        between.withdraw_timestamp == start.withdraw_timestamp.insert(id, first),
        second.nanos <= first.nanos + start.retry_delay * NANOS_PER_SECOND ==> {
            &&& results.1 == Err::<Response, ContractError>(ContractError::AllPending)
            &&& end == between
        },
        second.nanos > first.nanos + start.retry_delay * NANOS_PER_SECOND ==> {
            &&& results.1 is Ok
            &&& end.withdraw_timestamp == between.withdraw_timestamp.insert(id, second)
        },
{
    lemma_debounce(start.withdraw_timestamp, id, start.retry_delay, first, second);
    assert(between.withdraw_timestamp.insert(id, second) =~= start.withdraw_timestamp.insert(
        id,
        second,
    ));
}

/// A request whose attempts are all still cooling down fails with
/// `AllPending` and leaves what the contract keeps as it was.
pub proof fn lemma_pending_request_fails(
    before: ContextView,
    after: ContextView,
    now: Timestamp,
    ids: Seq<u32>,
    payload: Seq<u8>,
    r: Result<Response, ContractError>,
)
    requires
        forall|i: int|
            0 <= i < ids.len() ==> !admissible(
                before.withdraw_timestamp,
                #[trigger] ids[i],
                before.retry_delay,
                now,
            ),
        settled(before, after, now, ids, payload, r),
    ensures
        r == Err::<Response, ContractError>(ContractError::AllPending),
        after == before,
{
    lemma_all_pending(before.withdraw_timestamp, ids, before.retry_delay, now);
}

} // verus!
