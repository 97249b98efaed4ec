//! What holds of whole offline sessions: how a status came about, which values were handed on,
//! and that sessions end.

use vstd::prelude::*;
use crate::call::{offline_call_status, run_status};
use crate::input::readable;
use crate::offline::{
    offline_start, OfflineAction, OfflineActionView, OfflineEvent, OfflineStage, OfflineStep,
    OfflineStepView,
};
use crate::proof_laws::is_proved;
use crate::proof_run::{ProofActionView, ProofEvent, ProofStage, Verdict};
use crate::request::{runner_plan, ProveTransactionParams};
use crate::result::ProveTransactionResult;
use crate::rpc_url::parsed_url;
use crate::status::{
    STATUS_NULL_REQUEST_JSON, STATUS_NULL_RPC_RECORDS_JSON, STATUS_OK,
    STATUS_PROOF_VERIFICATION_ERROR, STATUS_PROOF_VERIFICATION_TASK_ERROR,
    STATUS_PROVE_TRANSACTION_ERROR, STATUS_REQUEST_JSON_ERROR, STATUS_REQUEST_JSON_UTF8_ERROR,
    STATUS_RPC_RECORDS_JSON_ERROR, STATUS_RPC_RECORDS_JSON_UTF8_ERROR, STATUS_RPC_URL_ERROR,
    STATUS_RUNTIME_ERROR,
};

verus! {

/// The last step of an offline session after `events`.
pub open spec fn offline_after<B, T, C>(events: Seq<OfflineEvent<B, T, C>>) -> OfflineStepView<
    B,
    T,
    C,
>
    decreases events.len(),
{
    if events.len() == 0 {
        offline_start()
    } else {
        offline_after(events.drop_last()).stage.next(events.last())
    }
}

/// Each of `events` was awaited when it came.
pub open spec fn offline_accepts<B, T, C>(events: Seq<OfflineEvent<B, T, C>>) -> bool
    decreases events.len(),
{
    events.len() == 0 || (offline_accepts(events.drop_last()) && offline_after(
        events.drop_last(),
    ).stage.awaits(events.last()))
}

/// The request was parsed and holds `params`.
spec fn is_requested<B, T, C>(
    event: OfflineEvent<B, T, C>,
    params: ProveTransactionParams<B, T, C>,
) -> bool {
    event matches OfflineEvent::RequestParsed(Ok(p)) && p == params
}

/// The server listens at an address that parses to `url`.
pub open spec fn is_listening<B, T, C>(event: OfflineEvent<B, T, C>, url: Seq<char>) -> bool {
    event matches OfflineEvent::ServerStarted { rpc_url } && parsed_url(rpc_url@) == Ok::<
        Seq<char>,
        Seq<char>,
    >(url)
}

/// The transaction was proved with `output` as the result.
spec fn is_offline_proof<B, T, C>(
    event: OfflineEvent<B, T, C>,
    output: ProveTransactionResult,
) -> bool {
    event matches OfflineEvent::Proof(e) && is_proved(e, output)
}

/// The parts of the history that a session with a runner has behind it.
spec fn offline_prepared<B, T, C>(
    events: Seq<OfflineEvent<B, T, C>>,
    block_id: B,
    transaction: T,
) -> bool {
    &&& events.len() >= 3
    &&& events[0] matches OfflineEvent::RequestParsed(Ok(p))
    &&& p.block_id == block_id
    &&& p.transaction == transaction
    &&& events[1] matches OfflineEvent::RecordsParsed(Ok(_))
    &&& events[2] matches OfflineEvent::ServerStarted { rpc_url }
    &&& parsed_url(rpc_url@) is Ok
}

/// What a finished session says of the events before it.
spec fn offline_cause<B, T, C>(events: Seq<OfflineEvent<B, T, C>>, status: i32) -> bool {
    ||| {
        &&& status == STATUS_REQUEST_JSON_ERROR
        &&& events.len() == 1
        &&& events[0] matches OfflineEvent::RequestParsed(Err(_))
    }
    ||| {
        &&& status == STATUS_RPC_RECORDS_JSON_ERROR
        &&& events.len() == 2
        &&& events[1] matches OfflineEvent::RecordsParsed(Err(_))
    }
    ||| {
        &&& status == STATUS_RPC_URL_ERROR
        &&& events.len() == 3
        &&& events[2] matches OfflineEvent::ServerStarted { rpc_url }
        &&& parsed_url(rpc_url@) is Err
    }
    ||| {
        &&& status == STATUS_PROVE_TRANSACTION_ERROR
        &&& events.len() == 6
        &&& events[5] matches OfflineEvent::Proof(ProofEvent::Proved(Err(_)))
    }
    ||| {
        &&& status == STATUS_PROOF_VERIFICATION_ERROR
        &&& events.len() == 7
        &&& events[6] matches OfflineEvent::Proof(ProofEvent::Verified(Verdict::Rejected(_)))
    }
    ||| {
        &&& status == STATUS_PROOF_VERIFICATION_TASK_ERROR
        &&& events.len() == 7
        &&& events[6] matches OfflineEvent::Proof(ProofEvent::Verified(Verdict::Panicked(_)))
    }
    ||| {
        &&& status == STATUS_OK
        &&& events.len() == 7
        &&& events[6] matches OfflineEvent::Proof(ProofEvent::Verified(Verdict::Accepted))
    }
}

/// What a stage of an offline session says of the events before it.
spec fn offline_history<B, T, C>(events: Seq<OfflineEvent<B, T, C>>) -> bool {
    let step = offline_after(events);
    match step.stage {
        OfflineStage::AwaitRequest => events.len() == 0 && step.action is ParseRequest,
        OfflineStage::AwaitRecords(params) => {
            &&& events.len() == 1
            &&& is_requested(events[0], params)
            &&& step.action is ParseRecords
        },
        OfflineStage::AwaitServer(params) => {
            &&& events.len() == 2
            &&& is_requested(events[0], params)
            &&& events[1] matches OfflineEvent::RecordsParsed(Ok(_))
            &&& step.action is StartServer
        },
        OfflineStage::AwaitRunner { block_id, transaction } => {
            &&& events.len() == 3
            &&& offline_prepared(events, block_id, transaction)
            &&& step.action == OfflineActionView::<B, T, C>::BuildRunner(
                runner_plan(
                    parsed_url(events[2]->rpc_url@)->Ok_0,
                    events[0]->RequestParsed_0->Ok_0.chain_id,
                ),
            )
        },
        OfflineStage::Proof(ProofStage::Initializing { block_id, transaction }) => {
            &&& events.len() == 4
            &&& offline_prepared(events, block_id, transaction)
            &&& step.action == OfflineActionView::<B, T, C>::Proof(ProofActionView::InitProver)
        },
        OfflineStage::Proof(ProofStage::Proving) => {
            &&& events.len() == 5
            &&& step.action matches OfflineActionView::Proof(
                ProofActionView::Prove { block_id, transaction },
            )
            &&& offline_prepared(events, block_id, transaction)
        },
        OfflineStage::Proof(ProofStage::Verifying { output }) => {
            &&& events.len() == 6
            &&& is_offline_proof(events[5], output)
            &&& step.action == OfflineActionView::<B, T, C>::Proof(
                ProofActionView::Verify {
                    proof_facts: output.proof_facts@,
                    proof: output.proof@,
                },
            )
        },
        OfflineStage::Proof(ProofStage::Done) => false,
        OfflineStage::Done => step.action matches OfflineActionView::Finish(status)
            && offline_cause(events, status),
    }
}

proof fn lemma_offline_history<B, T, C>(events: Seq<OfflineEvent<B, T, C>>)
    requires
        offline_accepts(events),
    ensures
        offline_history(events),
        offline_after(events).logs.len() > 0,
    decreases events.len(),
{
    if events.len() > 0 {
        lemma_offline_history(events.drop_last());
    }
}

/// The status of a finished session tells how it went; it is zero exactly when the proof was
/// verified.
pub proof fn offline_status_tells_the_cause<B, T, C>(
    events: Seq<OfflineEvent<B, T, C>>,
    status: i32,
)
    requires
        offline_accepts(events),
        offline_after(events).action == OfflineActionView::<B, T, C>::Finish(status),
    ensures
        status == STATUS_REQUEST_JSON_ERROR <==> (
        events.last() matches OfflineEvent::RequestParsed(Err(_))),
        status == STATUS_RPC_RECORDS_JSON_ERROR <==> (
        events.last() matches OfflineEvent::RecordsParsed(Err(_))),
        status == STATUS_RPC_URL_ERROR <==> (events.last() matches OfflineEvent::ServerStarted {
            rpc_url,
        } && parsed_url(rpc_url@) is Err),
        status == STATUS_PROVE_TRANSACTION_ERROR <==> (events.last() matches OfflineEvent::Proof(
            ProofEvent::Proved(Err(_)),
        )),
        status == STATUS_PROOF_VERIFICATION_ERROR <==> (events.last() matches OfflineEvent::Proof(
            ProofEvent::Verified(Verdict::Rejected(_)),
        )),
        status == STATUS_PROOF_VERIFICATION_TASK_ERROR <==> (
        events.last() matches OfflineEvent::Proof(ProofEvent::Verified(Verdict::Panicked(_)))),
        status == STATUS_OK <==> (events.last() matches OfflineEvent::Proof(
            ProofEvent::Verified(Verdict::Accepted),
        )),
        STATUS_OK <= status <= STATUS_PROOF_VERIFICATION_TASK_ERROR,
        status != STATUS_RUNTIME_ERROR,
{
    lemma_offline_history(events);
}

/// A session ends at once where something fails, and at the end of the proof; the status is the one
/// for that event, and no other event ends a session.
pub proof fn offline_sessions_end_where_something_fails<B, T, C>(
    events: Seq<OfflineEvent<B, T, C>>,
)
    requires
        offline_accepts(events),
        events.len() > 0,
    ensures
        match events.last() {
            OfflineEvent::RequestParsed(Err(_)) => offline_after(events).action
                == OfflineActionView::<B, T, C>::Finish(2),
            OfflineEvent::RequestParsed(Ok(_)) => offline_after(events).action is ParseRecords,
            OfflineEvent::RecordsParsed(Err(_)) => offline_after(events).action
                == OfflineActionView::<B, T, C>::Finish(3),
            OfflineEvent::RecordsParsed(Ok(_)) => offline_after(events).action is StartServer,
            OfflineEvent::ServerStarted { rpc_url } => if parsed_url(rpc_url@) is Err {
                offline_after(events).action == OfflineActionView::<B, T, C>::Finish(4)
            } else {
                offline_after(events).action is BuildRunner
            },
            OfflineEvent::RunnerBuilt => offline_after(events).action == OfflineActionView::<
                B,
                T,
                C,
            >::Proof(ProofActionView::InitProver),
            OfflineEvent::Proof(ProofEvent::ProverReady) => offline_after(events).action
                matches OfflineActionView::Proof(ProofActionView::Prove { .. }),
            OfflineEvent::Proof(ProofEvent::Proved(Ok(_))) => offline_after(events).action
                matches OfflineActionView::Proof(ProofActionView::Verify { .. }),
            OfflineEvent::Proof(ProofEvent::Proved(Err(_))) => offline_after(events).action
                == OfflineActionView::<B, T, C>::Finish(5),
            OfflineEvent::Proof(ProofEvent::Verified(Verdict::Accepted)) => offline_after(
                events,
            ).action == OfflineActionView::<B, T, C>::Finish(0),
            OfflineEvent::Proof(ProofEvent::Verified(Verdict::Rejected(_))) => offline_after(
                events,
            ).action == OfflineActionView::<B, T, C>::Finish(6),
            OfflineEvent::Proof(ProofEvent::Verified(Verdict::Panicked(_))) => offline_after(
                events,
            ).action == OfflineActionView::<B, T, C>::Finish(7),
        },
{
    lemma_offline_history(events);
    lemma_offline_history(events.drop_last());
}

/// A session passes on what it got: the runner is built for the requested chain and the server's
/// address, the requested transaction is proved against the requested block, and what is verified
/// are the proof and the facts that proving gave.
pub proof fn offline_session_hands_values_on<B, T, C>(events: Seq<OfflineEvent<B, T, C>>)
    requires
        offline_accepts(events),
    ensures
        offline_after(events).action matches OfflineActionView::BuildRunner(plan) ==> {
            &&& events[0] matches OfflineEvent::RequestParsed(Ok(params))
            &&& is_listening(events[2], plan.rpc_url)
            &&& plan == runner_plan(plan.rpc_url, params.chain_id)
            &&& plan.chain_id == params.chain_id
            &&& plan.include_state_changes
            &&& !plan.prefetch_state
        },
        offline_after(events).action matches OfflineActionView::Proof(
            ProofActionView::Prove { block_id, transaction },
        ) ==> {
            &&& events[0] matches OfflineEvent::RequestParsed(Ok(params))
            &&& block_id == params.block_id
            &&& transaction == params.transaction
        },
        offline_after(events).action matches OfflineActionView::Proof(
            ProofActionView::Verify { proof_facts, proof },
        ) ==> {
            &&& events.last() matches OfflineEvent::Proof(ProofEvent::Proved(Ok(output)))
            &&& proof_facts == output.proof_facts@
            &&& proof == output.proof@
        },
{
    lemma_offline_history(events);
}

/// The event is an outcome of the action.
pub open spec fn offline_answers<B, T, C>(
    action: OfflineActionView<B, T, C>,
    event: OfflineEvent<B, T, C>,
) -> bool {
    match action {
        OfflineActionView::ParseRequest => event is RequestParsed,
        OfflineActionView::ParseRecords => event is RecordsParsed,
        OfflineActionView::StartServer => event is ServerStarted,
        OfflineActionView::BuildRunner(_) => event is RunnerBuilt,
        OfflineActionView::Proof(ProofActionView::InitProver) => event
            matches OfflineEvent::Proof(e) && e is ProverReady,
        OfflineActionView::Proof(ProofActionView::Prove { .. }) => event
            matches OfflineEvent::Proof(e) && e is Proved,
        OfflineActionView::Proof(ProofActionView::Verify { .. }) => event
            matches OfflineEvent::Proof(e) && e is Verified,
        OfflineActionView::Proof(ProofActionView::Finish(_)) => false,
        OfflineActionView::Finish(_) => false,
    }
}

/// A session ends after at most seven events; until it has ended it awaits exactly the outcomes of
/// its last action. Every step is reported.
pub proof fn offline_sessions_end<B, T, C>(
    events: Seq<OfflineEvent<B, T, C>>,
    event: OfflineEvent<B, T, C>,
)
    requires
        offline_accepts(events),
    ensures
        events.len() <= 7,
        events.len() == 7 ==> offline_after(events).action is Finish,
        offline_after(events).stage.awaits(event) <==> offline_answers(
            offline_after(events).action,
            event,
        ),
        offline_after(events).logs.len() > 0,
{
    lemma_offline_history(events);
}

/// The outcomes of a session in which each outside call succeeds.
pub open spec fn offline_transcript<B, T, C>(
    params: ProveTransactionParams<B, T, C>,
    rpc_url: String,
    output: ProveTransactionResult,
) -> Seq<OfflineEvent<B, T, C>> {
    seq![
        OfflineEvent::RequestParsed(Ok(params)),
        OfflineEvent::RecordsParsed(Ok(())),
        OfflineEvent::ServerStarted { rpc_url },
        OfflineEvent::RunnerBuilt,
        OfflineEvent::Proof(ProofEvent::ProverReady),
        OfflineEvent::Proof(ProofEvent::Proved(Ok(output))),
        OfflineEvent::Proof(ProofEvent::Verified(Verdict::Accepted)),
    ]
}

/// When each outside call succeeds, the session ends with the status for success.
pub proof fn offline_success<B, T, C>(
    params: ProveTransactionParams<B, T, C>,
    rpc_url: String,
    output: ProveTransactionResult,
)
    requires
        parsed_url(rpc_url@) is Ok,
    ensures
        ({
            let events = offline_transcript(params, rpc_url, output);
            offline_accepts(events) && offline_after(events).action == OfflineActionView::<
                B,
                T,
                C,
            >::Finish(STATUS_OK)
        }),
{
    let events = offline_transcript(params, rpc_url, output);
    assert forall|n: int| 0 < n <= 7 implies #[trigger] events.take(n).drop_last() == events.take(
        n - 1,
    ) && events.take(n).last() == events[n - 1] by {
        assert(events.take(n).drop_last() =~= events.take(n - 1));
    }
    assert(events.take(7) =~= events);
    assert(events.take(6) == events.take(7).drop_last());
    assert(events.take(5) == events.take(6).drop_last());
    assert(events.take(4) == events.take(5).drop_last());
    assert(events.take(3) == events.take(4).drop_last());
    assert(events.take(2) == events.take(3).drop_last());
    assert(events.take(1) == events.take(2).drop_last());
    assert(events.take(0) == events.take(1).drop_last());
    assert(offline_accepts(events.take(0)));
    assert(offline_accepts(events.take(1)));
    assert(offline_accepts(events.take(2)));
    assert(offline_accepts(events.take(3)));
    assert(offline_accepts(events.take(4)));
    assert(offline_accepts(events.take(5)));
    assert(offline_accepts(events.take(6)));
}

/// A call returns zero exactly when the inputs are readable, the runtime was created and the proof
/// was verified. Any other status tells what went wrong.
pub proof fn offline_call_status_tells_the_cause<B, T, C>(
    request_json: Option<&[u8]>,
    rpc_records_json: Option<&[u8]>,
    built: bool,
    events: Seq<OfflineEvent<B, T, C>>,
    session: i32,
)
    requires
        offline_accepts(events),
        offline_after(events).action == OfflineActionView::<B, T, C>::Finish(session),
    ensures
        ({
            let status = offline_call_status(request_json, rpc_records_json, built, session);
            let read = readable(request_json) && readable(rpc_records_json);
            &&& status == STATUS_OK <==> read && built && (
            events.last() matches OfflineEvent::Proof(ProofEvent::Verified(Verdict::Accepted)))
            &&& status == STATUS_NULL_REQUEST_JSON <==> request_json is None
            &&& status == STATUS_REQUEST_JSON_UTF8_ERROR <==> request_json is Some && !readable(
                request_json,
            )
            &&& status == STATUS_NULL_RPC_RECORDS_JSON <==> readable(request_json)
                && rpc_records_json is None
            &&& status == STATUS_RPC_RECORDS_JSON_UTF8_ERROR <==> readable(request_json)
                && rpc_records_json is Some && !readable(rpc_records_json)
            &&& status == STATUS_RUNTIME_ERROR <==> read && !built
            &&& status == STATUS_REQUEST_JSON_ERROR <==> read && built && (
            events.last() matches OfflineEvent::RequestParsed(Err(_)))
            &&& status == STATUS_RPC_RECORDS_JSON_ERROR <==> read && built && (
            events.last() matches OfflineEvent::RecordsParsed(Err(_)))
            &&& status == STATUS_RPC_URL_ERROR <==> read && built && (
            events.last() matches OfflineEvent::ServerStarted { rpc_url } && parsed_url(
                rpc_url@,
            ) is Err)
            &&& status == STATUS_PROVE_TRANSACTION_ERROR <==> read && built && (
            events.last() matches OfflineEvent::Proof(ProofEvent::Proved(Err(_))))
            &&& status == STATUS_PROOF_VERIFICATION_ERROR <==> read && built && (
            events.last() matches OfflineEvent::Proof(ProofEvent::Verified(Verdict::Rejected(_))))
            &&& status == STATUS_PROOF_VERIFICATION_TASK_ERROR <==> read && built && (
            events.last() matches OfflineEvent::Proof(ProofEvent::Verified(Verdict::Panicked(_))))
        }),
{
    offline_status_tells_the_cause(events, session);
}

/// A call with built-in inputs returns zero exactly when the runtime was created and the proof was
/// verified.
pub proof fn demo_status_tells_success<B, T, C>(
    built: bool,
    events: Seq<OfflineEvent<B, T, C>>,
    session: i32,
)
    requires
        offline_accepts(events),
        offline_after(events).action == OfflineActionView::<B, T, C>::Finish(session),
    ensures
        run_status(built, session) == STATUS_OK <==> built && (
        events.last() matches OfflineEvent::Proof(ProofEvent::Verified(Verdict::Accepted))),
{
    offline_status_tells_the_cause(events, session);
}

/// A session awaits every outcome of its last action, whatever the outcome holds, and nothing else.
pub proof fn offline_sessions_await_every_outcome<B, T, C>(
    events: Seq<OfflineEvent<B, T, C>>,
    event: OfflineEvent<B, T, C>,
)
    requires
        offline_accepts(events),
    ensures
        offline_after(events).stage.awaits(event) <==> match offline_after(events).action {
            OfflineActionView::ParseRequest => event is RequestParsed,
            OfflineActionView::ParseRecords => event is RecordsParsed,
            OfflineActionView::StartServer => event is ServerStarted,
            OfflineActionView::BuildRunner(_) => event is RunnerBuilt,
            OfflineActionView::Proof(ProofActionView::InitProver) => event
                matches OfflineEvent::Proof(ProofEvent::ProverReady),
            OfflineActionView::Proof(ProofActionView::Prove { .. }) => event
                matches OfflineEvent::Proof(ProofEvent::Proved(_)),
            OfflineActionView::Proof(ProofActionView::Verify { .. }) => event
                matches OfflineEvent::Proof(ProofEvent::Verified(_)),
            OfflineActionView::Proof(ProofActionView::Finish(_)) => false,
            OfflineActionView::Finish(_) => false,
        },
{
    lemma_offline_history(events);
}

/// Every step is logged: progress in fixed lines, the server's address and the text of an error in
/// full.
pub proof fn offline_steps_are_logged<B, T, C>(events: Seq<OfflineEvent<B, T, C>>)
    requires
        offline_accepts(events),
    ensures
        events.len() == 0 ==> offline_after(events).logs == seq!["Parsing request JSON..."@],
        events.len() > 0 ==> offline_after(events).logs == match events.last() {
            OfflineEvent::RequestParsed(Ok(_)) => seq!["Parsing RPC records JSON..."@],
            OfflineEvent::RequestParsed(Err(e)) => seq!["Failed to parse request JSON: "@ + e@],
            OfflineEvent::RecordsParsed(Ok(_)) => seq![
                "Starting mock RPC server for offline replay..."@,
            ],
            OfflineEvent::RecordsParsed(Err(e)) => seq!["Failed to parse RPC records: "@ + e@],
            OfflineEvent::ServerStarted { rpc_url } => match parsed_url(rpc_url@) {
                Ok(_) => seq![
                    "Mock server listening at "@ + rpc_url@,
                    "Building runner factory..."@,
                ],
                Err(e) => seq![
                    "Mock server listening at "@ + rpc_url@,
                    "Building runner factory..."@,
                    "Invalid RPC URL: "@ + e,
                ],
            },
            OfflineEvent::RunnerBuilt => seq![
                "Initializing VirtualSnosProver (preparing precomputes, this may take a while)..."@,
            ],
            OfflineEvent::Proof(ProofEvent::ProverReady) => seq![
                "Running prove_transaction (OS execution + Stwo proving)..."@,
            ],
            OfflineEvent::Proof(ProofEvent::Proved(Ok(_))) => seq![
                "prove_transaction succeeded."@,
                "Verifying proof..."@,
            ],
            OfflineEvent::Proof(ProofEvent::Proved(Err(e))) => seq![
                "prove_transaction failed: "@ + e@,
            ],
            OfflineEvent::Proof(ProofEvent::Verified(Verdict::Accepted)) => seq![
                "Proof verification succeeded!"@,
            ],
            OfflineEvent::Proof(ProofEvent::Verified(Verdict::Rejected(e))) => seq![
                "Proof verification failed: "@ + e@,
            ],
            OfflineEvent::Proof(ProofEvent::Verified(Verdict::Panicked(e))) => seq![
                "Proof verification task panicked: "@ + e@,
            ],
        },
{
    lemma_offline_history(events);
    if events.len() > 0 {
        lemma_offline_history(events.drop_last());
        assert(offline_after(events) == offline_after(events.drop_last()).stage.next(
            events.last(),
        ));
        if let OfflineEvent::ServerStarted { rpc_url } = events.last() {
            if let Err(e) = parsed_url(rpc_url@) {
                assert(seq![
                    "Mock server listening at "@ + rpc_url@,
                    "Building runner factory..."@,
                ].push("Invalid RPC URL: "@ + e) =~= seq![
                    "Mock server listening at "@ + rpc_url@,
                    "Building runner factory..."@,
                    "Invalid RPC URL: "@ + e,
                ]);
            }
        }
    }
}

/// What the contracts see of a step is the step.
pub proof fn offline_step_is_seen_as_it_is<B, T, C>(step: OfflineStep<B, T, C>)
    ensures
        step@.stage == step.stage,
        step@.logs.len() == step.logs@.len(),
        forall|i: int| 0 <= i < step.logs@.len() ==> #[trigger] step@.logs[i] == step.logs@[i]@,
        match step.action {
            OfflineAction::ParseRequest => step@.action is ParseRequest,
            OfflineAction::ParseRecords => step@.action is ParseRecords,
            OfflineAction::StartServer => step@.action is StartServer,
            OfflineAction::BuildRunner(plan) => {
                &&& step@.action matches OfflineActionView::BuildRunner(seen)
                &&& seen.rpc_url == plan.rpc_url@
                &&& seen.chain_id == plan.chain_id
                &&& seen.include_state_changes == plan.include_state_changes
                &&& seen.prefetch_state == plan.prefetch_state
            },
            OfflineAction::Proof(action) => step@.action == OfflineActionView::<B, T, C>::Proof(
                action@,
            ),
            OfflineAction::Finish(status) => step@.action == OfflineActionView::<B, T, C>::Finish(
                status,
            ),
        },
{
}

/// A session starts with the request and knows nothing yet.
pub proof fn offline_sessions_start_with_the_request<B, T, C>()
    ensures
        offline_after(Seq::<OfflineEvent<B, T, C>>::empty()).action is ParseRequest,
        offline_after(Seq::<OfflineEvent<B, T, C>>::empty()).stage is AwaitRequest,
        offline_start::<B, T, C>() == offline_after(Seq::<OfflineEvent<B, T, C>>::empty()),
{
}

} // verus!
