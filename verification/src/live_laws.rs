//! What holds of whole live sessions: how a result came about, which values were handed on, and
//! that sessions end.

use vstd::prelude::*;
use vstd::utf8::*;
use crate::c_string::{c_bytes, is_first_nul};
use crate::call::live_call_result;
use crate::input::{input_text, readable};
use crate::json_reader::{read_json, shows_result};
use crate::live::{
    live_start, LiveAction, LiveActionView, LiveEvent, LiveRequest, LiveStage, LiveStageView,
    LiveStep, LiveStepView,
};
use crate::proof_laws::is_proved;
use crate::proof_run::{ProofActionView, ProofEvent, ProofStage, Verdict};
use crate::request::runner_plan;
use crate::result::{result_json, ProveTransactionResult};
use crate::rpc_url::parsed_url;

verus! {

/// The last step of a live session after `events`; `rpc_url` is the address that the host gave.
pub open spec fn live_after<B, T, C>(
    rpc_url: Seq<char>,
    events: Seq<LiveEvent<B, T, C>>,
) -> LiveStepView<B, T, C>
    decreases events.len(),
{
    if events.len() == 0 {
        live_start(rpc_url)
    } else {
        live_after(rpc_url, events.drop_last()).stage.next(events.last())
    }
}

/// Each of `events` was awaited when it came.
pub open spec fn live_accepts<B, T, C>(rpc_url: Seq<char>, events: Seq<LiveEvent<B, T, C>>) -> bool
    decreases events.len(),
{
    events.len() == 0 || (live_accepts(rpc_url, events.drop_last()) && live_after(
        rpc_url,
        events.drop_last(),
    ).stage.awaits(events.last()))
}

/// The transaction was proved with `output` as the result.
spec fn is_live_proof<B, T, C>(
    event: LiveEvent<B, T, C>,
    output: ProveTransactionResult,
) -> bool {
    event matches LiveEvent::Proof(e) && is_proved(e, output)
}

/// The parts of the history that a session with a runner has behind it.
spec fn live_prepared<B, T, C>(
    rpc_url: Seq<char>,
    events: Seq<LiveEvent<B, T, C>>,
    block_id: B,
    transaction: T,
) -> bool {
    &&& events.len() >= 1
    &&& events[0] matches LiveEvent::RequestParsed(Ok(request))
    &&& request.params.block_id == block_id
    &&& request.params.transaction == transaction
    &&& parsed_url(rpc_url) is Ok
}

/// What a stage of a live session says of the events before it.
spec fn live_history<B, T, C>(rpc_url: Seq<char>, events: Seq<LiveEvent<B, T, C>>) -> bool {
    let step = live_after(rpc_url, events);
    match step.stage {
        LiveStageView::AwaitRequest { rpc_url: given } => {
            &&& events.len() == 0
            &&& given == rpc_url
            &&& step.action is ParseRequest
        },
        LiveStageView::AwaitRunner { block_id, transaction } => {
            &&& events.len() == 1
            &&& live_prepared(rpc_url, events, block_id, transaction)
            &&& step.action == LiveActionView::<B, T, C>::BuildRunner(
                runner_plan(
                    parsed_url(rpc_url)->Ok_0,
                    events[0]->RequestParsed_0->Ok_0.params.chain_id,
                ),
            )
        },
        LiveStageView::Proof(ProofStage::Initializing { block_id, transaction }) => {
            &&& events.len() == 2
            &&& live_prepared(rpc_url, events, block_id, transaction)
            &&& step.action == LiveActionView::<B, T, C>::Proof(ProofActionView::InitProver)
        },
        LiveStageView::Proof(ProofStage::Proving) => {
            &&& events.len() == 3
            &&& step.action matches LiveActionView::Proof(
                ProofActionView::Prove { block_id, transaction },
            )
            &&& live_prepared(rpc_url, events, block_id, transaction)
        },
        LiveStageView::Proof(ProofStage::Verifying { output }) => {
            &&& events.len() == 4
            &&& is_live_proof(events[3], output)
            &&& step.action == LiveActionView::<B, T, C>::Proof(
                ProofActionView::Verify {
                    proof_facts: output.proof_facts@,
                    proof: output.proof@,
                },
            )
        },
        LiveStageView::Proof(ProofStage::Done) => false,
        LiveStageView::Done => match step.action {
            LiveActionView::Finish(Some(json)) => {
                &&& events.len() == 5
                &&& events[3] matches LiveEvent::Proof(ProofEvent::Proved(Ok(output)))
                &&& events[4] == LiveEvent::<B, T, C>::Proof(
                    ProofEvent::Verified(Verdict::Accepted),
                )
                &&& json == result_json(output)
            },
            LiveActionView::Finish(None) => {
                ||| {
                    &&& events.len() == 1
                    &&& events[0] matches LiveEvent::RequestParsed(Err(_))
                }
                ||| {
                    &&& events.len() == 1
                    &&& events[0] matches LiveEvent::RequestParsed(Ok(_))
                    &&& parsed_url(rpc_url) is Err
                }
                ||| {
                    &&& events.len() == 4
                    &&& events[3] matches LiveEvent::Proof(ProofEvent::Proved(Err(_)))
                }
                ||| {
                    &&& events.len() == 5
                    &&& events[4] matches LiveEvent::Proof(ProofEvent::Verified(verdict))
                    &&& verdict !is Accepted
                }
            },
            _ => false,
        },
    }
}

proof fn lemma_live_history<B, T, C>(rpc_url: Seq<char>, events: Seq<LiveEvent<B, T, C>>)
    requires
        live_accepts(rpc_url, events),
    ensures
        live_history(rpc_url, events),
        live_after(rpc_url, events).logs.len() > 0,
    decreases events.len(),
{
    if events.len() > 0 {
        lemma_live_history(rpc_url, events.drop_last());
    }
}

/// A session ends with JSON exactly when a proof was made and verified, and the JSON is that of the
/// proved result.
pub proof fn live_returns_the_verified_result<B, T, C>(
    rpc_url: Seq<char>,
    events: Seq<LiveEvent<B, T, C>>,
    json: Seq<char>,
)
    requires
        live_accepts(rpc_url, events),
    ensures
        live_after(rpc_url, events).action == LiveActionView::<B, T, C>::Finish(Some(json)) <==> {
            &&& events.len() == 5
            &&& events[3] matches LiveEvent::Proof(ProofEvent::Proved(Ok(output)))
            &&& events[4] == LiveEvent::<B, T, C>::Proof(ProofEvent::Verified(Verdict::Accepted))
            &&& json == result_json(output)
        },
{
    lemma_live_history(rpc_url, events);
    if events.len() == 5 {
        lemma_live_history(rpc_url, events.drop_last());
    }
}

/// A session ends without JSON for one of these reasons: the request is faulty, the address is
/// faulty, proving failed, or the proof was not verified.
pub proof fn live_failures_have_a_cause<B, T, C>(
    rpc_url: Seq<char>,
    events: Seq<LiveEvent<B, T, C>>,
)
    requires
        live_accepts(rpc_url, events),
        events.len() > 0,
    ensures
        live_after(rpc_url, events).action == LiveActionView::<B, T, C>::Finish(
            None,
        ) <==> match events.last() {
            LiveEvent::RequestParsed(Err(_)) => true,
            LiveEvent::RequestParsed(Ok(_)) => parsed_url(rpc_url) is Err,
            LiveEvent::RunnerBuilt => false,
            LiveEvent::Proof(ProofEvent::ProverReady) => false,
            LiveEvent::Proof(ProofEvent::Proved(proved)) => proved is Err,
            LiveEvent::Proof(ProofEvent::Verified(verdict)) => verdict !is Accepted,
        },
{
    lemma_live_history(rpc_url, events);
    lemma_live_history(rpc_url, events.drop_last());
}

/// A session passes on what it got: the runner is built for the requested chain and the address
/// that the host gave, the requested transaction is proved against the requested block, and what
/// is verified are the proof and the facts that proving gave.
pub proof fn live_session_hands_values_on<B, T, C>(
    rpc_url: Seq<char>,
    events: Seq<LiveEvent<B, T, C>>,
)
    requires
        live_accepts(rpc_url, events),
    ensures
        live_after(rpc_url, events).action matches LiveActionView::BuildRunner(plan) ==> {
            &&& events[0] matches LiveEvent::RequestParsed(Ok(request))
            &&& parsed_url(rpc_url) == Ok::<Seq<char>, Seq<char>>(plan.rpc_url)
            &&& plan == runner_plan(plan.rpc_url, request.params.chain_id)
            &&& plan.chain_id == request.params.chain_id
            &&& plan.include_state_changes
            &&& !plan.prefetch_state
        },
        live_after(rpc_url, events).action matches LiveActionView::Proof(
            ProofActionView::Prove { block_id, transaction },
        ) ==> {
            &&& events[0] matches LiveEvent::RequestParsed(Ok(request))
            &&& block_id == request.params.block_id
            &&& transaction == request.params.transaction
        },
        live_after(rpc_url, events).action matches LiveActionView::Proof(
            ProofActionView::Verify { proof_facts, proof },
        ) ==> {
            &&& events.last() matches LiveEvent::Proof(ProofEvent::Proved(Ok(output)))
            &&& proof_facts == output.proof_facts@
            &&& proof == output.proof@
        },
{
    lemma_live_history(rpc_url, events);
}

/// The event is an outcome of the action.
pub open spec fn live_answers<B, T, C>(
    action: LiveActionView<B, T, C>,
    event: LiveEvent<B, T, C>,
) -> bool {
    match action {
        LiveActionView::ParseRequest => event is RequestParsed,
        LiveActionView::BuildRunner(_) => event is RunnerBuilt,
        LiveActionView::Proof(ProofActionView::InitProver) => event matches LiveEvent::Proof(e)
            && e is ProverReady,
        LiveActionView::Proof(ProofActionView::Prove { .. }) => event matches LiveEvent::Proof(e)
            && e is Proved,
        LiveActionView::Proof(ProofActionView::Verify { .. }) => event matches LiveEvent::Proof(e)
            && e is Verified,
        LiveActionView::Proof(ProofActionView::Finish(_)) => false,
        LiveActionView::Finish(_) => false,
    }
}

/// A session ends after at most five events; until it has ended it awaits exactly the outcomes of
/// its last action. Every step is reported.
pub proof fn live_sessions_end<B, T, C>(
    rpc_url: Seq<char>,
    events: Seq<LiveEvent<B, T, C>>,
    event: LiveEvent<B, T, C>,
)
    requires
        live_accepts(rpc_url, events),
    ensures
        events.len() <= 5,
        events.len() == 5 ==> live_after(rpc_url, events).action is Finish,
        live_after(rpc_url, events).stage.awaits(event) <==> live_answers(
            live_after(rpc_url, events).action,
            event,
        ),
        live_after(rpc_url, events).logs.len() > 0,
{
    lemma_live_history(rpc_url, events);
}

/// The outcomes of a live session in which each outside call succeeds.
pub open spec fn live_transcript<B, T, C>(
    request: LiveRequest<B, T, C>,
    output: ProveTransactionResult,
) -> Seq<LiveEvent<B, T, C>> {
    seq![
        LiveEvent::RequestParsed(Ok(request)),
        LiveEvent::RunnerBuilt,
        LiveEvent::Proof(ProofEvent::ProverReady),
        LiveEvent::Proof(ProofEvent::Proved(Ok(output))),
        LiveEvent::Proof(ProofEvent::Verified(Verdict::Accepted)),
    ]
}

/// When each outside call succeeds, the session ends with the JSON of the result, the host gets it
/// as a C string, and reading that string up to its NUL gives the JSON back.
pub proof fn live_success<B, T, C>(
    rpc_url: Seq<char>,
    request: LiveRequest<B, T, C>,
    output: ProveTransactionResult,
)
    requires
        parsed_url(rpc_url) is Ok,
    ensures
        ({
            let events = live_transcript(request, output);
            live_accepts(rpc_url, events) && live_after(rpc_url, events).action == LiveActionView::<
                B,
                T,
                C,
            >::Finish(Some(result_json(output)))
        }),
        !result_json(output).contains('\0'),
        is_first_nul(c_bytes(result_json(output)), c_bytes(result_json(output)).len() - 1),
        decode_utf8(c_bytes(result_json(output)).drop_last()) == result_json(output),
{
    let events = live_transcript(request, output);
    assert forall|n: int| 0 < n <= 5 implies #[trigger] events.take(n).drop_last() == events.take(
        n - 1,
    ) && events.take(n).last() == events[n - 1] by {
        assert(events.take(n).drop_last() =~= events.take(n - 1));
    }
    assert(events.take(5) =~= events);
    assert(events.take(4) == events.take(5).drop_last());
    assert(events.take(3) == events.take(4).drop_last());
    assert(events.take(2) == events.take(3).drop_last());
    assert(events.take(1) == events.take(2).drop_last());
    assert(events.take(0) == events.take(1).drop_last());
    assert(live_accepts(rpc_url, events.take(0)));
    assert(live_accepts(rpc_url, events.take(1)));
    assert(live_accepts(rpc_url, events.take(2)));
    assert(live_accepts(rpc_url, events.take(3)));
    assert(live_accepts(rpc_url, events.take(4)));
    crate::result_laws::result_json_crosses_the_interface(output);
}

/// A call returns a string exactly when the inputs are readable, the runtime was created and the
/// proof was verified; the string is the JSON of the result, and otherwise the pointer is null.
pub proof fn live_call_returns_the_verified_result<B, T, C>(
    request_json: Option<&[u8]>,
    rpc_url: Option<&[u8]>,
    built: bool,
    events: Seq<LiveEvent<B, T, C>>,
    session: Option<Seq<char>>,
    memory: Seq<u8>,
)
    requires
        live_accepts(input_text(rpc_url), events),
        live_after(input_text(rpc_url), events).action == LiveActionView::<B, T, C>::Finish(
            session,
        ),
    ensures
        live_call_result(request_json, rpc_url, built, session) == Some(memory) <==> {
            &&& readable(request_json) && readable(rpc_url) && built
            &&& events.last() matches LiveEvent::Proof(ProofEvent::Verified(Verdict::Accepted))
            &&& events[3] matches LiveEvent::Proof(ProofEvent::Proved(Ok(output)))
            &&& memory == c_bytes(result_json(output))
        },
{
    lemma_live_history(input_text(rpc_url), events);
    if let LiveEvent::Proof(ProofEvent::Proved(Ok(output))) = events[3] {
        crate::result_laws::result_json_crosses_the_interface(output);
    }
}

/// A session goes on with the next piece of work while all goes well, and ends where something
/// fails and at the end of the proof.
pub proof fn live_sessions_go_on_while_all_goes_well<B, T, C>(
    rpc_url: Seq<char>,
    events: Seq<LiveEvent<B, T, C>>,
)
    requires
        live_accepts(rpc_url, events),
        events.len() > 0,
    ensures
        match events.last() {
            LiveEvent::RequestParsed(Ok(_)) => if parsed_url(rpc_url) is Err {
                live_after(rpc_url, events).action == LiveActionView::<B, T, C>::Finish(None)
            } else {
                live_after(rpc_url, events).action is BuildRunner
            },
            LiveEvent::RequestParsed(Err(_)) => live_after(rpc_url, events).action
                == LiveActionView::<B, T, C>::Finish(None),
            LiveEvent::RunnerBuilt => live_after(rpc_url, events).action == LiveActionView::<
                B,
                T,
                C,
            >::Proof(ProofActionView::InitProver),
            LiveEvent::Proof(ProofEvent::ProverReady) => live_after(rpc_url, events).action
                matches LiveActionView::Proof(ProofActionView::Prove { .. }),
            LiveEvent::Proof(ProofEvent::Proved(Ok(_))) => live_after(rpc_url, events).action
                matches LiveActionView::Proof(ProofActionView::Verify { .. }),
            LiveEvent::Proof(ProofEvent::Proved(Err(_))) => live_after(rpc_url, events).action
                == LiveActionView::<B, T, C>::Finish(None),
            LiveEvent::Proof(ProofEvent::Verified(Verdict::Accepted)) => live_after(
                rpc_url,
                events,
            ).action matches LiveActionView::Finish(Some(_)),
            LiveEvent::Proof(ProofEvent::Verified(_)) => live_after(rpc_url, events).action
                == LiveActionView::<B, T, C>::Finish(None),
        },
{
    lemma_live_history(rpc_url, events);
    lemma_live_history(rpc_url, events.drop_last());
}

/// A session awaits every outcome of its last action, whatever the outcome holds, and nothing else.
pub proof fn live_sessions_await_every_outcome<B, T, C>(
    rpc_url: Seq<char>,
    events: Seq<LiveEvent<B, T, C>>,
    event: LiveEvent<B, T, C>,
)
    requires
        live_accepts(rpc_url, events),
    ensures
        live_after(rpc_url, events).stage.awaits(event) <==> match live_after(
            rpc_url,
            events,
        ).action {
            LiveActionView::ParseRequest => event is RequestParsed,
            LiveActionView::BuildRunner(_) => event is RunnerBuilt,
            LiveActionView::Proof(ProofActionView::InitProver) => event
                matches LiveEvent::Proof(ProofEvent::ProverReady),
            LiveActionView::Proof(ProofActionView::Prove { .. }) => event
                matches LiveEvent::Proof(ProofEvent::Proved(_)),
            LiveActionView::Proof(ProofActionView::Verify { .. }) => event
                matches LiveEvent::Proof(ProofEvent::Verified(_)),
            LiveActionView::Proof(ProofActionView::Finish(_)) => false,
            LiveActionView::Finish(_) => false,
        },
{
    lemma_live_history(rpc_url, events);
}

/// Every step is logged: progress in fixed lines, the node, chain and block in use and the text of
/// an error in full.
pub proof fn live_steps_are_logged<B, T, C>(rpc_url: Seq<char>, events: Seq<LiveEvent<B, T, C>>)
    requires
        live_accepts(rpc_url, events),
    ensures
        events.len() == 0 ==> live_after(rpc_url, events).logs == seq!["Parsing request JSON..."@],
        events.len() > 0 ==> live_after(rpc_url, events).logs == match events.last() {
            LiveEvent::RequestParsed(Ok(request)) => match parsed_url(rpc_url) {
                Ok(url) => seq![
                    "Parsing live RPC URL..."@,
                    "Using live RPC node at "@ + url + ", chain_id: "@ + request.chain_id_text@
                        + ", block_id: "@ + request.block_id_text@,
                ],
                Err(e) => seq!["Parsing live RPC URL..."@, "Invalid RPC URL: "@ + e],
            },
            LiveEvent::RequestParsed(Err(e)) => seq!["Failed to parse request JSON: "@ + e@],
            LiveEvent::RunnerBuilt => seq![
                "Initializing VirtualSnosProver (preparing precomputes, this may take a while)..."@,
            ],
            LiveEvent::Proof(ProofEvent::ProverReady) => seq![
                "Running prove_transaction (OS execution + Stwo proving)..."@,
            ],
            LiveEvent::Proof(ProofEvent::Proved(Ok(_))) => seq![
                "prove_transaction succeeded."@,
                "Verifying proof..."@,
            ],
            LiveEvent::Proof(ProofEvent::Proved(Err(e))) => seq![
                "prove_transaction failed: "@ + e@,
            ],
            LiveEvent::Proof(ProofEvent::Verified(Verdict::Accepted)) => seq![
                "Proof verification succeeded!"@,
            ],
            LiveEvent::Proof(ProofEvent::Verified(Verdict::Rejected(e))) => seq![
                "Proof verification failed: "@ + e@,
            ],
            LiveEvent::Proof(ProofEvent::Verified(Verdict::Panicked(e))) => seq![
                "Proof verification task panicked: "@ + e@,
            ],
        },
{
    lemma_live_history(rpc_url, events);
    if events.len() > 0 {
        lemma_live_history(rpc_url, events.drop_last());
        assert(live_after(rpc_url, events) == live_after(rpc_url, events.drop_last()).stage.next(
            events.last(),
        ));
    }
}

/// What the contracts see of a step is the step.
pub proof fn live_step_is_seen_as_it_is<B, T, C>(step: LiveStep<B, T, C>)
    ensures
        step@.stage == match step.stage {
            LiveStage::AwaitRequest { rpc_url } => LiveStageView::AwaitRequest {
                rpc_url: rpc_url@,
            },
            LiveStage::AwaitRunner { block_id, transaction } => LiveStageView::AwaitRunner {
                block_id,
                transaction,
            },
            LiveStage::Proof(stage) => LiveStageView::Proof(stage),
            LiveStage::Done => LiveStageView::Done,
        },
        step@.logs.len() == step.logs@.len(),
        forall|i: int| 0 <= i < step.logs@.len() ==> #[trigger] step@.logs[i] == step.logs@[i]@,
        match step.action {
            LiveAction::ParseRequest => step@.action is ParseRequest,
            LiveAction::BuildRunner(plan) => {
                &&& step@.action matches LiveActionView::BuildRunner(seen)
                &&& seen.rpc_url == plan.rpc_url@
                &&& seen.chain_id == plan.chain_id
                &&& seen.include_state_changes == plan.include_state_changes
                &&& seen.prefetch_state == plan.prefetch_state
            },
            LiveAction::Proof(action) => step@.action == LiveActionView::<B, T, C>::Proof(action@),
            LiveAction::Finish(Some(json)) => step@.action == LiveActionView::<B, T, C>::Finish(
                Some(json@),
            ),
            LiveAction::Finish(None) => step@.action == LiveActionView::<B, T, C>::Finish(None),
        },
{
}

/// What the host reads from the string of a call is the verified result: the bytes before the NUL
/// are text, the text is JSON, and the JSON shows the proof, the facts and the messages that
/// proving gave, in their order.
pub proof fn live_calls_hand_over_the_verified_result<B, T, C>(
    request_json: Option<&[u8]>,
    rpc_url: Option<&[u8]>,
    events: Seq<LiveEvent<B, T, C>>,
    session: Option<Seq<char>>,
)
    requires
        readable(request_json),
        readable(rpc_url),
        live_accepts(input_text(rpc_url), events),
        live_after(input_text(rpc_url), events).action == LiveActionView::<B, T, C>::Finish(
            session,
        ),
        events.last() matches LiveEvent::Proof(ProofEvent::Verified(Verdict::Accepted)),
    ensures
        ({
            let memory = live_call_result(request_json, rpc_url, true, session);
            let text = decode_utf8(memory->0.drop_last());
            &&& memory is Some
            &&& memory->0.last() == 0
            &&& !memory->0.drop_last().contains(0u8)
            &&& valid_utf8(memory->0.drop_last())
            &&& read_json(text) is Some
            &&& events[3] matches LiveEvent::Proof(ProofEvent::Proved(Ok(output)))
            &&& shows_result(read_json(text)->0, output)
        }),
{
    lemma_live_history(input_text(rpc_url), events);
    let output = events[3]->Proof_0->Proved_0->Ok_0;
    let json = result_json(output);
    crate::result_laws::result_json_crosses_the_interface(output);
    crate::json_reader::result_json_reads_back(output);
    crate::c_string::c_string_reads_back(json);
    let memory = c_bytes(json);
    assert forall|i: int| 0 <= i < memory.drop_last().len() implies memory.drop_last()[i] != 0 by {
        assert(memory[i] != 0);
    }
}

/// A session starts with the request and keeps the address that the host gave as it is.
pub proof fn live_sessions_start_with_the_request<B, T, C>(rpc_url: Seq<char>)
    ensures
        live_after(rpc_url, Seq::<LiveEvent<B, T, C>>::empty()).action is ParseRequest,
        live_after(rpc_url, Seq::<LiveEvent<B, T, C>>::empty()).stage == (
        LiveStageView::<B, T>::AwaitRequest { rpc_url }),
        live_start::<B, T, C>(rpc_url) == live_after(
            rpc_url,
            Seq::<LiveEvent<B, T, C>>::empty(),
        ),
{
}

} // verus!
