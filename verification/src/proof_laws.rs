//! What holds of whole runs: how a result or a status came about, which values were handed on,
//! and that runs end.

use vstd::prelude::*;
use crate::proof_run::{
    proof_start, ProofAction, ProofActionView, ProofEvent, ProofStage, ProofStep, ProofStepView,
    Verdict,
};
use crate::result::ProveTransactionResult;
use crate::status::{
    STATUS_PROOF_VERIFICATION_ERROR, STATUS_PROOF_VERIFICATION_TASK_ERROR,
    STATUS_PROVE_TRANSACTION_ERROR,
};

verus! {

/// The last step of a run after `events`.
pub open spec fn proof_after<B, T>(
    block_id: B,
    transaction: T,
    events: Seq<ProofEvent>,
) -> ProofStepView<B, T>
    decreases events.len(),
{
    if events.len() == 0 {
        proof_start(block_id, transaction)
    } else {
        proof_after(block_id, transaction, events.drop_last()).stage.next(events.last())
    }
}

/// Each of `events` was awaited when it came.
pub open spec fn proof_accepts<B, T>(block_id: B, transaction: T, events: Seq<ProofEvent>) -> bool
    decreases events.len(),
{
    events.len() == 0 || (proof_accepts(block_id, transaction, events.drop_last()) && proof_after(
        block_id,
        transaction,
        events.drop_last(),
    ).stage.awaits(events.last()))
}

/// Proving gave `output`.
pub open spec fn is_proved(event: ProofEvent, output: ProveTransactionResult) -> bool {
    event matches ProofEvent::Proved(Ok(o)) && o == output
}

/// What a stage of a run says of the events before it.
spec fn proof_history<B, T>(block_id: B, transaction: T, events: Seq<ProofEvent>) -> bool {
    let step = proof_after(block_id, transaction, events);
    match step.stage {
        ProofStage::Initializing { block_id: b, transaction: t } => {
            &&& events.len() == 0
            &&& b == block_id
            &&& t == transaction
            &&& step.action is InitProver
        },
        ProofStage::Proving => {
            &&& events.len() == 1
            &&& step.action == ProofActionView::Prove { block_id, transaction }
        },
        ProofStage::Verifying { output } => {
            &&& events.len() == 2
            &&& is_proved(events[1], output)
            &&& step.action == ProofActionView::<B, T>::Verify {
                proof_facts: output.proof_facts@,
                proof: output.proof@,
            }
        },
        ProofStage::Done => {
            &&& step.action is Finish
            &&& match step.action->Finish_0 {
                Ok(output) => {
                    &&& events.len() == 3
                    &&& is_proved(events[1], output)
                    &&& events[2] == ProofEvent::Verified(Verdict::Accepted)
                },
                Err(status) => {
                    ||| {
                        &&& status == STATUS_PROVE_TRANSACTION_ERROR
                        &&& events.len() == 2
                        &&& events[1] matches ProofEvent::Proved(Err(_))
                    }
                    ||| {
                        &&& status == STATUS_PROOF_VERIFICATION_ERROR
                        &&& events.len() == 3
                        &&& events[2] matches ProofEvent::Verified(Verdict::Rejected(_))
                    }
                    ||| {
                        &&& status == STATUS_PROOF_VERIFICATION_TASK_ERROR
                        &&& events.len() == 3
                        &&& events[2] matches ProofEvent::Verified(Verdict::Panicked(_))
                    }
                },
            }
        },
    }
}

proof fn lemma_proof_history<B, T>(block_id: B, transaction: T, events: Seq<ProofEvent>)
    requires
        proof_accepts(block_id, transaction, events),
    ensures
        proof_history(block_id, transaction, events),
        proof_after(block_id, transaction, events).logs.len() > 0,
    decreases events.len(),
{
    if events.len() > 0 {
        lemma_proof_history(block_id, transaction, events.drop_last());
    }
}

/// A run ends with a result exactly when the last proof that was made has been verified, and the
/// result is the one that was proved.
pub proof fn only_verified_results_are_returned<B, T>(
    block_id: B,
    transaction: T,
    events: Seq<ProofEvent>,
    output: ProveTransactionResult,
)
    requires
        proof_accepts(block_id, transaction, events),
    ensures
        proof_after(block_id, transaction, events).action == ProofActionView::<B, T>::Finish(
            Ok(output),
        ) <==> {
            &&& events.len() == 3
            &&& is_proved(events[1], output)
            &&& events[2] == ProofEvent::Verified(Verdict::Accepted)
        },
{
    lemma_proof_history(block_id, transaction, events);
    if events.len() == 3 {
        lemma_proof_history(block_id, transaction, events.drop_last());
    }
}

/// The block and the transaction that are proved are those the run was started with, and what is
/// verified are the proof and the facts that proving gave.
pub proof fn proof_run_hands_values_on<B, T>(
    block_id: B,
    transaction: T,
    events: Seq<ProofEvent>,
)
    requires
        proof_accepts(block_id, transaction, events),
    ensures
        proof_after(block_id, transaction, events).action matches ProofActionView::Prove {
            block_id: b,
            transaction: t,
        } ==> b == block_id && t == transaction,
        proof_after(block_id, transaction, events).action matches ProofActionView::Verify {
            proof_facts,
            proof,
        } ==> events.len() == 2 && (events[1] matches ProofEvent::Proved(Ok(output)) && proof_facts
            == output.proof_facts@ && proof == output.proof@),
{
    lemma_proof_history(block_id, transaction, events);
}

/// The status of a failed run tells what failed: proving, verification, or the verification task.
pub proof fn proof_status_tells_the_cause<B, T>(
    block_id: B,
    transaction: T,
    events: Seq<ProofEvent>,
    status: i32,
)
    requires
        proof_accepts(block_id, transaction, events),
        proof_after(block_id, transaction, events).action == ProofActionView::<B, T>::Finish(
            Err(status),
        ),
    ensures
        status == STATUS_PROVE_TRANSACTION_ERROR <==> (events.last() matches ProofEvent::Proved(
            Err(_),
        )),
        status == STATUS_PROOF_VERIFICATION_ERROR <==> (events.last() matches ProofEvent::Verified(
            Verdict::Rejected(_),
        )),
        status == STATUS_PROOF_VERIFICATION_TASK_ERROR <==> (
        events.last() matches ProofEvent::Verified(Verdict::Panicked(_))),
        status == STATUS_PROVE_TRANSACTION_ERROR || status == STATUS_PROOF_VERIFICATION_ERROR
            || status == STATUS_PROOF_VERIFICATION_TASK_ERROR,
{
    lemma_proof_history(block_id, transaction, events);
}

/// A run ends after at most three events; until it has ended it awaits the outcome of its last
/// action, and then nothing. Every step is reported.
pub proof fn proof_runs_end<B, T>(
    block_id: B,
    transaction: T,
    events: Seq<ProofEvent>,
    event: ProofEvent,
)
    requires
        proof_accepts(block_id, transaction, events),
    ensures
        events.len() <= 3,
        events.len() == 3 ==> proof_after(block_id, transaction, events).action is Finish,
        proof_after(block_id, transaction, events).stage.awaits(event) <==> match proof_after(
            block_id,
            transaction,
            events,
        ).action {
            ProofActionView::InitProver => event is ProverReady,
            ProofActionView::Prove { .. } => event is Proved,
            ProofActionView::Verify { .. } => event is Verified,
            ProofActionView::Finish(_) => false,
        },
        proof_after(block_id, transaction, events).logs.len() > 0,
{
    lemma_proof_history(block_id, transaction, events);
}

/// What follows each event: a prover that is ready proves the transaction that the run was started
/// with, a proof is verified with its facts before anything is returned, and the run ends where
/// something fails or the proof was verified.
pub proof fn proof_runs_prove_and_verify<B, T>(
    block_id: B,
    transaction: T,
    events: Seq<ProofEvent>,
)
    requires
        proof_accepts(block_id, transaction, events),
    ensures
        events.len() == 0 ==> proof_after(block_id, transaction, events).action is InitProver,
        events.len() > 0 ==> match events.last() {
            ProofEvent::ProverReady => proof_after(block_id, transaction, events).action
                == (ProofActionView::Prove { block_id, transaction }),
            ProofEvent::Proved(Ok(output)) => proof_after(block_id, transaction, events).action
                == (ProofActionView::<B, T>::Verify {
                proof_facts: output.proof_facts@,
                proof: output.proof@,
            }),
            ProofEvent::Proved(Err(_)) => proof_after(block_id, transaction, events).action
                == ProofActionView::<B, T>::Finish(Err(5)),
            ProofEvent::Verified(Verdict::Accepted) => {
                &&& events[1] matches ProofEvent::Proved(Ok(output))
                &&& proof_after(block_id, transaction, events).action == ProofActionView::<
                    B,
                    T,
                >::Finish(Ok(output))
            },
            ProofEvent::Verified(Verdict::Rejected(_)) => proof_after(
                block_id,
                transaction,
                events,
            ).action == ProofActionView::<B, T>::Finish(Err(6)),
            ProofEvent::Verified(Verdict::Panicked(_)) => proof_after(
                block_id,
                transaction,
                events,
            ).action == ProofActionView::<B, T>::Finish(Err(7)),
        },
{
    lemma_proof_history(block_id, transaction, events);
    if events.len() > 0 {
        lemma_proof_history(block_id, transaction, events.drop_last());
    }
}

/// Every step is logged: progress in fixed lines, the text of an error in full.
pub proof fn proof_steps_are_logged<B, T>(block_id: B, transaction: T, events: Seq<ProofEvent>)
    requires
        proof_accepts(block_id, transaction, events),
    ensures
        events.len() == 0 ==> proof_after(block_id, transaction, events).logs == seq![
            "Initializing VirtualSnosProver (preparing precomputes, this may take a while)..."@,
        ],
        events.len() > 0 ==> proof_after(block_id, transaction, events).logs
            == match events.last() {
            ProofEvent::ProverReady => seq![
                "Running prove_transaction (OS execution + Stwo proving)..."@,
            ],
            ProofEvent::Proved(Ok(_)) => seq![
                "prove_transaction succeeded."@,
                "Verifying proof..."@,
            ],
            ProofEvent::Proved(Err(e)) => seq!["prove_transaction failed: "@ + e@],
            ProofEvent::Verified(Verdict::Accepted) => seq!["Proof verification succeeded!"@],
            ProofEvent::Verified(Verdict::Rejected(e)) => seq![
                "Proof verification failed: "@ + e@,
            ],
            ProofEvent::Verified(Verdict::Panicked(e)) => seq![
                "Proof verification task panicked: "@ + e@,
            ],
        },
{
    lemma_proof_history(block_id, transaction, events);
    if events.len() > 0 {
        lemma_proof_history(block_id, transaction, events.drop_last());
    }
}

/// What the contracts see of a step is the step.
pub proof fn proof_step_is_seen_as_it_is<B, T>(step: ProofStep<B, T>)
    ensures
        step@.stage == step.stage,
        step@.logs.len() == step.logs@.len(),
        forall|i: int| 0 <= i < step.logs@.len() ==> #[trigger] step@.logs[i] == step.logs@[i]@,
        step@.action == match step.action {
            ProofAction::InitProver => ProofActionView::InitProver,
            ProofAction::Prove { block_id, transaction } => ProofActionView::Prove {
                block_id,
                transaction,
            },
            ProofAction::Verify { proof_facts, proof } => ProofActionView::Verify {
                proof_facts: proof_facts@,
                proof: proof@,
            },
            ProofAction::Finish(result) => ProofActionView::Finish(result),
        },
{
}

} // verus!
