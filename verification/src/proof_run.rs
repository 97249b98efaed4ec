//! Proving a transaction and verifying the proof: the decisions between the outside calls.
//!
//! A run asks for one thing at a time by its [`ProofAction`]; the outcome comes back as a
//! [`ProofEvent`].

use vstd::prelude::*;
use vstd::string::*;
use crate::felt::Felt;
use crate::result::ProveTransactionResult;
use crate::status::{
    STATUS_PROOF_VERIFICATION_ERROR, STATUS_PROOF_VERIFICATION_TASK_ERROR,
    STATUS_PROVE_TRANSACTION_ERROR,
};
use crate::text::{add_line, joined, one_line};

verus! {

/// Where a run stands. `B` is the block to prove against, `T` the transaction.
#[derive(Debug)]
pub enum ProofStage<B, T> {
    /// The prover is being set up.
    Initializing { block_id: B, transaction: T },
    /// The transaction is being proved.
    Proving,
    /// The proof is being verified.
    Verifying { output: ProveTransactionResult },
    /// The run is over.
    Done,
}

/// How a verification ended.
#[derive(Debug)]
pub enum Verdict {
    /// The proof verifies.
    Accepted,
    /// The proof does not verify; the reason.
    Rejected(String),
    /// The verification task did not finish; the reason.
    Panicked(String),
}

/// What happened outside.
#[derive(Debug)]
pub enum ProofEvent {
    /// The prover is set up.
    ProverReady,
    /// Proving ended: with a result, or with the text of an error.
    Proved(Result<ProveTransactionResult, String>),
    /// Verification ended.
    Verified(Verdict),
}

/// What to do next.
#[derive(Debug)]
pub enum ProofAction<B, T> {
    /// Set up the prover.
    InitProver,
    /// Prove the transaction against the block.
    Prove { block_id: B, transaction: T },
    /// Verify the proof.
    Verify { proof_facts: Vec<Felt>, proof: Vec<u8> },
    /// The run is over: a verified result, or a status.
    Finish(Result<ProveTransactionResult, i32>),
}

/// What to do next, as the contracts see it.
pub enum ProofActionView<B, T> {
    InitProver,
    Prove { block_id: B, transaction: T },
    Verify { proof_facts: Seq<Felt>, proof: Seq<u8> },
    Finish(Result<ProveTransactionResult, i32>),
}

impl<B, T> View for ProofAction<B, T> {
    type V = ProofActionView<B, T>;

    open spec fn view(&self) -> ProofActionView<B, T> {
        match *self {
            ProofAction::InitProver => ProofActionView::InitProver,
            ProofAction::Prove { block_id, transaction } => ProofActionView::Prove {
                block_id,
                transaction,
            },
            ProofAction::Verify { proof_facts, proof } => ProofActionView::Verify {
                proof_facts: proof_facts@,
                proof: proof@,
            },
            ProofAction::Finish(result) => ProofActionView::Finish(result),
        }
    }
}

/// A step of a run: the log lines, in order, then the action, and the stage that awaits it.
#[derive(Debug)]
pub struct ProofStep<B, T> {
    pub stage: ProofStage<B, T>,
    pub logs: Vec<String>,
    pub action: ProofAction<B, T>,
}

/// A step, as the contracts see it.
pub struct ProofStepView<B, T> {
    pub stage: ProofStage<B, T>,
    pub logs: Seq<Seq<char>>,
    pub action: ProofActionView<B, T>,
}

impl<B, T> View for ProofStep<B, T> {
    type V = ProofStepView<B, T>;

    open spec fn view(&self) -> ProofStepView<B, T> {
        ProofStepView { stage: self.stage, logs: self.logs.deep_view(), action: self.action@ }
    }
}

impl<B, T> ProofStepView<B, T> {
    /// The step that ends a run.
    pub open spec fn finish(log: Seq<char>, result: Result<ProveTransactionResult, i32>) -> Self {
        ProofStepView {
            stage: ProofStage::Done,
            logs: seq![log],
            action: ProofActionView::Finish(result),
        }
    }
}

/// The first step of a run.
pub open spec fn proof_start<B, T>(block_id: B, transaction: T) -> ProofStepView<B, T> {
    ProofStepView {
        stage: ProofStage::Initializing { block_id, transaction },
        logs: seq![
            "Initializing VirtualSnosProver (preparing precomputes, this may take a while)..."@,
        ],
        action: ProofActionView::InitProver,
    }
}

impl<B, T> ProofStage<B, T> {
    /// The event is one that the stage awaits.
    pub open spec fn awaits(self, event: ProofEvent) -> bool {
        match self {
            ProofStage::Initializing { .. } => event is ProverReady,
            ProofStage::Proving => event is Proved,
            ProofStage::Verifying { .. } => event is Verified,
            ProofStage::Done => false,
        }
    }

    /// The step that an awaited event leads to.
    pub open spec fn next(self, event: ProofEvent) -> ProofStepView<B, T> {
        match (self, event) {
            (
                ProofStage::Initializing { block_id, transaction },
                ProofEvent::ProverReady,
            ) => ProofStepView {
                stage: ProofStage::Proving,
                logs: seq!["Running prove_transaction (OS execution + Stwo proving)..."@],
                action: ProofActionView::Prove { block_id, transaction },
            },
            (ProofStage::Proving, ProofEvent::Proved(Err(e))) => ProofStepView::finish(
                "prove_transaction failed: "@ + e@,
                Err(STATUS_PROVE_TRANSACTION_ERROR),
            ),
            (ProofStage::Proving, ProofEvent::Proved(Ok(output))) => ProofStepView {
                stage: ProofStage::Verifying { output },
                logs: seq!["prove_transaction succeeded."@, "Verifying proof..."@],
                action: ProofActionView::Verify {
                    proof_facts: output.proof_facts@,
                    proof: output.proof@,
                },
            },
            (
                ProofStage::Verifying { output },
                ProofEvent::Verified(Verdict::Accepted),
            ) => ProofStepView::finish("Proof verification succeeded!"@, Ok(output)),
            (
                ProofStage::Verifying { .. },
                ProofEvent::Verified(Verdict::Rejected(e)),
            ) => ProofStepView::finish(
                "Proof verification failed: "@ + e@,
                Err(STATUS_PROOF_VERIFICATION_ERROR),
            ),
            (
                ProofStage::Verifying { .. },
                ProofEvent::Verified(Verdict::Panicked(e)),
            ) => ProofStepView::finish(
                "Proof verification task panicked: "@ + e@,
                Err(STATUS_PROOF_VERIFICATION_TASK_ERROR),
            ),
            (_, _) => arbitrary(),
        }
    }

    /// Whether `event` is one that the stage awaits.
    pub fn accepts(&self, event: &ProofEvent) -> (ok: bool)
        ensures
            ok == self.awaits(*event),
    {
        match (self, event) {
            (ProofStage::Initializing { .. }, ProofEvent::ProverReady) => true,
            (ProofStage::Proving, ProofEvent::Proved(_)) => true,
            (ProofStage::Verifying { .. }, ProofEvent::Verified(_)) => true,
            (_, _) => false,
        }
    }
}

fn copy_felts(felts: &Vec<Felt>) -> (copy: Vec<Felt>)
    ensures
        copy@ == felts@,
{
    let mut copy: Vec<Felt> = Vec::new();
    let mut i: usize = 0;
    while i < felts.len()
        invariant
            i <= felts@.len(),
            copy@ == felts@.take(i as int),
        decreases felts@.len() - i,
    {
        copy.push(felts[i]);
        i = i + 1;
        assert(copy@ =~= felts@.take(i as int));
    }
    assert(felts@.take(i as int) =~= felts@);
    copy
}

fn copy_bytes(bytes: &Vec<u8>) -> (copy: Vec<u8>)
    ensures
        copy@ == bytes@,
{
    let copy = bytes.clone();
    assert(copy@ =~= bytes@);
    copy
}

fn finish<B, T>(log: String, result: Result<ProveTransactionResult, i32>) -> (step: ProofStep<
    B,
    T,
>)
    ensures
        step@ == ProofStepView::<B, T>::finish(log@, result),
{
    ProofStep { stage: ProofStage::Done, logs: one_line(log), action: ProofAction::Finish(result) }
}

/// Starts to prove and verify a transaction.
pub fn prove_and_verify_transaction<B, T>(block_id: B, transaction: T) -> (step: ProofStep<B, T>)
    ensures
        step@ == proof_start(block_id, transaction),
{
    ProofStep {
        stage: ProofStage::Initializing { block_id, transaction },
        logs: one_line(
            "Initializing VirtualSnosProver (preparing precomputes, this may take a while)...".to_owned(),
        ),
        action: ProofAction::InitProver,
    }
}

/// Goes on with a run after an event.
pub fn proof_step<B, T>(stage: ProofStage<B, T>, event: ProofEvent) -> (step: ProofStep<B, T>)
    requires
        stage.awaits(event),
    ensures
        step@ == stage.next(event),
{
    match stage {
        ProofStage::Initializing { block_id, transaction } => ProofStep {
            stage: ProofStage::Proving,
            logs: one_line(
                "Running prove_transaction (OS execution + Stwo proving)...".to_owned(),
            ),
            action: ProofAction::Prove { block_id, transaction },
        },
        ProofStage::Proving => match event {
            ProofEvent::Proved(Ok(output)) => {
                let mut logs = one_line("prove_transaction succeeded.".to_owned());
                add_line(&mut logs, "Verifying proof...".to_owned());
                assert(logs.deep_view() =~= seq![
                    "prove_transaction succeeded."@,
                    "Verifying proof..."@,
                ]);
                let proof_facts = copy_felts(&output.proof_facts);
                let proof = copy_bytes(&output.proof);
                ProofStep {
                    stage: ProofStage::Verifying { output },
                    logs,
                    action: ProofAction::Verify { proof_facts, proof },
                }
            },
            ProofEvent::Proved(Err(e)) => finish(
                joined("prove_transaction failed: ", e.as_str()),
                Err(STATUS_PROVE_TRANSACTION_ERROR),
            ),
            _ => vstd::pervasive::unreached(),
        },
        ProofStage::Verifying { output } => match event {
            ProofEvent::Verified(Verdict::Accepted) => finish(
                "Proof verification succeeded!".to_owned(),
                Ok(output),
            ),
            ProofEvent::Verified(Verdict::Rejected(e)) => finish(
                joined("Proof verification failed: ", e.as_str()),
                Err(STATUS_PROOF_VERIFICATION_ERROR),
            ),
            ProofEvent::Verified(Verdict::Panicked(e)) => finish(
                joined("Proof verification task panicked: ", e.as_str()),
                Err(STATUS_PROOF_VERIFICATION_TASK_ERROR),
            ),
            _ => vstd::pervasive::unreached(),
        },
        ProofStage::Done => vstd::pervasive::unreached(),
    }
}

} // verus!
