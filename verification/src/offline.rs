//! Proving against recorded RPC answers: the decisions between the outside calls.

use vstd::prelude::*;
use vstd::string::*;
use crate::proof_run::{
    proof_start, proof_step, prove_and_verify_transaction, ProofAction, ProofActionView,
    ProofEvent, ProofStage, ProofStep, ProofStepView,
};
use crate::request::{
    build_runner_factory, runner_plan, ProveTransactionParams, RunnerPlan, RunnerPlanView,
};
use crate::rpc_url::{parsed_url, report_url, url_parse, url_view};
use crate::status::{
    STATUS_OK, STATUS_REQUEST_JSON_ERROR, STATUS_RPC_RECORDS_JSON_ERROR, STATUS_RPC_URL_ERROR,
};
use crate::text::{add_line, joined, one_line};

verus! {

/// Where a session stands.
#[derive(Debug)]
pub enum OfflineStage<B, T, C> {
    /// The request is being parsed.
    AwaitRequest,
    /// The recorded answers are being parsed.
    AwaitRecords(ProveTransactionParams<B, T, C>),
    /// The server that replays them is being started.
    AwaitServer(ProveTransactionParams<B, T, C>),
    /// The runner is being built.
    AwaitRunner { block_id: B, transaction: T },
    /// The transaction is being proved or the proof verified.
    Proof(ProofStage<B, T>),
    /// The session is over.
    Done,
}

/// What happened outside.
#[derive(Debug)]
pub enum OfflineEvent<B, T, C> {
    /// The request was parsed, or is faulty.
    RequestParsed(Result<ProveTransactionParams<B, T, C>, String>),
    /// The recorded answers were parsed, or are faulty.
    RecordsParsed(Result<(), String>),
    /// The server listens at this address.
    ServerStarted { rpc_url: String },
    /// The runner is built.
    RunnerBuilt,
    /// The proof went on.
    Proof(ProofEvent),
}

/// What to do next.
#[derive(Debug)]
pub enum OfflineAction<B, T, C> {
    /// Parse the request.
    ParseRequest,
    /// Parse the recorded answers.
    ParseRecords,
    /// Start the server that replays them.
    StartServer,
    /// Build the runner.
    BuildRunner(RunnerPlan<C>),
    /// Go on with the proof; this is never its end.
    Proof(ProofAction<B, T>),
    /// The session is over.
    Finish(i32),
}

/// What to do next, as the contracts see it.
pub enum OfflineActionView<B, T, C> {
    ParseRequest,
    ParseRecords,
    StartServer,
    BuildRunner(RunnerPlanView<C>),
    Proof(ProofActionView<B, T>),
    Finish(i32),
}

impl<B, T, C> View for OfflineAction<B, T, C> {
    type V = OfflineActionView<B, T, C>;

    open spec fn view(&self) -> OfflineActionView<B, T, C> {
        match *self {
            OfflineAction::ParseRequest => OfflineActionView::ParseRequest,
            OfflineAction::ParseRecords => OfflineActionView::ParseRecords,
            OfflineAction::StartServer => OfflineActionView::StartServer,
            OfflineAction::BuildRunner(plan) => OfflineActionView::BuildRunner(plan@),
            OfflineAction::Proof(action) => OfflineActionView::Proof(action@),
            OfflineAction::Finish(status) => OfflineActionView::Finish(status),
        }
    }
}

/// A step of a session: the log lines, in order, then the action, and the stage that awaits it.
#[derive(Debug)]
pub struct OfflineStep<B, T, C> {
    pub stage: OfflineStage<B, T, C>,
    pub logs: Vec<String>,
    pub action: OfflineAction<B, T, C>,
}

/// A step, as the contracts see it.
pub struct OfflineStepView<B, T, C> {
    pub stage: OfflineStage<B, T, C>,
    pub logs: Seq<Seq<char>>,
    pub action: OfflineActionView<B, T, C>,
}

impl<B, T, C> View for OfflineStep<B, T, C> {
    type V = OfflineStepView<B, T, C>;

    open spec fn view(&self) -> OfflineStepView<B, T, C> {
        OfflineStepView { stage: self.stage, logs: self.logs.deep_view(), action: self.action@ }
    }
}

impl<B, T, C> OfflineStepView<B, T, C> {
    /// The step that ends a session.
    pub open spec fn finish(logs: Seq<Seq<char>>, status: i32) -> Self {
        OfflineStepView { stage: OfflineStage::Done, logs, action: OfflineActionView::Finish(status) }
    }

    /// A step of the proof as a step of the session: the end of the proof ends the session.
    pub open spec fn of_proof(step: ProofStepView<B, T>) -> Self {
        match step.action {
            ProofActionView::Finish(Ok(_)) => Self::finish(step.logs, STATUS_OK),
            ProofActionView::Finish(Err(status)) => Self::finish(step.logs, status),
            action => OfflineStepView {
                stage: OfflineStage::Proof(step.stage),
                logs: step.logs,
                action: OfflineActionView::Proof(action),
            },
        }
    }
}

/// The first step of a session.
pub open spec fn offline_start<B, T, C>() -> OfflineStepView<B, T, C> {
    OfflineStepView {
        stage: OfflineStage::AwaitRequest,
        logs: seq!["Parsing request JSON..."@],
        action: OfflineActionView::ParseRequest,
    }
}

/// The step when the server listens at `rpc_url`, given what the address parses to.
pub open spec fn offline_listening<B, T, C>(
    params: ProveTransactionParams<B, T, C>,
    rpc_url: Seq<char>,
    parsed: Result<Seq<char>, Seq<char>>,
) -> OfflineStepView<B, T, C> {
    let logs = seq!["Mock server listening at "@ + rpc_url, "Building runner factory..."@];
    match parsed {
        Ok(url) => OfflineStepView {
            stage: OfflineStage::AwaitRunner {
                block_id: params.block_id,
                transaction: params.transaction,
            },
            logs,
            action: OfflineActionView::BuildRunner(runner_plan(url, params.chain_id)),
        },
        Err(e) => OfflineStepView::finish(
            logs.push("Invalid RPC URL: "@ + e),
            STATUS_RPC_URL_ERROR,
        ),
    }
}

impl<B, T, C> OfflineStage<B, T, C> {
    /// The event is one that the stage awaits.
    pub open spec fn awaits(self, event: OfflineEvent<B, T, C>) -> bool {
        match self {
            OfflineStage::AwaitRequest => event is RequestParsed,
            OfflineStage::AwaitRecords(_) => event is RecordsParsed,
            OfflineStage::AwaitServer(_) => event is ServerStarted,
            OfflineStage::AwaitRunner { .. } => event is RunnerBuilt,
            OfflineStage::Proof(stage) => event matches OfflineEvent::Proof(e) && stage.awaits(e),
            OfflineStage::Done => false,
        }
    }

    /// The step that an awaited event leads to.
    pub open spec fn next(self, event: OfflineEvent<B, T, C>) -> OfflineStepView<B, T, C> {
        match (self, event) {
            (
                OfflineStage::AwaitRequest,
                OfflineEvent::RequestParsed(Err(e)),
            ) => OfflineStepView::finish(
                seq!["Failed to parse request JSON: "@ + e@],
                STATUS_REQUEST_JSON_ERROR,
            ),
            (
                OfflineStage::AwaitRequest,
                OfflineEvent::RequestParsed(Ok(params)),
            ) => OfflineStepView {
                stage: OfflineStage::AwaitRecords(params),
                logs: seq!["Parsing RPC records JSON..."@],
                action: OfflineActionView::ParseRecords,
            },
            (
                OfflineStage::AwaitRecords(_),
                OfflineEvent::RecordsParsed(Err(e)),
            ) => OfflineStepView::finish(
                seq!["Failed to parse RPC records: "@ + e@],
                STATUS_RPC_RECORDS_JSON_ERROR,
            ),
            (
                OfflineStage::AwaitRecords(params),
                OfflineEvent::RecordsParsed(Ok(_)),
            ) => OfflineStepView {
                stage: OfflineStage::AwaitServer(params),
                logs: seq!["Starting mock RPC server for offline replay..."@],
                action: OfflineActionView::StartServer,
            },
            (
                OfflineStage::AwaitServer(params),
                OfflineEvent::ServerStarted { rpc_url },
            ) => offline_listening(params, rpc_url@, parsed_url(rpc_url@)),
            (
                OfflineStage::AwaitRunner { block_id, transaction },
                OfflineEvent::RunnerBuilt,
            ) => OfflineStepView::of_proof(proof_start(block_id, transaction)),
            (OfflineStage::Proof(stage), OfflineEvent::Proof(e)) => OfflineStepView::of_proof(
                stage.next(e),
            ),
            (_, _) => arbitrary(),
        }
    }

    /// Whether `event` is one that the stage awaits.
    pub fn accepts(&self, event: &OfflineEvent<B, T, C>) -> (ok: bool)
        ensures
            ok == self.awaits(*event),
    {
        match (self, event) {
            (OfflineStage::AwaitRequest, OfflineEvent::RequestParsed(_)) => true,
            (OfflineStage::AwaitRecords(_), OfflineEvent::RecordsParsed(_)) => true,
            (OfflineStage::AwaitServer(_), OfflineEvent::ServerStarted { .. }) => true,
            (OfflineStage::AwaitRunner { .. }, OfflineEvent::RunnerBuilt) => true,
            (OfflineStage::Proof(stage), OfflineEvent::Proof(e)) => stage.accepts(e),
            (_, _) => false,
        }
    }
}

fn finish<B, T, C>(logs: Vec<String>, status: i32) -> (step: OfflineStep<B, T, C>)
    ensures
        step@ == OfflineStepView::<B, T, C>::finish(logs.deep_view(), status),
{
    OfflineStep { stage: OfflineStage::Done, logs, action: OfflineAction::Finish(status) }
}

fn of_proof<B, T, C>(step: ProofStep<B, T>) -> (r: OfflineStep<B, T, C>)
    ensures
        r@ == OfflineStepView::<B, T, C>::of_proof(step@),
{
    match step.action {
        ProofAction::Finish(Ok(_)) => finish(step.logs, STATUS_OK),
        ProofAction::Finish(Err(status)) => finish(step.logs, status),
        action => OfflineStep {
            stage: OfflineStage::Proof(step.stage),
            logs: step.logs,
            action: OfflineAction::Proof(action),
        },
    }
}

/// Starts a session.
pub fn prove_transaction_async<B, T, C>() -> (step: OfflineStep<B, T, C>)
    ensures
        step@ == offline_start::<B, T, C>(),
{
    OfflineStep {
        stage: OfflineStage::AwaitRequest,
        logs: one_line("Parsing request JSON...".to_owned()),
        action: OfflineAction::ParseRequest,
    }
}

/// Goes on once the server listens at `rpc_url` and that address has been parsed.
pub fn server_listening<B, T, C>(
    params: ProveTransactionParams<B, T, C>,
    rpc_url: &str,
    parsed: Result<String, String>,
) -> (step: OfflineStep<B, T, C>)
    ensures
        step@ == offline_listening(params, rpc_url@, url_view(parsed)),
{
    let mut logs = one_line(joined("Mock server listening at ", rpc_url));
    add_line(&mut logs, "Building runner factory...".to_owned());
    assert(logs.deep_view() =~= seq![
        "Mock server listening at "@ + rpc_url@,
        "Building runner factory..."@,
    ]);
    match report_url(parsed) {
        Ok(url) => OfflineStep {
            stage: OfflineStage::AwaitRunner {
                block_id: params.block_id,
                transaction: params.transaction,
            },
            logs,
            action: OfflineAction::BuildRunner(build_runner_factory(url, params.chain_id)),
        },
        Err(x) => {
            add_line(&mut logs, x.log);
            finish(logs, x.status)
        },
    }
}

/// Goes on with a session after an event.
pub fn offline_step<B, T, C>(stage: OfflineStage<B, T, C>, event: OfflineEvent<B, T, C>) -> (step:
    OfflineStep<B, T, C>)
    requires
        stage.awaits(event),
    ensures
        step@ == stage.next(event),
{
    match (stage, event) {
        (OfflineStage::AwaitRequest, OfflineEvent::RequestParsed(Ok(params))) => OfflineStep {
            stage: OfflineStage::AwaitRecords(params),
            logs: one_line("Parsing RPC records JSON...".to_owned()),
            action: OfflineAction::ParseRecords,
        },
        (OfflineStage::AwaitRequest, OfflineEvent::RequestParsed(Err(e))) => finish(
            one_line(joined("Failed to parse request JSON: ", e.as_str())),
            STATUS_REQUEST_JSON_ERROR,
        ),
        (OfflineStage::AwaitRecords(params), OfflineEvent::RecordsParsed(Ok(_))) => OfflineStep {
            stage: OfflineStage::AwaitServer(params),
            logs: one_line("Starting mock RPC server for offline replay...".to_owned()),
            action: OfflineAction::StartServer,
        },
        (OfflineStage::AwaitRecords(_), OfflineEvent::RecordsParsed(Err(e))) => finish(
            one_line(joined("Failed to parse RPC records: ", e.as_str())),
            STATUS_RPC_RECORDS_JSON_ERROR,
        ),
        (OfflineStage::AwaitServer(params), OfflineEvent::ServerStarted { rpc_url }) => {
            let parsed = url_parse(rpc_url.as_str());
            server_listening(params, rpc_url.as_str(), parsed)
        },
        (
            OfflineStage::AwaitRunner { block_id, transaction },
            OfflineEvent::RunnerBuilt,
        ) => of_proof(prove_and_verify_transaction(block_id, transaction)),
        (OfflineStage::Proof(stage), OfflineEvent::Proof(e)) => of_proof(proof_step(stage, e)),
        (_, _) => vstd::pervasive::unreached(),
    }
}

} // verus!
