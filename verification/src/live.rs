//! Proving against a live RPC node: the decisions between the outside calls, and the string that
//! the host gets.

use vstd::prelude::*;
use vstd::string::*;
use vstd::utf8::*;
use crate::c_string::{c_bytes, is_first_nul, to_c_string, NulFault};
use crate::proof_run::{
    proof_start, proof_step, prove_and_verify_transaction, ProofAction, ProofActionView,
    ProofEvent, ProofStage, ProofStep, ProofStepView,
};
use crate::request::{
    build_runner_factory, runner_plan, ProveTransactionParams, RunnerPlan, RunnerPlanView,
};
use crate::result::{result_json, serialize_prove_transaction_result};
use crate::rpc_url::{parsed_url, report_url, url_parse, url_view};
use crate::text::{add_line, joined, one_line};

verus! {

/// A parsed request, with the texts that the log shows of it.
#[derive(Debug)]
pub struct LiveRequest<B, T, C> {
    pub params: ProveTransactionParams<B, T, C>,
    /// The chain, as it is displayed.
    pub chain_id_text: String,
    /// The block, as it is written for debugging.
    pub block_id_text: String,
}

/// Where a session stands.
#[derive(Debug)]
pub enum LiveStage<B, T> {
    /// The request is being parsed; `rpc_url` is the node's address as the host gave it.
    AwaitRequest { rpc_url: String },
    /// The runner is being built.
    AwaitRunner { block_id: B, transaction: T },
    /// The transaction is being proved or the proof verified.
    Proof(ProofStage<B, T>),
    /// The session is over.
    Done,
}

/// What happened outside.
#[derive(Debug)]
pub enum LiveEvent<B, T, C> {
    /// The request was parsed, or is faulty.
    RequestParsed(Result<LiveRequest<B, T, C>, String>),
    /// The runner is built.
    RunnerBuilt,
    /// The proof went on.
    Proof(ProofEvent),
}

/// What to do next.
#[derive(Debug)]
pub enum LiveAction<B, T, C> {
    /// Parse the request.
    ParseRequest,
    /// Build the runner.
    BuildRunner(RunnerPlan<C>),
    /// Go on with the proof; this is never its end.
    Proof(ProofAction<B, T>),
    /// The session is over: the JSON of a verified result, if there is one.
    Finish(Option<String>),
}

/// What to do next, as the contracts see it.
pub enum LiveActionView<B, T, C> {
    ParseRequest,
    BuildRunner(RunnerPlanView<C>),
    Proof(ProofActionView<B, T>),
    Finish(Option<Seq<char>>),
}

impl<B, T, C> View for LiveAction<B, T, C> {
    type V = LiveActionView<B, T, C>;

    open spec fn view(&self) -> LiveActionView<B, T, C> {
        match *self {
            LiveAction::ParseRequest => LiveActionView::ParseRequest,
            LiveAction::BuildRunner(plan) => LiveActionView::BuildRunner(plan@),
            LiveAction::Proof(action) => LiveActionView::Proof(action@),
            LiveAction::Finish(Some(json)) => LiveActionView::Finish(Some(json@)),
            LiveAction::Finish(None) => LiveActionView::Finish(None),
        }
    }
}

/// A step of a session: the log lines, in order, then the action, and the stage that awaits it.
#[derive(Debug)]
pub struct LiveStep<B, T, C> {
    pub stage: LiveStage<B, T>,
    pub logs: Vec<String>,
    pub action: LiveAction<B, T, C>,
}

/// The stage of a session, as the contracts see it.
pub enum LiveStageView<B, T> {
    AwaitRequest { rpc_url: Seq<char> },
    AwaitRunner { block_id: B, transaction: T },
    Proof(ProofStage<B, T>),
    Done,
}

impl<B, T> View for LiveStage<B, T> {
    type V = LiveStageView<B, T>;

    open spec fn view(&self) -> LiveStageView<B, T> {
        match *self {
            LiveStage::AwaitRequest { rpc_url } => LiveStageView::AwaitRequest {
                rpc_url: rpc_url@,
            },
            LiveStage::AwaitRunner { block_id, transaction } => LiveStageView::AwaitRunner {
                block_id,
                transaction,
            },
            LiveStage::Proof(stage) => LiveStageView::Proof(stage),
            LiveStage::Done => LiveStageView::Done,
        }
    }
}

/// A step, as the contracts see it.
pub struct LiveStepView<B, T, C> {
    pub stage: LiveStageView<B, T>,
    pub logs: Seq<Seq<char>>,
    pub action: LiveActionView<B, T, C>,
}

impl<B, T, C> View for LiveStep<B, T, C> {
    type V = LiveStepView<B, T, C>;

    open spec fn view(&self) -> LiveStepView<B, T, C> {
        LiveStepView { stage: self.stage@, logs: self.logs.deep_view(), action: self.action@ }
    }
}

impl<B, T, C> LiveStepView<B, T, C> {
    /// The step that ends a session.
    pub open spec fn finish(logs: Seq<Seq<char>>, json: Option<Seq<char>>) -> Self {
        LiveStepView { stage: LiveStageView::Done, logs, action: LiveActionView::Finish(json) }
    }

    /// A step of the proof as a step of the session: the end of the proof ends the session, with
    /// the JSON of the result if the proof was verified.
    pub open spec fn of_proof(step: ProofStepView<B, T>) -> Self {
        match step.action {
            ProofActionView::Finish(Ok(output)) => Self::finish(
                step.logs,
                Some(result_json(output)),
            ),
            ProofActionView::Finish(Err(_)) => Self::finish(step.logs, None),
            action => LiveStepView {
                stage: LiveStageView::Proof(step.stage),
                logs: step.logs,
                action: LiveActionView::Proof(action),
            },
        }
    }
}

/// The first step of a session with the node at `rpc_url`.
pub open spec fn live_start<B, T, C>(rpc_url: Seq<char>) -> LiveStepView<B, T, C> {
    LiveStepView {
        stage: LiveStageView::AwaitRequest { rpc_url },
        logs: seq!["Parsing request JSON..."@],
        action: LiveActionView::ParseRequest,
    }
}

/// The line on the node that is used.
pub open spec fn node_line(url: Seq<char>, chain_id: Seq<char>, block_id: Seq<char>) -> Seq<char> {
    "Using live RPC node at "@ + url + ", chain_id: "@ + chain_id + ", block_id: "@ + block_id
}

/// The step when the request is parsed, given what the node's address parses to.
pub open spec fn live_requested<B, T, C>(
    request: LiveRequest<B, T, C>,
    parsed: Result<Seq<char>, Seq<char>>,
) -> LiveStepView<B, T, C> {
    match parsed {
        Ok(url) => LiveStepView {
            stage: LiveStageView::AwaitRunner {
                block_id: request.params.block_id,
                transaction: request.params.transaction,
            },
            logs: seq![
                "Parsing live RPC URL..."@,
                node_line(url, request.chain_id_text@, request.block_id_text@),
            ],
            action: LiveActionView::BuildRunner(runner_plan(url, request.params.chain_id)),
        },
        Err(e) => LiveStepView::finish(
            seq!["Parsing live RPC URL..."@, "Invalid RPC URL: "@ + e],
            None,
        ),
    }
}

impl<B, T> LiveStageView<B, T> {
    /// The event is one that the stage awaits.
    pub open spec fn awaits<C>(self, event: LiveEvent<B, T, C>) -> bool {
        match self {
            LiveStageView::AwaitRequest { .. } => event is RequestParsed,
            LiveStageView::AwaitRunner { .. } => event is RunnerBuilt,
            LiveStageView::Proof(stage) => event matches LiveEvent::Proof(e) && stage.awaits(e),
            LiveStageView::Done => false,
        }
    }

    /// The step that an awaited event leads to.
    pub open spec fn next<C>(self, event: LiveEvent<B, T, C>) -> LiveStepView<B, T, C> {
        match (self, event) {
            (
                LiveStageView::AwaitRequest { .. },
                LiveEvent::RequestParsed(Err(e)),
            ) => LiveStepView::finish(seq!["Failed to parse request JSON: "@ + e@], None),
            (
                LiveStageView::AwaitRequest { rpc_url },
                LiveEvent::RequestParsed(Ok(request)),
            ) => live_requested(request, parsed_url(rpc_url)),
            (
                LiveStageView::AwaitRunner { block_id, transaction },
                LiveEvent::RunnerBuilt,
            ) => LiveStepView::of_proof(proof_start(block_id, transaction)),
            (LiveStageView::Proof(stage), LiveEvent::Proof(e)) => LiveStepView::of_proof(
                stage.next(e),
            ),
            (_, _) => arbitrary(),
        }
    }
}

impl<B, T> LiveStage<B, T> {
    /// Whether `event` is one that the stage awaits.
    pub fn accepts<C>(&self, event: &LiveEvent<B, T, C>) -> (ok: bool)
        ensures
            ok == self@.awaits(*event),
    {
        match (self, event) {
            (LiveStage::AwaitRequest { .. }, LiveEvent::RequestParsed(_)) => true,
            (LiveStage::AwaitRunner { .. }, LiveEvent::RunnerBuilt) => true,
            (LiveStage::Proof(stage), LiveEvent::Proof(e)) => stage.accepts(e),
            (_, _) => false,
        }
    }
}

fn give_up<B, T, C>(logs: Vec<String>) -> (step: LiveStep<B, T, C>)
    ensures
        step@ == LiveStepView::<B, T, C>::finish(logs.deep_view(), None),
{
    LiveStep { stage: LiveStage::Done, logs, action: LiveAction::Finish(None) }
}

fn of_proof<B, T, C>(step: ProofStep<B, T>) -> (r: LiveStep<B, T, C>)
    ensures
        r@ == LiveStepView::<B, T, C>::of_proof(step@),
{
    match step.action {
        ProofAction::Finish(Ok(output)) => match serialize_prove_transaction_result(&output) {
            Ok(json) => LiveStep {
                stage: LiveStage::Done,
                logs: step.logs,
                action: LiveAction::Finish(Some(json)),
            },
            Err(x) => {
                let mut logs = step.logs;
                add_line(&mut logs, x.log);
                give_up(logs)
            },
        },
        ProofAction::Finish(Err(_)) => give_up(step.logs),
        action => LiveStep {
            stage: LiveStage::Proof(step.stage),
            logs: step.logs,
            action: LiveAction::Proof(action),
        },
    }
}

/// Starts a session with the node at `rpc_url`.
pub fn prove_transaction_live_async<B, T, C>(rpc_url: String) -> (step: LiveStep<B, T, C>)
    ensures
        step@ == live_start::<B, T, C>(rpc_url@),
{
    LiveStep {
        stage: LiveStage::AwaitRequest { rpc_url },
        logs: one_line("Parsing request JSON...".to_owned()),
        action: LiveAction::ParseRequest,
    }
}

/// Goes on once the request and the node's address have been parsed.
pub fn live_node_parsed<B, T, C>(
    request: LiveRequest<B, T, C>,
    parsed: Result<String, String>,
) -> (step: LiveStep<B, T, C>)
    ensures
        step@ == live_requested(request, url_view(parsed)),
{
    let mut logs = one_line("Parsing live RPC URL...".to_owned());
    match report_url(parsed) {
        Ok(url) => {
            let mut line = joined("Using live RPC node at ", url.as_str());
            line.append(", chain_id: ");
            line.append(request.chain_id_text.as_str());
            line.append(", block_id: ");
            line.append(request.block_id_text.as_str());
            add_line(&mut logs, line);
            let params = request.params;
            let plan = build_runner_factory(url, params.chain_id);
            let step = LiveStep {
                stage: LiveStage::AwaitRunner {
                    block_id: params.block_id,
                    transaction: params.transaction,
                },
                logs,
                action: LiveAction::BuildRunner(plan),
            };
            assert(step@.logs =~= live_requested(request, url_view(parsed)).logs);
            step
        },
        Err(x) => {
            add_line(&mut logs, x.log);
            assert(logs.deep_view() =~= live_requested(request, url_view(parsed)).logs);
            give_up(logs)
        },
    }
}

/// Goes on with a session after an event.
pub fn live_step<B, T, C>(stage: LiveStage<B, T>, event: LiveEvent<B, T, C>) -> (step: LiveStep<
    B,
    T,
    C,
>)
    requires
        stage@.awaits(event),
    ensures
        step@ == stage@.next(event),
{
    match (stage, event) {
        (LiveStage::AwaitRequest { .. }, LiveEvent::RequestParsed(Err(e))) => give_up(
            one_line(joined("Failed to parse request JSON: ", e.as_str())),
        ),
        (LiveStage::AwaitRequest { rpc_url }, LiveEvent::RequestParsed(Ok(request))) => {
            let parsed = url_parse(rpc_url.as_str());
            live_node_parsed(request, parsed)
        },
        (LiveStage::AwaitRunner { block_id, transaction }, LiveEvent::RunnerBuilt) => of_proof(
            prove_and_verify_transaction(block_id, transaction),
        ),
        (LiveStage::Proof(stage), LiveEvent::Proof(e)) => of_proof(proof_step(stage, e)),
        (_, _) => vstd::pervasive::unreached(),
    }
}

/// The session, run inside the prover's runtime, gave this JSON. The error says why the runtime
/// could not be created.
pub open spec fn returned_json(run: Result<Option<String>, String>) -> Option<Seq<char>> {
    match run {
        Ok(Some(json)) => Some(json@),
        Ok(None) => None,
        Err(_) => None,
    }
}

/// The C string that the host gets for a session that ran inside the prover's runtime. Where it
/// gets a null pointer there may be a line for its log: a session without a result has logged the
/// reason already.
pub fn live_result(run: Result<Option<String>, String>) -> (r: Result<Vec<u8>, Option<String>>)
    ensures
        r is Ok <==> (returned_json(run) matches Some(json) && !json.contains('\0')),
        r matches Ok(v) ==> v@ == c_bytes(returned_json(run)->0),
        r is Ok <==> (run matches Ok(Some(json)) && !json@.contains('\0')),
        r matches Ok(v) ==> v@ == encode_utf8(run->Ok_0->0@).push(0),
        r matches Err(log) ==> (log is Some <==> returned_json(run) is Some),
        r matches Err(Some(line)) ==> exists|fault: NulFault|
            is_first_nul(encode_utf8(returned_json(run)->0), fault.position as int) && line@
                == "Failed to convert proof result into a C string: "@ + #[trigger] fault.text(),
{
    match run {
        Ok(Some(json)) => match to_c_string(json.as_str()) {
            Ok(v) => Ok(v),
            Err(fault) => {
                let line = joined(
                    "Failed to convert proof result into a C string: ",
                    fault.describe().as_str(),
                );
                assert(line@ == "Failed to convert proof result into a C string: "@ + fault.text());
                Err(Some(line))
            },
        },
        Ok(None) => Err(None),
        Err(_) => Err(None),
    }
}

/// A run returns the JSON of its session, whatever it holds; a run without a session returns none.
pub proof fn runs_return_the_session_json(json: String, reason: String)
    ensures
        returned_json(Ok(Some(json))) == Some(json@),
        returned_json(Ok(None)) is None,
        returned_json(Err(reason)) is None,
{
}

} // verus!
