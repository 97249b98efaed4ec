//! A proving request and the plan for the runner that executes it.

use vstd::prelude::*;

verus! {

/// What a request asks for. `B` names a block, `T` is a transaction, `C` names a chain.
#[derive(Debug)]
pub struct ProveTransactionParams<B, T, C> {
    pub block_id: B,
    pub transaction: T,
    pub chain_id: C,
}

/// How the runner for a transaction is to be built.
#[derive(Debug)]
pub struct RunnerPlan<C> {
    /// The node that the runner talks to.
    pub rpc_url: String,
    /// The chain whose parameters hold.
    pub chain_id: C,
    /// Storage proofs cover what the transaction changes.
    pub include_state_changes: bool,
    /// State is fetched before execution.
    pub prefetch_state: bool,
}

/// How the runner is to be built, as the contracts see it.
pub struct RunnerPlanView<C> {
    pub rpc_url: Seq<char>,
    pub chain_id: C,
    pub include_state_changes: bool,
    pub prefetch_state: bool,
}

impl<C> View for RunnerPlan<C> {
    type V = RunnerPlanView<C>;

    open spec fn view(&self) -> RunnerPlanView<C> {
        RunnerPlanView {
            rpc_url: self.rpc_url@,
            chain_id: self.chain_id,
            include_state_changes: self.include_state_changes,
            prefetch_state: self.prefetch_state,
        }
    }
}

/// The plan for a node and a chain: storage proofs with state changes, no prefetching.
pub open spec fn runner_plan<C>(rpc_url: Seq<char>, chain_id: C) -> RunnerPlanView<C> {
    RunnerPlanView { rpc_url, chain_id, include_state_changes: true, prefetch_state: false }
}

/// Plans the runner for a node and a chain.
pub fn build_runner_factory<C>(rpc_url: String, chain_id: C) -> (plan: RunnerPlan<C>)
    ensures
        plan@ == runner_plan(rpc_url@, chain_id),
        plan.rpc_url@ == rpc_url@,
        plan.chain_id == chain_id,
        plan.include_state_changes,
        !plan.prefetch_state,
{
    RunnerPlan { rpc_url, chain_id, include_state_changes: true, prefetch_state: false }
}

/// Every runner is planned alike: for the given node and chain, with storage proofs that cover what
/// the transaction changes, and without prefetching.
pub proof fn runners_differ_in_node_and_chain_only<C>(rpc_url: Seq<char>, chain_id: C)
    ensures
        runner_plan(rpc_url, chain_id).rpc_url == rpc_url,
        runner_plan(rpc_url, chain_id).chain_id == chain_id,
        runner_plan(rpc_url, chain_id).include_state_changes,
        !runner_plan(rpc_url, chain_id).prefetch_state,
{
}

/// What the contracts see of a plan is the plan.
pub proof fn plan_is_seen_as_it_is<C>(plan: RunnerPlan<C>)
    ensures
        plan@.rpc_url == plan.rpc_url@,
        plan@.chain_id == plan.chain_id,
        plan@.include_state_changes == plan.include_state_changes,
        plan@.prefetch_state == plan.prefetch_state,
{
}

} // verus!
