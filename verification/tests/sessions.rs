//! Whole sessions, event by event.

use prover_ffi::call::{live_outcome, offline_outcome, prove_privacy_demo};
use prover_ffi::felt::Felt;
use prover_ffi::live::{
    live_node_parsed, live_result, live_step, prove_transaction_live_async, LiveAction, LiveEvent,
    LiveRequest, LiveStage, LiveStep,
};
use prover_ffi::offline::{
    offline_step, prove_transaction_async, server_listening, OfflineAction, OfflineEvent,
    OfflineStage, OfflineStep,
};
use prover_ffi::proof_run::{
    proof_step, prove_and_verify_transaction, ProofAction, ProofEvent, ProofStage, Verdict,
};
use prover_ffi::request::{build_runner_factory, ProveTransactionParams};
use prover_ffi::result::{to_json, ProveTransactionResult};

fn output() -> ProveTransactionResult {
    let mut one = [0_u8; 32];
    one[31] = 1;
    ProveTransactionResult {
        proof: vec![9, 8, 7],
        proof_facts: vec![Felt::from_bytes_be(&one).unwrap()],
        l2_to_l1_messages: vec![],
    }
}

fn params() -> ProveTransactionParams<u64, &'static str, char> {
    ProveTransactionParams { block_id: 17, transaction: "tx", chain_id: 'c' }
}

fn request() -> LiveRequest<u64, &'static str, char> {
    LiveRequest {
        params: params(),
        chain_id_text: "SN_SEPOLIA".to_owned(),
        block_id_text: "Number(BlockNumber(17))".to_owned(),
    }
}

type Offline = OfflineStep<u64, &'static str, char>;
type Live = LiveStep<u64, &'static str, char>;

fn offline(events: Vec<OfflineEvent<u64, &'static str, char>>) -> (Vec<String>, Offline) {
    let mut step: Offline = prove_transaction_async();
    let mut log = Vec::new();
    for event in events {
        log.append(&mut step.logs);
        assert!(step.stage.accepts(&event));
        step = offline_step(step.stage, event);
    }
    log.append(&mut step.logs);
    (log, step)
}

fn live(url: &str, events: Vec<LiveEvent<u64, &'static str, char>>) -> (Vec<String>, Live) {
    let mut step: Live = prove_transaction_live_async(url.to_owned());
    let mut log = Vec::new();
    for event in events {
        log.append(&mut step.logs);
        assert!(step.stage.accepts(&event));
        step = live_step(step.stage, event);
    }
    log.append(&mut step.logs);
    (log, step)
}

fn offline_events(n: usize) -> Vec<OfflineEvent<u64, &'static str, char>> {
    let all = vec![
        OfflineEvent::RequestParsed(Ok(params())),
        OfflineEvent::RecordsParsed(Ok(())),
        OfflineEvent::ServerStarted { rpc_url: "http://127.0.0.1:4000".to_owned() },
        OfflineEvent::RunnerBuilt,
        OfflineEvent::Proof(ProofEvent::ProverReady),
        OfflineEvent::Proof(ProofEvent::Proved(Ok(output()))),
        OfflineEvent::Proof(ProofEvent::Verified(Verdict::Accepted)),
    ];
    all.into_iter().take(n).collect()
}

fn live_events(n: usize) -> Vec<LiveEvent<u64, &'static str, char>> {
    let all = vec![
        LiveEvent::RequestParsed(Ok(request())),
        LiveEvent::RunnerBuilt,
        LiveEvent::Proof(ProofEvent::ProverReady),
        LiveEvent::Proof(ProofEvent::Proved(Ok(output()))),
        LiveEvent::Proof(ProofEvent::Verified(Verdict::Accepted)),
    ];
    all.into_iter().take(n).collect()
}

fn offline_status(events: Vec<OfflineEvent<u64, &'static str, char>>) -> (i32, String) {
    let (log, step) = offline(events);
    assert!(matches!(step.stage, OfflineStage::Done));
    match step.action {
        OfflineAction::Finish(status) => (status, log.last().unwrap().clone()),
        other => panic!("session goes on with {:?}", other),
    }
}

#[test]
fn runner_plans_are_fixed_but_for_node_and_chain() {
    let plan = build_runner_factory("http://node/".to_owned(), 5_u8);
    assert_eq!(plan.rpc_url, "http://node/");
    assert_eq!(plan.chain_id, 5);
    assert!(plan.include_state_changes);
    assert!(!plan.prefetch_state);
}

#[test]
fn successful_offline_session_logs_each_step() {
    let (log, step) = offline(offline_events(7));
    assert!(matches!(step.action, OfflineAction::Finish(0)));
    assert_eq!(
        log,
        vec![
            "Parsing request JSON...",
            "Parsing RPC records JSON...",
            "Starting mock RPC server for offline replay...",
            "Mock server listening at http://127.0.0.1:4000",
            "Building runner factory...",
            "Initializing VirtualSnosProver (preparing precomputes, this may take a while)...",
            "Running prove_transaction (OS execution + Stwo proving)...",
            "prove_transaction succeeded.",
            "Verifying proof...",
            "Proof verification succeeded!",
        ]
    );
}

#[test]
fn offline_session_hands_values_on() {
    match offline(offline_events(3)).1.action {
        OfflineAction::BuildRunner(plan) => {
            assert_eq!(plan.rpc_url, "http://127.0.0.1:4000/");
            assert_eq!(plan.chain_id, 'c');
        }
        other => panic!("{:?}", other),
    }
    match offline(offline_events(5)).1.action {
        OfflineAction::Proof(ProofAction::Prove { block_id, transaction }) => {
            assert_eq!((block_id, transaction), (17, "tx"));
        }
        other => panic!("{:?}", other),
    }
    match offline(offline_events(6)).1.action {
        OfflineAction::Proof(ProofAction::Verify { proof_facts, proof }) => {
            assert_eq!(proof, vec![9, 8, 7]);
            assert_eq!(proof_facts, output().proof_facts);
        }
        other => panic!("{:?}", other),
    }
}

#[test]
fn offline_failures_have_their_own_status() {
    let mut events = offline_events(0);
    events.push(OfflineEvent::RequestParsed(Err("e1".to_owned())));
    assert_eq!(offline_status(events), (2, "Failed to parse request JSON: e1".to_owned()));

    let mut events = offline_events(1);
    events.push(OfflineEvent::RecordsParsed(Err("e2".to_owned())));
    assert_eq!(offline_status(events), (3, "Failed to parse RPC records: e2".to_owned()));

    let mut events = offline_events(2);
    events.push(OfflineEvent::ServerStarted { rpc_url: "127.0.0.1".to_owned() });
    assert_eq!(
        offline_status(events),
        (4, "Invalid RPC URL: relative URL without a base".to_owned())
    );

    let mut events = offline_events(5);
    events.push(OfflineEvent::Proof(ProofEvent::Proved(Err("e3".to_owned()))));
    assert_eq!(offline_status(events), (5, "prove_transaction failed: e3".to_owned()));

    let mut events = offline_events(6);
    events.push(OfflineEvent::Proof(ProofEvent::Verified(Verdict::Rejected("e4".to_owned()))));
    assert_eq!(offline_status(events), (6, "Proof verification failed: e4".to_owned()));

    let mut events = offline_events(6);
    events.push(OfflineEvent::Proof(ProofEvent::Verified(Verdict::Panicked("e5".to_owned()))));
    assert_eq!(offline_status(events), (7, "Proof verification task panicked: e5".to_owned()));
}

#[test]
fn offline_session_accepts_only_answers() {
    for n in 0..7 {
        let (_, step) = offline(offline_events(n));
        for (k, event) in offline_events(7).iter().enumerate() {
            assert_eq!(step.stage.accepts(event), k == n);
        }
    }
    let (_, done) = offline(offline_events(7));
    assert!(offline_events(7).iter().all(|event| !done.stage.accepts(event)));
}

#[test]
fn server_address_decides_how_the_session_goes_on() {
    let step = server_listening(params(), "there", Ok("http://there/".to_owned()));
    assert_eq!(step.logs, vec!["Mock server listening at there", "Building runner factory..."]);
    assert!(matches!(
        step.stage,
        OfflineStage::AwaitRunner { block_id: 17, transaction: "tx" }
    ));
    let step = server_listening(params(), "there", Err("nowhere".to_owned()));
    assert_eq!(
        step.logs,
        vec![
            "Mock server listening at there",
            "Building runner factory...",
            "Invalid RPC URL: nowhere"
        ]
    );
    assert!(matches!(step.action, OfflineAction::Finish(4)));
}

#[test]
fn successful_live_session_returns_the_json() {
    let (log, step) = live("https://example.com", live_events(5));
    assert_eq!(
        log,
        vec![
            "Parsing request JSON...",
            "Parsing live RPC URL...",
            "Using live RPC node at https://example.com/, chain_id: SN_SEPOLIA, block_id: \
             Number(BlockNumber(17))",
            "Initializing VirtualSnosProver (preparing precomputes, this may take a while)...",
            "Running prove_transaction (OS execution + Stwo proving)...",
            "prove_transaction succeeded.",
            "Verifying proof...",
            "Proof verification succeeded!",
        ]
    );
    match step.action {
        LiveAction::Finish(json) => {
            let expected = to_json(&output()).unwrap();
            assert_eq!(json.as_deref(), Some(expected.as_str()));
            let memory = live_result(Ok(json)).unwrap();
            assert_eq!(memory.last(), Some(&0));
            assert_eq!(&memory[..memory.len() - 1], expected.as_bytes());
        }
        other => panic!("{:?}", other),
    }
}

#[test]
fn live_session_hands_values_on() {
    match live("HTTPS://Example.com/rpc", live_events(1)).1.action {
        LiveAction::BuildRunner(plan) => {
            assert_eq!(plan.rpc_url, "https://example.com/rpc");
            assert_eq!(plan.chain_id, 'c');
        }
        other => panic!("{:?}", other),
    }
    match live("https://example.com", live_events(3)).1.action {
        LiveAction::Proof(ProofAction::Prove { block_id, transaction }) => {
            assert_eq!((block_id, transaction), (17, "tx"));
        }
        other => panic!("{:?}", other),
    }
    match live("https://example.com", live_events(4)).1.action {
        LiveAction::Proof(ProofAction::Verify { proof_facts, proof }) => {
            assert_eq!(proof, vec![9, 8, 7]);
            assert_eq!(proof_facts, output().proof_facts);
        }
        other => panic!("{:?}", other),
    }
}

#[test]
fn failed_live_sessions_return_nothing() {
    let failures = vec![
        (3, LiveEvent::Proof(ProofEvent::Proved(Err("x".to_owned())))),
        (4, LiveEvent::Proof(ProofEvent::Verified(Verdict::Rejected("x".to_owned())))),
        (4, LiveEvent::Proof(ProofEvent::Verified(Verdict::Panicked("x".to_owned())))),
        (0, LiveEvent::RequestParsed(Err("x".to_owned()))),
    ];
    for (n, failure) in failures {
        let mut events = live_events(n);
        events.push(failure);
        let (log, step) = live("https://example.com", events);
        assert!(matches!(step.action, LiveAction::Finish(None)));
        assert!(matches!(step.stage, LiveStage::Done));
        assert!(log.last().unwrap().ends_with(": x"));
    }
}

#[test]
fn live_session_accepts_only_answers() {
    for n in 0..5 {
        let (_, step) = live("https://example.com", live_events(n));
        for (k, event) in live_events(5).iter().enumerate() {
            assert_eq!(step.stage.accepts(event), k == n);
        }
    }
    let (_, done) = live("https://example.com", live_events(5));
    assert!(live_events(5).iter().all(|event| !done.stage.accepts(event)));
}

#[test]
fn live_address_decides_how_the_session_goes_on() {
    let step = live_node_parsed(request(), Ok("http://node/".to_owned()));
    assert_eq!(
        step.logs[1],
        "Using live RPC node at http://node/, chain_id: SN_SEPOLIA, block_id: \
         Number(BlockNumber(17))"
    );
    assert!(matches!(step.stage, LiveStage::AwaitRunner { block_id: 17, transaction: "tx" }));
    let step = live_node_parsed(request(), Err("nowhere".to_owned()));
    assert_eq!(step.logs, vec!["Parsing live RPC URL...", "Invalid RPC URL: nowhere"]);
    assert!(matches!(step.action, LiveAction::Finish(None)));
}

#[test]
fn proof_run_returns_only_verified_results() {
    let start = prove_and_verify_transaction(1_u8, 2_u8);
    assert!(matches!(start.action, ProofAction::InitProver));
    assert!(!start.stage.accepts(&ProofEvent::Verified(Verdict::Accepted)));
    let ready = proof_step(start.stage, ProofEvent::ProverReady);
    assert!(matches!(ready.action, ProofAction::Prove { block_id: 1, transaction: 2 }));
    let proved = proof_step(ready.stage, ProofEvent::Proved(Ok(output())));
    assert!(matches!(proved.action, ProofAction::Verify { .. }));
    let verified = proof_step(proved.stage, ProofEvent::Verified(Verdict::Accepted));
    assert!(matches!(verified.stage, ProofStage::Done));
    match verified.action {
        ProofAction::Finish(Ok(result)) => {
            assert_eq!(to_json(&result).unwrap(), to_json(&output()).unwrap());
        }
        other => panic!("{:?}", other),
    }
}

#[test]
fn proof_run_statuses_tell_the_cause() {
    let cases = vec![
        (ProofEvent::Proved(Err("a".to_owned())), 5, "prove_transaction failed: a"),
        (
            ProofEvent::Verified(Verdict::Rejected("b".to_owned())),
            6,
            "Proof verification failed: b",
        ),
        (
            ProofEvent::Verified(Verdict::Panicked("c".to_owned())),
            7,
            "Proof verification task panicked: c",
        ),
    ];
    for (event, status, line) in cases {
        let start = prove_and_verify_transaction((), ());
        let mut step = proof_step(start.stage, ProofEvent::ProverReady);
        if matches!(event, ProofEvent::Verified(_)) {
            step = proof_step(step.stage, ProofEvent::Proved(Ok(output())));
        }
        let end = proof_step(step.stage, event);
        assert_eq!(end.logs, vec![line]);
        match end.action {
            ProofAction::Finish(Err(got)) => assert_eq!(got, status),
            other => panic!("{:?}", other),
        }
    }
}

#[test]
fn calls_report_the_session_or_the_runtime() {
    assert_eq!(prove_privacy_demo(Ok(0)), 0);
    assert_eq!(prove_privacy_demo(Ok(6)), 6);
    assert_eq!(prove_privacy_demo(Err("no threads".to_owned())), 1);
}

#[test]
fn offline_calls_report_refusals_first() {
    let good: Option<&[u8]> = Some(b"{}");
    let bad: Option<&[u8]> = Some(&[0x80]);
    let no_runtime = || Err("no threads".to_owned());
    assert_eq!(offline_outcome(good, good, Ok(0)), 0);
    assert_eq!(offline_outcome(good, good, Ok(5)), 5);
    assert_eq!(offline_outcome(good, good, no_runtime()), 1);
    assert_eq!(offline_outcome(None, None, Ok(0)), 8);
    assert_eq!(offline_outcome(bad, None, no_runtime()), 10);
    assert_eq!(offline_outcome(good, None, Ok(0)), 9);
    assert_eq!(offline_outcome(good, bad, no_runtime()), 11);
}

#[test]
fn live_calls_return_a_string_for_a_result_only() {
    let good: Option<&[u8]> = Some(b"x:y");
    let bad: Option<&[u8]> = Some(&[0x80]);
    let json = || Ok(Some("{}".to_owned()));
    assert_eq!(live_outcome(good, good, json()), Ok(b"{}\0".to_vec()));
    assert_eq!(live_outcome(good, good, Ok(None)), Err(None));
    assert_eq!(live_outcome(good, good, Err("no threads".to_owned())), Err(None));
    assert_eq!(live_outcome(None, good, json()), Err(None));
    assert_eq!(live_outcome(good, None, json()), Err(None));
    assert_eq!(live_outcome(bad, good, json()), Err(None));
    assert_eq!(live_outcome(good, bad, json()), Err(None));
    assert_eq!(
        live_outcome(good, good, Ok(Some("a\0".to_owned()))),
        Err(Some(
            "Failed to convert proof result into a C string: nul byte found in provided data at \
             position: 1"
                .to_owned()
        ))
    );
}
