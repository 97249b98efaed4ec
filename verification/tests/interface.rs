//! What the host sees: validation of its inputs, the result it gets, the log it gets.

use prover_ffi::base64::encode;
use prover_ffi::c_string::{terminate, to_c_string};
use prover_ffi::felt::{EthAddress, Felt};
use prover_ffi::input::{parse_input_json, prove_transaction, prove_transaction_live};
use prover_ffi::live::{live_result, live_step, prove_transaction_live_async};
use prover_ffi::live::{LiveAction, LiveEvent, LiveRequest, LiveStep};
use prover_ffi::log::{log_callback, send_log, CallbackWriter};
use prover_ffi::offline::{offline_step, prove_transaction_async};
use prover_ffi::offline::{OfflineAction, OfflineEvent, OfflineStep};
use prover_ffi::request::ProveTransactionParams;
use prover_ffi::result::{
    report_json, serialize_prove_transaction_result, to_json, MessageToL1, ProveTransactionResult,
};
use prover_ffi::rpc_url::{parse_rpc_url, report_url};
use prover_ffi::status::{
    STATUS_NULL_REQUEST_JSON, STATUS_NULL_RPC_RECORDS_JSON, STATUS_REQUEST_JSON_ERROR,
    STATUS_REQUEST_JSON_UTF8_ERROR, STATUS_RESULT_JSON_ERROR, STATUS_RPC_RECORDS_JSON_ERROR,
    STATUS_RPC_RECORDS_JSON_UTF8_ERROR, STATUS_RPC_URL_ERROR,
};
use serde_json::Value;

const REQUEST_JSON: &str = "{\"params\":{\"block_id\":\"latest\",\"transaction\":{},\"chain_id\":\"SN_MAIN\"}}";
const RPC_RECORDS_JSON: &str = "{\"interactions\":[]}";

fn felt(n: u64) -> Felt {
    let mut bytes = [0_u8; 32];
    bytes[24..].copy_from_slice(&n.to_be_bytes());
    Felt::from_bytes_be(&bytes).unwrap()
}

fn sample_prove_transaction_result() -> ProveTransactionResult {
    ProveTransactionResult {
        proof: vec![1_u8, 2, 3, 4],
        proof_facts: vec![felt(0x1), felt(0x2)],
        l2_to_l1_messages: vec![MessageToL1 {
            from_address: felt(0x123),
            to_address: EthAddress::from_felt(felt(0x456)).unwrap(),
            payload: vec![felt(0x7), felt(0x8)],
        }],
    }
}

fn params() -> ProveTransactionParams<&'static str, &'static str, &'static str> {
    ProveTransactionParams { block_id: "latest", transaction: "tx", chain_id: "SN_MAIN" }
}

fn text(s: &str) -> Value {
    Value::String(s.to_owned())
}

/// What a C reader finds behind the pointer.
fn read_c_string(memory: &[u8]) -> &str {
    let end = memory.iter().position(|b| *b == 0).unwrap();
    std::str::from_utf8(&memory[..end]).unwrap()
}

#[test]
fn prove_transaction_rejects_null_request_pointer() {
    let result = prove_transaction(None, Some(RPC_RECORDS_JSON.as_bytes()));

    let rejection = result.unwrap_err();
    assert_eq!(rejection.status, STATUS_NULL_REQUEST_JSON);
    assert_eq!(rejection.log, "request_json pointer is null.");
}

#[test]
fn prove_transaction_rejects_null_rpc_records_pointer() {
    let result = prove_transaction(Some(REQUEST_JSON.as_bytes()), None);

    let rejection = result.unwrap_err();
    assert_eq!(rejection.status, STATUS_NULL_RPC_RECORDS_JSON);
    assert_eq!(rejection.log, "rpc_records_json pointer is null.");
}

#[test]
fn prove_transaction_rejects_invalid_request_utf8() {
    let invalid_request_json = [0x80_u8];

    let result = prove_transaction(Some(&invalid_request_json), Some(RPC_RECORDS_JSON.as_bytes()));

    let rejection = result.unwrap_err();
    assert_eq!(rejection.status, STATUS_REQUEST_JSON_UTF8_ERROR);
    assert_eq!(
        rejection.log,
        "request_json is not valid UTF-8: invalid utf-8 sequence of 1 bytes from index 0"
    );
}

#[test]
fn prove_transaction_rejects_invalid_rpc_records_utf8() {
    let result = prove_transaction(Some(REQUEST_JSON.as_bytes()), Some(&[0x7b, 0xe2, 0x82]));

    let rejection = result.unwrap_err();
    assert_eq!(rejection.status, STATUS_RPC_RECORDS_JSON_UTF8_ERROR);
    assert_eq!(
        rejection.log,
        "rpc_records_json is not valid UTF-8: incomplete utf-8 byte sequence from index 1"
    );
}

#[test]
fn prove_transaction_looks_at_the_request_first() {
    assert_eq!(prove_transaction(None, None).unwrap_err().status, STATUS_NULL_REQUEST_JSON);
    assert_eq!(
        prove_transaction(Some(&[0xff]), None).unwrap_err().status,
        STATUS_REQUEST_JSON_UTF8_ERROR
    );
}

#[test]
fn prove_transaction_reads_both_inputs() {
    let (request, records) =
        prove_transaction(Some("é€😀".as_bytes()), Some(RPC_RECORDS_JSON.as_bytes())).unwrap();

    assert_eq!(request, "é€😀");
    assert_eq!(records, RPC_RECORDS_JSON);
}

#[test]
fn parse_input_json_uses_the_given_statuses_and_label() {
    assert_eq!(parse_input_json(Some(b""), 70, 71, "x").unwrap(), "");
    let null = parse_input_json(None, 70, 71, "x").unwrap_err();
    assert_eq!((null.status, null.log.as_str()), (70, "x pointer is null."));
    let broken = parse_input_json(Some(&[0x61, 0xed, 0xa0, 0x80]), 70, 71, "x").unwrap_err();
    assert_eq!(broken.status, 71);
    assert_eq!(
        broken.log,
        "x is not valid UTF-8: invalid utf-8 sequence of 1 bytes from index 1"
    );
}

#[test]
fn prove_transaction_live_rejects_null_request_pointer() {
    let result = prove_transaction_live(None, Some(b"https://example.com"));

    assert_eq!(result.unwrap_err(), "request_json pointer is null.");
}

#[test]
fn prove_transaction_live_rejects_null_rpc_url_pointer() {
    let result = prove_transaction_live(Some(REQUEST_JSON.as_bytes()), None);

    assert_eq!(result.unwrap_err(), "rpc_url pointer is null.");
}

#[test]
fn prove_transaction_live_rejects_invalid_request_utf8() {
    let invalid_request_json = [0x80_u8];

    let result = prove_transaction_live(Some(&invalid_request_json), Some(b"https://example.com"));

    assert_eq!(
        result.unwrap_err(),
        "request_json is not valid UTF-8: invalid utf-8 sequence of 1 bytes from index 0"
    );
}

#[test]
fn prove_transaction_live_rejects_invalid_rpc_url_utf8() {
    let invalid_rpc_url = [0x80_u8];

    let result = prove_transaction_live(Some(REQUEST_JSON.as_bytes()), Some(&invalid_rpc_url));

    assert_eq!(
        result.unwrap_err(),
        "rpc_url is not valid UTF-8: invalid utf-8 sequence of 1 bytes from index 0"
    );
}

#[test]
fn prove_transaction_live_reads_both_inputs() {
    let (request, url) =
        prove_transaction_live(Some(REQUEST_JSON.as_bytes()), Some(b"https://example.com"))
            .unwrap();

    assert_eq!(request, REQUEST_JSON);
    assert_eq!(url, "https://example.com");
}

#[test]
fn prove_transaction_async_rejects_invalid_request_json() {
    let error = serde_json::from_str::<Value>("not json").unwrap_err().to_string();
    let start: OfflineStep<&str, &str, &str> = prove_transaction_async();
    assert!(matches!(start.action, OfflineAction::ParseRequest));
    assert_eq!(start.logs, vec!["Parsing request JSON..."]);

    let event = OfflineEvent::RequestParsed(Err(error.clone()));
    assert!(start.stage.accepts(&event));
    let result = offline_step(start.stage, event);

    assert!(matches!(result.action, OfflineAction::Finish(STATUS_REQUEST_JSON_ERROR)));
    assert_eq!(result.logs, vec![format!("Failed to parse request JSON: {error}")]);
}

#[test]
fn prove_transaction_async_rejects_invalid_rpc_records_json() {
    let error = serde_json::from_str::<Value>("not json").unwrap_err().to_string();
    let start: OfflineStep<&str, &str, &str> = prove_transaction_async();
    let requested = offline_step(start.stage, OfflineEvent::RequestParsed(Ok(params())));
    assert!(matches!(requested.action, OfflineAction::ParseRecords));
    assert_eq!(requested.logs, vec!["Parsing RPC records JSON..."]);

    let event = OfflineEvent::RecordsParsed(Err(error.clone()));
    assert!(requested.stage.accepts(&event));
    let result = offline_step(requested.stage, event);

    assert!(matches!(result.action, OfflineAction::Finish(STATUS_RPC_RECORDS_JSON_ERROR)));
    assert_eq!(result.logs, vec![format!("Failed to parse RPC records: {error}")]);
}

#[test]
fn prove_transaction_live_async_rejects_invalid_request_json() {
    let error = serde_json::from_str::<Value>("not json").unwrap_err().to_string();
    let start: LiveStep<&str, &str, &str> =
        prove_transaction_live_async("https://example.com".to_owned());
    assert_eq!(start.logs, vec!["Parsing request JSON..."]);

    let event: LiveEvent<&str, &str, &str> = LiveEvent::RequestParsed(Err(error.clone()));
    assert!(start.stage.accepts(&event));
    let result = live_step(start.stage, event);

    assert!(matches!(result.action, LiveAction::Finish(None)));
    assert_eq!(result.logs, vec![format!("Failed to parse request JSON: {error}")]);
}

#[test]
fn prove_transaction_live_async_rejects_invalid_rpc_url() {
    let start: LiveStep<&str, &str, &str> = prove_transaction_live_async("not a url".to_owned());
    let request = LiveRequest {
        params: params(),
        chain_id_text: "SN_MAIN".to_owned(),
        block_id_text: "Latest".to_owned(),
    };

    let result = live_step(start.stage, LiveEvent::RequestParsed(Ok(request)));

    assert!(matches!(result.action, LiveAction::Finish(None)));
    assert_eq!(
        result.logs,
        vec!["Parsing live RPC URL...", "Invalid RPC URL: relative URL without a base"]
    );
}

#[test]
fn serialize_prove_transaction_result_matches_sdk_shape() {
    let json = serialize_prove_transaction_result(&sample_prove_transaction_result()).unwrap();
    let value: Value = serde_json::from_str(&json).unwrap();

    assert_eq!(value["proof"], text("AQIDBA=="));
    assert_eq!(value["proof_facts"], Value::Array(vec![text("0x1"), text("0x2")]));
    let mut message = serde_json::Map::new();
    message.insert("from_address".to_owned(), text("0x123"));
    message.insert("to_address".to_owned(), text("0x456"));
    message.insert("payload".to_owned(), Value::Array(vec![text("0x7"), text("0x8")]));
    assert_eq!(value["l2_to_l1_messages"], Value::Array(vec![Value::Object(message)]));
}

#[test]
fn result_json_is_written_without_spaces_in_field_order() {
    assert_eq!(
        to_json(&sample_prove_transaction_result()).unwrap(),
        "{\"proof\":\"AQIDBA==\",\"proof_facts\":[\"0x1\",\"0x2\"],\"l2_to_l1_messages\":[\
         {\"from_address\":\"0x123\",\"to_address\":\"0x456\",\"payload\":[\"0x7\",\"0x8\"]}]}"
    );
    let empty =
        ProveTransactionResult { proof: vec![], proof_facts: vec![], l2_to_l1_messages: vec![] };
    assert_eq!(
        to_json(&empty).unwrap(),
        "{\"proof\":\"\",\"proof_facts\":[],\"l2_to_l1_messages\":[]}"
    );
}

#[test]
fn result_json_tells_results_apart() {
    let a = to_json(&sample_prove_transaction_result()).unwrap();
    let mut other = sample_prove_transaction_result();
    other.l2_to_l1_messages[0].payload.push(felt(0));
    assert_ne!(a, to_json(&other).unwrap());
    let mut other = sample_prove_transaction_result();
    other.proof.push(0);
    assert_ne!(a, to_json(&other).unwrap());
    let mut other = sample_prove_transaction_result();
    other.proof_facts.swap(0, 1);
    assert_ne!(a, to_json(&other).unwrap());
}

#[test]
fn json_errors_are_reported() {
    assert_eq!(report_json(Ok("{}".to_owned())).unwrap(), "{}");
    let rejection = report_json(Err("disk on fire".to_owned())).unwrap_err();
    assert_eq!(rejection.status, STATUS_RESULT_JSON_ERROR);
    assert_eq!(rejection.log, "Failed to serialize proof result JSON: disk on fire");
}

#[test]
fn prove_transaction_live_result_can_be_freed_after_reading() {
    let json = serialize_prove_transaction_result(&sample_prove_transaction_result()).unwrap();
    let memory = live_result(Ok(Some(json.clone()))).unwrap();

    let round_trip = read_c_string(&memory).to_owned();

    assert_eq!(round_trip, json);
    assert_eq!(memory.len(), json.len() + 1);
}

#[test]
fn live_results_that_are_missing_give_no_string() {
    assert_eq!(live_result(Ok(None)).unwrap_err(), None);
    assert_eq!(live_result(Err("no threads".to_owned())).unwrap_err(), None);
    assert_eq!(
        live_result(Ok(Some("é\0b\0".to_owned()))).unwrap_err().unwrap(),
        "Failed to convert proof result into a C string: nul byte found in provided data at \
         position: 2"
    );
}

#[test]
fn rpc_urls_are_normalized_or_refused() {
    assert_eq!(parse_rpc_url("https://example.com").unwrap(), "https://example.com/");
    assert_eq!(parse_rpc_url("HTTP://127.0.0.1:80/rpc").unwrap(), "http://127.0.0.1/rpc");
    let rejection = parse_rpc_url("not a url").unwrap_err();
    assert_eq!(rejection.status, STATUS_RPC_URL_ERROR);
    assert_eq!(rejection.log, "Invalid RPC URL: relative URL without a base");
    let reported = report_url(Err("why".to_owned())).unwrap_err();
    assert_eq!((reported.status, reported.log.as_str()), (4, "Invalid RPC URL: why"));
    assert_eq!(report_url(Ok("x:y".to_owned())).unwrap(), "x:y");
}

#[test]
fn c_strings_end_at_their_terminator() {
    assert_eq!(to_c_string("a€").unwrap(), vec![0x61, 0xe2, 0x82, 0xac, 0]);
    assert_eq!(to_c_string("").unwrap(), vec![0]);
    let fault = to_c_string("ab\0").unwrap_err();
    assert_eq!(fault.position, 2);
    assert_eq!(fault.describe(), "nul byte found in provided data at position: 2");
    assert_eq!(terminate(&[7, 8]).unwrap(), vec![7, 8, 0]);
    assert_eq!(terminate(&[7, 0, 8, 0]).unwrap_err().position, 1);
}

#[test]
fn log_lines_reach_the_host() {
    let payload = send_log("Verifying proof...").unwrap();
    assert_eq!(payload, b"Verifying proof...\0".to_vec());
    assert_eq!(log_callback(Some(&payload[..payload.len() - 1])), Some("Verifying proof..."));
    assert_eq!(send_log("").unwrap(), vec![0]);
    assert_eq!(send_log("a\0b"), None);
    assert_eq!(log_callback(None), None);
    assert_eq!(log_callback(Some(&[0xc3])), None);
    assert_eq!(log_callback(Some(b"")), Some(""));
}

#[test]
fn writer_forwards_lines_without_their_newlines() {
    let writer = CallbackWriter { installed: true };
    assert_eq!(writer.write(b"line\n"), (5, Some(b"line\0".to_vec())));
    assert_eq!(writer.write(b"line\n\n\n"), (7, Some(b"line\0".to_vec())));
    assert_eq!(writer.write(b"line"), (4, Some(b"line\0".to_vec())));
    assert_eq!(writer.write(b"\na\nb\n"), (5, Some(b"\na\nb\0".to_vec())));
    assert_eq!(writer.write("é\n".as_bytes()), (3, Some(vec![0xc3, 0xa9, 0])));
    assert_eq!(writer.write(b"a\r\n"), (3, Some(b"a\r\0".to_vec())));
}

#[test]
fn writer_swallows_what_cannot_be_sent() {
    let writer = CallbackWriter { installed: true };
    assert_eq!(writer.write(b""), (0, None));
    assert_eq!(writer.write(b"\n\n"), (2, None));
    assert_eq!(writer.write(&[0x61, 0xff]), (2, None));
    assert_eq!(writer.write(b"a\0b\n"), (4, None));
    assert_eq!(CallbackWriter { installed: false }.write(b"line\n"), (5, None));
}

#[test]
fn base64_pads_to_groups_of_four() {
    assert_eq!(encode(&vec![]), "");
    assert_eq!(encode(&vec![1]), "AQ==");
    assert_eq!(encode(&b"fo".to_vec()), "Zm8=");
    assert_eq!(encode(&b"foobar".to_vec()), "Zm9vYmFy");
    assert_eq!(encode(&vec![0xfb, 0xff, 0xbf]), "+/+/");
    let all: Vec<u8> = (0..=255).collect();
    let text = encode(&all);
    assert_eq!(text.len(), 344);
    assert!(text.starts_with("AAECAwQFBgcICQoL"));
    assert!(text.ends_with("+fr7/P3+/w=="));
}
