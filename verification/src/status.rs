//! Status codes that the interface returns to the host.

use vstd::prelude::*;

verus! {

/// The transaction was proved and the proof was verified.
pub const STATUS_OK: i32 = 0;

/// The asynchronous runtime could not be created.
pub const STATUS_RUNTIME_ERROR: i32 = 1;

/// The request is not the JSON of a proving request.
pub const STATUS_REQUEST_JSON_ERROR: i32 = 2;

/// The RPC records are not the JSON of a recording.
pub const STATUS_RPC_RECORDS_JSON_ERROR: i32 = 3;

/// The address of the RPC node is not a URL.
pub const STATUS_RPC_URL_ERROR: i32 = 4;

/// Execution or proving failed.
pub const STATUS_PROVE_TRANSACTION_ERROR: i32 = 5;

/// The proof was made and does not verify.
pub const STATUS_PROOF_VERIFICATION_ERROR: i32 = 6;

/// The verification task did not finish.
pub const STATUS_PROOF_VERIFICATION_TASK_ERROR: i32 = 7;

/// The request pointer is null.
pub const STATUS_NULL_REQUEST_JSON: i32 = 8;

/// The RPC records pointer is null.
pub const STATUS_NULL_RPC_RECORDS_JSON: i32 = 9;

/// The request is not UTF-8.
pub const STATUS_REQUEST_JSON_UTF8_ERROR: i32 = 10;

/// The RPC records are not UTF-8.
pub const STATUS_RPC_RECORDS_JSON_UTF8_ERROR: i32 = 11;

/// The RPC URL pointer is null.
pub const STATUS_NULL_RPC_URL: i32 = 12;

/// The RPC URL is not UTF-8.
pub const STATUS_RPC_URL_UTF8_ERROR: i32 = 13;

/// The proved result could not be turned into JSON.
pub const STATUS_RESULT_JSON_ERROR: i32 = 14;

/// All status codes.
pub open spec fn status_codes() -> Seq<i32> {
    seq![
        STATUS_OK,
        STATUS_RUNTIME_ERROR,
        STATUS_REQUEST_JSON_ERROR,
        STATUS_RPC_RECORDS_JSON_ERROR,
        STATUS_RPC_URL_ERROR,
        STATUS_PROVE_TRANSACTION_ERROR,
        STATUS_PROOF_VERIFICATION_ERROR,
        STATUS_PROOF_VERIFICATION_TASK_ERROR,
        STATUS_NULL_REQUEST_JSON,
        STATUS_NULL_RPC_RECORDS_JSON,
        STATUS_REQUEST_JSON_UTF8_ERROR,
        STATUS_RPC_RECORDS_JSON_UTF8_ERROR,
        STATUS_NULL_RPC_URL,
        STATUS_RPC_URL_UTF8_ERROR,
        STATUS_RESULT_JSON_ERROR,
    ]
}

/// No two failures share a status code, and no failure has the code of success.
pub proof fn status_codes_are_distinct(i: int, j: int)
    requires
        0 <= i < j < status_codes().len(),
    ensures
        status_codes()[i] != status_codes()[j],
        status_codes()[j] != STATUS_OK,
{
}

/// The codes are the numbers that hosts know, from success on.
pub proof fn status_codes_count_up(i: int)
    requires
        0 <= i < status_codes().len(),
    ensures
        status_codes().len() == 15,
        status_codes()[i] == i,
{
}

} // verus!
