//! Whole calls of the interface: what the host gets back, given its inputs and what the run inside
//! the prover's runtime came to.

use vstd::prelude::*;
use vstd::string::*;
use vstd::utf8::*;
use crate::c_string::{is_first_nul, NulFault};
use crate::input::{offline_refusal_status, prove_transaction, prove_transaction_live, readable};
use crate::live::{live_result, returned_json};
use crate::log::delivered;
use crate::status::STATUS_RUNTIME_ERROR;

verus! {

/// The status of a run: that of the session, if the runtime for it could be created.
pub open spec fn run_status(built: bool, session: i32) -> i32 {
    if built {
        session
    } else {
        STATUS_RUNTIME_ERROR
    }
}

/// The status that a call with these inputs returns. `built` says whether the runtime could be
/// created, `session` is the status of the session in it.
pub open spec fn offline_call_status(
    request_json: Option<&[u8]>,
    rpc_records_json: Option<&[u8]>,
    built: bool,
    session: i32,
) -> i32 {
    if !readable(request_json) || !readable(rpc_records_json) {
        offline_refusal_status(request_json, rpc_records_json)
    } else {
        run_status(built, session)
    }
}

/// The memory that a call with these inputs returns, `None` for the null pointer. `built` says
/// whether the runtime could be created, `session` is what the session in it returned.
pub open spec fn live_call_result(
    request_json: Option<&[u8]>,
    rpc_url: Option<&[u8]>,
    built: bool,
    session: Option<Seq<char>>,
) -> Option<Seq<u8>> {
    if !readable(request_json) || !readable(rpc_url) || !built {
        None
    } else {
        match session {
            Some(json) => delivered(json),
            None => None,
        }
    }
}

/// The status of a call with built-in inputs, which need no checks. `run` is the status of the
/// session, or the reason why there was no runtime for it.
pub fn prove_privacy_demo(run: Result<i32, String>) -> (status: i32)
    ensures
        status == match run {
            Ok(session) => run_status(true, session),
            Err(_) => run_status(false, STATUS_RUNTIME_ERROR),
        },
        run matches Ok(session) ==> status == session,
        run is Err ==> status == 1,
{
    match run {
        Ok(session) => session,
        Err(_) => STATUS_RUNTIME_ERROR,
    }
}

/// The status of a call with the host's inputs. `run` is as for [`prove_privacy_demo`]; it does not
/// count where an input is refused, for no session is started.
pub fn offline_outcome(
    request_json: Option<&[u8]>,
    rpc_records_json: Option<&[u8]>,
    run: Result<i32, String>,
) -> (status: i32)
    ensures
        status == match run {
            Ok(session) => offline_call_status(request_json, rpc_records_json, true, session),
            Err(_) => offline_call_status(
                request_json,
                rpc_records_json,
                false,
                STATUS_RUNTIME_ERROR,
            ),
        },
        request_json is None ==> status == 8,
        request_json matches Some(request) ==> !valid_utf8(request@) ==> status == 10,
        request_json matches Some(request) ==> valid_utf8(request@) ==> match rpc_records_json {
            None => status == 9,
            Some(records) => if !valid_utf8(records@) {
                status == 11
            } else {
                match run {
                    Ok(session) => status == session,
                    Err(_) => status == 1,
                }
            },
        },
{
    match prove_transaction(request_json, rpc_records_json) {
        Ok(_) => prove_privacy_demo(run),
        Err(x) => x.status,
    }
}

/// The C string of a call with the host's inputs against a live node. `run` is the JSON of the
/// session, or the reason why there was no runtime for it; it does not count where an input is
/// refused. Where the host gets a null pointer there may be a line for its log: refusals and
/// failed runs have logged theirs already.
pub fn live_outcome(
    request_json: Option<&[u8]>,
    rpc_url: Option<&[u8]>,
    run: Result<Option<String>, String>,
) -> (r: Result<Vec<u8>, Option<String>>)
    ensures
        r is Ok <==> live_call_result(
            request_json,
            rpc_url,
            run is Ok,
            returned_json(run),
        ) is Some,
        r matches Ok(memory) ==> live_call_result(
            request_json,
            rpc_url,
            run is Ok,
            returned_json(run),
        ) == Some(memory@),
        r is Ok <==> (request_json matches Some(request) && valid_utf8(request@)) && (rpc_url
            matches Some(url) && valid_utf8(url@)) && (run matches Ok(Some(json))
            && !json@.contains('\0')),
        r matches Ok(memory) ==> memory@ == encode_utf8(run->Ok_0->0@).push(0),
        r matches Err(log) ==> (log is Some <==> readable(request_json) && readable(rpc_url)
            && returned_json(run) is Some),
        r matches Err(Some(line)) ==> exists|fault: NulFault|
            is_first_nul(encode_utf8(returned_json(run)->0), fault.position as int) && line@
                == "Failed to convert proof result into a C string: "@ + #[trigger] fault.text(),
{
    match prove_transaction_live(request_json, rpc_url) {
        Ok(_) => live_result(run),
        Err(_) => Err(None),
    }
}

/// A call with readable inputs returns what the session returned, whatever that is, if the runtime
/// for it could be created, and the status for a missing runtime if not.
pub proof fn calls_return_the_session_status(
    request_json: Option<&[u8]>,
    rpc_records_json: Option<&[u8]>,
    session: i32,
)
    requires
        readable(request_json),
        readable(rpc_records_json),
    ensures
        offline_call_status(request_json, rpc_records_json, true, session) == session,
        offline_call_status(request_json, rpc_records_json, false, session) == 1,
        run_status(true, session) == session,
        run_status(false, session) == 1,
{
}

/// A refused call returns the same status whatever a session would have come to.
pub proof fn refused_calls_run_nothing(
    request_json: Option<&[u8]>,
    rpc_records_json: Option<&[u8]>,
    rpc_url: Option<&[u8]>,
    built: bool,
    session: i32,
    json: Option<Seq<char>>,
)
    ensures
        !readable(request_json) || !readable(rpc_records_json) ==> offline_call_status(
            request_json,
            rpc_records_json,
            built,
            session,
        ) == offline_refusal_status(request_json, rpc_records_json),
        !readable(request_json) || !readable(rpc_url) ==> live_call_result(
            request_json,
            rpc_url,
            built,
            json,
        ) is None,
{
}

/// A live call with readable inputs returns the JSON of the session as a C string, whatever its
/// length, and nothing where there is no JSON, no runtime, or a NUL inside.
pub proof fn live_calls_return_the_session_json(
    request_json: Option<&[u8]>,
    rpc_url: Option<&[u8]>,
    json: Seq<char>,
)
    requires
        readable(request_json),
        readable(rpc_url),
    ensures
        !json.contains('\0') ==> live_call_result(request_json, rpc_url, true, Some(json)) == Some(
            encode_utf8(json).push(0),
        ),
        json.contains('\0') ==> live_call_result(request_json, rpc_url, true, Some(json)) is None,
        live_call_result(request_json, rpc_url, true, None) is None,
        live_call_result(request_json, rpc_url, false, Some(json)) is None,
{
}

} // verus!
