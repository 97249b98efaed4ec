//! Validation of the strings that the host hands in.

use vstd::prelude::*;
use vstd::string::*;
use vstd::utf8::*;
use crate::status::{
    STATUS_NULL_REQUEST_JSON, STATUS_NULL_RPC_RECORDS_JSON, STATUS_NULL_RPC_URL,
    STATUS_REQUEST_JSON_UTF8_ERROR, STATUS_RPC_RECORDS_JSON_UTF8_ERROR, STATUS_RPC_URL_UTF8_ERROR,
};
use crate::text::joined;
use crate::utf8::{decode, describes_fault, Utf8Fault};

verus! {

/// Why an input was refused: the status for the host and the line for its log.
#[derive(Debug)]
pub struct Rejection {
    pub status: i32,
    pub log: String,
}

/// An input is readable: the pointer is not null and the bytes behind it are UTF-8. `None` stands
/// for the null pointer, `Some` for the bytes before the terminating NUL.
pub open spec fn readable(input: Option<&[u8]>) -> bool {
    input matches Some(bytes) && valid_utf8(bytes@)
}

/// The text of a readable input.
pub open spec fn input_text(input: Option<&[u8]>) -> Seq<char> {
    decode_utf8(input->0@)
}

/// The log line for an input that is not readable.
pub open spec fn is_refusal(input: Option<&[u8]>, label: Seq<char>, log: Seq<char>) -> bool {
    match input {
        None => log == label + " pointer is null."@,
        Some(bytes) => exists|fault: Utf8Fault| #[trigger]
            describes_fault(bytes@, fault) && log == label + " is not valid UTF-8: "@
                + fault.text(),
    }
}

/// The text behind an input pointer.
pub fn parse_input_json<'a>(
    input: Option<&'a [u8]>,
    null_status: i32,
    utf8_status: i32,
    label: &str,
) -> (r: Result<&'a str, Rejection>)
    ensures
        r is Ok <==> readable(input),
        r matches Ok(s) ==> s@ == input_text(input),
        r is Ok <==> (input matches Some(bytes) && valid_utf8(bytes@)),
        r matches Ok(s) ==> encode_utf8(s@) == input->0@,
        input is None ==> (r matches Err(x) && x.status == null_status && x.log@ == label@
            + " pointer is null."@),
        r matches Err(x) ==> (input matches Some(bytes) ==> x.status == utf8_status && exists|
            fault: Utf8Fault,
        | #[trigger]
            describes_fault(bytes@, fault) && x.log@ == label@ + " is not valid UTF-8: "@
                + fault.text()),
        r matches Err(x) ==> is_refusal(input, label@, x.log@) && x.status == (if input is None {
            null_status
        } else {
            utf8_status
        }),
{
    match input {
        None => Err(Rejection { status: null_status, log: joined(label, " pointer is null.") }),
        Some(bytes) => match decode(bytes) {
            Ok(s) => {
                proof {
                    decode_utf8_encode_utf8(bytes@);
                }
                Ok(s)
            },
            Err(fault) => {
                let mut log = joined(label, " is not valid UTF-8: ");
                log.append(fault.describe().as_str());
                assert(describes_fault(bytes@, fault));
                Err(Rejection { status: utf8_status, log })
            },
        },
    }
}

/// The status for offline inputs of which one is not readable; the request counts first.
pub open spec fn offline_refusal_status(
    request_json: Option<&[u8]>,
    rpc_records_json: Option<&[u8]>,
) -> i32 {
    if request_json is None {
        STATUS_NULL_REQUEST_JSON
    } else if !readable(request_json) {
        STATUS_REQUEST_JSON_UTF8_ERROR
    } else if rpc_records_json is None {
        STATUS_NULL_RPC_RECORDS_JSON
    } else {
        STATUS_RPC_RECORDS_JSON_UTF8_ERROR
    }
}

/// Checks the inputs of an offline proof; the request is looked at first.
pub fn prove_transaction<'a>(
    request_json: Option<&'a [u8]>,
    rpc_records_json: Option<&'a [u8]>,
) -> (r: Result<(&'a str, &'a str), Rejection>)
    ensures
        r is Ok <==> readable(request_json) && readable(rpc_records_json),
        r is Ok <==> (request_json matches Some(first) && valid_utf8(first@)) && (rpc_records_json
            matches Some(second) && valid_utf8(second@)),
        r matches Ok(texts) ==> encode_utf8(texts.0@) == request_json->0@ && encode_utf8(texts.1@)
            == rpc_records_json->0@,
        r matches Ok(texts) ==> texts.0@ == input_text(request_json) && texts.1@ == input_text(
            rpc_records_json,
        ),
        r matches Err(x) ==> {
            &&& x.status == offline_refusal_status(request_json, rpc_records_json)
            &&& if !readable(request_json) {
                is_refusal(request_json, "request_json"@, x.log@)
            } else {
                is_refusal(rpc_records_json, "rpc_records_json"@, x.log@)
            }
        },
{
    let request = match parse_input_json(
        request_json,
        STATUS_NULL_REQUEST_JSON,
        STATUS_REQUEST_JSON_UTF8_ERROR,
        "request_json",
    ) {
        Ok(request) => request,
        Err(x) => return Err(x),
    };
    match parse_input_json(
        rpc_records_json,
        STATUS_NULL_RPC_RECORDS_JSON,
        STATUS_RPC_RECORDS_JSON_UTF8_ERROR,
        "rpc_records_json",
    ) {
        Ok(records) => Ok((request, records)),
        Err(x) => Err(x),
    }
}

/// Checks the inputs of a proof against a live node; the request is looked at first. The host
/// gets a null pointer for a refusal, so only the log line comes back.
pub fn prove_transaction_live<'a>(request_json: Option<&'a [u8]>, rpc_url: Option<&'a [u8]>) -> (r:
    Result<(&'a str, &'a str), String>)
    ensures
        r is Ok <==> readable(request_json) && readable(rpc_url),
        r is Ok <==> (request_json matches Some(first) && valid_utf8(first@)) && (rpc_url
            matches Some(second) && valid_utf8(second@)),
        r matches Ok(texts) ==> encode_utf8(texts.0@) == request_json->0@ && encode_utf8(texts.1@)
            == rpc_url->0@,
        r matches Ok(texts) ==> texts.0@ == input_text(request_json) && texts.1@ == input_text(
            rpc_url,
        ),
        r matches Err(log) ==> if !readable(request_json) {
            is_refusal(request_json, "request_json"@, log@)
        } else {
            is_refusal(rpc_url, "rpc_url"@, log@)
        },
{
    let request = match parse_input_json(
        request_json,
        STATUS_NULL_REQUEST_JSON,
        STATUS_REQUEST_JSON_UTF8_ERROR,
        "request_json",
    ) {
        Ok(request) => request,
        Err(x) => return Err(x.log),
    };
    match parse_input_json(rpc_url, STATUS_NULL_RPC_URL, STATUS_RPC_URL_UTF8_ERROR, "rpc_url") {
        Ok(url) => Ok((request, url)),
        Err(x) => Err(x.log),
    }
}

/// An input that is refused has exactly one log line.
pub proof fn refusal_is_unique(
    input: Option<&[u8]>,
    label: Seq<char>,
    first: Seq<char>,
    second: Seq<char>,
)
    requires
        is_refusal(input, label, first),
        is_refusal(input, label, second),
    ensures
        first == second,
{
    if input is Some {
        let bytes = input->0@;
        let a = choose|fault: Utf8Fault| #[trigger]
            describes_fault(bytes, fault) && first == label + " is not valid UTF-8: "@
                + fault.text();
        let b = choose|fault: Utf8Fault| #[trigger]
            describes_fault(bytes, fault) && second == label + " is not valid UTF-8: "@
                + fault.text();
        crate::utf8::fault_is_unique(bytes, a, b);
    }
}

/// Every text that the host hands in is read, whatever it holds, and read as it is. What is no
/// text is refused.
pub proof fn host_texts_are_read(bytes: &[u8])
    ensures
        readable(Some(bytes)) <==> valid_utf8(bytes@),
        readable(Some(bytes)) ==> encode_utf8(input_text(Some(bytes))) == bytes@,
        !readable(None),
        forall|text: Seq<char>| #[trigger]
            encode_utf8(text) == bytes@ ==> readable(Some(bytes)) && input_text(Some(bytes))
                == text,
{
    if valid_utf8(bytes@) {
        decode_utf8_encode_utf8(bytes@);
    }
    assert forall|text: Seq<char>| #[trigger] encode_utf8(text) == bytes@ implies readable(
        Some(bytes),
    ) && input_text(Some(bytes)) == text by {
        encode_utf8_valid_utf8(text);
        encode_utf8_decode_utf8(text);
    }
}

/// The line on a refused input names the input and says what is wrong: that there is none, or where
/// it stops being UTF-8.
pub proof fn refusal_says_what_is_wrong(input: Option<&[u8]>, label: Seq<char>, log: Seq<char>)
    requires
        is_refusal(input, label, log),
    ensures
        match input {
            None => log == label + " pointer is null."@,
            Some(bytes) => exists|fault: Utf8Fault| #[trigger]
                describes_fault(bytes@, fault) && log == label + " is not valid UTF-8: "@
                    + fault.text(),
        },
{
}

/// The status on refused inputs tells which input is at fault and how; the request counts first.
pub proof fn refusal_status_tells_the_input(
    request_json: Option<&[u8]>,
    rpc_records_json: Option<&[u8]>,
)
    requires
        !readable(request_json) || !readable(rpc_records_json),
    ensures
        offline_refusal_status(request_json, rpc_records_json) == match request_json {
            None => 8,
            Some(request) => if !valid_utf8(request@) {
                10
            } else {
                match rpc_records_json {
                    None => 9,
                    Some(_) => 11int,
                }
            },
        },
{
}

} // verus!
