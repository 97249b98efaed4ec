//! The result of a proof and its JSON.

use vstd::prelude::*;
use vstd::string::*;
use crate::base64::{base64_text, encode};
use crate::felt::{EthAddress, Felt};
use crate::input::Rejection;
use crate::json_reader::{read_json, shows_result};
use crate::status::STATUS_RESULT_JSON_ERROR;
use crate::text::joined;

verus! {

/// A message from the proved transaction to the Ethereum chain.
#[derive(Debug)]
pub struct MessageToL1 {
    pub from_address: Felt,
    pub to_address: EthAddress,
    pub payload: Vec<Felt>,
}

/// What proving a transaction gives.
#[derive(Debug)]
pub struct ProveTransactionResult {
    pub proof: Vec<u8>,
    pub proof_facts: Vec<Felt>,
    pub l2_to_l1_messages: Vec<MessageToL1>,
}

/// The text needs no escapes in JSON: printable ASCII without quotes and backslashes.
pub open spec fn is_plain(text: Seq<char>) -> bool {
    forall|i: int|
        0 <= i < text.len() ==> ' ' <= #[trigger] text[i] <= '~' && text[i] != '"' && text[i]
            != '\\'
}

/// A JSON string without escapes.
pub open spec fn quoted(text: Seq<char>) -> Seq<char> {
    seq!['"'] + text + seq!['"']
}

/// `parts` with commas between them.
pub open spec fn comma_separated(parts: Seq<Seq<char>>) -> Seq<char>
    decreases parts.len(),
{
    if parts.len() == 0 {
        Seq::empty()
    } else if parts.len() == 1 {
        parts[0]
    } else {
        comma_separated(parts.drop_last()) + seq![','] + parts.last()
    }
}

/// A JSON array of the given elements.
pub open spec fn array_json(parts: Seq<Seq<char>>) -> Seq<char> {
    seq!['['] + comma_separated(parts) + seq![']']
}

/// A JSON array of field elements.
pub open spec fn felts_json(felts: Seq<Felt>) -> Seq<char> {
    array_json(felts.map_values(|f: Felt| quoted(f.text())))
}

/// A message as a JSON object.
pub open spec fn message_json(message: MessageToL1) -> Seq<char> {
    "{\"from_address\":"@ + quoted(message.from_address.text()) + ",\"to_address\":"@ + quoted(
        message.to_address.text(),
    ) + ",\"payload\":"@ + felts_json(message.payload@) + "}"@
}

/// A result as a JSON object: the proof in base64, numbers in hexadecimal.
pub open spec fn result_json(output: ProveTransactionResult) -> Seq<char> {
    "{\"proof\":"@ + quoted(base64_text(output.proof@)) + ",\"proof_facts\":"@ + felts_json(
        output.proof_facts@,
    ) + ",\"l2_to_l1_messages\":"@ + array_json(
        output.l2_to_l1_messages@.map_values(|m: MessageToL1| message_json(m)),
    ) + "}"@
}

/// `serde_json::to_string` of a string that needs no escapes: the string between double quotes. It
/// does not fail on strings. An error would come back as its text.
#[verifier::external_body]
fn json_string(text: &str) -> (r: Result<String, String>)
    requires
        is_plain(text@),
    ensures
        r is Ok,
        r->Ok_0@ == quoted(text@),
{
    serde_json::to_string(text).map_err(|e| e.to_string())
}

proof fn lemma_hex_is_plain(n: nat)
    ensures
        is_plain("0x"@ + crate::felt::hex_text(n)),
{
    reveal_strlit("0x");
    let hex = crate::felt::hex_text(n);
    let text = "0x"@ + hex;
    assert forall|i: int| 0 <= i < text.len() implies ' ' <= #[trigger] text[i] <= '~' && text[i]
        != '"' && text[i] != '\\' by {
        if i >= 2 {
            crate::felt::lemma_hex_chars(n, i - 2);
            assert(text[i] == hex[i - 2]);
        }
    }
}

proof fn lemma_base64_is_plain(bytes: Seq<u8>)
    ensures
        is_plain(base64_text(bytes)),
{
    let text = base64_text(bytes);
    assert forall|i: int| 0 <= i < text.len() implies ' ' <= #[trigger] text[i] <= '~' && text[i]
        != '"' && text[i] != '\\' by {
        crate::base64::lemma_base64_chars(bytes, i);
    }
}

/// Appends the JSON string of `text` to `out`.
fn append_string(out: &mut String, text: &str) -> (r: Result<(), String>)
    requires
        is_plain(text@),
    ensures
        r is Ok,
        final(out)@ == old(out)@ + quoted(text@),
{
    let json = json_string(text)?;
    out.append(json.as_str());
    Ok(())
}

/// Appends the JSON array of `felts` to `out`.
fn append_felts(out: &mut String, felts: &Vec<Felt>) -> (r: Result<(), String>)
    ensures
        r is Ok,
        final(out)@ == old(out)@ + felts_json(felts@),
{
    let ghost start = out@;
    let ghost parts = felts@.map_values(|f: Felt| quoted(f.text()));
    out.push('[');
    let mut i: usize = 0;
    assert(out@ =~= start.push('[') + comma_separated(parts.take(0)));
    while i < felts.len()
        invariant
            i <= felts@.len(),
            parts == felts@.map_values(|f: Felt| quoted(f.text())),
            out@ == start.push('[') + comma_separated(parts.take(i as int)),
        decreases felts@.len() - i,
    {
        let felt = felts[i];
        let text = felt.to_hex_string();
        proof {
            lemma_hex_is_plain(felt.value());
            assert(parts.take(i + 1).drop_last() =~= parts.take(i as int));
            assert(parts.take(i + 1).last() == quoted(felt.text()));
        }
        if i > 0 {
            out.push(',');
        }
        append_string(out, text.as_str())?;
        i = i + 1;
        assert(out@ =~= start.push('[') + comma_separated(parts.take(i as int)));
    }
    out.push(']');
    assert(parts.take(i as int) =~= parts);
    assert(out@ =~= start + array_json(parts));
    Ok(())
}

/// Appends the JSON object of `message` to `out`.
fn append_message(out: &mut String, message: &MessageToL1) -> (r: Result<(), String>)
    ensures
        r is Ok,
        final(out)@ == old(out)@ + message_json(*message),
{
    let ghost start = out@;
    let from = message.from_address.to_hex_string();
    let to = message.to_address.to_hex_string();
    proof {
        lemma_hex_is_plain(message.from_address.value());
        lemma_hex_is_plain(message.to_address.value());
    }
    out.append("{\"from_address\":");
    append_string(out, from.as_str())?;
    out.append(",\"to_address\":");
    append_string(out, to.as_str())?;
    out.append(",\"payload\":");
    append_felts(out, &message.payload)?;
    out.append("}");
    assert(out@ =~= start + message_json(*message));
    Ok(())
}

/// Appends the JSON array of `messages` to `out`.
fn append_messages(out: &mut String, messages: &Vec<MessageToL1>) -> (r: Result<(), String>)
    ensures
        r is Ok,
        final(out)@ == old(out)@ + array_json(
            messages@.map_values(|m: MessageToL1| message_json(m)),
        ),
{
    let ghost start = out@;
    let ghost parts = messages@.map_values(|m: MessageToL1| message_json(m));
    out.push('[');
    let mut i: usize = 0;
    assert(out@ =~= start.push('[') + comma_separated(parts.take(0)));
    while i < messages.len()
        invariant
            i <= messages@.len(),
            parts == messages@.map_values(|m: MessageToL1| message_json(m)),
            out@ == start.push('[') + comma_separated(parts.take(i as int)),
        decreases messages@.len() - i,
    {
        let message = &messages[i];
        proof {
            assert(parts.take(i + 1).drop_last() =~= parts.take(i as int));
            assert(parts.take(i + 1).last() == message_json(*message));
        }
        if i > 0 {
            out.push(',');
        }
        append_message(out, message)?;
        i = i + 1;
        assert(out@ =~= start.push('[') + comma_separated(parts.take(i as int)));
    }
    out.push(']');
    assert(parts.take(i as int) =~= parts);
    assert(out@ =~= start + array_json(parts));
    Ok(())
}

/// The JSON of a result.
pub fn to_json(output: &ProveTransactionResult) -> (r: Result<String, String>)
    ensures
        r matches Ok(json) && json@ == result_json(*output),
        read_json(r->Ok_0@) is Some,
        shows_result(read_json(r->Ok_0@)->0, *output),
{
    let proof_text = encode(&output.proof);
    proof {
        lemma_base64_is_plain(output.proof@);
        crate::json_reader::result_json_reads_back(*output);
    }
    let mut out = "{\"proof\":".to_owned();
    append_string(&mut out, proof_text.as_str())?;
    out.append(",\"proof_facts\":");
    append_felts(&mut out, &output.proof_facts)?;
    out.append(",\"l2_to_l1_messages\":");
    append_messages(&mut out, &output.l2_to_l1_messages)?;
    out.append("}");
    assert(out@ =~= result_json(*output));
    Ok(out)
}

/// What an attempt to write JSON comes to for the host: its error as status and log line.
pub fn report_json(json: Result<String, String>) -> (r: Result<String, Rejection>)
    ensures
        r is Ok <==> json is Ok,
        r matches Ok(text) ==> text@ == json->Ok_0@,
        r matches Err(x) ==> x.status == STATUS_RESULT_JSON_ERROR && x.log@
            == "Failed to serialize proof result JSON: "@ + json->Err_0@,
{
    match json {
        Ok(text) => Ok(text),
        Err(e) => Err(
            Rejection {
                status: STATUS_RESULT_JSON_ERROR,
                log: joined("Failed to serialize proof result JSON: ", e.as_str()),
            },
        ),
    }
}

/// The JSON of a result, for the host.
pub fn serialize_prove_transaction_result(output: &ProveTransactionResult) -> (r: Result<
    String,
    Rejection,
>)
    ensures
        r matches Ok(json) && json@ == result_json(*output),
        read_json(r->Ok_0@) is Some,
        shows_result(read_json(r->Ok_0@)->0, *output),
{
    report_json(to_json(output))
}

} // verus!
