//! Reading JSON: what a host finds in the text of a result.
//!
//! The reader knows strings without escapes, arrays and objects, without space between the tokens.

use vstd::prelude::*;
use crate::base64::{base64_text, shows_bytes};
use crate::felt::{shows_hex, Felt};
use crate::result::{
    array_json, comma_separated, felts_json, message_json, quoted, result_json, MessageToL1,
    ProveTransactionResult,
};

verus! {

/// A JSON value.
pub enum Json {
    Text(Seq<char>),
    Items(Seq<Json>),
    Members(Seq<(Seq<char>, Json)>),
}

/// The characters up to the next quote, and what follows the quote.
pub open spec fn read_chars(text: Seq<char>) -> Option<(Seq<char>, Seq<char>)>
    decreases text.len(),
{
    if text.len() == 0 || text[0] < ' ' || text[0] == '\\' {
        None
    } else if text[0] == '"' {
        Some((Seq::empty(), text.skip(1)))
    } else {
        match read_chars(text.skip(1)) {
            Some((chars, rest)) => Some((seq![text[0]] + chars, rest)),
            None => None,
        }
    }
}

/// The value that the text begins with, and what follows it.
pub open spec fn read_value(text: Seq<char>) -> Option<(Json, Seq<char>)>
    decreases text.len(), 0int,
{
    if text.len() < 2 {
        None
    } else if text[0] == '"' {
        match read_chars(text.skip(1)) {
            Some((chars, rest)) => Some((Json::Text(chars), rest)),
            None => None,
        }
    } else if text[0] == '[' {
        if text[1] == ']' {
            Some((Json::Items(Seq::empty()), text.skip(2)))
        } else {
            match read_items(text.skip(1)) {
                Some((items, rest)) => Some((Json::Items(items), rest)),
                None => None,
            }
        }
    } else if text[0] == '{' {
        if text[1] == '}' {
            Some((Json::Members(Seq::empty()), text.skip(2)))
        } else {
            match read_members(text.skip(1)) {
                Some((members, rest)) => Some((Json::Members(members), rest)),
                None => None,
            }
        }
    } else {
        None
    }
}

/// The values up to the end of an array, with commas between them, and what follows the array.
pub open spec fn read_items(text: Seq<char>) -> Option<(Seq<Json>, Seq<char>)>
    decreases text.len(), 1int,
{
    match read_value(text) {
        Some((item, rest)) => if 0 < rest.len() < text.len() && rest[0] == ']' {
            Some((seq![item], rest.skip(1)))
        } else if 0 < rest.len() < text.len() && rest[0] == ',' {
            match read_items(rest.skip(1)) {
                Some((items, end)) => Some((seq![item] + items, end)),
                None => None,
            }
        } else {
            None
        },
        None => None,
    }
}

/// The members up to the end of an object, with commas between them, and what follows the object.
pub open spec fn read_members(text: Seq<char>) -> Option<(Seq<(Seq<char>, Json)>, Seq<char>)>
    decreases text.len(), 1int,
{
    if text.len() == 0 || text[0] != '"' {
        None
    } else {
        match read_chars(text.skip(1)) {
            Some((key, after)) => if 0 < after.len() < text.len() && after[0] == ':' {
                match read_value(after.skip(1)) {
                    Some((value, rest)) => if 0 < rest.len() < text.len() && rest[0] == '}' {
                        Some((seq![(key, value)], rest.skip(1)))
                    } else if 0 < rest.len() < text.len() && rest[0] == ',' {
                        match read_members(rest.skip(1)) {
                            Some((members, end)) => Some((seq![(key, value)] + members, end)),
                            None => None,
                        }
                    } else {
                        None
                    },
                    None => None,
                }
            } else {
                None
            },
            None => None,
        }
    }
}

/// The value that a whole text is.
pub open spec fn read_json(text: Seq<char>) -> Option<Json> {
    match read_value(text) {
        Some((value, rest)) => if rest.len() == 0 {
            Some(value)
        } else {
            None
        },
        None => None,
    }
}

/// The value is a string with a number in hexadecimal notation.
pub open spec fn shows_number(value: Json, n: nat) -> bool {
    value matches Json::Text(text) && shows_hex(text, n as int)
}

/// The value is an array of the numbers, element by element.
pub open spec fn shows_felts(value: Json, felts: Seq<Felt>) -> bool {
    &&& value matches Json::Items(items)
    &&& items.len() == felts.len()
    &&& forall|i: int| 0 <= i < felts.len() ==> shows_number(#[trigger] items[i], felts[i].value())
}

/// The value is an object with the sender, the receiver and the payload of the message.
pub open spec fn shows_message(value: Json, message: MessageToL1) -> bool {
    &&& value matches Json::Members(members)
    &&& members.len() == 3
    &&& members[0].0 == "from_address"@
    &&& shows_number(members[0].1, message.from_address.value())
    &&& members[1].0 == "to_address"@
    &&& shows_number(members[1].1, message.to_address.value())
    &&& members[2].0 == "payload"@
    &&& shows_felts(members[2].1, message.payload@)
}

/// The value is an array of the messages, element by element.
pub open spec fn shows_messages(value: Json, messages: Seq<MessageToL1>) -> bool {
    &&& value matches Json::Items(items)
    &&& items.len() == messages.len()
    &&& forall|i: int|
        0 <= i < messages.len() ==> shows_message(#[trigger] items[i], messages[i])
}

/// The value is an object with the proof in base64, the facts and the messages.
pub open spec fn shows_result(value: Json, output: ProveTransactionResult) -> bool {
    &&& value matches Json::Members(members)
    &&& members.len() == 3
    &&& members[0].0 == "proof"@
    &&& members[0].1 matches Json::Text(proof_text)
    &&& shows_bytes(proof_text, output.proof@)
    &&& members[1].0 == "proof_facts"@
    &&& shows_felts(members[1].1, output.proof_facts@)
    &&& members[2].0 == "l2_to_l1_messages"@
    &&& shows_messages(members[2].1, output.l2_to_l1_messages@)
}

/// Wherever the text stands, the reader finds the value in it and goes on behind it.
#[verifier::opaque]
spec fn reads(text: Seq<char>, value: Json) -> bool {
    &&& text.len() > 0
    &&& text[0] != ']'
    &&& forall|rest: Seq<char>| #[trigger] read_value(text + rest) == Some((value, rest))
}

spec fn readable_chars(text: Seq<char>) -> bool {
    forall|i: int|
        0 <= i < text.len() ==> #[trigger] text[i] >= ' ' && text[i] != '"' && text[i] != '\\'
}

proof fn lemma_read_chars(chars: Seq<char>, rest: Seq<char>)
    requires
        readable_chars(chars),
    ensures
        read_chars(chars + seq!['"'] + rest) == Some((chars, rest)),
    decreases chars.len(),
{
    let text = chars + seq!['"'] + rest;
    if chars.len() == 0 {
        assert(text[0] == '"');
        assert(text.skip(1) =~= rest);
        assert(chars =~= Seq::<char>::empty());
    } else {
        let tail = chars.drop_first();
        assert(text[0] == chars[0]);
        assert(readable_chars(tail)) by {
            assert forall|i: int| 0 <= i < tail.len() implies #[trigger] tail[i] >= ' ' && tail[i]
                != '"' && tail[i] != '\\' by {
                assert(tail[i] == chars[i + 1]);
            }
        }
        assert(text.skip(1) =~= tail + seq!['"'] + rest);
        lemma_read_chars(tail, rest);
        assert(seq![chars[0]] + tail =~= chars);
    }
}

proof fn lemma_reads_text(chars: Seq<char>)
    requires
        readable_chars(chars),
    ensures
        reads(quoted(chars), Json::Text(chars)),
{
    reveal(reads);
    assert forall|rest: Seq<char>| #[trigger]
        read_value(quoted(chars) + rest) == Some((Json::Text(chars), rest)) by {
        let text = quoted(chars) + rest;
        assert(text[0] == '"');
        assert(text.skip(1) =~= chars + seq!['"'] + rest);
        lemma_read_chars(chars, rest);
    }
}

/// A list of texts from the front: the first, a comma, the others.
proof fn lemma_separated_front(parts: Seq<Seq<char>>)
    requires
        parts.len() > 1,
    ensures
        comma_separated(parts) == parts[0] + seq![','] + comma_separated(parts.drop_first()),
    decreases parts.len(),
{
    let rest = parts.drop_first();
    if parts.len() == 2 {
        assert(parts.drop_last().len() == 1);
        assert(comma_separated(parts.drop_last()) == parts[0]);
        assert(comma_separated(rest) == parts[1]);
    } else {
        lemma_separated_front(parts.drop_last());
        assert(parts.drop_last().drop_first() =~= rest.drop_last());
        assert(comma_separated(parts) =~= parts[0] + seq![','] + comma_separated(rest));
    }
}

proof fn lemma_read_items(parts: Seq<Seq<char>>, items: Seq<Json>, rest: Seq<char>)
    requires
        parts.len() > 0,
        parts.len() == items.len(),
        forall|i: int| 0 <= i < parts.len() ==> reads(#[trigger] parts[i], items[i]),
    ensures
        read_items(comma_separated(parts) + seq![']'] + rest) == Some((items, rest)),
    decreases parts.len(),
{
    let text = comma_separated(parts) + seq![']'] + rest;
    assert(reads(parts[0], items[0]));
    reveal(reads);
    if parts.len() == 1 {
        let after = seq![']'] + rest;
        assert(text =~= parts[0] + after);
        assert(read_value(parts[0] + after) == Some((items[0], after)));
        assert(after.skip(1) =~= rest);
        assert(items =~= seq![items[0]]);
    } else {
        let others = parts.drop_first();
        let tail = items.drop_first();
        let inner = comma_separated(others) + seq![']'] + rest;
        let after = seq![','] + inner;
        lemma_separated_front(parts);
        assert(text =~= parts[0] + after);
        assert(read_value(parts[0] + after) == Some((items[0], after)));
        assert(after.skip(1) =~= inner);
        assert forall|i: int| 0 <= i < others.len() implies reads(#[trigger] others[i], tail[i]) by {
            assert(reads(parts[i + 1], items[i + 1]));
        }
        lemma_read_items(others, tail, rest);
        assert(items =~= seq![items[0]] + tail);
    }
}

proof fn lemma_reads_array(parts: Seq<Seq<char>>, items: Seq<Json>)
    requires
        parts.len() == items.len(),
        forall|i: int| 0 <= i < parts.len() ==> reads(#[trigger] parts[i], items[i]),
    ensures
        reads(array_json(parts), Json::Items(items)),
{
    assert forall|rest: Seq<char>| #[trigger]
        read_value(array_json(parts) + rest) == Some((Json::Items(items), rest)) by {
        let text = array_json(parts) + rest;
        assert(text[0] == '[');
        if parts.len() == 0 {
            assert(text[1] == ']');
            assert(text.skip(2) =~= rest);
            assert(items =~= Seq::<Json>::empty());
        } else {
            let inner = comma_separated(parts) + seq![']'] + rest;
            assert(text.skip(1) =~= inner);
            lemma_read_items(parts, items, rest);
            assert(reads(parts[0], items[0]));
            assert(comma_separated(parts).len() > 0 && comma_separated(parts)[0] == parts[0][0]
                && parts[0][0] != ']') by {
                reveal(reads);
                if parts.len() > 1 {
                    lemma_separated_front(parts);
                }
            }
            assert(text[1] == inner[0]);
        }
    }
    reveal(reads);
}

/// The last member of an object.
proof fn lemma_last_member(key: Seq<char>, text: Seq<char>, value: Json, rest: Seq<char>)
    requires
        readable_chars(key),
        reads(text, value),
    ensures
        read_members(quoted(key) + seq![':'] + text + seq!['}'] + rest) == Some(
            (seq![(key, value)], rest),
        ),
{
    reveal(reads);
    let whole = quoted(key) + seq![':'] + text + seq!['}'] + rest;
    let end = seq!['}'] + rest;
    let after = seq![':'] + text + end;
    assert(whole[0] == '"');
    assert(whole.skip(1) =~= key + seq!['"'] + after);
    lemma_read_chars(key, after);
    assert(after.skip(1) =~= text + end);
    assert(read_value(text + end) == Some((value, end)));
    assert(end.skip(1) =~= rest);
}

/// A member of an object with others behind it.
proof fn lemma_member(
    key: Seq<char>,
    text: Seq<char>,
    value: Json,
    others: Seq<char>,
    members: Seq<(Seq<char>, Json)>,
    rest: Seq<char>,
)
    requires
        readable_chars(key),
        reads(text, value),
        read_members(others) == Some((members, rest)),
    ensures
        read_members(quoted(key) + seq![':'] + text + seq![','] + others) == Some(
            (seq![(key, value)] + members, rest),
        ),
{
    reveal(reads);
    let whole = quoted(key) + seq![':'] + text + seq![','] + others;
    let end = seq![','] + others;
    let after = seq![':'] + text + end;
    assert(whole[0] == '"');
    assert(whole.skip(1) =~= key + seq!['"'] + after);
    lemma_read_chars(key, after);
    assert(after.skip(1) =~= text + end);
    assert(read_value(text + end) == Some((value, end)));
    assert(end.skip(1) =~= others);
}

/// An object of three members.
proof fn lemma_reads_object(
    k1: Seq<char>,
    t1: Seq<char>,
    v1: Json,
    k2: Seq<char>,
    t2: Seq<char>,
    v2: Json,
    k3: Seq<char>,
    t3: Seq<char>,
    v3: Json,
)
    requires
        readable_chars(k1),
        readable_chars(k2),
        readable_chars(k3),
        reads(t1, v1),
        reads(t2, v2),
        reads(t3, v3),
    ensures
        reads(
            seq!['{'] + quoted(k1) + seq![':'] + t1 + seq![','] + quoted(k2) + seq![':'] + t2
                + seq![','] + quoted(k3) + seq![':'] + t3 + seq!['}'],
            Json::Members(seq![(k1, v1), (k2, v2), (k3, v3)]),
        ),
{
    let object = seq!['{'] + quoted(k1) + seq![':'] + t1 + seq![','] + quoted(k2) + seq![':'] + t2
        + seq![','] + quoted(k3) + seq![':'] + t3 + seq!['}'];
    let value = Json::Members(seq![(k1, v1), (k2, v2), (k3, v3)]);
    assert forall|rest: Seq<char>| #[trigger]
        read_value(object + rest) == Some((value, rest)) by {
        let third = quoted(k3) + seq![':'] + t3 + seq!['}'] + rest;
        let second = quoted(k2) + seq![':'] + t2 + seq![','] + third;
        let first = quoted(k1) + seq![':'] + t1 + seq![','] + second;
        let m3 = seq![(k3, v3)];
        let m2 = seq![(k2, v2)] + m3;
        let m1 = seq![(k1, v1)] + m2;
        lemma_last_member(k3, t3, v3, rest);
        lemma_member(k2, t2, v2, third, m3, rest);
        lemma_member(k1, t1, v1, second, m2, rest);
        let text = object + rest;
        assert(text[0] == '{');
        assert(text[1] == '"');
        assert(text.skip(1) =~= first);
        assert(m1 =~= seq![(k1, v1), (k2, v2), (k3, v3)]);
    }
    reveal(reads);
}

proof fn lemma_reads_number(text: Seq<char>, n: int)
    requires
        shows_hex(text, n),
    ensures
        reads(quoted(text), Json::Text(text)),
{
    assert(readable_chars(text)) by {
        assert forall|i: int| 0 <= i < text.len() implies #[trigger] text[i] >= ' ' && text[i]
            != '"' && text[i] != '\\' by {
            if i >= 2 {
                assert('0' <= text[i] <= '9' || 'a' <= text[i] <= 'f');
            }
        }
    }
    lemma_reads_text(text);
}

spec fn felts_value(felts: Seq<Felt>) -> Json {
    Json::Items(felts.map_values(|f: Felt| Json::Text(f.text())))
}

proof fn lemma_reads_felts(felts: Seq<Felt>)
    ensures
        reads(felts_json(felts), felts_value(felts)),
        shows_felts(felts_value(felts), felts),
{
    let parts = felts.map_values(|f: Felt| quoted(f.text()));
    let items = felts.map_values(|f: Felt| Json::Text(f.text()));
    assert forall|i: int| 0 <= i < parts.len() implies reads(#[trigger] parts[i], items[i]) by {
        crate::felt::felt_text_reads_back(felts[i]);
        lemma_reads_number(felts[i].text(), felts[i].value() as int);
    }
    lemma_reads_array(parts, items);
    assert forall|i: int| 0 <= i < felts.len() implies shows_number(
        #[trigger] items[i],
        felts[i].value(),
    ) by {
        crate::felt::felt_text_reads_back(felts[i]);
    }
}

spec fn message_value(message: MessageToL1) -> Json {
    Json::Members(
        seq![
            ("from_address"@, Json::Text(message.from_address.text())),
            ("to_address"@, Json::Text(message.to_address.text())),
            ("payload"@, felts_value(message.payload@)),
        ],
    )
}

proof fn lemma_reads_message(message: MessageToL1)
    ensures
        reads(message_json(message), message_value(message)),
        shows_message(message_value(message), message),
{
    reveal_strlit("{\"from_address\":");
    reveal_strlit(",\"to_address\":");
    reveal_strlit(",\"payload\":");
    reveal_strlit("}");
    reveal_strlit("from_address");
    reveal_strlit("to_address");
    reveal_strlit("payload");
    let from = message.from_address.text();
    let to = message.to_address.text();
    crate::felt::felt_text_reads_back(message.from_address);
    crate::felt::address_text_reads_back(message.to_address);
    lemma_reads_number(from, message.from_address.value() as int);
    lemma_reads_number(to, message.to_address.value() as int);
    lemma_reads_felts(message.payload@);
    lemma_reads_object(
        "from_address"@,
        quoted(from),
        Json::Text(from),
        "to_address"@,
        quoted(to),
        Json::Text(to),
        "payload"@,
        felts_json(message.payload@),
        felts_value(message.payload@),
    );
    assert("{\"from_address\":"@ =~= seq!['{'] + quoted("from_address"@) + seq![':']);
    assert(",\"to_address\":"@ =~= seq![','] + quoted("to_address"@) + seq![':']);
    assert(",\"payload\":"@ =~= seq![','] + quoted("payload"@) + seq![':']);
    assert("}"@ =~= seq!['}']);
    assert(message_json(message) =~= seq!['{'] + quoted("from_address"@) + seq![':'] + quoted(from)
        + seq![','] + quoted("to_address"@) + seq![':'] + quoted(to) + seq![','] + quoted(
        "payload"@,
    ) + seq![':'] + felts_json(message.payload@) + seq!['}']);
}

proof fn lemma_reads_messages(messages: Seq<MessageToL1>) -> (value: Json)
    ensures
        reads(array_json(messages.map_values(|m: MessageToL1| message_json(m))), value),
        shows_messages(value, messages),
{
    let parts = messages.map_values(|m: MessageToL1| message_json(m));
    let items = messages.map_values(|m: MessageToL1| message_value(m));
    assert forall|i: int| 0 <= i < parts.len() implies reads(#[trigger] parts[i], items[i]) by {
        lemma_reads_message(messages[i]);
    }
    lemma_reads_array(parts, items);
    assert forall|i: int| 0 <= i < messages.len() implies shows_message(
        #[trigger] items[i],
        messages[i],
    ) by {
        lemma_reads_message(messages[i]);
    }
    Json::Items(items)
}

/// Reading the JSON of a result gives the result back: an object with the proof in base64, the
/// facts one by one, and the messages one by one with sender, receiver and payload.
pub proof fn result_json_reads_back(output: ProveTransactionResult)
    ensures
        read_json(result_json(output)) is Some,
        shows_result(read_json(result_json(output))->0, output),
{
    reveal_strlit("{\"proof\":");
    reveal_strlit(",\"proof_facts\":");
    reveal_strlit(",\"l2_to_l1_messages\":");
    reveal_strlit("}");
    reveal_strlit("proof");
    reveal_strlit("proof_facts");
    reveal_strlit("l2_to_l1_messages");
    let proof_text = base64_text(output.proof@);
    crate::base64::base64_shows_the_bytes(output.proof@);
    assert(readable_chars(proof_text)) by {
        assert forall|i: int| 0 <= i < proof_text.len() implies #[trigger] proof_text[i] >= ' '
            && proof_text[i] != '"' && proof_text[i] != '\\' by {
            crate::base64::lemma_base64_chars(output.proof@, i);
        }
    }
    lemma_reads_text(proof_text);
    lemma_reads_felts(output.proof_facts@);
    let facts = felts_json(output.proof_facts@);
    let messages = array_json(output.l2_to_l1_messages@.map_values(|m: MessageToL1| message_json(m)));
    let messages_value = lemma_reads_messages(output.l2_to_l1_messages@);
    lemma_reads_object(
        "proof"@,
        quoted(proof_text),
        Json::Text(proof_text),
        "proof_facts"@,
        facts,
        felts_value(output.proof_facts@),
        "l2_to_l1_messages"@,
        messages,
        messages_value,
    );
    let object = seq!['{'] + quoted("proof"@) + seq![':'] + quoted(proof_text) + seq![',']
        + quoted("proof_facts"@) + seq![':'] + facts + seq![','] + quoted("l2_to_l1_messages"@)
        + seq![':'] + messages + seq!['}'];
    assert("{\"proof\":"@ =~= seq!['{'] + quoted("proof"@) + seq![':']);
    assert(",\"proof_facts\":"@ =~= seq![','] + quoted("proof_facts"@) + seq![':']);
    assert(",\"l2_to_l1_messages\":"@ =~= seq![','] + quoted("l2_to_l1_messages"@) + seq![':']);
    assert("}"@ =~= seq!['}']);
    assert(result_json(output) =~= object);
    reveal(reads);
    assert(object + Seq::<char>::empty() =~= object);
    assert(read_value(object + Seq::<char>::empty()) is Some);
}

} // verus!
