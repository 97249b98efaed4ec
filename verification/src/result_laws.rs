//! Laws of the result JSON: it can always be handed over as a C string, and it determines the
//! result.

use vstd::prelude::*;
use crate::base64::base64_text;
use crate::c_string::c_bytes;
use crate::felt::{hex_text, Felt};
use crate::result::{
    array_json, comma_separated, felts_json, message_json, quoted, result_json, MessageToL1,
    ProveTransactionResult,
};

verus! {

/// Every character is printable ASCII.
pub open spec fn printable(text: Seq<char>) -> bool {
    forall|i: int| 0 <= i < text.len() ==> ' ' <= #[trigger] text[i] <= '~'
}

proof fn lemma_printable_concat(a: Seq<char>, b: Seq<char>)
    requires
        printable(a),
        printable(b),
    ensures
        printable(a + b),
{
    assert forall|i: int| 0 <= i < (a + b).len() implies ' ' <= #[trigger] (a + b)[i] <= '~' by {
        if i < a.len() {
            assert((a + b)[i] == a[i]);
        } else {
            assert((a + b)[i] == b[i - a.len()]);
        }
    }
}

proof fn lemma_number_printable(n: nat)
    ensures
        printable(quoted("0x"@ + hex_text(n))),
{
    reveal_strlit("0x");
    let hex = hex_text(n);
    assert forall|i: int| 0 <= i < hex.len() implies ' ' <= #[trigger] hex[i] <= '~' by {
        crate::felt::lemma_hex_chars(n, i);
    }
    lemma_printable_concat("0x"@, hex);
    lemma_printable_concat(seq!['"'], "0x"@ + hex);
    lemma_printable_concat(seq!['"'] + ("0x"@ + hex), seq!['"']);
}

proof fn lemma_separated_printable(parts: Seq<Seq<char>>)
    requires
        forall|i: int| 0 <= i < parts.len() ==> printable(#[trigger] parts[i]),
    ensures
        printable(comma_separated(parts)),
    decreases parts.len(),
{
    if parts.len() > 1 {
        let front = parts.drop_last();
        assert forall|i: int| 0 <= i < front.len() implies printable(#[trigger] front[i]) by {
            assert(front[i] == parts[i]);
        }
        lemma_separated_printable(front);
        assert(printable(parts[parts.len() - 1]));
        lemma_printable_concat(comma_separated(front), seq![',']);
        lemma_printable_concat(comma_separated(front) + seq![','], parts.last());
    } else if parts.len() == 1 {
        assert(printable(parts[0]));
    }
}

proof fn lemma_array_printable(parts: Seq<Seq<char>>)
    requires
        forall|i: int| 0 <= i < parts.len() ==> printable(#[trigger] parts[i]),
    ensures
        printable(array_json(parts)),
{
    lemma_separated_printable(parts);
    lemma_printable_concat(seq!['['], comma_separated(parts));
    lemma_printable_concat(seq!['['] + comma_separated(parts), seq![']']);
}

proof fn lemma_felts_printable(felts: Seq<Felt>)
    ensures
        printable(felts_json(felts)),
{
    let parts = felts.map_values(|f: Felt| quoted(f.text()));
    assert forall|i: int| 0 <= i < parts.len() implies printable(#[trigger] parts[i]) by {
        lemma_number_printable(felts[i].value());
    }
    lemma_array_printable(parts);
}

proof fn lemma_message_printable(m: MessageToL1)
    ensures
        printable(message_json(m)),
{
    reveal_strlit("{\"from_address\":");
    reveal_strlit(",\"to_address\":");
    reveal_strlit(",\"payload\":");
    reveal_strlit("}");
    lemma_number_printable(m.from_address.value());
    lemma_number_printable(m.to_address.value());
    lemma_felts_printable(m.payload@);
    let a = "{\"from_address\":"@ + quoted(m.from_address.text());
    let b = a + ",\"to_address\":"@;
    let c = b + quoted(m.to_address.text());
    let d = c + ",\"payload\":"@;
    let e = d + felts_json(m.payload@);
    lemma_printable_concat("{\"from_address\":"@, quoted(m.from_address.text()));
    lemma_printable_concat(a, ",\"to_address\":"@);
    lemma_printable_concat(b, quoted(m.to_address.text()));
    lemma_printable_concat(c, ",\"payload\":"@);
    lemma_printable_concat(d, felts_json(m.payload@));
    lemma_printable_concat(e, "}"@);
}

/// The JSON of a result is printable ASCII, so it always becomes a C string, and the host reads
/// back the very same JSON.
pub proof fn result_json_crosses_the_interface(output: ProveTransactionResult)
    ensures
        printable(result_json(output)),
        !result_json(output).contains('\0'),
        crate::c_string::is_first_nul(
            c_bytes(result_json(output)),
            c_bytes(result_json(output)).len() - 1,
        ),
        vstd::utf8::decode_utf8(c_bytes(result_json(output)).drop_last()) == result_json(output),
{
    reveal_strlit("{\"proof\":");
    reveal_strlit(",\"proof_facts\":");
    reveal_strlit(",\"l2_to_l1_messages\":");
    reveal_strlit("}");
    let proof_text = base64_text(output.proof@);
    assert forall|i: int| 0 <= i < proof_text.len() implies ' ' <= #[trigger] proof_text[i]
        <= '~' by {
        crate::base64::lemma_base64_chars(output.proof@, i);
    }
    lemma_printable_concat(seq!['"'], proof_text);
    lemma_printable_concat(seq!['"'] + proof_text, seq!['"']);
    lemma_felts_printable(output.proof_facts@);
    let parts = output.l2_to_l1_messages@.map_values(|m: MessageToL1| message_json(m));
    assert forall|i: int| 0 <= i < parts.len() implies printable(#[trigger] parts[i]) by {
        lemma_message_printable(output.l2_to_l1_messages@[i]);
    }
    lemma_array_printable(parts);
    let a = "{\"proof\":"@ + quoted(proof_text);
    let b = a + ",\"proof_facts\":"@;
    let c = b + felts_json(output.proof_facts@);
    let d = c + ",\"l2_to_l1_messages\":"@;
    let e = d + array_json(parts);
    lemma_printable_concat("{\"proof\":"@, quoted(proof_text));
    lemma_printable_concat(a, ",\"proof_facts\":"@);
    lemma_printable_concat(b, felts_json(output.proof_facts@));
    lemma_printable_concat(c, ",\"l2_to_l1_messages\":"@);
    lemma_printable_concat(d, array_json(parts));
    lemma_printable_concat(e, "}"@);
    crate::c_string::c_string_reads_back(result_json(output));
}

/// In a longer text, where one of the two begins the other does not, unless they are equal.
#[verifier::opaque]
spec fn separable(x: Seq<char>, y: Seq<char>) -> bool {
    forall|r: Seq<char>, s: Seq<char>| #[trigger] (x + r) == #[trigger] (y + s) ==> x == y
}

/// Texts that agree, and begin with separable texts, agree in both parts.
proof fn lemma_peel(x: Seq<char>, y: Seq<char>, r: Seq<char>, s: Seq<char>)
    requires
        separable(x, y),
        x + r == y + s,
    ensures
        x == y,
        r == s,
{
    reveal(separable);
    assert(r =~= (x + r).skip(x.len() as int));
    assert(s =~= (y + s).skip(y.len() as int));
}

proof fn lemma_peel_same(x: Seq<char>, r: Seq<char>, s: Seq<char>)
    requires
        x + r == x + s,
    ensures
        r == s,
{
    assert(r =~= (x + r).skip(x.len() as int));
    assert(s =~= (x + s).skip(x.len() as int));
}

proof fn lemma_assoc(a: Seq<char>, b: Seq<char>, c: Seq<char>)
    ensures
        (a + b) + c == a + (b + c),
{
    assert((a + b) + c =~= a + (b + c));
}

/// Seven texts put together from the left are put together from the right.
proof fn lemma_assoc_seven(
    a: Seq<char>,
    b: Seq<char>,
    c: Seq<char>,
    d: Seq<char>,
    e: Seq<char>,
    f: Seq<char>,
    g: Seq<char>,
)
    ensures
        a + b + c + d + e + f + g == a + (b + (c + (d + (e + (f + g))))),
{
    lemma_assoc(a + b + c + d + e, f, g);
    lemma_assoc(a + b + c + d, e, f + g);
    lemma_assoc(a + b + c, d, e + (f + g));
    lemma_assoc(a + b, c, d + (e + (f + g)));
    lemma_assoc(a, b, c + (d + (e + (f + g))));
}

spec fn quote_free(text: Seq<char>) -> bool {
    forall|i: int| 0 <= i < text.len() ==> #[trigger] text[i] != '"'
}

/// A JSON string ends at its second quote.
proof fn lemma_quoted_separable(x: Seq<char>, y: Seq<char>)
    requires
        quote_free(x),
        quote_free(y),
    ensures
        separable(quoted(x), quoted(y)),
        quoted(x) == quoted(y) ==> x == y,
{
    reveal(separable);
    assert forall|r: Seq<char>, s: Seq<char>| #[trigger]
        (quoted(x) + r) == #[trigger] (quoted(y) + s) implies quoted(x) == quoted(y) by {
        let t = quoted(x) + r;
        let u = quoted(y) + s;
        if x.len() < y.len() {
            assert(t[x.len() as int + 1] == '"');
            assert(u[x.len() as int + 1] == y[x.len() as int]);
        } else if y.len() < x.len() {
            assert(u[y.len() as int + 1] == '"');
            assert(t[y.len() as int + 1] == x[y.len() as int]);
        } else {
            assert forall|i: int| 0 <= i < x.len() implies x[i] == y[i] by {
                assert(t[i + 1] == x[i]);
                assert(u[i + 1] == y[i]);
            }
            assert(x =~= y);
        }
    }
    if quoted(x) == quoted(y) {
        assert(x =~= quoted(x).subrange(1, quoted(x).len() - 1));
        assert(y =~= quoted(y).subrange(1, quoted(y).len() - 1));
    }
}

proof fn lemma_number_separable(a: nat, b: nat)
    ensures
        separable(quoted("0x"@ + hex_text(a)), quoted("0x"@ + hex_text(b))),
        quoted("0x"@ + hex_text(a)) == quoted("0x"@ + hex_text(b)) ==> a == b,
{
    reveal_strlit("0x");
    let x = "0x"@ + hex_text(a);
    let y = "0x"@ + hex_text(b);
    assert forall|i: int| 0 <= i < x.len() implies #[trigger] x[i] != '"' by {
        if i >= 2 {
            crate::felt::lemma_hex_chars(a, i - 2);
            assert(x[i] == hex_text(a)[i - 2]);
        }
    }
    assert forall|i: int| 0 <= i < y.len() implies #[trigger] y[i] != '"' by {
        if i >= 2 {
            crate::felt::lemma_hex_chars(b, i - 2);
            assert(y[i] == hex_text(b)[i - 2]);
        }
    }
    lemma_quoted_separable(x, y);
    if quoted(x) == quoted(y) {
        lemma_peel_same("0x"@, hex_text(a), hex_text(b));
        crate::felt::hex_text_is_injective(a, b);
    }
}

/// Elements of an array behind the first, each with its comma.
spec fn further(parts: Seq<Seq<char>>) -> Seq<char>
    decreases parts.len(),
{
    if parts.len() == 0 {
        Seq::empty()
    } else {
        seq![','] + (parts[0] + further(parts.drop_first()))
    }
}

proof fn lemma_further_push(parts: Seq<Seq<char>>, part: Seq<char>)
    ensures
        further(parts.push(part)) == further(parts) + (seq![','] + part),
    decreases parts.len(),
{
    let longer = parts.push(part);
    if parts.len() == 0 {
        assert(longer.drop_first() =~= Seq::<Seq<char>>::empty());
        reveal_with_fuel(further, 2);
        assert(further(longer) =~= further(parts) + (seq![','] + part));
    } else {
        assert(longer.drop_first() =~= parts.drop_first().push(part));
        lemma_further_push(parts.drop_first(), part);
        assert(further(longer) =~= further(parts) + (seq![','] + part));
    }
}

proof fn lemma_separated_from_front(parts: Seq<Seq<char>>)
    requires
        parts.len() > 0,
    ensures
        comma_separated(parts) == parts[0] + further(parts.drop_first()),
    decreases parts.len(),
{
    if parts.len() == 1 {
        assert(parts.drop_first() =~= Seq::<Seq<char>>::empty());
        assert(parts[0] + further(parts.drop_first()) =~= parts[0]);
    } else {
        let front = parts.drop_last();
        lemma_separated_from_front(front);
        lemma_further_push(front.drop_first(), parts.last());
        assert(front.drop_first().push(parts.last()) =~= parts.drop_first());
        assert(comma_separated(parts) =~= parts[0] + further(parts.drop_first()));
    }
}

/// Elements of two arrays that can be told apart, and told from the end of an array.
spec fn codes(p: Seq<Seq<char>>, q: Seq<Seq<char>>) -> bool {
    &&& forall|i: int, j: int|
        0 <= i < p.len() && 0 <= j < q.len() ==> separable(#[trigger] p[i], #[trigger] q[j])
    &&& forall|i: int| 0 <= i < p.len() ==> (#[trigger] p[i]).len() > 0 && p[i][0] != ']'
    &&& forall|j: int| 0 <= j < q.len() ==> (#[trigger] q[j]).len() > 0 && q[j][0] != ']'
}

proof fn lemma_codes_rest(p: Seq<Seq<char>>, q: Seq<Seq<char>>)
    requires
        codes(p, q),
        p.len() > 0,
        q.len() > 0,
    ensures
        codes(p.drop_first(), q.drop_first()),
        separable(p[0], q[0]),
{
    let a = p.drop_first();
    let b = q.drop_first();
    assert(forall|i: int| 0 <= i < a.len() ==> #[trigger] a[i] == p[i + 1]);
    assert(forall|j: int| 0 <= j < b.len() ==> #[trigger] b[j] == q[j + 1]);
}

proof fn lemma_further_unique(
    p: Seq<Seq<char>>,
    q: Seq<Seq<char>>,
    r: Seq<char>,
    s: Seq<char>,
)
    requires
        codes(p, q),
        further(p) + (seq![']'] + r) == further(q) + (seq![']'] + s),
    ensures
        p == q,
        r == s,
    decreases p.len(),
{
    let t = further(p) + (seq![']'] + r);
    let u = further(q) + (seq![']'] + s);
    if p.len() == 0 && q.len() == 0 {
        assert(t =~= seq![']'] + r);
        assert(u =~= seq![']'] + s);
        lemma_peel_same(seq![']'], r, s);
        assert(p =~= q);
    } else if p.len() == 0 {
        assert(t[0] == ']');
        assert(u[0] == ',');
    } else if q.len() == 0 {
        assert(t[0] == ',');
        assert(u[0] == ']');
    } else {
        let tp = further(p.drop_first()) + (seq![']'] + r);
        let tq = further(q.drop_first()) + (seq![']'] + s);
        assert(t =~= seq![','] + (p[0] + tp));
        assert(u =~= seq![','] + (q[0] + tq));
        lemma_peel_same(seq![','], p[0] + tp, q[0] + tq);
        lemma_codes_rest(p, q);
        lemma_peel(p[0], q[0], tp, tq);
        lemma_further_unique(p.drop_first(), q.drop_first(), r, s);
        assert(p =~= seq![p[0]] + p.drop_first());
        assert(q =~= seq![q[0]] + q.drop_first());
    }
}

/// Arrays of elements that can be told apart can be told apart.
proof fn lemma_array_unique(p: Seq<Seq<char>>, q: Seq<Seq<char>>, r: Seq<char>, s: Seq<char>)
    requires
        codes(p, q),
        array_json(p) + r == array_json(q) + s,
    ensures
        p == q,
        r == s,
{
    let t = comma_separated(p) + (seq![']'] + r);
    let u = comma_separated(q) + (seq![']'] + s);
    assert(array_json(p) + r =~= seq!['['] + t);
    assert(array_json(q) + s =~= seq!['['] + u);
    lemma_peel_same(seq!['['], t, u);
    if p.len() == 0 && q.len() == 0 {
        assert(t =~= seq![']'] + r);
        assert(u =~= seq![']'] + s);
        lemma_peel_same(seq![']'], r, s);
        assert(p =~= q);
    } else if p.len() == 0 {
        lemma_separated_from_front(q);
        assert(t[0] == ']');
        assert(u[0] == q[0][0]);
    } else if q.len() == 0 {
        lemma_separated_from_front(p);
        assert(u[0] == ']');
        assert(t[0] == p[0][0]);
    } else {
        lemma_separated_from_front(p);
        lemma_separated_from_front(q);
        let tp = further(p.drop_first()) + (seq![']'] + r);
        let tq = further(q.drop_first()) + (seq![']'] + s);
        assert(t =~= p[0] + tp);
        assert(u =~= q[0] + tq);
        lemma_codes_rest(p, q);
        lemma_peel(p[0], q[0], tp, tq);
        lemma_further_unique(p.drop_first(), q.drop_first(), r, s);
        assert(p =~= seq![p[0]] + p.drop_first());
        assert(q =~= seq![q[0]] + q.drop_first());
    }
}

/// The numbers of a sequence of field elements.
pub open spec fn values(felts: Seq<Felt>) -> Seq<nat> {
    felts.map_values(|f: Felt| f.value())
}

proof fn lemma_felts_unique(a: Seq<Felt>, b: Seq<Felt>, r: Seq<char>, s: Seq<char>)
    requires
        felts_json(a) + r == felts_json(b) + s,
    ensures
        values(a) == values(b),
        felts_json(a) == felts_json(b),
        r == s,
{
    let p = a.map_values(|f: Felt| quoted(f.text()));
    let q = b.map_values(|f: Felt| quoted(f.text()));
    assert forall|i: int, j: int| 0 <= i < p.len() && 0 <= j < q.len() implies separable(
        #[trigger] p[i],
        #[trigger] q[j],
    ) by {
        lemma_number_separable(a[i].value(), b[j].value());
    }
    lemma_array_unique(p, q, r, s);
    assert(a.len() == p.len() && b.len() == q.len());
    assert forall|i: int| 0 <= i < a.len() implies values(a)[i] == values(b)[i] by {
        assert(p[i] == q[i]);
        lemma_number_separable(a[i].value(), b[i].value());
    }
    assert(values(a) =~= values(b));
}

/// Two messages say the same.
pub open spec fn same_message(a: MessageToL1, b: MessageToL1) -> bool {
    &&& a.from_address.value() == b.from_address.value()
    &&& a.to_address.value() == b.to_address.value()
    &&& values(a.payload@) == values(b.payload@)
}

/// Two results say the same.
pub open spec fn same_result(a: ProveTransactionResult, b: ProveTransactionResult) -> bool {
    &&& a.proof@ == b.proof@
    &&& values(a.proof_facts@) == values(b.proof_facts@)
    &&& a.l2_to_l1_messages@.len() == b.l2_to_l1_messages@.len()
    &&& forall|i: int|
        0 <= i < a.l2_to_l1_messages@.len() ==> same_message(
            #[trigger] a.l2_to_l1_messages@[i],
            b.l2_to_l1_messages@[i],
        )
}

proof fn lemma_message_unique(a: MessageToL1, b: MessageToL1, r: Seq<char>, s: Seq<char>)
    requires
        message_json(a) + r == message_json(b) + s,
    ensures
        same_message(a, b),
        message_json(a) == message_json(b),
{
    let k1 = "{\"from_address\":"@;
    let k2 = ",\"to_address\":"@;
    let k3 = ",\"payload\":"@;
    let k4 = "}"@;
    let fa = quoted(a.from_address.text());
    let fb = quoted(b.from_address.text());
    let ta = quoted(a.to_address.text());
    let tb = quoted(b.to_address.text());
    let pa = felts_json(a.payload@);
    let pb = felts_json(b.payload@);
    let a6 = k4 + r;
    let b6 = k4 + s;
    let a5 = k3 + (pa + a6);
    let b5 = k3 + (pb + b6);
    let a3 = k2 + (ta + a5);
    let b3 = k2 + (tb + b5);
    lemma_assoc(k1 + fa + k2 + ta + k3 + pa, k4, r);
    lemma_assoc(k1 + fb + k2 + tb + k3 + pb, k4, s);
    lemma_assoc_seven(k1, fa, k2, ta, k3, pa, a6);
    lemma_assoc_seven(k1, fb, k2, tb, k3, pb, b6);
    lemma_peel_same(k1, fa + a3, fb + b3);
    lemma_number_separable(a.from_address.value(), b.from_address.value());
    lemma_peel(fa, fb, a3, b3);
    lemma_peel_same(k2, ta + a5, tb + b5);
    lemma_number_separable(a.to_address.value(), b.to_address.value());
    lemma_peel(ta, tb, a5, b5);
    lemma_peel_same(k3, pa + a6, pb + b6);
    lemma_felts_unique(a.payload@, b.payload@, a6, b6);
}

proof fn lemma_message_separable(a: MessageToL1, b: MessageToL1)
    ensures
        separable(message_json(a), message_json(b)),
        message_json(a) == message_json(b) ==> same_message(a, b),
        message_json(a).len() > 0,
        message_json(a)[0] != ']',
{
    reveal(separable);
    assert forall|r: Seq<char>, s: Seq<char>| #[trigger]
        (message_json(a) + r) == #[trigger] (message_json(b) + s) implies message_json(a)
        == message_json(b) by {
        lemma_message_unique(a, b, r, s);
    }
    if message_json(a) == message_json(b) {
        lemma_message_unique(a, b, Seq::empty(), Seq::empty());
    }
    reveal_strlit("{\"from_address\":");
}

/// The JSON of a result determines it: two results with the same JSON have the same proof, the
/// same proof facts and the same messages.
pub proof fn result_json_is_injective(a: ProveTransactionResult, b: ProveTransactionResult)
    requires
        result_json(a) == result_json(b),
    ensures
        same_result(a, b),
{
    let k1 = "{\"proof\":"@;
    let k2 = ",\"proof_facts\":"@;
    let k3 = ",\"l2_to_l1_messages\":"@;
    let k4 = "}"@;
    let ma = a.l2_to_l1_messages@;
    let mb = b.l2_to_l1_messages@;
    let xa = base64_text(a.proof@);
    let xb = base64_text(b.proof@);
    let fa = felts_json(a.proof_facts@);
    let fb = felts_json(b.proof_facts@);
    let p = ma.map_values(|m: MessageToL1| message_json(m));
    let q = mb.map_values(|m: MessageToL1| message_json(m));
    let a5 = k3 + (array_json(p) + k4);
    let b5 = k3 + (array_json(q) + k4);
    let a3 = k2 + (fa + a5);
    let b3 = k2 + (fb + b5);
    lemma_assoc_seven(k1, quoted(xa), k2, fa, k3, array_json(p), k4);
    lemma_assoc_seven(k1, quoted(xb), k2, fb, k3, array_json(q), k4);
    lemma_peel_same(k1, quoted(xa) + a3, quoted(xb) + b3);
    assert forall|i: int| 0 <= i < xa.len() implies #[trigger] xa[i] != '"' by {
        crate::base64::lemma_base64_chars(a.proof@, i);
    }
    assert forall|i: int| 0 <= i < xb.len() implies #[trigger] xb[i] != '"' by {
        crate::base64::lemma_base64_chars(b.proof@, i);
    }
    lemma_quoted_separable(xa, xb);
    lemma_peel(quoted(xa), quoted(xb), a3, b3);
    crate::base64::base64_is_injective(a.proof@, b.proof@);
    lemma_peel_same(k2, fa + a5, fb + b5);
    lemma_felts_unique(a.proof_facts@, b.proof_facts@, a5, b5);
    lemma_peel_same(k3, array_json(p) + k4, array_json(q) + k4);
    assert forall|i: int, j: int| 0 <= i < p.len() && 0 <= j < q.len() implies separable(
        #[trigger] p[i],
        #[trigger] q[j],
    ) by {
        lemma_message_separable(ma[i], mb[j]);
    }
    assert forall|i: int| 0 <= i < p.len() implies (#[trigger] p[i]).len() > 0 && p[i][0]
        != ']' by {
        lemma_message_separable(ma[i], ma[i]);
    }
    assert forall|j: int| 0 <= j < q.len() implies (#[trigger] q[j]).len() > 0 && q[j][0]
        != ']' by {
        lemma_message_separable(mb[j], mb[j]);
    }
    lemma_array_unique(p, q, k4, k4);
    assert(ma.len() == p.len() && mb.len() == q.len());
    assert forall|i: int| 0 <= i < ma.len() implies same_message(#[trigger] ma[i], mb[i]) by {
        assert(p[i] == q[i]);
        lemma_message_separable(ma[i], mb[i]);
    }
}

} // verus!
