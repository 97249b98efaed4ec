//! Strings that cross the interface as NUL-terminated bytes.

use vstd::prelude::*;
use vstd::slice::*;
use vstd::string::*;
use vstd::utf8::*;
use crate::text::{append_decimal, decimal_text};

verus! {

/// `at` is the position of the first NUL in `bytes`.
pub open spec fn is_first_nul(bytes: Seq<u8>, at: int) -> bool {
    &&& 0 <= at < bytes.len()
    &&& bytes[at] == 0
    &&& forall|i: int| 0 <= i < at ==> bytes[i] != 0
}

/// The memory that holds `text` as a C string.
pub open spec fn c_bytes(text: Seq<char>) -> Seq<u8> {
    encode_utf8(text).push(0)
}

/// A text cannot become a C string: it has a NUL inside.
#[derive(Clone, Copy, Debug, PartialEq, Eq, Structural)]
pub struct NulFault {
    /// Position of the first NUL in the encoded text.
    pub position: usize,
}

impl NulFault {
    /// What the fault reads like in a log line.
    pub open spec fn text(self) -> Seq<char> {
        "nul byte found in provided data at position: "@ + decimal_text(self.position as nat)
    }

    /// The text of the fault.
    pub fn describe(&self) -> (line: String)
        ensures
            line@ == self.text(),
            line@ == "nul byte found in provided data at position: "@ + decimal_text(
                self.position as nat,
            ),
    {
        let mut line = "nul byte found in provided data at position: ".to_owned();
        append_decimal(&mut line, self.position as u128);
        line
    }
}

/// The encoding of two texts put together is their encodings put together.
pub proof fn lemma_encode_concat(a: Seq<char>, b: Seq<char>)
    ensures
        encode_utf8(a + b) == encode_utf8(a) + encode_utf8(b),
    decreases a.len(),
{
    if a.len() == 0 {
        assert(a + b =~= b);
        assert(encode_utf8(a) + encode_utf8(b) =~= encode_utf8(b));
    } else {
        assert((a + b).drop_first() =~= a.drop_first() + b);
        lemma_encode_concat(a.drop_first(), b);
        assert(encode_utf8(a + b) =~= encode_utf8(a) + encode_utf8(b));
    }
}

/// Only the character NUL is encoded with a zero byte.
proof fn lemma_scalar_nul(c: u32)
    requires
        is_scalar(c),
    ensures
        encode_scalar(c).contains(0u8) <==> c == 0,
{
    assert(has_width_1_encoding(c) ==> (leading_byte_width_1(c) == 0 <==> c == 0)) by (bit_vector);
    assert(leading_byte_width_2(c) != 0 && leading_byte_width_3(c) != 0 && leading_byte_width_4(c)
        != 0 && last_continuation_byte(c) != 0 && second_last_continuation_byte(c) != 0
        && third_last_continuation_byte(c) != 0) by (bit_vector);
    if c == 0 {
        assert(encode_scalar(c)[0] == 0u8);
    }
}

/// An encoded text holds a zero byte exactly when the text holds the character NUL.
pub proof fn lemma_encoded_nul(text: Seq<char>)
    ensures
        encode_utf8(text).contains(0u8) <==> text.contains('\0'),
    decreases text.len(),
{
    if text.len() > 0 {
        let head = encode_scalar(text[0] as u32);
        let tail = encode_utf8(text.drop_first());
        let whole = encode_utf8(text);
        char_is_scalar(text[0]);
        char_u32_cast(text[0], text[0] as u32);
        lemma_scalar_nul(text[0] as u32);
        lemma_encoded_nul(text.drop_first());
        if whole.contains(0u8) {
            let i = choose|i: int| 0 <= i < whole.len() && whole[i] == 0u8;
            if i < head.len() {
                assert(head[i] == 0u8);
                assert(text[0] == '\0');
            } else {
                assert(tail[i - head.len()] == 0u8);
                let k = choose|k: int|
                    0 <= k < text.drop_first().len() && text.drop_first()[k] == '\0';
                assert(text[k + 1] == '\0');
            }
        }
        if text.contains('\0') {
            let k = choose|k: int| 0 <= k < text.len() && text[k] == '\0';
            if k == 0 {
                let i = choose|i: int| 0 <= i < head.len() && head[i] == 0u8;
                assert(whole[i] == 0u8);
            } else {
                assert(text.drop_first()[k - 1] == '\0');
                let i = choose|i: int| 0 <= i < tail.len() && tail[i] == 0u8;
                assert(whole[head.len() + i] == 0u8);
            }
        }
    }
}

/// `bytes` with a terminating NUL, or the position of the NUL they hold already.
pub fn terminate(bytes: &[u8]) -> (r: Result<Vec<u8>, NulFault>)
    ensures
        r is Ok <==> !bytes@.contains(0u8),
        r matches Ok(v) ==> v@ == bytes@.push(0),
        r matches Err(f) ==> is_first_nul(bytes@, f.position as int),
        r matches Err(f) ==> f.position < bytes@.len() && bytes@[f.position as int] == 0
            && !bytes@.take(f.position as int).contains(0u8),
{
    let mut out: Vec<u8> = Vec::new();
    let mut i: usize = 0;
    while i < bytes.len()
        invariant
            i <= bytes@.len(),
            out@ == bytes@.take(i as int),
            forall|k: int| 0 <= k < i ==> bytes@[k] != 0,
        decreases bytes@.len() - i,
    {
        let b: u8 = bytes[i];
        if b == 0 {
            assert(!bytes@.take(i as int).contains(0u8));
            return Err(NulFault { position: i });
        }
        out.push(b);
        i = i + 1;
        assert(out@ =~= bytes@.take(i as int));
    }
    out.push(0);
    assert(out@ =~= bytes@.push(0));
    Ok(out)
}

/// `text` as a C string, or the position of a NUL inside it.
pub fn to_c_string(text: &str) -> (r: Result<Vec<u8>, NulFault>)
    ensures
        r is Ok <==> !text@.contains('\0'),
        r matches Ok(v) ==> v@ == c_bytes(text@),
        r matches Ok(v) ==> v@ == encode_utf8(text@).push(0),
        r matches Err(f) ==> is_first_nul(encode_utf8(text@), f.position as int),
        r matches Err(f) ==> f.position < encode_utf8(text@).len() && encode_utf8(
            text@,
        )[f.position as int] == 0 && !encode_utf8(text@).take(f.position as int).contains(0u8),
{
    proof {
        lemma_encoded_nul(text@);
    }
    terminate(text.as_bytes())
}

/// Reading a C string gives back the text that was written: the first NUL is the terminator, and
/// the bytes before it decode to the text.
pub proof fn c_string_reads_back(text: Seq<char>)
    requires
        !text.contains('\0'),
    ensures
        is_first_nul(c_bytes(text), c_bytes(text).len() - 1),
        valid_utf8(c_bytes(text).drop_last()),
        decode_utf8(c_bytes(text).drop_last()) == text,
{
    lemma_encoded_nul(text);
    let bytes = encode_utf8(text);
    assert(c_bytes(text).drop_last() =~= bytes);
    assert forall|i: int| 0 <= i < bytes.len() implies c_bytes(text)[i] != 0 by {
        assert(c_bytes(text)[i] == bytes[i]);
        assert(bytes[i] != 0u8);
    }
    encode_utf8_valid_utf8(text);
    encode_utf8_decode_utf8(text);
}

/// The first NUL is where no NUL comes before, and there is at most one such place.
pub proof fn first_nul_is_first(bytes: Seq<u8>, at: int, other: int)
    requires
        is_first_nul(bytes, at),
    ensures
        0 <= at < bytes.len(),
        bytes[at] == 0,
        0 <= other < bytes.len() && bytes[other] == 0 ==> at <= other,
{
}

/// The text of a fault ends in the position of the NUL.
pub proof fn nul_fault_tells_the_position(fault: NulFault)
    ensures
        fault.text().take(45) == "nul byte found in provided data at position: "@,
        crate::text::decimal_value(fault.text().skip(45)) == fault.position,
{
    reveal_strlit("nul byte found in provided data at position: ");
    let prefix = "nul byte found in provided data at position: "@;
    let number = decimal_text(fault.position as nat);
    assert(fault.text().take(45) =~= prefix);
    assert(fault.text().skip(45) =~= number);
    crate::text::decimal_text_reads_back(fault.position as nat);
}

} // verus!
