//! Log lines and their way to the host's callback.

use vstd::prelude::*;
use vstd::slice::*;
use vstd::string::*;
use vstd::utf8::*;
use crate::c_string::{c_bytes, is_first_nul, terminate, to_c_string};
use crate::input::{input_text, readable};
use crate::utf8::decode;

verus! {

/// What the host's callback gets to read of `msg`: nothing when it holds a NUL.
pub open spec fn delivered(msg: Seq<char>) -> Option<Seq<u8>> {
    if msg.contains('\0') {
        None
    } else {
        Some(c_bytes(msg))
    }
}

/// `s` without the newlines at its end.
pub open spec fn trim_newlines(s: Seq<char>) -> Seq<char>
    decreases s.len(),
{
    if s.len() > 0 && s.last() == '\n' {
        trim_newlines(s.drop_last())
    } else {
        s
    }
}

/// The C string to hand to the callback for one log line; `None` if the line cannot be sent.
pub fn send_log(msg: &str) -> (payload: Option<Vec<u8>>)
    ensures
        payload is Some <==> delivered(msg@) is Some,
        payload matches Some(v) ==> delivered(msg@) == Some(v@),
        payload is Some <==> !msg@.contains('\0'),
        payload matches Some(v) ==> v@ == encode_utf8(msg@).push(0),
{
    match to_c_string(msg) {
        Ok(v) => Some(v),
        Err(_) => None,
    }
}

/// Writer that sends what the tracing layer prints to the host's callback.
#[derive(Clone, Copy, Debug, PartialEq, Eq, Structural)]
pub struct CallbackWriter {
    /// Whether a callback has been installed.
    pub installed: bool,
}

impl CallbackWriter {
    /// What the callback gets of a written buffer.
    pub open spec fn forwards(self, buf: Seq<u8>) -> Option<Seq<u8>> {
        if self.installed && valid_utf8(buf) {
            let line = trim_newlines(decode_utf8(buf));
            if line.len() > 0 {
                delivered(line)
            } else {
                None
            }
        } else {
            None
        }
    }

    /// Takes the whole buffer; the second part of the result is the C string for the callback.
    /// Buffers that are not UTF-8 and buffers of newlines alone are swallowed.
    pub fn write(&self, buf: &[u8]) -> (r: (usize, Option<Vec<u8>>))
        ensures
            r.0 == buf@.len(),
            r.1 is Some <==> self.forwards(buf@) is Some,
            r.1 matches Some(v) ==> self.forwards(buf@) == Some(v@),
    {
        if !self.installed {
            return (buf.len(), None);
        }
        match decode(buf) {
            Err(_) => (buf.len(), None),
            Ok(text) => {
                let bytes = text.as_bytes();
                proof {
                    decode_utf8_encode_utf8(buf@);
                }
                let mut end: usize = bytes.len();
                let ghost mut line: Seq<char> = text@;
                assert(bytes@.take(end as int) =~= bytes@);
                while end > 0 && bytes[end - 1] == 10
                    invariant
                        end <= bytes@.len(),
                        bytes@.take(end as int) == encode_utf8(line),
                        trim_newlines(line) == trim_newlines(text@),
                    decreases end,
                {
                    proof {
                        lemma_newline_last(line);
                        assert(bytes@.take(end as int).drop_last() =~= bytes@.take(end - 1));
                        line = line.drop_last();
                    }
                    end = end - 1;
                }
                proof {
                    lemma_newline_last(line);
                    if end > 0 {
                        assert(encode_utf8(line).last() == bytes@[end - 1]);
                    }
                    assert(trim_newlines(line) == line);
                    crate::c_string::lemma_encoded_nul(line);
                }
                if end == 0 {
                    return (buf.len(), None);
                }
                let kept = slice_subrange(bytes, 0, end);
                assert(kept@ =~= encode_utf8(line));
                match terminate(kept) {
                    Ok(v) => (buf.len(), Some(v)),
                    Err(_) => (buf.len(), None),
                }
            },
        }
    }
}

/// The line that a host prints for a message it was handed; `None` stands for the null pointer,
/// `Some` for the bytes before the terminating NUL. Messages that are not UTF-8 are not printed.
pub fn log_callback<'a>(msg: Option<&'a [u8]>) -> (line: Option<&'a str>)
    ensures
        line is Some <==> readable(msg),
        line matches Some(s) ==> s@ == input_text(msg),
        line is Some <==> (msg matches Some(bytes) && valid_utf8(bytes@)),
        line matches Some(s) ==> encode_utf8(s@) == msg->0@,
{
    match msg {
        None => None,
        Some(bytes) => match decode(bytes) {
            Ok(s) => {
                proof {
                    decode_utf8_encode_utf8(bytes@);
                }
                Some(s)
            },
            Err(_) => None,
        },
    }
}

/// A text ends in a newline exactly when its encoding does, and the encoding without the newline
/// is that of the text without it.
proof fn lemma_newline_last(line: Seq<char>)
    ensures
        line.len() == 0 <==> encode_utf8(line).len() == 0,
        line.len() > 0 ==> (line.last() == '\n' <==> encode_utf8(line).last() == 10),
        line.len() > 0 && line.last() == '\n' ==> encode_utf8(line.drop_last()) == encode_utf8(
            line,
        ).drop_last(),
{
    if line.len() > 0 {
        let last = line.last();
        let c = last as u32;
        assert(line =~= line.drop_last() + seq![last]);
        crate::c_string::lemma_encode_concat(line.drop_last(), seq![last]);
        assert(seq![last].drop_first() =~= Seq::<char>::empty());
        reveal_with_fuel(encode_utf8, 2);
        assert(encode_utf8(seq![last]) =~= encode_scalar(c));
        char_is_scalar(last);
        char_u32_cast(last, c);
        assert(has_width_1_encoding(c) ==> (leading_byte_width_1(c) == 10 <==> c == 10)) by (bit_vector);
        assert(last_continuation_byte(c) != 10) by (bit_vector);
        assert(encode_utf8(line).last() == encode_scalar(c).last());
        if last == '\n' {
            assert(encode_utf8(line).drop_last() =~= encode_utf8(line.drop_last()));
        }
    }
}

/// A log line reaches the callback unchanged, whichever way it is written: as a message, or
/// through the writer with any number of newlines behind it.
pub proof fn newlines_do_not_matter(writer: CallbackWriter, msg: Seq<char>, newlines: Seq<char>)
    requires
        writer.installed,
        msg.len() > 0,
        msg.last() != '\n',
        forall|i: int| 0 <= i < newlines.len() ==> newlines[i] == '\n',
    ensures
        writer.forwards(encode_utf8(msg + newlines)) == delivered(msg),
{
    encode_utf8_valid_utf8(msg + newlines);
    encode_utf8_decode_utf8(msg + newlines);
    lemma_trim_appended(msg, newlines);
}

proof fn lemma_trim_appended(msg: Seq<char>, newlines: Seq<char>)
    requires
        msg.len() > 0,
        msg.last() != '\n',
        forall|i: int| 0 <= i < newlines.len() ==> newlines[i] == '\n',
    ensures
        trim_newlines(msg + newlines) == msg,
    decreases newlines.len(),
{
    if newlines.len() == 0 {
        assert(msg + newlines =~= msg);
    } else {
        assert((msg + newlines).drop_last() =~= msg + newlines.drop_last());
        lemma_trim_appended(msg, newlines.drop_last());
    }
}

/// A log line that is sent arrives: the host that reads the C string up to its NUL prints the line.
pub proof fn sent_lines_are_printed(msg: Seq<char>, handed: &[u8])
    requires
        delivered(msg) matches Some(c) && handed@ == c.drop_last(),
    ensures
        is_first_nul(delivered(msg)->0, handed@.len() as int),
        readable(Some(handed)),
        input_text(Some(handed)) == msg,
{
    crate::c_string::c_string_reads_back(msg);
}

/// Every line without a NUL is delivered, whatever its length: the callback gets the encoding of the
/// line and a NUL behind it. A line with a NUL is not.
pub proof fn lines_without_nul_are_delivered(msg: Seq<char>)
    ensures
        !msg.contains('\0') ==> delivered(msg) == Some(encode_utf8(msg).push(0)),
        msg.contains('\0') ==> delivered(msg) is None,
{
}

/// What a writer does with a text that was written: the callback gets the line before the trailing
/// newlines, encoded and with a NUL behind it, if there is a line and no NUL in it.
pub proof fn written_lines_are_delivered(
    writer: CallbackWriter,
    line: Seq<char>,
    newlines: Seq<char>,
)
    requires
        line.len() == 0 || line.last() != '\n',
        forall|i: int| 0 <= i < newlines.len() ==> newlines[i] == '\n',
    ensures
        writer.forwards(encode_utf8(line + newlines)) == if writer.installed && line.len() > 0
            && !line.contains('\0') {
            Some(encode_utf8(line).push(0))
        } else {
            None::<Seq<u8>>
        },
{
    encode_utf8_valid_utf8(line + newlines);
    encode_utf8_decode_utf8(line + newlines);
    if line.len() > 0 {
        lemma_trim_appended(line, newlines);
    } else {
        assert(line + newlines =~= newlines);
        lemma_trim_newlines_alone(newlines);
    }
}

proof fn lemma_trim_newlines_alone(newlines: Seq<char>)
    requires
        forall|i: int| 0 <= i < newlines.len() ==> newlines[i] == '\n',
    ensures
        trim_newlines(newlines).len() == 0,
    decreases newlines.len(),
{
    if newlines.len() > 0 {
        lemma_trim_newlines_alone(newlines.drop_last());
    }
}

/// A writer swallows what is not UTF-8.
pub proof fn broken_text_is_swallowed(writer: CallbackWriter, buf: Seq<u8>)
    requires
        !valid_utf8(buf),
    ensures
        writer.forwards(buf) is None,
{
}

/// Trailing newlines are what a line loses, no more and no less.
pub proof fn trimming_takes_trailing_newlines(text: Seq<char>)
    ensures
        trim_newlines(text).len() <= text.len(),
        trim_newlines(text) == text.take(trim_newlines(text).len() as int),
        trim_newlines(text).len() > 0 ==> trim_newlines(text).last() != '\n',
        forall|i: int| trim_newlines(text).len() <= i < text.len() ==> #[trigger] text[i] == '\n',
    decreases text.len(),
{
    if text.len() > 0 && text.last() == '\n' {
        let front = text.drop_last();
        trimming_takes_trailing_newlines(front);
        assert(text.take(trim_newlines(front).len() as int) =~= front.take(
            trim_newlines(front).len() as int,
        ));
        assert forall|i: int| trim_newlines(text).len() <= i < text.len() implies #[trigger] text[i]
            == '\n' by {
            if i < front.len() {
                assert(front[i] == '\n');
            }
        }
    } else {
        assert(text.take(text.len() as int) =~= text);
    }
}

} // verus!
