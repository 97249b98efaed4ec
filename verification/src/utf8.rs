//! UTF-8 decoding with a description of the first fault.

use vstd::prelude::*;
use vstd::slice::*;
use vstd::string::*;
use vstd::utf8::*;
use crate::text::{append_decimal, decimal_text, decimal_value};

verus! {

/// The error of `std::str::from_utf8`, carried and never looked into.
#[verifier::external_type_specification]
#[verifier::external_body]
pub struct ExUtf8Error(std::str::Utf8Error);

/// `std::str::from_utf8` returns the bytes as a string slice when they are valid UTF-8, and an
/// error when they are not.
pub assume_specification[ std::str::from_utf8 ](v: &[u8]) -> (r: Result<
    &str,
    std::str::Utf8Error,
>)
    ensures
        r is Ok <==> valid_utf8(v@),
        r matches Ok(s) ==> s.spec_bytes() == v@,
;

/// Where a byte string stops being UTF-8.
#[derive(Clone, Copy, Debug, PartialEq, Eq, Structural)]
pub struct Utf8Fault {
    /// Length of the longest prefix that is valid UTF-8.
    pub valid_up_to: usize,
    /// Length of the offending sequence, or `None` when the input ends inside a character.
    pub error_len: Option<u8>,
}

/// `s` is a non-empty beginning of a longer encoding of one character.
pub open spec fn starts_scalar(s: Seq<u8>) -> bool {
    &&& s.len() > 0
    &&& exists|ext: Seq<u8>| #[trigger]
        valid_first_scalar(s + ext) && length_of_first_scalar(s + ext) > s.len()
}

/// `fault` describes the first fault in `bytes`.
pub open spec fn describes_fault(bytes: Seq<u8>, fault: Utf8Fault) -> bool {
    let rest = bytes.skip(fault.valid_up_to as int);
    // the longest valid prefix
    &&& partial_valid_utf8(bytes, fault.valid_up_to as int)
    &&& forall|j: int|
        fault.valid_up_to < j <= bytes.len() ==> !#[trigger] partial_valid_utf8(bytes, j)
    &&& fault.valid_up_to < bytes.len()
    &&& match fault.error_len {
        // the rest of the input could become a character
        None => starts_scalar(rest),
        // the longest beginning of a character in there, or one byte if there is none
        Some(n) => {
            &&& 1 <= n <= 3
            &&& n <= rest.len()
            &&& !starts_scalar(rest)
            &&& n == 1 || starts_scalar(rest.take(n as int))
            &&& forall|k: int| n < k <= rest.len() ==> !starts_scalar(#[trigger] rest.take(k))
        },
    }
}

/// The second byte `b` is one that can follow the leading byte `lead` of a character of three or
/// four bytes.
pub open spec fn second_byte_fits(lead: u8, b: u8) -> bool {
    if lead == 0xe0 {
        0xa0 <= b <= 0xbf
    } else if lead == 0xed {
        0x80 <= b <= 0x9f
    } else if lead == 0xf0 {
        0x90 <= b <= 0xbf
    } else if lead == 0xf4 {
        0x80 <= b <= 0x8f
    } else {
        0x80 <= b <= 0xbf && lead <= 0xf3
    }
}

/// Length of the character that `s` begins with, read off its bytes; `None` if it begins with
/// none.
spec fn table_width(s: Seq<u8>) -> Option<int> {
    if s.len() >= 1 && s[0] <= 0x7f {
        Some(1)
    } else if s.len() >= 2 && 0xc2 <= s[0] <= 0xdf && is_continuation_byte(s[1]) {
        Some(2)
    } else if s.len() >= 3 && 0xe0 <= s[0] <= 0xef && second_byte_fits(s[0], s[1])
        && is_continuation_byte(s[2]) {
        Some(3)
    } else if s.len() >= 4 && 0xf0 <= s[0] <= 0xf4 && second_byte_fits(s[0], s[1])
        && is_continuation_byte(s[2]) && is_continuation_byte(s[3]) {
        Some(4)
    } else {
        None
    }
}

proof fn lemma_width_2(b0: u8, b1: u8)
    by (bit_vector)
    requires
        is_leading_byte_width_2(b0),
        is_continuation_byte(b1),
    ensures
        0x80 <= codepoint_width_2(b0, b1) <==> 0xc2 <= b0,
        not_surrogate(codepoint_width_2(b0, b1)),
{
}

proof fn lemma_width_3(b0: u8, b1: u8, b2: u8)
    by (bit_vector)
    requires
        is_leading_byte_width_3(b0),
        is_continuation_byte(b1),
        is_continuation_byte(b2),
    ensures
        (0x800 <= codepoint_width_3(b0, b1, b2) && not_surrogate(codepoint_width_3(b0, b1, b2)))
            <==> second_byte_fits(b0, b1),
{
}

proof fn lemma_width_4(b0: u8, b1: u8, b2: u8, b3: u8)
    by (bit_vector)
    requires
        is_leading_byte_width_4(b0),
        is_continuation_byte(b1),
        is_continuation_byte(b2),
        is_continuation_byte(b3),
    ensures
        0x10000 <= codepoint_width_4(b0, b1, b2, b3) <= 0x10ffff <==> (b0 <= 0xf4
            && second_byte_fits(b0, b1)),
        0x10000 <= codepoint_width_4(b0, b1, b2, b3) ==> not_surrogate(
            codepoint_width_4(b0, b1, b2, b3),
        ),
{
}

/// The byte table is the definition of a well-formed character.
proof fn lemma_table(s: Seq<u8>)
    ensures
        valid_first_scalar(s) <==> table_width(s) is Some,
        valid_first_scalar(s) ==> table_width(s) == Some(length_of_first_scalar(s)),
{
    if s.len() >= 1 {
        let b0 = s[0];
        if is_leading_byte_width_1(b0) {
            assert(not_surrogate(codepoint_width_1(b0))) by {
                assert(b0 & 0x7f <= 0x7f) by (bit_vector);
            }
        } else if is_leading_byte_width_2(b0) {
            if s.len() >= 2 && is_continuation_byte(s[1]) {
                lemma_width_2(b0, s[1]);
            }
        } else if is_leading_byte_width_3(b0) {
            if s.len() >= 3 && is_continuation_byte(s[1]) && is_continuation_byte(s[2]) {
                lemma_width_3(b0, s[1], s[2]);
            }
        } else if is_leading_byte_width_4(b0) {
            if s.len() >= 4 && is_continuation_byte(s[1]) && is_continuation_byte(s[2])
                && is_continuation_byte(s[3]) {
                lemma_width_4(b0, s[1], s[2], s[3]);
            }
        }
    }
}

/// The beginnings of characters, read off their bytes.
spec fn table_starts(s: Seq<u8>) -> bool {
    ||| s.len() == 1 && 0xc2 <= s[0] <= 0xf4
    ||| s.len() == 2 && 0xe0 <= s[0] <= 0xf4 && second_byte_fits(s[0], s[1])
    ||| s.len() == 3 && 0xf0 <= s[0] <= 0xf4 && second_byte_fits(s[0], s[1])
        && is_continuation_byte(s[2])
}

proof fn lemma_starts(s: Seq<u8>)
    ensures
        starts_scalar(s) <==> table_starts(s),
{
    if starts_scalar(s) {
        let ext = choose|ext: Seq<u8>| #[trigger]
            valid_first_scalar(s + ext) && length_of_first_scalar(s + ext) > s.len();
        lemma_table(s + ext);
        assert(forall|i: int| 0 <= i < s.len() ==> (s + ext)[i] == s[i]);
    }
    if table_starts(s) {
        // a second byte that follows every leading byte it can, then continuation bytes
        let second: u8 = if s[0] == 0xe0 {
            0xa0
        } else if s[0] == 0xf0 {
            0x90
        } else {
            0x80
        };
        let ext: Seq<u8> = if s.len() == 1 {
            seq![second, 0x80, 0x80]
        } else {
            seq![0x80, 0x80]
        };
        let t = s + ext;
        assert(forall|i: int| 0 <= i < s.len() ==> t[i] == s[i]);
        assert(forall|i: int| 0 <= i < ext.len() ==> t[s.len() + i] == ext[i]);
        lemma_table(t);
        assert(valid_first_scalar(s + ext));
    }
}

/// No prefix reaches past a position where no character begins.
proof fn lemma_prefix_is_longest(bytes: Seq<u8>, i: int)
    requires
        partial_valid_utf8(bytes, i),
        !valid_first_scalar(bytes.skip(i)),
    ensures
        forall|j: int| i < j <= bytes.len() ==> !#[trigger] partial_valid_utf8(bytes, j),
{
    assert forall|j: int| i < j <= bytes.len() implies !#[trigger] partial_valid_utf8(bytes, j) by {
        let prefix = bytes.subrange(0, j);
        let tail = prefix.subrange(i, j);
        assert(prefix.subrange(0, i) =~= bytes.subrange(0, i));
        lemma_table(tail);
        lemma_table(bytes.skip(i));
        assert(forall|k: int| 0 <= k < tail.len() ==> tail[k] == bytes.skip(i)[k]);
        assert(!valid_utf8(tail));
        partial_valid_partial_invalid_utf8(prefix, i);
    }
}

/// The first fault in `bytes`, if there is one.
pub fn find_fault(bytes: &[u8]) -> (fault: Option<Utf8Fault>)
    ensures
        fault is None <==> valid_utf8(bytes@),
        fault matches Some(f) ==> describes_fault(bytes@, f),
{
    let mut i: usize = 0;
    let n: usize = bytes.len();
    assert(bytes@.subrange(0, 0) =~= Seq::<u8>::empty());
    while i < n
        invariant
            i <= n,
            n == bytes@.len(),
            partial_valid_utf8(bytes@, i as int),
        decreases n - i,
    {
        let ghost rest = bytes@.skip(i as int);
        let lead: u8 = bytes[i];
        let left: usize = n - i;
        proof {
            assert(rest =~= bytes@.subrange(i as int, n as int));
            lemma_table(rest);
            lemma_starts(rest);
            assert(rest[0] == lead);
            assert(left == rest.len());
        }
        let width: usize = if lead <= 0x7f {
            1
        } else if lead < 0xc2 {
            0
        } else if lead <= 0xdf {
            2
        } else if lead <= 0xef {
            3
        } else if lead <= 0xf4 {
            4
        } else {
            0
        };
        let mut good: usize = 1;
        let mut clean = width > 0;
        while clean && good < width && good < left
            invariant
                n == bytes@.len(),
                i < n,
                left == n - i,
                rest == bytes@.skip(i as int),
                lead == rest[0],
                1 <= good <= left,
                good <= width || width == 0,
                width <= 4,
                width == 0 ==> !clean,
                good > 1 ==> width > 1,
                width >= 2 ==> 0xc2 <= lead <= 0xf4,
                width == 2 ==> lead <= 0xdf,
                width == 3 ==> 0xe0 <= lead <= 0xef,
                width == 4 ==> 0xf0 <= lead,
                good > 1 ==> if width == 2 {
                    is_continuation_byte(rest[1])
                } else {
                    second_byte_fits(lead, rest[1])
                },
                good > 2 ==> is_continuation_byte(rest[2]),
                good > 3 ==> is_continuation_byte(rest[3]),
                !clean && width > 0 ==> good < width && good < left && (if good == 1 && width > 2 {
                    !second_byte_fits(lead, rest[1])
                } else {
                    !is_continuation_byte(rest[good as int])
                }),
            decreases (if clean { 1int } else { 0int }), width - good,
        {
            let b: u8 = bytes[i + good];
            assert(b == rest[good as int]);
            let fits: bool = if good == 1 && width > 2 {
                follows_lead(lead, b)
            } else {
                0x80 <= b && b <= 0xbf
            };
            if fits {
                good = good + 1;
            } else {
                clean = false;
            }
        }
        if clean && good == width {
            proof {
                assert(table_width(rest) == Some(width as int));
                partial_valid_utf8_extend(bytes@, i as int);
            }
            i = i + width;
        } else {
            proof {
                assert(table_width(rest) is None);
                lemma_prefix_is_longest(bytes@, i as int);
                assert(!valid_utf8(bytes@)) by {
                    assert(bytes@.subrange(0, n as int) =~= bytes@);
                    assert(!partial_valid_utf8(bytes@, n as int));
                }
            }
            let error_len: Option<u8> = if clean {
                None
            } else {
                Some(good as u8)
            };
            proof {
                if clean {
                    assert(good == left);
                    assert(table_starts(rest));
                } else {
                    assert forall|k: int| good < k <= rest.len() implies !starts_scalar(
                        #[trigger] rest.take(k),
                    ) by {
                        lemma_starts(rest.take(k));
                        assert(forall|m: int| 0 <= m < k ==> rest.take(k)[m] == rest[m]);
                    }
                    lemma_starts(rest.take(good as int));
                    assert(forall|m: int| 0 <= m < good ==> rest.take(good as int)[m] == rest[m]);
                    assert(rest.take(rest.len() as int) =~= rest);
                }
            }
            return Some(Utf8Fault { valid_up_to: i, error_len });
        }
    }
    assert(bytes@.subrange(0, n as int) =~= bytes@);
    None
}

/// Whether `b` can be the second byte of a character of three or four bytes that starts with
/// `lead`.
fn follows_lead(lead: u8, b: u8) -> (fits: bool)
    ensures
        fits == second_byte_fits(lead, b),
{
    if lead == 0xe0 {
        0xa0 <= b && b <= 0xbf
    } else if lead == 0xed {
        0x80 <= b && b <= 0x9f
    } else if lead == 0xf0 {
        0x90 <= b && b <= 0xbf
    } else if lead == 0xf4 {
        0x80 <= b && b <= 0x8f
    } else {
        0x80 <= b && b <= 0xbf && lead <= 0xf3
    }
}

impl Utf8Fault {
    /// What the fault reads like in a log line.
    pub open spec fn text(self) -> Seq<char> {
        match self.error_len {
            Some(n) => "invalid utf-8 sequence of "@ + decimal_text(n as nat)
                + " bytes from index "@ + decimal_text(self.valid_up_to as nat),
            None => "incomplete utf-8 byte sequence from index "@ + decimal_text(
                self.valid_up_to as nat,
            ),
        }
    }

    /// The text of the fault.
    pub fn describe(&self) -> (line: String)
        ensures
            line@ == self.text(),
            line@ == match self.error_len {
                Some(n) => "invalid utf-8 sequence of "@ + decimal_text(n as nat)
                    + " bytes from index "@ + decimal_text(self.valid_up_to as nat),
                None => "incomplete utf-8 byte sequence from index "@ + decimal_text(
                    self.valid_up_to as nat,
                ),
            },
    {
        match self.error_len {
            Some(n) => {
                let mut line = "invalid utf-8 sequence of ".to_owned();
                append_decimal(&mut line, n as u128);
                line.append(" bytes from index ");
                append_decimal(&mut line, self.valid_up_to as u128);
                line
            },
            None => {
                let mut line = "incomplete utf-8 byte sequence from index ".to_owned();
                append_decimal(&mut line, self.valid_up_to as u128);
                line
            },
        }
    }
}

/// The text that `bytes` encode, or the first fault in them.
pub fn decode(bytes: &[u8]) -> (r: Result<&str, Utf8Fault>)
    ensures
        r is Ok <==> valid_utf8(bytes@),
        r matches Ok(s) ==> s@ == decode_utf8(bytes@),
        r matches Err(f) ==> describes_fault(bytes@, f),
{
    match std::str::from_utf8(bytes) {
        Ok(s) => {
            proof {
                encode_utf8_decode_utf8(s@);
            }
            Ok(s)
        },
        Err(_) => match find_fault(bytes) {
            Some(fault) => Err(fault),
            None => vstd::pervasive::unreached(),
        },
    }
}

/// A byte string has at most one first fault.
pub proof fn fault_is_unique(bytes: Seq<u8>, a: Utf8Fault, b: Utf8Fault)
    requires
        describes_fault(bytes, a),
        describes_fault(bytes, b),
    ensures
        a == b,
{
    assert(a.valid_up_to == b.valid_up_to) by {
        if a.valid_up_to < b.valid_up_to {
            assert(partial_valid_utf8(bytes, b.valid_up_to as int));
        }
        if b.valid_up_to < a.valid_up_to {
            assert(partial_valid_utf8(bytes, a.valid_up_to as int));
        }
    }
    let rest = bytes.skip(a.valid_up_to as int);
    if a.error_len is Some && b.error_len is Some {
        let n = a.error_len->0;
        let m = b.error_len->0;
        assert(rest.take(n as int) == rest.take(n as int));
        assert(rest.take(m as int) == rest.take(m as int));
    }
}

/// `bytes` can be continued to valid UTF-8.
pub open spec fn can_become_utf8(bytes: Seq<u8>) -> bool {
    exists|more: Seq<u8>| #[trigger] valid_utf8(bytes + more)
}

/// Behind a valid prefix, and before the end of a first character, a byte string can be continued to
/// valid UTF-8 exactly when it begins a character.
proof fn lemma_completable(prefix: Seq<u8>, part: Seq<u8>)
    requires
        valid_utf8(prefix),
        part.len() > 0,
        !valid_first_scalar(part),
    ensures
        can_become_utf8(prefix + part) <==> starts_scalar(part),
{
    let bytes = prefix + part;
    if can_become_utf8(bytes) {
        let more = choose|more: Seq<u8>| #[trigger] valid_utf8(bytes + more);
        let whole = bytes + more;
        let rest = part + more;
        let at = prefix.len() as int;
        assert(whole.subrange(0, at) =~= prefix);
        assert(whole.subrange(at, whole.len() as int) =~= rest);
        if !valid_utf8(rest) {
            partial_valid_partial_invalid_utf8(whole, at);
        }
        lemma_table(rest);
        lemma_table(part);
        assert(forall|i: int| 0 <= i < part.len() ==> rest[i] == part[i]);
        assert(valid_first_scalar(part + more));
        assert(length_of_first_scalar(part + more) > part.len());
    }
    if starts_scalar(part) {
        let ext = choose|ext: Seq<u8>| #[trigger]
            valid_first_scalar(part + ext) && length_of_first_scalar(part + ext) > part.len();
        let width = length_of_first_scalar(part + ext);
        let more = ext.take(width - part.len());
        let scalar = part + more;
        lemma_table(part + ext);
        lemma_table(scalar);
        assert(forall|i: int| 0 <= i < scalar.len() ==> scalar[i] == (part + ext)[i]);
        assert(valid_first_scalar(scalar));
        assert(pop_first_scalar(scalar) =~= Seq::<u8>::empty());
        assert(valid_utf8(Seq::<u8>::empty()));
        assert(valid_utf8(scalar));
        valid_utf8_concat(prefix, scalar);
        assert(prefix + scalar =~= bytes + more);
    }
}

/// A fault stands behind the longest prefix that is valid UTF-8. It has no length where the input
/// could go on to become valid. Otherwise no continuation helps, and its length is that of the
/// longest piece behind the prefix that could have gone on, or one byte.
pub proof fn faults_stand_behind_the_longest_text(bytes: Seq<u8>, fault: Utf8Fault)
    requires
        describes_fault(bytes, fault),
    ensures
        fault.valid_up_to < bytes.len(),
        valid_utf8(bytes.take(fault.valid_up_to as int)),
        forall|j: int|
            fault.valid_up_to < j <= bytes.len() ==> !valid_utf8(#[trigger] bytes.take(j)),
        fault.error_len is None <==> can_become_utf8(bytes),
        fault.error_len matches Some(n) ==> {
            &&& 1 <= n <= bytes.len() - fault.valid_up_to
            &&& n == 1 || can_become_utf8(bytes.take(fault.valid_up_to + n))
            &&& forall|j: int|
                fault.valid_up_to + n < j <= bytes.len() ==> !can_become_utf8(
                    #[trigger] bytes.take(j),
                )
        },
{
    let v = fault.valid_up_to as int;
    let prefix = bytes.take(v);
    let rest = bytes.skip(v);
    assert(bytes.subrange(0, v) =~= prefix);
    assert forall|j: int| v < j <= bytes.len() implies !valid_utf8(#[trigger] bytes.take(j)) by {
        assert(bytes.subrange(0, j) =~= bytes.take(j));
        assert(!partial_valid_utf8(bytes, j));
    }
    assert forall|k: int| 0 < k <= rest.len() implies (can_become_utf8(
        #[trigger] bytes.take(v + k),
    ) <==> starts_scalar(rest.take(k))) by {
        let part = rest.take(k);
        if valid_first_scalar(part) {
            let width = length_of_first_scalar(part);
            lemma_table(part);
            let scalar = part.take(width);
            lemma_table(scalar);
            assert(pop_first_scalar(scalar) =~= Seq::<u8>::empty());
            assert(valid_utf8(Seq::<u8>::empty()));
            assert(valid_utf8(scalar));
            valid_utf8_concat(prefix, scalar);
            assert(prefix + scalar =~= bytes.take(v + width));
        }
        lemma_completable(prefix, part);
        assert(prefix + part =~= bytes.take(v + k));
    }
    assert(bytes.take(v + rest.len()) =~= bytes);
    assert(rest.take(rest.len() as int) =~= rest);
    if let Some(n) = fault.error_len {
        assert(rest.take(n as int) == rest.take(n as int));
        assert forall|j: int| v + n < j <= bytes.len() implies !can_become_utf8(
            #[trigger] bytes.take(j),
        ) by {
            assert(!starts_scalar(rest.take(j - v)));
            assert(bytes.take(v + (j - v)) == bytes.take(j));
        }
    }
}

/// The text of a fault tells where it is and, if it has a length, how long it is; the numbers read
/// back.
pub proof fn fault_text_tells_place_and_length(fault: Utf8Fault)
    ensures
        ({
            let place = decimal_text(fault.valid_up_to as nat);
            &&& decimal_value(place) == fault.valid_up_to
            &&& match fault.error_len {
                Some(n) => {
                    let length = decimal_text(n as nat);
                    &&& decimal_value(length) == n
                    &&& fault.text() == "invalid utf-8 sequence of "@ + length
                        + " bytes from index "@ + place
                },
                None => fault.text() == "incomplete utf-8 byte sequence from index "@ + place,
            }
        }),
{
    crate::text::decimal_text_reads_back(fault.valid_up_to as nat);
    if let Some(n) = fault.error_len {
        crate::text::decimal_text_reads_back(n as nat);
    }
}

} // verus!
