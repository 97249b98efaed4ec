//! Base64 with the standard alphabet and padding.

use vstd::prelude::*;

verus! {

/// The character for six bits.
pub open spec fn sextet_char(v: int) -> char {
    if v < 26 {
        (('A' as int) + v) as char
    } else if v < 52 {
        (('a' as int) + v - 26) as char
    } else if v < 62 {
        (('0' as int) + v - 52) as char
    } else if v == 62 {
        '+'
    } else {
        '/'
    }
}

/// The encoding of `bytes`: three bytes give four characters, and `=` fills up the last four.
pub open spec fn base64_text(bytes: Seq<u8>) -> Seq<char>
    decreases bytes.len(),
{
    if bytes.len() == 0 {
        Seq::empty()
    } else if bytes.len() == 1 {
        let b0 = bytes[0] as int;
        seq![sextet_char(b0 / 4), sextet_char(b0 % 4 * 16), '=', '=']
    } else if bytes.len() == 2 {
        let b0 = bytes[0] as int;
        let b1 = bytes[1] as int;
        seq![
            sextet_char(b0 / 4),
            sextet_char(b0 % 4 * 16 + b1 / 16),
            sextet_char(b1 % 16 * 4),
            '=',
        ]
    } else {
        let b0 = bytes[0] as int;
        let b1 = bytes[1] as int;
        let b2 = bytes[2] as int;
        seq![
            sextet_char(b0 / 4),
            sextet_char(b0 % 4 * 16 + b1 / 16),
            sextet_char(b1 % 16 * 4 + b2 / 64),
            sextet_char(b2 % 64),
        ] + base64_text(bytes.skip(3))
    }
}

fn sextet(v: u8) -> (c: char)
    requires
        v < 64,
    ensures
        c == sextet_char(v as int),
{
    let code: u8 = if v < 26 {
        65 + v
    } else if v < 52 {
        97 + (v - 26)
    } else if v < 62 {
        48 + (v - 52)
    } else if v == 62 {
        43
    } else {
        47
    };
    code as char
}

/// The encoding of `bytes`.
pub fn encode(bytes: &Vec<u8>) -> (text: String)
    ensures
        text@ == base64_text(bytes@),
        shows_bytes(text@, bytes@),
{
    proof {
        base64_shows_the_bytes(bytes@);
    }
    let mut text = String::new();
    let n: usize = bytes.len();
    let mut i: usize = 0;
    assert(bytes@.skip(0) =~= bytes@);
    assert(text@ + base64_text(bytes@) =~= base64_text(bytes@));
    while n - i >= 3
        invariant
            i <= n,
            n == bytes@.len(),
            text@ + base64_text(bytes@.skip(i as int)) == base64_text(bytes@),
        decreases n - i,
    {
        let ghost before = text@;
        let ghost rest = bytes@.skip(i as int);
        let b0: u8 = bytes[i];
        let b1: u8 = bytes[i + 1];
        let b2: u8 = bytes[i + 2];
        text.push(sextet(b0 / 4));
        text.push(sextet(b0 % 4 * 16 + b1 / 16));
        text.push(sextet(b1 % 16 * 4 + b2 / 64));
        text.push(sextet(b2 % 64));
        proof {
            assert(rest.skip(3) =~= bytes@.skip(i + 3));
            assert(rest[0] == b0 && rest[1] == b1 && rest[2] == b2);
            assert(text@ + base64_text(rest.skip(3)) =~= before + base64_text(rest));
        }
        i = i + 3;
    }
    let ghost before = text@;
    let ghost rest = bytes@.skip(i as int);
    if n - i == 1 {
        let b0: u8 = bytes[i];
        text.push(sextet(b0 / 4));
        text.push(sextet(b0 % 4 * 16));
        text.push('=');
        text.push('=');
        assert(rest[0] == b0);
    } else if n - i == 2 {
        let b0: u8 = bytes[i];
        let b1: u8 = bytes[i + 1];
        text.push(sextet(b0 / 4));
        text.push(sextet(b0 % 4 * 16 + b1 / 16));
        text.push(sextet(b1 % 16 * 4));
        text.push('=');
        assert(rest[0] == b0 && rest[1] == b1);
    }
    assert(text@ =~= before + base64_text(rest));
    text
}

/// Six bits have a character of their own, which is not the filler.
proof fn lemma_sextet_injective(a: int, b: int)
    requires
        0 <= a < 64,
        0 <= b < 64,
        sextet_char(a) == sextet_char(b),
    ensures
        a == b,
        sextet_char(a) != '=',
{
}

/// Byte `i`, or zero behind the end.
spec fn byte_or_zero(bytes: Seq<u8>, i: int) -> int {
    if i < bytes.len() {
        bytes[i] as int
    } else {
        0
    }
}

proof fn lemma_first_four(bytes: Seq<u8>)
    requires
        bytes.len() > 0,
    ensures
        ({
            let text = base64_text(bytes);
            let b0 = byte_or_zero(bytes, 0);
            let b1 = byte_or_zero(bytes, 1);
            let b2 = byte_or_zero(bytes, 2);
            &&& text.len() >= 4
            &&& text[0] == sextet_char(b0 / 4)
            &&& text[1] == sextet_char(b0 % 4 * 16 + b1 / 16)
            &&& text[2] == if bytes.len() < 2 {
                '='
            } else {
                sextet_char(b1 % 16 * 4 + b2 / 64)
            }
            &&& text[3] == if bytes.len() < 3 {
                '='
            } else {
                sextet_char(b2 % 64)
            }
        }),
{
}

/// Byte strings with the same encoding are equal.
pub proof fn base64_is_injective(a: Seq<u8>, b: Seq<u8>)
    requires
        base64_text(a) == base64_text(b),
    ensures
        a == b,
    decreases a.len(),
{
    if a.len() > 0 {
        lemma_first_four(a);
    }
    if b.len() > 0 {
        lemma_first_four(b);
    }
    if a.len() == 0 || b.len() == 0 {
        assert(a =~= b);
    } else {
        let a0 = byte_or_zero(a, 0);
        let b0 = byte_or_zero(b, 0);
        let a1 = byte_or_zero(a, 1);
        let b1 = byte_or_zero(b, 1);
        let a2 = byte_or_zero(a, 2);
        let b2 = byte_or_zero(b, 2);
        lemma_sextet_injective(a0 / 4, b0 / 4);
        lemma_sextet_injective(a0 % 4 * 16 + a1 / 16, b0 % 4 * 16 + b1 / 16);
        // the filler is no character of six bits, so the lengths agree
        lemma_sextet_injective(a1 % 16 * 4 + a2 / 64, a1 % 16 * 4 + a2 / 64);
        lemma_sextet_injective(b1 % 16 * 4 + b2 / 64, b1 % 16 * 4 + b2 / 64);
        lemma_sextet_injective(a2 % 64, a2 % 64);
        lemma_sextet_injective(b2 % 64, b2 % 64);
        if a.len() >= 2 {
            lemma_sextet_injective(a1 % 16 * 4 + a2 / 64, b1 % 16 * 4 + b2 / 64);
        }
        if a.len() >= 3 {
            lemma_sextet_injective(a2 % 64, b2 % 64);
            assert(base64_text(a).skip(4) =~= base64_text(a.skip(3)));
            assert(base64_text(b).skip(4) =~= base64_text(b.skip(3)));
            base64_is_injective(a.skip(3), b.skip(3));
            assert(a =~= seq![a[0], a[1], a[2]] + a.skip(3));
            assert(b =~= seq![b[0], b[1], b[2]] + b.skip(3));
        } else {
            assert(a =~= b);
        }
    }
}

/// An encoding consists of letters, digits, `+`, `/` and `=`.
pub proof fn lemma_base64_chars(bytes: Seq<u8>, i: int)
    requires
        0 <= i < base64_text(bytes).len(),
    ensures
        ({
            let c = base64_text(bytes)[i];
            ||| 'A' <= c <= 'Z'
            ||| 'a' <= c <= 'z'
            ||| '0' <= c <= '9'
            ||| c == '+'
            ||| c == '/'
            ||| c == '='
        }),
    decreases bytes.len(),
{
    if bytes.len() >= 3 && i >= 4 {
        lemma_base64_chars(bytes.skip(3), i - 4);
    }
}

/// An encoding has four characters for every three bytes that are begun.
pub proof fn base64_has_full_groups(bytes: Seq<u8>)
    ensures
        base64_text(bytes).len() == (bytes.len() + 2) / 3 * 4,
    decreases bytes.len(),
{
    if bytes.len() >= 3 {
        base64_has_full_groups(bytes.skip(3));
    }
}

proof fn lemma_digits(x: int, high: int, low: int, unit: int)
    requires
        x == high * unit + low,
        0 <= low < unit,
    ensures
        x / unit == high,
        x % unit == low,
{
    vstd::arithmetic::div_mod::lemma_fundamental_div_mod_converse(x, unit, high, low);
}

/// Three bytes and four times six bits are the same 24 bits.
proof fn lemma_group(b0: int, b1: int, b2: int)
    requires
        0 <= b0 < 256,
        0 <= b1 < 256,
        0 <= b2 < 256,
    ensures
        (b0 * 0x10000 + b1 * 0x100 + b2) / 0x40000 == b0 / 4,
        (b0 * 0x10000 + b1 * 0x100 + b2) / 0x1000 % 0x40 == b0 % 4 * 16 + b1 / 16,
        (b0 * 0x10000 + b1 * 0x100 + b2) / 0x40 % 0x40 == b1 % 16 * 4 + b2 / 64,
        (b0 * 0x10000 + b1 * 0x100 + b2) % 0x40 == b2 % 64,
{
    let bits = b0 * 0x10000 + b1 * 0x100 + b2;
    let d0 = b0 / 4;
    let d1 = b0 % 4 * 16 + b1 / 16;
    let d2 = b1 % 16 * 4 + b2 / 64;
    let d3 = b2 % 64;
    lemma_digits(bits, d0, d1 * 0x1000 + d2 * 0x40 + d3, 0x40000);
    lemma_digits(bits, d0 * 0x40 + d1, d2 * 0x40 + d3, 0x1000);
    lemma_digits(bits, d0 * 0x1000 + d1 * 0x40 + d2, d3, 0x40);
    lemma_digits(d0 * 0x40 + d1, d0, d1, 0x40);
    lemma_digits(d0 * 0x1000 + d1 * 0x40 + d2, d0 * 0x40 + d1, d2, 0x40);
}

proof fn lemma_alphabet(v: int)
    requires
        0 <= v < 64,
    ensures
        sextet_char(v) == "ABCDEFGHIJKLMNOPQRSTUVWXYZabcdefghijklmnopqrstuvwxyz0123456789+/"@[v],
{
    reveal_strlit("ABCDEFGHIJKLMNOPQRSTUVWXYZabcdefghijklmnopqrstuvwxyz0123456789+/");
}

/// An encoding is the standard one: every 24 bits of the byte string, filled up with zeros, give
/// four digits of six bits, written in the standard alphabet. A group of one byte gives two digits
/// and a group of two bytes three, and the filler makes up for the rest.
pub proof fn base64_is_standard(bytes: Seq<u8>, i: int)
    requires
        0 <= i < base64_text(bytes).len(),
    ensures
        base64_text(bytes).len() == (bytes.len() + 2) / 3 * 4,
        ({
            let first = i / 4 * 3;
            let b0 = bytes[first] as int;
            let b1 = if first + 1 < bytes.len() {
                bytes[first + 1] as int
            } else {
                0
            };
            let b2 = if first + 2 < bytes.len() {
                bytes[first + 2] as int
            } else {
                0
            };
            let bits = b0 * 0x10000 + b1 * 0x100 + b2;
            let digit = if i % 4 == 0 {
                bits / 0x40000
            } else if i % 4 == 1 {
                bits / 0x1000 % 0x40
            } else if i % 4 == 2 {
                bits / 0x40 % 0x40
            } else {
                bits % 0x40
            };
            &&& first < bytes.len()
            &&& 0 <= digit < 64
            &&& base64_text(bytes)[i] == if i % 4 <= 1 || first + i % 4 - 1 < bytes.len() {
                "ABCDEFGHIJKLMNOPQRSTUVWXYZabcdefghijklmnopqrstuvwxyz0123456789+/"@[digit]
            } else {
                '='
            }
        }),
    decreases bytes.len(),
{
    base64_has_full_groups(bytes);
    if i >= 4 {
        base64_has_full_groups(bytes.skip(3));
        assert(base64_text(bytes)[i] == base64_text(bytes.skip(3))[i - 4]);
        base64_is_standard(bytes.skip(3), i - 4);
        let first = i / 4 * 3;
        assert((i - 4) / 4 * 3 == first - 3 && (i - 4) % 4 == i % 4);
        assert(bytes.skip(3)[first - 3] == bytes[first]);
    } else {
        let b0 = byte_or_zero(bytes, 0);
        let b1 = byte_or_zero(bytes, 1);
        let b2 = byte_or_zero(bytes, 2);
        lemma_first_four(bytes);
        lemma_group(b0, b1, b2);
        lemma_alphabet(b0 / 4);
        lemma_alphabet(b0 % 4 * 16 + b1 / 16);
        lemma_alphabet(b1 % 16 * 4 + b2 / 64);
        lemma_alphabet(b2 % 64);
    }
}

/// The digit at place `i` of an encoding: six of the 24 bits of its group, zeros behind the end.
pub open spec fn digit_at(bytes: Seq<u8>, i: int) -> int {
    let first = i / 4 * 3;
    let b0 = bytes[first] as int;
    let b1 = if first + 1 < bytes.len() {
        bytes[first + 1] as int
    } else {
        0
    };
    let b2 = if first + 2 < bytes.len() {
        bytes[first + 2] as int
    } else {
        0
    };
    let bits = b0 * 0x10000 + b1 * 0x100 + b2;
    if i % 4 == 0 {
        bits / 0x40000
    } else if i % 4 == 1 {
        bits / 0x1000 % 0x40
    } else if i % 4 == 2 {
        bits / 0x40 % 0x40
    } else {
        bits % 0x40
    }
}

/// The text is the standard encoding of the bytes.
pub open spec fn shows_bytes(text: Seq<char>, bytes: Seq<u8>) -> bool {
    &&& text.len() == (bytes.len() + 2) / 3 * 4
    &&& forall|i: int|
        0 <= i < text.len() ==> #[trigger] text[i] == if i % 4 <= 1 || i / 4 * 3 + i % 4 - 1
            < bytes.len() {
            "ABCDEFGHIJKLMNOPQRSTUVWXYZabcdefghijklmnopqrstuvwxyz0123456789+/"@[digit_at(bytes, i)]
        } else {
            '='
        }
}

/// An encoding shows the bytes in the standard alphabet.
pub proof fn base64_shows_the_bytes(bytes: Seq<u8>)
    ensures
        shows_bytes(base64_text(bytes), bytes),
{
    base64_has_full_groups(bytes);
    assert forall|i: int| 0 <= i < base64_text(bytes).len() implies #[trigger] base64_text(bytes)[i]
        == if i % 4 <= 1 || i / 4 * 3 + i % 4 - 1 < bytes.len() {
        "ABCDEFGHIJKLMNOPQRSTUVWXYZabcdefghijklmnopqrstuvwxyz0123456789+/"@[digit_at(bytes, i)]
    } else {
        '='
    } by {
        base64_is_standard(bytes, i);
    }
}

} // verus!
