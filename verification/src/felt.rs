//! Field elements and Ethereum addresses.

use vstd::prelude::*;

verus! {

/// The number that `bytes` write in base 256, most significant byte first.
pub open spec fn big_endian(bytes: Seq<u8>) -> nat
    decreases bytes.len(),
{
    if bytes.len() == 0 {
        0
    } else {
        big_endian(bytes.drop_last()) * 256 + bytes.last() as nat
    }
}

/// 256 to the power of `n`.
pub open spec fn pow256(n: nat) -> nat
    decreases n,
{
    if n == 0 {
        1
    } else {
        256 * pow256((n - 1) as nat)
    }
}

/// The order of the field: 2^251 + 17 * 2^192 + 1.
pub open spec fn prime() -> nat {
    0x800000000000011000000000000000000000000000000000000000000000001nat
}

/// The first number that is no Ethereum address: 2^160.
pub open spec fn address_bound() -> nat {
    0x10000000000000000000000000000000000000000nat
}

/// The character of a hexadecimal digit.
pub open spec fn hex_char(d: nat) -> char {
    if d < 10 {
        (('0' as int) + d) as char
    } else {
        (('a' as int) + d - 10) as char
    }
}

/// The hexadecimal notation of `n` in lower case, without prefix or leading zeros.
pub open spec fn hex_text(n: nat) -> Seq<char>
    decreases n,
{
    if n < 16 {
        seq![hex_char(n)]
    } else {
        hex_text(n / 16).push(hex_char(n % 16))
    }
}

/// `Felt::from_bytes_be` followed by `Felt::to_hex_string` of the crate `starknet-types-core`: the
/// number that the bytes write, with the prefix `0x`, in lower case and without leading zeros. The
/// bytes of a number that is not below the order of the field are left out.
#[verifier::external_body]
fn felt_hex(bytes: &[u8; 32]) -> (text: String)
    requires
        big_endian(bytes@) < prime(),
    ensures
        text@ == "0x"@ + hex_text(big_endian(bytes@)),
{
    starknet_types_core::felt::Felt::from_bytes_be(bytes).to_hex_string()
}

/// An element of the field, in its canonical representation.
#[derive(Clone, Copy, Debug, PartialEq, Eq)]
pub struct Felt {
    bytes: [u8; 32],
}

impl Felt {
    /// The number below the order of the field.
    pub closed spec fn value(self) -> nat {
        big_endian(self.bytes@)
    }

    #[verifier::type_invariant]
    spec fn canonical(self) -> bool {
        self.value() < prime()
    }

    /// The text of the element in JSON and in logs.
    pub open spec fn text(self) -> Seq<char> {
        "0x"@ + hex_text(self.value())
    }

    /// The element that `bytes` write, if they write a number below the order of the field.
    pub fn from_bytes_be(bytes: &[u8; 32]) -> (felt: Option<Felt>)
        ensures
            felt is Some <==> big_endian(bytes@) < prime(),
            felt matches Some(f) ==> f.value() == big_endian(bytes@),
    {
        let top: u64 = top_limb(bytes);
        let low_is_zero: bool = zero_from(bytes, 8);
        proof {
            lemma_split(bytes@, 8);
            lemma_zeros(bytes@.skip(8));
            lemma_bound(bytes@.skip(8));
            reveal_with_fuel(pow256, 25);
            assert(pow256(24) == 0x1000000000000000000000000000000000000000000000000nat);
            assert(top * pow256(24) == top * 0x1000000000000000000000000000000000000000000000000nat);
            assert(forall|k: int| 8 <= k < 32 ==> bytes@[k] == bytes@.skip(8)[k - 8]);
            assert(forall|k: int| 0 <= k < 24 ==> bytes@.skip(8)[k] == bytes@[k + 8]);
        }
        if top < 0x0800_0000_0000_0011 || (top == 0x0800_0000_0000_0011 && low_is_zero) {
            Some(Felt { bytes: *bytes })
        } else {
            None
        }
    }

    /// The text of the element.
    pub fn to_hex_string(&self) -> (text: String)
        ensures
            text@ == self.text(),
    {
        proof {
            use_type_invariant(self);
        }
        felt_hex(&self.bytes)
    }
}

/// The first eight of 32 bytes as a number.
fn top_limb(bytes: &[u8; 32]) -> (top: u64)
    ensures
        top == big_endian(bytes@.take(8)),
{
    let mut top: u64 = 0;
    let mut i: usize = 0;
    proof {
        reveal_with_fuel(pow256, 9);
        assert(bytes@.take(0) =~= Seq::<u8>::empty());
    }
    while i < 8
        invariant
            i <= 8,
            top == big_endian(bytes@.take(i as int)),
        decreases 8 - i,
    {
        proof {
            lemma_bound(bytes@.take(i as int));
            reveal_with_fuel(pow256, 9);
            assert(bytes@.take(i + 1).drop_last() =~= bytes@.take(i as int));
        }
        top = top * 256 + bytes[i] as u64;
        i = i + 1;
    }
    top
}

/// Whether all bytes from position `from` on are zero.
fn zero_from(bytes: &[u8; 32], from: usize) -> (zero: bool)
    requires
        from <= 32,
    ensures
        zero <==> forall|k: int| from <= k < 32 ==> bytes@[k] == 0,
{
    let mut i: usize = from;
    while i < 32
        invariant
            from <= i <= 32,
            forall|k: int| from <= k < i ==> bytes@[k] == 0,
        decreases 32 - i,
    {
        if bytes[i] != 0 {
            return false;
        }
        i = i + 1;
    }
    true
}

/// A number with leading digits is their value, shifted, plus the value of the rest.
proof fn lemma_split(bytes: Seq<u8>, k: int)
    requires
        0 <= k <= bytes.len(),
    ensures
        big_endian(bytes) == big_endian(bytes.take(k)) * pow256((bytes.len() - k) as nat)
            + big_endian(bytes.skip(k)),
    decreases bytes.len() - k,
{
    if k == bytes.len() {
        assert(bytes.take(k) =~= bytes);
        assert(bytes.skip(k) =~= Seq::<u8>::empty());
        assert(big_endian(bytes) * 1 == big_endian(bytes)) by (nonlinear_arith);
    } else {
        let front = bytes.drop_last();
        lemma_split(front, k);
        assert(front.take(k) =~= bytes.take(k));
        assert(front.skip(k) =~= bytes.skip(k).drop_last());
        assert(bytes.skip(k).last() == bytes.last());
        let head = big_endian(bytes.take(k));
        let p = pow256((front.len() - k) as nat);
        assert(pow256((bytes.len() - k) as nat) == 256 * p);
        assert((head * p) * 256 == head * (256 * p)) by (nonlinear_arith);
    }
}

/// A number of `n` digits is below 256 to the power of `n`.
proof fn lemma_bound(bytes: Seq<u8>)
    ensures
        big_endian(bytes) < pow256(bytes.len()),
    decreases bytes.len(),
{
    if bytes.len() > 0 {
        lemma_bound(bytes.drop_last());
    }
}

/// A number is zero exactly when its digits are.
proof fn lemma_zeros(bytes: Seq<u8>)
    ensures
        big_endian(bytes) == 0 <==> forall|k: int| 0 <= k < bytes.len() ==> bytes[k] == 0,
    decreases bytes.len(),
{
    if bytes.len() > 0 {
        let front = bytes.drop_last();
        lemma_zeros(front);
        if big_endian(bytes) == 0 {
            assert forall|k: int| 0 <= k < bytes.len() implies bytes[k] == 0 by {
                if k < front.len() {
                    assert(front[k] == bytes[k]);
                }
            }
        }
        if forall|k: int| 0 <= k < bytes.len() ==> bytes[k] == 0 {
            assert forall|k: int| 0 <= k < front.len() implies front[k] == 0 by {
                assert(front[k] == bytes[k]);
            }
            assert(bytes[bytes.len() - 1] == 0);
        }
    }
}

/// Numbers with the same hexadecimal notation are equal.
pub proof fn hex_text_is_injective(a: nat, b: nat)
    requires
        hex_text(a) == hex_text(b),
    ensures
        a == b,
    decreases a,
{
    lemma_hex_len(a);
    lemma_hex_len(b);
    assert(hex_text(a).last() == hex_char(a % 16));
    assert(hex_text(b).last() == hex_char(b % 16));
    assert(a % 16 == b % 16);
    if a >= 16 && b >= 16 {
        assert(hex_text(a).drop_last() =~= hex_text(a / 16));
        assert(hex_text(b).drop_last() =~= hex_text(b / 16));
        hex_text_is_injective(a / 16, b / 16);
    }
}

proof fn lemma_hex_len(n: nat)
    ensures
        hex_text(n).len() >= 1,
        n >= 16 ==> hex_text(n).len() >= 2,
    decreases n,
{
    if n >= 16 {
        lemma_hex_len(n / 16);
    }
}

/// Hexadecimal notation consists of digits and the letters from `a` to `f`.
pub proof fn lemma_hex_chars(n: nat, i: int)
    requires
        0 <= i < hex_text(n).len(),
    ensures
        '0' <= hex_text(n)[i] <= '9' || 'a' <= hex_text(n)[i] <= 'f',
    decreases n,
{
    if n >= 16 && i < hex_text(n / 16).len() {
        lemma_hex_chars(n / 16, i);
    }
}

/// An Ethereum address: 20 bytes, written as a number.
#[derive(Clone, Copy, Debug, PartialEq, Eq)]
pub struct EthAddress {
    felt: Felt,
}

impl EthAddress {
    /// The number below 2^160.
    pub closed spec fn value(self) -> nat {
        self.felt.value()
    }

    /// The text of the address in JSON.
    pub open spec fn text(self) -> Seq<char> {
        "0x"@ + hex_text(self.value())
    }

    /// The address that `felt` stands for, if it fits in 20 bytes.
    pub fn from_felt(felt: Felt) -> (address: Option<EthAddress>)
        ensures
            address is Some <==> felt.value() < address_bound(),
            address matches Some(a) ==> a.value() == felt.value(),
    {
        let bytes = felt.bytes;
        let mut i: usize = 0;
        let mut fits: bool = true;
        while i < 12
            invariant
                i <= 12,
                fits <==> forall|k: int| 0 <= k < i ==> bytes@[k] == 0,
            decreases 12 - i,
        {
            if bytes[i] != 0 {
                fits = false;
            }
            i = i + 1;
        }
        proof {
            lemma_split(bytes@, 12);
            lemma_bound(bytes@.skip(12));
            lemma_zeros(bytes@.take(12));
            reveal_with_fuel(pow256, 21);
            assert(pow256(20) == address_bound());
            assert(forall|k: int| 0 <= k < 12 ==> bytes@.take(12)[k] == bytes@[k]);
            let head = big_endian(bytes@.take(12));
            if head != 0 {
                assert(head * pow256(20) >= pow256(20)) by (nonlinear_arith)
                    requires
                        head >= 1,
                ;
            }
        }
        if fits {
            Some(EthAddress { felt })
        } else {
            None
        }
    }

    /// The text of the address.
    pub fn to_hex_string(&self) -> (text: String)
        ensures
            text@ == self.text(),
    {
        self.felt.to_hex_string()
    }
}

/// The number that hexadecimal digits in lower case write, read from the left.
pub open spec fn hex_value(digits: Seq<char>) -> int
    decreases digits.len(),
{
    if digits.len() == 0 {
        0
    } else {
        hex_value(digits.drop_last()) * 16 + if digits.last() <= '9' {
            digits.last() as int - '0' as int
        } else {
            digits.last() as int - 'a' as int + 10
        }
    }
}

/// The text is a number in hexadecimal notation: the prefix `0x`, then digits in lower case, none
/// of them superfluous, that write the number.
pub open spec fn shows_hex(text: Seq<char>, n: int) -> bool {
    &&& text.len() >= 3
    &&& text[0] == '0'
    &&& text[1] == 'x'
    &&& forall|i: int|
        2 <= i < text.len() ==> '0' <= #[trigger] text[i] <= '9' || 'a' <= text[i] <= 'f'
    &&& text.len() > 3 ==> text[2] != '0'
    &&& hex_value(text.skip(2)) == n
}

proof fn lemma_hex_reads_back(n: nat)
    ensures
        hex_value(hex_text(n)) == n,
        hex_text(n).len() > 1 ==> hex_text(n)[0] != '0',
    decreases n,
{
    lemma_hex_len(n);
    if n < 16 {
        assert(hex_text(n).drop_last() =~= Seq::<char>::empty());
        assert(hex_value(Seq::<char>::empty()) == 0);
    } else {
        lemma_hex_reads_back(n / 16);
        lemma_hex_len(n / 16);
        assert(hex_text(n).drop_last() =~= hex_text(n / 16));
        assert(hex_text(n)[0] == hex_text(n / 16)[0]);
        if hex_text(n / 16).len() == 1 {
            assert(hex_text(n / 16).drop_last() =~= Seq::<char>::empty());
            assert(hex_value(Seq::<char>::empty()) == 0);
        }
    }
}

proof fn lemma_shows_hex(n: nat)
    ensures
        shows_hex("0x"@ + hex_text(n), n as int),
{
    reveal_strlit("0x");
    let hex = hex_text(n);
    let text = "0x"@ + hex;
    lemma_hex_len(n);
    lemma_hex_reads_back(n);
    assert(text.skip(2) =~= hex);
    assert forall|i: int| 2 <= i < text.len() implies '0' <= #[trigger] text[i] <= '9' || 'a'
        <= text[i] <= 'f' by {
        lemma_hex_chars(n, i - 2);
        assert(text[i] == hex[i - 2]);
    }
    assert(hex.len() > 1 ==> text[2] == hex[0]);
}

/// The text of a field element is its number in hexadecimal notation.
pub proof fn felt_text_reads_back(felt: Felt)
    ensures
        shows_hex(felt.text(), felt.value() as int),
{
    lemma_shows_hex(felt.value());
}

/// The text of an address is its number in hexadecimal notation.
pub proof fn address_text_reads_back(address: EthAddress)
    ensures
        shows_hex(address.text(), address.value() as int),
{
    lemma_shows_hex(address.value());
}

/// The bytes of a number count by their place: byte `i` of `bytes` is worth 256 to the power of the
/// number of bytes behind it.
pub proof fn bytes_count_by_their_place(bytes: Seq<u8>, i: int)
    requires
        0 <= i < bytes.len(),
    ensures
        big_endian(bytes) == big_endian(bytes.take(i)) * vstd::arithmetic::power::pow(
            256,
            (bytes.len() - i) as nat,
        ) + bytes[i] * vstd::arithmetic::power::pow(256, (bytes.len() - i - 1) as nat) + big_endian(
            bytes.skip(i + 1),
        ),
        big_endian(Seq::<u8>::empty()) == 0,
{
    let front = bytes.take(i + 1);
    lemma_split(bytes, i + 1);
    assert(front.drop_last() =~= bytes.take(i));
    lemma_pow256((bytes.len() - i) as nat);
    lemma_pow256((bytes.len() - i - 1) as nat);
    let p = pow256((bytes.len() - i - 1) as nat);
    let head = big_endian(bytes.take(i));
    let b = bytes[i] as int;
    assert((head * 256 + b) * p == head * (256 * p) + b * p) by (nonlinear_arith);
}

proof fn lemma_pow256(n: nat)
    ensures
        pow256(n) == vstd::arithmetic::power::pow(256, n),
    decreases n,
{
    reveal(vstd::arithmetic::power::pow);
    if n > 0 {
        lemma_pow256((n - 1) as nat);
    }
}

/// The order of the field is 2^251 + 17 * 2^192 + 1, and addresses are below 2^160.
pub proof fn bounds_are_the_field_order_and_twenty_bytes()
    ensures
        prime() == 8 * vstd::arithmetic::power::pow(256, 31) + 17 * vstd::arithmetic::power::pow(
            256,
            24,
        ) + 1,
        address_bound() == vstd::arithmetic::power::pow(256, 20),
{
    lemma_pow256(31);
    lemma_pow256(24);
    lemma_pow256(20);
    reveal_with_fuel(pow256, 32);
}

} // verus!
