//! Byte counts in megabytes, as log lines show them.
//!
//! A count is first rounded to the 53 significant bits of a double, then printed with a fixed
//! number of decimals. Both roundings go to the nearest value, ties to the even one.

use vstd::prelude::*;
use vstd::string::*;
use crate::text::{append_decimal, decimal_text, decimal_value};

verus! {

/// Bytes in a megabyte.
pub const MEGABYTE: u64 = 1_048_576;

/// Integers below this bound are doubles.
pub const EXACT_BELOW: u64 = 9_007_199_254_740_992;

/// `num / den` rounded to the nearest integer, ties to the even one.
pub open spec fn nearest(num: nat, den: nat) -> nat {
    let q = num / den;
    let r = num % den;
    if 2 * r < den || (2 * r == den && q % 2 == 0) {
        q
    } else {
        q + 1
    }
}

/// Distance between neighbouring doubles around `n`.
pub open spec fn double_spacing(n: nat) -> nat
    decreases n,
{
    if n < EXACT_BELOW {
        1
    } else {
        2 * double_spacing(n / 2)
    }
}

/// `n` rounded to a double.
pub open spec fn as_double(n: nat) -> nat {
    nearest(n, double_spacing(n)) * double_spacing(n)
}

/// `bytes` in tenths of a megabyte.
pub open spec fn tenths(bytes: nat) -> nat {
    nearest(as_double(bytes) * 10, MEGABYTE as nat)
}

/// `bytes` in megabytes with one decimal.
pub open spec fn one_decimal_text(bytes: nat) -> Seq<char> {
    decimal_text(tenths(bytes) / 10) + "."@ + decimal_text(tenths(bytes) % 10)
}

/// `bytes` in megabytes without decimals.
pub open spec fn whole_text(bytes: nat) -> Seq<char> {
    decimal_text(nearest(as_double(bytes), MEGABYTE as nat))
}

fn round_quotient(num: u128, den: u128) -> (q: u128)
    requires
        0 < den <= 0x1_0000_0000,
        num < 0x1_0000_0000_0000_0000_0000_0000,
    ensures
        q == nearest(num as nat, den as nat),
        q <= num + 1,
{
    let q: u128 = num / den;
    let r: u128 = num % den;
    assert(q <= num) by (nonlinear_arith)
        requires
            q == num / den,
            den > 0,
    ;
    if 2 * r < den || (2 * r == den && q % 2 == 0) {
        q
    } else {
        q + 1
    }
}

fn spacing(n: u64) -> (unit: u64)
    ensures
        unit == double_spacing(n as nat),
        1 <= unit <= 4096,
{
    let mut rest: u64 = n;
    let mut unit: u64 = 1;
    while rest >= EXACT_BELOW
        invariant
            1 <= unit <= 4096,
            unit * rest <= n,
            unit * double_spacing(rest as nat) == double_spacing(n as nat),
        decreases rest,
    {
        proof {
            let half = rest / 2;
            assert(unit <= 2048) by (nonlinear_arith)
                requires
                    unit * rest <= n,
                    rest >= 9_007_199_254_740_992,
                    n <= 0xffff_ffff_ffff_ffff,
            ;
            assert((2 * unit) * half <= unit * rest) by (nonlinear_arith)
                requires
                    half == rest / 2,
                    unit >= 1,
            ;
            assert((2 * unit) * double_spacing(half as nat) == unit * (2 * double_spacing(
                half as nat,
            ))) by (nonlinear_arith);
        }
        rest = rest / 2;
        unit = unit * 2;
    }
    assert(unit * 1 == unit);
    unit
}

/// `bytes` rounded to a double.
fn rounded(bytes: u64) -> (r: u128)
    ensures
        r == as_double(bytes as nat),
        r < 0x1_0000_0000_0000_0000_0000,
{
    let unit: u64 = spacing(bytes);
    let q: u128 = round_quotient(bytes as u128, unit as u128);
    assert(q * unit <= 0x1_0000_0000_0000_0000 * 4096) by (nonlinear_arith)
        requires
            q <= 0x1_0000_0000_0000_0000,
            unit <= 4096,
    ;
    q * (unit as u128)
}

/// `bytes` in megabytes with one decimal.
pub fn one_decimal(bytes: u64) -> (text: String)
    ensures
        text@ == one_decimal_text(bytes as nat),
{
    let t: u128 = round_quotient(rounded(bytes) * 10, MEGABYTE as u128);
    let mut text = String::new();
    append_decimal(&mut text, t / 10);
    text.append(".");
    append_decimal(&mut text, t % 10);
    assert(text@ =~= one_decimal_text(bytes as nat));
    text
}

/// `bytes` in megabytes without decimals.
pub fn whole(bytes: u64) -> (text: String)
    ensures
        text@ == whole_text(bytes as nat),
{
    let mut text = String::new();
    append_decimal(&mut text, round_quotient(rounded(bytes), MEGABYTE as u128));
    assert(text@ =~= whole_text(bytes as nat));
    text
}

/// Rounding is off by half a unit at most, and an integer is kept as it is.
pub proof fn nearest_is_within_half(num: nat, den: nat)
    requires
        den > 0,
    ensures
        2 * (nearest(num, den) * den) <= 2 * num + den,
        2 * num <= 2 * (nearest(num, den) * den) + den,
        num % den == 0 ==> nearest(num, den) * den == num,
{
    let q = num / den;
    let r = num % den;
    vstd::arithmetic::div_mod::lemma_fundamental_div_mod(num as int, den as int);
    assert((q + 1) * den == q * den + den) by (nonlinear_arith);
    assert(q * den == den * q) by (nonlinear_arith);
}

/// Counts below `EXACT_BELOW` are doubles: the shown value is off by a twentieth of a megabyte at
/// most.
pub proof fn shown_megabytes_are_close(bytes: nat)
    requires
        bytes < EXACT_BELOW,
    ensures
        as_double(bytes) == bytes,
        2 * tenths(bytes) * MEGABYTE <= 20 * bytes + MEGABYTE,
        20 * bytes <= 2 * tenths(bytes) * MEGABYTE + MEGABYTE,
{
    nearest_is_within_half(bytes, 1);
    nearest_is_within_half(bytes * 10, MEGABYTE as nat);
}

/// Rounding takes the even neighbour where both are equally near.
pub proof fn ties_go_to_the_even_neighbour(num: nat, den: nat)
    requires
        den > 0,
        2 * (nearest(num, den) * den) == 2 * num + den || 2 * num == 2 * (nearest(num, den) * den)
            + den,
    ensures
        nearest(num, den) % 2 == 0,
{
    let q = num / den;
    let r = num % den;
    vstd::arithmetic::div_mod::lemma_fundamental_div_mod(num as int, den as int);
    assert((q + 1) * den == q * den + den) by (nonlinear_arith);
    assert(q * den == den * q) by (nonlinear_arith);
}

/// The distance between doubles is a power of two, and leaves a number 53 significant bits: below
/// 2^53 it is one, and above, the number is at least 2^52 and less than 2^53 times as large.
pub proof fn doubles_have_53_bits(n: nat)
    ensures
        n < 9_007_199_254_740_992 ==> double_spacing(n) == 1,
        n >= 9_007_199_254_740_992 ==> 4_503_599_627_370_496 * double_spacing(n) <= n
            < 9_007_199_254_740_992 * double_spacing(n),
        exists|k: nat| double_spacing(n) == #[trigger] vstd::arithmetic::power2::pow2(k),
        double_spacing(n) > 0,
    decreases n,
{
    if n < 9_007_199_254_740_992 {
        vstd::arithmetic::power2::lemma2_to64();
        assert(double_spacing(n) == vstd::arithmetic::power2::pow2(0));
    } else {
        doubles_have_53_bits(n / 2);
        let k = choose|k: nat|
            double_spacing(n / 2) == #[trigger] vstd::arithmetic::power2::pow2(k);
        vstd::arithmetic::power2::lemma_pow2_unfold(k + 1);
        assert(double_spacing(n) == vstd::arithmetic::power2::pow2(k + 1));
        if n / 2 < 9_007_199_254_740_992 {
            assert(double_spacing(n / 2) == 1);
        }
    }
}

/// A count is rounded to the nearest double, ties to the one with the even significand.
pub proof fn counts_are_rounded_to_the_nearest_double(n: nat)
    ensures
        as_double(n) % double_spacing(n) == 0,
        2 * as_double(n) <= 2 * n + double_spacing(n),
        2 * n <= 2 * as_double(n) + double_spacing(n),
        2 * as_double(n) == 2 * n + double_spacing(n) || 2 * n == 2 * as_double(n)
            + double_spacing(n) ==> as_double(n) / double_spacing(n) % 2 == 0,
{
    let unit = double_spacing(n);
    doubles_have_53_bits(n);
    nearest_is_within_half(n, unit);
    let q = nearest(n, unit);
    assert(as_double(n) == q * unit);
    vstd::arithmetic::div_mod::lemma_fundamental_div_mod_converse(
        as_double(n) as int,
        unit as int,
        q as int,
        0,
    );
    if 2 * as_double(n) == 2 * n + unit || 2 * n == 2 * as_double(n) + unit {
        ties_go_to_the_even_neighbour(n, unit);
    }
}

/// The text with one decimal is the number of tenths of a megabyte that is nearest to the count,
/// ties to the even one: digits, a point, and one digit.
pub proof fn one_decimal_shows_the_nearest_tenth(bytes: nat)
    ensures
        ({
            let text = one_decimal_text(bytes);
            let point = text.len() - 2;
            let shown = decimal_value(text.take(point)) * 10 + decimal_value(text.skip(point + 1));
            let exact = 10 * as_double(bytes);
            &&& point > 0
            &&& text[point] == '.'
            &&& forall|i: int|
                0 <= i < text.len() && i != point ==> '0' <= #[trigger] text[i] <= '9'
            &&& point > 1 ==> text[0] != '0'
            &&& 2 * shown * 1_048_576 <= 2 * exact + 1_048_576
            &&& 2 * exact <= 2 * shown * 1_048_576 + 1_048_576
            &&& 2 * shown * 1_048_576 == 2 * exact + 1_048_576 || 2 * exact == 2 * shown * 1_048_576
                + 1_048_576 ==> shown % 2 == 0
        }),
{
    let t = tenths(bytes);
    let text = one_decimal_text(bytes);
    let whole = decimal_text(t / 10);
    let digit = decimal_text(t % 10);
    let exact = as_double(bytes) * 10;
    reveal_strlit(".");
    crate::text::decimal_text_reads_back(t / 10);
    crate::text::decimal_text_reads_back(t % 10);
    assert(digit.len() == 1);
    let point = text.len() - 2;
    assert(text.take(point) =~= whole);
    assert(text.skip(point + 1) =~= digit);
    assert(text[point] == '.');
    assert forall|i: int| 0 <= i < text.len() && i != point implies '0' <= #[trigger] text[i]
        <= '9' by {
        if i < point {
            assert(text[i] == whole[i]);
        } else {
            assert(text[i] == digit[0]);
        }
    }
    nearest_is_within_half(exact, MEGABYTE as nat);
    let shown = decimal_value(text.take(point)) * 10 + decimal_value(text.skip(point + 1));
    assert(shown == t);
    assert(t * MEGABYTE == t * 1_048_576);
    if 2 * shown * 1_048_576 == 2 * exact + 1_048_576 || 2 * exact == 2 * shown * 1_048_576
        + 1_048_576 {
        ties_go_to_the_even_neighbour(exact, MEGABYTE as nat);
    }
}

/// The text without decimals is the number of megabytes that is nearest to the count, ties to the
/// even one.
pub proof fn whole_shows_the_nearest_megabyte(bytes: nat)
    ensures
        ({
            let text = whole_text(bytes);
            let shown = decimal_value(text);
            let exact = as_double(bytes);
            &&& text.len() > 0
            &&& forall|i: int| 0 <= i < text.len() ==> '0' <= #[trigger] text[i] <= '9'
            &&& text.len() > 1 ==> text[0] != '0'
            &&& 2 * shown * 1_048_576 <= 2 * exact + 1_048_576
            &&& 2 * exact <= 2 * shown * 1_048_576 + 1_048_576
            &&& 2 * shown * 1_048_576 == 2 * exact + 1_048_576 || 2 * exact == 2 * shown * 1_048_576
                + 1_048_576 ==> shown % 2 == 0
        }),
{
    let exact = as_double(bytes);
    let w = nearest(exact, MEGABYTE as nat);
    crate::text::decimal_text_reads_back(w);
    nearest_is_within_half(exact, MEGABYTE as nat);
    assert(w * MEGABYTE == w * 1_048_576);
    if 2 * w * 1_048_576 == 2 * exact + 1_048_576 || 2 * exact == 2 * w * 1_048_576 + 1_048_576 {
        ties_go_to_the_even_neighbour(exact, MEGABYTE as nat);
    }
}

} // verus!
