//! Text building blocks: decimal numbers and log lines.

use vstd::prelude::*;
use vstd::string::*;

verus! {

/// `String::push` appends the given character to the end of the string.
pub assume_specification[ String::push ](s: &mut String, c: char)
    ensures
        final(s)@ == old(s)@.push(c),
;

/// The character of a decimal digit.
pub open spec fn digit_char(d: nat) -> char {
    (('0' as int) + d) as char
}

/// The decimal notation of `n`, without leading zeros.
pub open spec fn decimal_text(n: nat) -> Seq<char>
    decreases n,
{
    if n < 10 {
        seq![digit_char(n)]
    } else {
        decimal_text(n / 10).push(digit_char(n % 10))
    }
}

/// Appends the decimal notation of `n` to `out`.
pub fn append_decimal(out: &mut String, n: u128)
    ensures
        final(out)@ == old(out)@ + decimal_text(n as nat),
    decreases n,
{
    if n >= 10 {
        append_decimal(out, n / 10);
    }
    let digit: u8 = 48 + (n % 10) as u8;
    out.push(digit as char);
    assert(out@ == old(out)@ + decimal_text(n as nat));
}

/// `before`, then `after`.
pub fn joined(before: &str, after: &str) -> (line: String)
    ensures
        line@ == before@ + after@,
{
    let mut line = before.to_owned();
    line.append(after);
    line
}

/// A log of one line.
pub fn one_line(line: String) -> (logs: Vec<String>)
    ensures
        logs.deep_view() == seq![line@],
{
    let mut logs: Vec<String> = Vec::new();
    logs.push(line);
    assert(logs.deep_view() =~= seq![line@]);
    logs
}

/// Adds a line to a log.
pub fn add_line(logs: &mut Vec<String>, line: String)
    ensures
        final(logs).deep_view() == old(logs).deep_view().push(line@),
{
    let ghost before = logs.deep_view();
    logs.push(line);
    assert(logs.deep_view() =~= before.push(line@));
}

/// The number that decimal digits write, read from the left.
pub open spec fn decimal_value(digits: Seq<char>) -> int
    decreases digits.len(),
{
    if digits.len() == 0 {
        0
    } else {
        decimal_value(digits.drop_last()) * 10 + (digits.last() as int - '0' as int)
    }
}

/// Reading decimal notation gives the number back; there are only digits, and none is superfluous.
pub proof fn decimal_text_reads_back(n: nat)
    ensures
        decimal_value(decimal_text(n)) == n,
        decimal_text(n).len() > 0,
        forall|i: int|
            0 <= i < decimal_text(n).len() ==> '0' <= #[trigger] decimal_text(n)[i] <= '9',
        decimal_text(n).len() > 1 ==> decimal_text(n)[0] != '0',
    decreases n,
{
    if n < 10 {
        assert(decimal_text(n).drop_last() =~= Seq::<char>::empty());
        assert(decimal_value(Seq::<char>::empty()) == 0);
    } else {
        decimal_text_reads_back(n / 10);
        assert(decimal_text(n).drop_last() =~= decimal_text(n / 10));
        assert(decimal_text(n)[0] == decimal_text(n / 10)[0]);
        if decimal_text(n / 10).len() == 1 {
            assert(decimal_text(n / 10).drop_last() =~= Seq::<char>::empty());
            assert(decimal_value(Seq::<char>::empty()) == 0);
        }
    }
}

} // verus!
