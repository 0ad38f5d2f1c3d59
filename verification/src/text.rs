//! Numbers as text.

use vstd::prelude::*;

verus! {

/// The decimal digits.
pub open spec fn digits() -> Seq<char> {
    seq!['0', '1', '2', '3', '4', '5', '6', '7', '8', '9']
}

/// `n` in decimal, without leading zeros.
pub open spec fn decimal(n: nat) -> Seq<char>
    decreases n,
{
    if n < 10 {
        seq![digits()[n as int]]
    } else {
        decimal(n / 10).push(digits()[(n % 10) as int])
    }
}

/// Whether `c` is a decimal digit.
pub open spec fn is_digit(c: char) -> bool {
    '0' <= c && c <= '9'
}

/// The number that a row of decimal digits stands for.
pub open spec fn value(row: Seq<char>) -> nat
    decreases row.len(),
{
    if row.len() == 0 {
        0
    } else {
        value(row.drop_last()) * 10 + (row.last() as nat - '0' as nat) as nat
    }
}

/// Whether `row` is the way to write `n` in decimal: digits alone, standing for
/// `n`, with no zero in front of other digits.
pub open spec fn reads_as(row: Seq<char>, n: nat) -> bool {
    &&& row.len() > 0
    &&& forall|i: int| 0 <= i < row.len() ==> is_digit(#[trigger] row[i])
    &&& row.len() > 1 ==> row[0] != '0'
    &&& value(row) == n
}

/// The decimal text of a number, read back as a number, gives that number.
pub proof fn decimal_reads_back(n: nat)
    ensures
        reads_as(decimal(n), n),
    decreases n,
{
    let row = decimal(n);
    if n < 10 {
        assert(row.drop_last() =~= Seq::empty());
        assert(value(Seq::<char>::empty()) == 0);
    } else {
        decimal_reads_back(n / 10);
        assert(row.drop_last() =~= decimal(n / 10));
        if n / 10 < 10 {
            assert(decimal(n / 10)[0] == digits()[(n / 10) as int]);
        } else {
            assert(row[0] == decimal(n / 10)[0]);
            decimal_has_more_digits(n / 10);
        }
    }
}

proof fn decimal_has_more_digits(n: nat)
    requires
        n >= 10,
    ensures
        decimal(n).len() > 1,
{
    assert(decimal(n / 10).len() > 0);
}

/// Different numbers have different decimal texts.
pub proof fn decimals_differ(a: nat, b: nat)
    requires
        a != b,
    ensures
        decimal(a) != decimal(b),
{
    decimal_reads_back(a);
    decimal_reads_back(b);
}

fn digit_text(d: usize) -> (text: &'static str)
    requires
        d < 10,
    ensures
        text@ == seq![digits()[d as int]],
{
    proof {
        reveal_strlit("0");
        reveal_strlit("1");
        reveal_strlit("2");
        reveal_strlit("3");
        reveal_strlit("4");
        reveal_strlit("5");
        reveal_strlit("6");
        reveal_strlit("7");
        reveal_strlit("8");
        reveal_strlit("9");
    }
    match d {
        0 => "0",
        1 => "1",
        2 => "2",
        3 => "3",
        4 => "4",
        5 => "5",
        6 => "6",
        7 => "7",
        8 => "8",
        _ => "9",
    }
}

/// Writes `n` in decimal.
pub fn decimal_text(n: usize) -> (text: String)
    ensures
        text@ == decimal(n as nat),
        reads_as(text@, n as nat),
    decreases n,
{
    let mut text: String = if n < 10 {
        String::new()
    } else {
        decimal_text(n / 10)
    };
    text.append(digit_text(n % 10));
    proof {
        decimal_reads_back(n as nat);
    }
    text
}

} // verus!
