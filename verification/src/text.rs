//! Small helpers on text that the other modules share.

use vstd::prelude::*;
use vstd::string::StringExecFns;

verus! {

/// Whether two string slices hold the same characters.
pub fn same_text(a: &str, b: &str) -> (same: bool)
    ensures
        same == (a@ == b@),
{
    let left = String::from_str(a);
    let right = String::from_str(b);
    left == right
}

/// The character of a decimal digit.
pub open spec fn digit_char(digit: int) -> char {
    if digit == 0 {
        '0'
    } else if digit == 1 {
        '1'
    } else if digit == 2 {
        '2'
    } else if digit == 3 {
        '3'
    } else if digit == 4 {
        '4'
    } else if digit == 5 {
        '5'
    } else if digit == 6 {
        '6'
    } else if digit == 7 {
        '7'
    } else if digit == 8 {
        '8'
    } else {
        '9'
    }
}

/// A natural number in decimal notation, without leading zeros.
pub open spec fn decimal_nat(number: nat) -> Seq<char>
    decreases number,
{
    if number < 10 {
        seq![digit_char(number as int)]
    } else {
        decimal_nat(number / 10).push(digit_char((number % 10) as int))
    }
}

/// An integer in decimal notation, with a minus sign where it is negative.
pub open spec fn decimal_int(number: int) -> Seq<char> {
    if number < 0 {
        seq!['-'] + decimal_nat((-number) as nat)
    } else {
        decimal_nat(number as nat)
    }
}

/// The text of a decimal digit.
fn digit_text(digit: u64) -> (text: &'static str)
    requires
        digit < 10,
    ensures
        text@ == seq![digit_char(digit as int)],
{
    proof {
        reveal_strlit("0");
        reveal_strlit("1");
        reveal_strlit("2");
        reveal_strlit("3");
        reveal_strlit("4");
        reveal_strlit("5");
        reveal_strlit("6");
        reveal_strlit("7");
        reveal_strlit("8");
        reveal_strlit("9");
    }
    let text = if digit == 0 {
        "0"
    } else if digit == 1 {
        "1"
    } else if digit == 2 {
        "2"
    } else if digit == 3 {
        "3"
    } else if digit == 4 {
        "4"
    } else if digit == 5 {
        "5"
    } else if digit == 6 {
        "6"
    } else if digit == 7 {
        "7"
    } else if digit == 8 {
        "8"
    } else {
        "9"
    };
    assert(text@ =~= seq![digit_char(digit as int)]);
    text
}

/// The digits of `number` without its last `tail.len()` ones, followed by
/// `tail`, are the digits of the whole number.
proof fn lemma_decimal_step(number: nat, tail: Seq<char>)
    requires
        number >= 10,
    ensures
        decimal_nat(number) + tail == decimal_nat(number / 10) + (seq![
            digit_char((number % 10) as int),
        ] + tail),
{
    assert(decimal_nat(number) + tail =~= decimal_nat(number / 10) + (seq![
        digit_char((number % 10) as int),
    ] + tail));
}

/// A number in decimal notation.
pub fn decimal_u64(number: u64) -> (text: String)
    ensures
        text@ == decimal_nat(number as nat),
{
    let mut rest = number;
    let mut text = String::from_str("");
    proof {
        reveal_strlit("");
        assert(text@ =~= Seq::<char>::empty());
        assert(decimal_nat(number as nat) + text@ =~= decimal_nat(number as nat));
    }
    while rest >= 10
        invariant
            decimal_nat(rest as nat) + text@ == decimal_nat(number as nat),
        decreases rest,
    {
        let digit = rest % 10;
        proof {
            lemma_decimal_step(rest as nat, text@);
        }
        text = String::from_str(digit_text(digit)).concat(text.as_str());
        rest = rest / 10;
    }
    let text = String::from_str(digit_text(rest)).concat(text.as_str());
    text
}

/// A number in decimal notation, with a minus sign where it is negative.
pub fn decimal_i64(number: i64) -> (text: String)
    ensures
        text@ == decimal_int(number as int),
{
    if number < 0 {
        let magnitude: u64 = ((-(number + 1)) as u64) + 1;
        proof {
            reveal_strlit("-");
            assert("-"@ =~= seq!['-']);
        }
        String::from_str("-").concat(decimal_u64(magnitude).as_str())
    } else {
        decimal_u64(number as u64)
    }
}

/// Two texts, one behind the other.
pub fn joined(first: &str, second: &str) -> (text: String)
    ensures
        text@ == first@ + second@,
{
    String::from_str(first).concat(second)
}

} // verus!
