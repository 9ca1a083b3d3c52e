//! Decimal numerals and their assembly into messages.
use vstd::prelude::*;

verus! {

/// The digit that stands for `d`, for `d < 10`.
pub open spec fn digit(d: nat) -> char {
    (48 + d) as char
}

/// The decimal numeral of `n`, without leading zeros.
pub open spec fn decimal(n: nat) -> Seq<char>
    decreases n,
{
    if n < 10 {
        seq![digit(n)]
    } else {
        decimal(n / 10).push(digit(n % 10))
    }
}

/// Appends the digit that stands for `d` to `text`.
fn append_digit(text: &mut String, d: usize)
    requires
        d < 10,
    ensures
        final(text)@ == old(text)@.push(digit(d as nat)),
{
    proof {
        reveal_strlit("0");
        reveal_strlit("1");
        reveal_strlit("2");
        reveal_strlit("3");
        reveal_strlit("4");
        reveal_strlit("5");
        reveal_strlit("6");
        reveal_strlit("7");
        reveal_strlit("8");
        reveal_strlit("9");
    }
    if d == 0 {
        text.append("0");
    } else if d == 1 {
        text.append("1");
    } else if d == 2 {
        text.append("2");
    } else if d == 3 {
        text.append("3");
    } else if d == 4 {
        text.append("4");
    } else if d == 5 {
        text.append("5");
    } else if d == 6 {
        text.append("6");
    } else if d == 7 {
        text.append("7");
    } else if d == 8 {
        text.append("8");
    } else {
        text.append("9");
    }
}

/// Appends the decimal numeral of `n` to `text`.
pub fn append_decimal(text: &mut String, n: usize)
    ensures
        final(text)@ == old(text)@ + decimal(n as nat),
    decreases n,
{
    if n >= 10 {
        append_decimal(text, n / 10);
    }
    append_digit(text, n % 10);
}

} // verus!
