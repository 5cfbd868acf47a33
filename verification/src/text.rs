//! Decimal and uppercase hexadecimal rendering of unsigned integers.

use vstd::prelude::*;

verus! {

/// The ASCII digit for a value below 10.
pub open spec fn decimal_digit(d: nat) -> char {
    (d + 48) as char
}

/// The decimal text of a number: no sign, no leading zeros, "0" for zero.
pub open spec fn spec_decimal(n: nat) -> Seq<char>
    decreases n,
{
    if n < 10 {
        seq![decimal_digit(n)]
    } else {
        spec_decimal(n / 10) + seq![decimal_digit(n % 10)]
    }
}

/// The one-character text of a digit below 16: `0`-`9`, then `A`-`F`.
fn digit_str(d: u64) -> (r: &'static str)
    requires
        d < 16,
    ensures
        r@ == seq![upper_hex_digit(d as nat)],
{
    proof {
        reveal_strlit("0");
        reveal_strlit("1");
        reveal_strlit("2");
        reveal_strlit("3");
        reveal_strlit("4");
        reveal_strlit("5");
        reveal_strlit("6");
        reveal_strlit("7");
        reveal_strlit("8");
        reveal_strlit("9");
        reveal_strlit("A");
        reveal_strlit("B");
        reveal_strlit("C");
        reveal_strlit("D");
        reveal_strlit("E");
        reveal_strlit("F");
    }
    if d == 0 {
        "0"
    } else if d == 1 {
        "1"
    } else if d == 2 {
        "2"
    } else if d == 3 {
        "3"
    } else if d == 4 {
        "4"
    } else if d == 5 {
        "5"
    } else if d == 6 {
        "6"
    } else if d == 7 {
        "7"
    } else if d == 8 {
        "8"
    } else if d == 9 {
        "9"
    } else if d == 10 {
        "A"
    } else if d == 11 {
        "B"
    } else if d == 12 {
        "C"
    } else if d == 13 {
        "D"
    } else if d == 14 {
        "E"
    } else {
        "F"
    }
}

/// The decimal text of `n`, as `n.to_string()` writes it.
pub fn u64_to_decimal(n: u64) -> (s: String)
    ensures
        s@ == spec_decimal(n as nat),
    decreases n,
{
    if n < 10 {
        String::from_str(digit_str(n))
    } else {
        let mut s = u64_to_decimal(n / 10);
        s.append(digit_str(n % 10));
        s
    }
}

/// The uppercase hexadecimal digit for a value below 16.
pub open spec fn upper_hex_digit(d: nat) -> char {
    if d < 10 {
        (d + 48) as char
    } else {
        (d + 55) as char
    }
}

/// The uppercase hexadecimal text of a number: no prefix, no leading zeros,
/// "0" for zero.
pub open spec fn spec_upper_hex(n: nat) -> Seq<char>
    decreases n,
{
    if n < 16 {
        seq![upper_hex_digit(n)]
    } else {
        spec_upper_hex(n / 16) + seq![upper_hex_digit(n % 16)]
    }
}

/// The uppercase hexadecimal text of `n`, as `format!("{:X}", n)` writes it.
pub fn usize_to_upper_hex(n: usize) -> (s: String)
    ensures
        s@ == spec_upper_hex(n as nat),
    decreases n,
{
    if n < 16 {
        String::from_str(digit_str(n as u64))
    } else {
        let mut s = usize_to_upper_hex(n / 16);
        s.append(digit_str((n % 16) as u64));
        s
    }
}

} // verus!
