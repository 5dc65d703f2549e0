//! Composite keys: the positional convention under which one display
//! output's sub-devices are named. The i-th sub-device under output path
//! `P` is keyed `P\Monitor<i>`, and both enumeration passes compose the
//! key the same way, which is what lets them be matched.

use vstd::prelude::*;

verus! {

/// The character of one decimal digit.
pub open spec fn digit_char(d: nat) -> char {
    if d == 0 {
        '0'
    } else if d == 1 {
        '1'
    } else if d == 2 {
        '2'
    } else if d == 3 {
        '3'
    } else if d == 4 {
        '4'
    } else if d == 5 {
        '5'
    } else if d == 6 {
        '6'
    } else if d == 7 {
        '7'
    } else if d == 8 {
        '8'
    } else {
        '9'
    }
}

/// The decimal rendering of a number, most significant digit first, no
/// leading zeroes (a lone zero for 0).
pub open spec fn spec_dec_digits(n: nat) -> Seq<char>
    decreases n,
{
    if n < 10 {
        seq![digit_char(n)]
    } else {
        spec_dec_digits(n / 10) + seq![digit_char(n % 10)]
    }
}

/// The composite key of the `ordinal`-th sub-device under `path`.
pub open spec fn spec_composite_key(path: Seq<char>, ordinal: nat) -> Seq<char> {
    path + "\\Monitor"@ + spec_dec_digits(ordinal)
}

/// One decimal digit as a string slice.
fn digit_str(d: u32) -> (r: &'static str)
    requires
        d < 10,
    ensures
        r@ == seq![digit_char(d as nat)],
{
    proof {
        reveal_strlit("0");
        reveal_strlit("1");
        reveal_strlit("2");
        reveal_strlit("3");
        reveal_strlit("4");
        reveal_strlit("5");
        reveal_strlit("6");
        reveal_strlit("7");
        reveal_strlit("8");
        reveal_strlit("9");
    }
    match d {
        0 => "0",
        1 => "1",
        2 => "2",
        3 => "3",
        4 => "4",
        5 => "5",
        6 => "6",
        7 => "7",
        8 => "8",
        _ => "9",
    }
}

/// Appends the decimal rendering of `n` to `s`.
pub fn append_decimal(s: &mut String, n: u32)
    ensures
        final(s)@ == old(s)@ + spec_dec_digits(n as nat),
    decreases n,
{
    if n >= 10 {
        append_decimal(s, n / 10);
    }
    s.append(digit_str(n % 10));
}

/// Composes the key `<path>\Monitor<ordinal>`.
pub fn composite_key(path: &str, ordinal: u32) -> (key: String)
    ensures
        key@ == spec_composite_key(path@, ordinal as nat),
{
    let mut key = String::from_str(path);
    key.append("\\Monitor");
    append_decimal(&mut key, ordinal);
    key
}

} // verus!
