//! Decimal rendering of integers, the base of every quantized signal string
//! and of the JSON number encoding.

use vstd::prelude::*;
use vstd::string::*;

verus! {

/// The shortest decimal digit string of `n`, as ASCII bytes.
pub open spec fn dec_rep(n: nat) -> Seq<u8>
    decreases n,
{
    if n < 10 {
        seq![(48 + n) as u8]
    } else {
        dec_rep(n / 10).push((48 + n % 10) as u8)
    }
}

/// The decimal digit string of `i`, with a leading minus sign when negative.
pub open spec fn dec_rep_int(i: int) -> Seq<u8> {
    if i < 0 {
        seq![45u8] + dec_rep((-i) as nat)
    } else {
        dec_rep(i as nat)
    }
}

/// Appends the decimal digits of `n` to `out`.
pub fn push_dec_u64(n: u64, out: &mut Vec<u8>)
    ensures
        final(out)@ == old(out)@ + dec_rep(n as nat),
    decreases n,
{
    if n < 10 {
        out.push((48 + n) as u8);
        assert(out@ =~= old(out)@ + dec_rep(n as nat));
    } else {
        push_dec_u64(n / 10, out);
        out.push((48 + n % 10) as u8);
        assert(out@ =~= old(out)@ + dec_rep(n as nat));
    }
}

/// Appends the decimal rendering of `n`, sign included, to `out`.
pub fn push_dec_i64(n: i64, out: &mut Vec<u8>)
    ensures
        final(out)@ == old(out)@ + dec_rep_int(n as int),
{
    if n >= 0 {
        push_dec_u64(n as u64, out);
    } else {
        let magnitude: u64 = ((-(n + 1)) as u64) + 1;
        assert(magnitude == -(n as int));
        out.push(45u8);
        push_dec_u64(magnitude, out);
        assert(out@ =~= old(out)@ + dec_rep_int(n as int));
    }
}

/// The decimal digits of `n` as a fresh byte vector.
pub fn u64_to_dec(n: u64) -> (r: Vec<u8>)
    ensures
        r@ == dec_rep(n as nat),
{
    let mut out: Vec<u8> = Vec::new();
    push_dec_u64(n, &mut out);
    assert(out@ =~= dec_rep(n as nat));
    out
}

/// The decimal rendering of `n`, sign included, as a fresh byte vector.
pub fn i64_to_dec(n: i64) -> (r: Vec<u8>)
    ensures
        r@ == dec_rep_int(n as int),
{
    let mut out: Vec<u8> = Vec::new();
    push_dec_i64(n, &mut out);
    assert(out@ =~= dec_rep_int(n as int));
    out
}

/// The ASCII digit character for `n`.
pub open spec fn digit_char(n: nat) -> char {
    if n == 0 {
        '0'
    } else if n == 1 {
        '1'
    } else if n == 2 {
        '2'
    } else if n == 3 {
        '3'
    } else if n == 4 {
        '4'
    } else if n == 5 {
        '5'
    } else if n == 6 {
        '6'
    } else if n == 7 {
        '7'
    } else if n == 8 {
        '8'
    } else {
        '9'
    }
}

/// The shortest decimal digit string of `n`, as characters.
pub open spec fn dec_chars(n: nat) -> Seq<char>
    decreases n,
{
    if n < 10 {
        seq![digit_char(n)]
    } else {
        dec_chars(n / 10).push(digit_char(n % 10))
    }
}

/// The decimal character string of `i`, with a leading minus sign when negative.
pub open spec fn dec_chars_int(i: int) -> Seq<char> {
    if i < 0 {
        seq!['-'] + dec_chars((-i) as nat)
    } else {
        dec_chars(i as nat)
    }
}

/// The one-character string slice for the digit `d`.
fn digit_str(d: u64) -> (r: &'static str)
    requires
        d < 10,
    ensures
        r@ == seq![digit_char(d as nat)],
{
    proof {
        reveal_strlit("0");
        reveal_strlit("1");
        reveal_strlit("2");
        reveal_strlit("3");
        reveal_strlit("4");
        reveal_strlit("5");
        reveal_strlit("6");
        reveal_strlit("7");
        reveal_strlit("8");
        reveal_strlit("9");
    }
    let r: &'static str = match d {
        0 => "0",
        1 => "1",
        2 => "2",
        3 => "3",
        4 => "4",
        5 => "5",
        6 => "6",
        7 => "7",
        8 => "8",
        _ => "9",
    };
    assert(r@ =~= seq![digit_char(d as nat)]);
    r
}

/// The decimal digit string of `n`.
pub fn dec_string_u64(n: u64) -> (r: String)
    ensures
        r@ == dec_chars(n as nat),
    decreases n,
{
    if n < 10 {
        let r = String::from_str(digit_str(n));
        assert(r@ =~= dec_chars(n as nat));
        r
    } else {
        let r = dec_string_u64(n / 10).concat(digit_str(n % 10));
        assert(r@ =~= dec_chars(n as nat));
        r
    }
}

/// The decimal string of `n`, sign included.
pub fn dec_string_i64(n: i64) -> (r: String)
    ensures
        r@ == dec_chars_int(n as int),
{
    if n >= 0 {
        dec_string_u64(n as u64)
    } else {
        let magnitude: u64 = ((-(n + 1)) as u64) + 1;
        assert(magnitude == -(n as int));
        proof {
            reveal_strlit("-");
        }
        let r = String::from_str("-").concat(dec_string_u64(magnitude).as_str());
        assert(r@ =~= dec_chars_int(n as int));
        r
    }
}

} // verus!
