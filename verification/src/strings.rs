//! Decimal rendering and message assembly.
//!
//! Validation failures carry human-readable messages that cite the field
//! name and the violated bound. The helpers here render integers in
//! decimal and concatenate message parts, each against an exact
//! character-sequence specification, so error contracts can pin messages
//! down completely.

use vstd::prelude::*;

verus! {

/// The decimal digit character for `d` in `0..10`.
pub open spec fn digit_char(d: int) -> char {
    if d == 0 { '0' }
    else if d == 1 { '1' }
    else if d == 2 { '2' }
    else if d == 3 { '3' }
    else if d == 4 { '4' }
    else if d == 5 { '5' }
    else if d == 6 { '6' }
    else if d == 7 { '7' }
    else if d == 8 { '8' }
    else if d == 9 { '9' }
    else { ' ' }
}

/// Decimal representation of a natural number, most significant digit first.
pub open spec fn dec_rep(n: nat) -> Seq<char>
    decreases n,
{
    if n < 10 {
        seq![digit_char(n as int)]
    } else {
        dec_rep(n / 10).push(digit_char((n % 10) as int))
    }
}

/// Decimal representation of an integer, with a leading minus sign when negative.
pub open spec fn int_rep(i: int) -> Seq<char> {
    if i < 0 {
        seq!['-'] + dec_rep((-i) as nat)
    } else {
        dec_rep(i as nat)
    }
}

/// The one-character string slice for a single decimal digit.
fn digit_str(d: u64) -> (r: &'static str)
    requires
        d < 10,
    ensures
        r@ == seq![digit_char(d as int)],
{
    proof {
        reveal_strlit("0");
        reveal_strlit("1");
        reveal_strlit("2");
        reveal_strlit("3");
        reveal_strlit("4");
        reveal_strlit("5");
        reveal_strlit("6");
        reveal_strlit("7");
        reveal_strlit("8");
        reveal_strlit("9");
    }
    match d {
        0 => "0",
        1 => "1",
        2 => "2",
        3 => "3",
        4 => "4",
        5 => "5",
        6 => "6",
        7 => "7",
        8 => "8",
        _ => "9",
    }
}

/// Renders a natural number in decimal.
pub fn u64_dec(n: u64) -> (r: String)
    ensures
        r@ == dec_rep(n as nat),
    decreases n,
{
    if n < 10 {
        String::from_str(digit_str(n))
    } else {
        let mut s = u64_dec(n / 10);
        s.append(digit_str(n % 10));
        proof {
            assert(dec_rep(n as nat) =~= dec_rep((n / 10) as nat).push(
                digit_char((n % 10) as int),
            ));
            assert(dec_rep((n / 10) as nat).push(digit_char((n % 10) as int)) =~= dec_rep(
                (n / 10) as nat,
            ) + seq![digit_char((n % 10) as int)]);
        }
        s
    }
}

/// Renders a signed integer in decimal.
pub fn i64_dec(i: i64) -> (r: String)
    ensures
        r@ == int_rep(i as int),
{
    if i >= 0 {
        u64_dec(i as u64)
    } else {
        let wide: i128 = i as i128;
        let mag: u64 = (-wide) as u64;
        let mut s = String::from_str("-");
        let digits = u64_dec(mag);
        s.append(digits.as_str());
        proof {
            reveal_strlit("-");
            assert("-"@ =~= seq!['-']);
        }
        s
    }
}

/// Concatenates three parts: used for messages of the shape
/// `prefix + field name + suffix`.
pub fn cat3(a: &str, b: &str, c: &str) -> (r: String)
    ensures
        r@ == a@ + b@ + c@,
{
    let mut s = String::from_str(a);
    s.append(b);
    s.append(c);
    s
}

/// Concatenates four parts: used for messages of the shape
/// `prefix + field name + middle + bound`.
pub fn cat4(a: &str, b: &str, c: &str, d: &str) -> (r: String)
    ensures
        r@ == a@ + b@ + c@ + d@,
{
    let mut s = String::from_str(a);
    s.append(b);
    s.append(c);
    s.append(d);
    s
}

/// Concatenates five parts: used for messages of the shape
/// `prefix + field name + middle + bound + suffix`.
pub fn cat5(a: &str, b: &str, c: &str, d: &str, e: &str) -> (r: String)
    ensures
        r@ == a@ + b@ + c@ + d@ + e@,
{
    let mut s = String::from_str(a);
    s.append(b);
    s.append(c);
    s.append(d);
    s.append(e);
    s
}

} // verus!
