//! Decimal rendering of integers.
use vstd::prelude::*;

verus! {

/// The decimal digit `d` as a character.
pub open spec fn spec_digit(d: int) -> char {
    if d == 0 {
        '0'
    } else if d == 1 {
        '1'
    } else if d == 2 {
        '2'
    } else if d == 3 {
        '3'
    } else if d == 4 {
        '4'
    } else if d == 5 {
        '5'
    } else if d == 6 {
        '6'
    } else if d == 7 {
        '7'
    } else if d == 8 {
        '8'
    } else {
        '9'
    }
}

/// A natural number in decimal, without leading zeros.
pub open spec fn spec_natural_text(n: nat) -> Seq<char>
    decreases n,
{
    if n < 10 {
        seq![spec_digit(n as int)]
    } else {
        spec_natural_text(n / 10).push(spec_digit((n % 10) as int))
    }
}

/// An integer in decimal, with a minus sign before a negative one.
pub open spec fn spec_integer_text(v: int) -> Seq<char> {
    if v < 0 {
        seq!['-'] + spec_natural_text((-v) as nat)
    } else {
        spec_natural_text(v as nat)
    }
}

/// The decimal digit `d`.
fn digit(d: u64) -> (r: &'static str)
    requires
        d < 10,
    ensures
        r@ == seq![spec_digit(d as int)],
{
    proof {
        reveal_strlit("0");
        reveal_strlit("1");
        reveal_strlit("2");
        reveal_strlit("3");
        reveal_strlit("4");
        reveal_strlit("5");
        reveal_strlit("6");
        reveal_strlit("7");
        reveal_strlit("8");
        reveal_strlit("9");
    }
    let r = match d {
        0 => "0",
        1 => "1",
        2 => "2",
        3 => "3",
        4 => "4",
        5 => "5",
        6 => "6",
        7 => "7",
        8 => "8",
        _ => "9",
    };
    assert(r@ =~= seq![spec_digit(d as int)]);
    r
}

/// A natural number in decimal.
fn natural_text(n: u64) -> (r: String)
    ensures
        r@ == spec_natural_text(n as nat),
    decreases n,
{
    if n < 10 {
        digit(n).to_owned()
    } else {
        let leading = natural_text(n / 10);
        let r = leading.concat(digit(n % 10));
        assert(r@ =~= spec_natural_text((n / 10) as nat).push(spec_digit((n % 10) as int)));
        r
    }
}

/// An integer in decimal.
pub fn integer_text(v: i32) -> (r: String)
    ensures
        r@ == spec_integer_text(v as int),
{
    if v < 0 {
        proof {
            reveal_strlit("-");
        }
        let magnitude: i64 = -(v as i64);
        let digits = natural_text(magnitude as u64);
        let r = "-".to_owned().concat(digits.as_str());
        assert("-"@ =~= seq!['-']);
        r
    } else {
        natural_text(v as u64)
    }
}

} // verus!
