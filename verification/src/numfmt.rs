use vstd::prelude::*;

verus! {

/// The decimal digit character for a value below ten.
pub open spec fn dec_digit(d: nat) -> char {
    if d == 0 {
        '0'
    } else if d == 1 {
        '1'
    } else if d == 2 {
        '2'
    } else if d == 3 {
        '3'
    } else if d == 4 {
        '4'
    } else if d == 5 {
        '5'
    } else if d == 6 {
        '6'
    } else if d == 7 {
        '7'
    } else if d == 8 {
        '8'
    } else {
        '9'
    }
}

/// The usual decimal rendering of a natural number, without leading zeros
/// (except for zero itself).
pub open spec fn dec_str(n: nat) -> Seq<char>
    decreases n,
{
    if n < 10 {
        seq![dec_digit(n)]
    } else {
        dec_str(n / 10).push(dec_digit(n % 10))
    }
}

/// A value below one hundred rendered as exactly two digits, zero-padded.
pub open spec fn dec_str2(n: nat) -> Seq<char> {
    seq![dec_digit(n / 10), dec_digit(n % 10)]
}

/// A percentage held in hundredths of a percent, rendered with exactly two
/// digits after the decimal point.
pub open spec fn percent_str(centi: nat) -> Seq<char> {
    dec_str(centi / 100) + seq!['.'] + dec_str2(centi % 100)
}

/// The one-character string for a decimal digit.
fn digit_str(d: u64) -> (r: &'static str)
    requires
        d < 10,
    ensures
        r@ =~= seq![dec_digit(d as nat)],
{
    proof {
        reveal_strlit("0");
        reveal_strlit("1");
        reveal_strlit("2");
        reveal_strlit("3");
        reveal_strlit("4");
        reveal_strlit("5");
        reveal_strlit("6");
        reveal_strlit("7");
        reveal_strlit("8");
        reveal_strlit("9");
    }
    match d {
        0 => "0",
        1 => "1",
        2 => "2",
        3 => "3",
        4 => "4",
        5 => "5",
        6 => "6",
        7 => "7",
        8 => "8",
        _ => "9",
    }
}

/// Render a number in decimal.
pub fn u64_to_dec(n: u64) -> (r: String)
    ensures
        r@ == dec_str(n as nat),
    decreases n,
{
    if n < 10 {
        let r = digit_str(n).to_owned();
        proof {
            assert(r@ =~= dec_str(n as nat));
        }
        r
    } else {
        let mut s = u64_to_dec(n / 10);
        s.append(digit_str(n % 10));
        proof {
            assert(s@ =~= dec_str(n as nat));
        }
        s
    }
}

/// Render a percentage held in hundredths of a percent, two decimal places.
pub fn percent_to_dec(centi: u64) -> (r: String)
    requires
        centi <= 10000,
    ensures
        r@ == percent_str(centi as nat),
{
    let mut s = u64_to_dec(centi / 100);
    proof {
        reveal_strlit(".");
    }
    s.append(".");
    s.append(digit_str((centi % 100) / 10));
    s.append(digit_str(centi % 10));
    proof {
        assert((centi % 100) % 10 == centi % 10) by (nonlinear_arith);
        assert(s@ =~= percent_str(centi as nat));
    }
    s
}

} // verus!
