//! Decimal notation of integers as verified strings.

use vstd::prelude::*;
use vstd::string::StringExecFns;

verus! {

/// The decimal digit character for `d`.
pub open spec fn digito(d: int) -> char {
    if d == 0 {
        '0'
    } else if d == 1 {
        '1'
    } else if d == 2 {
        '2'
    } else if d == 3 {
        '3'
    } else if d == 4 {
        '4'
    } else if d == 5 {
        '5'
    } else if d == 6 {
        '6'
    } else if d == 7 {
        '7'
    } else if d == 8 {
        '8'
    } else {
        '9'
    }
}

/// Decimal notation of a nonnegative `n`, most significant digit first.
pub open spec fn dec_nat(n: int) -> Seq<char>
    decreases n,
{
    if n < 10 {
        seq![digito(n)]
    } else {
        dec_nat(n / 10).push(digito(n % 10))
    }
}

/// Decimal notation of `n`, with a leading minus sign when negative.
pub open spec fn dec_int(n: int) -> Seq<char> {
    if n < 0 {
        seq!['-'] + dec_nat(-n)
    } else {
        dec_nat(n)
    }
}

fn digit_str(d: u64) -> (r: &'static str)
    requires
        d < 10,
    ensures
        r@ =~= seq![digito(d as int)],
{
    proof {
        reveal_strlit("0");
        reveal_strlit("1");
        reveal_strlit("2");
        reveal_strlit("3");
        reveal_strlit("4");
        reveal_strlit("5");
        reveal_strlit("6");
        reveal_strlit("7");
        reveal_strlit("8");
        reveal_strlit("9");
    }
    match d {
        0 => "0",
        1 => "1",
        2 => "2",
        3 => "3",
        4 => "4",
        5 => "5",
        6 => "6",
        7 => "7",
        8 => "8",
        _ => "9",
    }
}

/// Decimal notation of `n` as a string.
pub fn texto_u64(n: u64) -> (s: String)
    ensures
        s@ == dec_nat(n as int),
    decreases n,
{
    if n < 10 {
        digit_str(n).to_owned()
    } else {
        let mut s = texto_u64(n / 10);
        s.append(digit_str(n % 10));
        assert(dec_nat((n / 10) as int).push(digito((n % 10) as int)) =~= dec_nat((n / 10) as int)
            + seq![digito((n % 10) as int)]);
        s
    }
}

pub fn texto_u32(n: u32) -> (s: String)
    ensures
        s@ == dec_nat(n as int),
{
    texto_u64(n as u64)
}

/// Decimal notation of `n`, sign included.
pub fn texto_i32(n: i32) -> (s: String)
    ensures
        s@ == dec_int(n as int),
{
    if n >= 0 {
        texto_u64(n as u64)
    } else {
        proof {
            reveal_strlit("-");
        }
        let mut s = "-".to_owned();
        let magnitud: u64 = (-(n as i64)) as u64;
        let digitos = texto_u64(magnitud);
        s.append(digitos.as_str());
        assert(s@ =~= seq!['-'] + dec_nat(-(n as int)));
        s
    }
}

} // verus!
