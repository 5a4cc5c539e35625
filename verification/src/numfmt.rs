use vstd::prelude::*;
use vstd::string::StringExecFns;
use crate::chars::digit_char;

verus! {

/// The decimal digits of `n`, most significant first, no leading zeros
/// (except for `n == 0`, rendered as a single `'0'`).
pub open spec fn dec_nat(n: nat) -> Seq<char>
    decreases n,
{
    if n < 10 {
        seq![digit_char(n as int)]
    } else {
        dec_nat(n / 10).push(digit_char((n % 10) as int))
    }
}

/// The decimal rendering of `n`, with a leading minus sign when negative.
pub open spec fn dec_int(n: int) -> Seq<char> {
    if n < 0 {
        seq!['-'] + dec_nat((-n) as nat)
    } else {
        dec_nat(n as nat)
    }
}

/// The one-character string for a digit value.
fn digit_str(d: u32) -> (r: &'static str)
    requires
        d < 10,
    ensures
        r@ == seq![digit_char(d as int)],
{
    proof {
        reveal_strlit("0");
        reveal_strlit("1");
        reveal_strlit("2");
        reveal_strlit("3");
        reveal_strlit("4");
        reveal_strlit("5");
        reveal_strlit("6");
        reveal_strlit("7");
        reveal_strlit("8");
        reveal_strlit("9");
    }
    let r: &'static str = if d == 0 {
        "0"
    } else if d == 1 {
        "1"
    } else if d == 2 {
        "2"
    } else if d == 3 {
        "3"
    } else if d == 4 {
        "4"
    } else if d == 5 {
        "5"
    } else if d == 6 {
        "6"
    } else if d == 7 {
        "7"
    } else if d == 8 {
        "8"
    } else {
        "9"
    };
    proof {
        assert(r@ =~= seq![digit_char(d as int)]);
    }
    r
}

/// Append the decimal digits of `v` to `out`.
fn push_dec(out: &mut String, v: u32)
    ensures
        final(out)@ == old(out)@ + dec_nat(v as nat),
    decreases v,
{
    if v < 10 {
        out.append(digit_str(v));
        proof {
            assert(out@ =~= old(out)@ + dec_nat(v as nat));
        }
    } else {
        push_dec(out, v / 10);
        out.append(digit_str(v % 10));
        proof {
            assert(out@ =~= old(out)@ + dec_nat(v as nat));
        }
    }
}

/// The decimal rendering of `n` as an owned string.
pub fn i16_to_string(n: i16) -> (r: String)
    ensures
        r@ == dec_int(n as int),
{
    let mut out = String::new();
    let v: i32 = n as i32;
    if v < 0 {
        proof {
            reveal_strlit("-");
        }
        out.append("-");
        push_dec(&mut out, (-v) as u32);
    } else {
        push_dec(&mut out, v as u32);
    }
    proof {
        assert(out@ =~= dec_int(n as int));
    }
    out
}

} // verus!
