use vstd::prelude::*;
use vstd::string::StrSliceExecFns;
use crate::chars::{digit_val, is_digit, is_digit_char};

verus! {

/// Is every character of `s` an ASCII decimal digit?
pub open spec fn all_digits(s: Seq<char>) -> bool {
    forall|i: int| 0 <= i < s.len() ==> is_digit(#[trigger] s[i])
}

/// The value of a digit string, most significant digit first.
pub open spec fn digits_value(s: Seq<char>) -> int
    decreases s.len(),
{
    if s.len() == 0 {
        0
    } else {
        digits_value(s.drop_last()) * 10 + digit_val(s.last())
    }
}

/// The digits of `s` after an optional leading sign.
pub open spec fn magnitude_part(s: Seq<char>) -> Seq<char> {
    if s.len() > 0 && (s[0] == '+' || s[0] == '-') {
        s.drop_first()
    } else {
        s
    }
}

/// Does `s` denote a negative number?
pub open spec fn is_negative(s: Seq<char>) -> bool {
    s.len() > 0 && s[0] == '-'
}

/// The signed value `s` denotes (meaningful when the magnitude is all digits).
pub open spec fn int_value(s: Seq<char>) -> int {
    if is_negative(s) {
        -digits_value(magnitude_part(s))
    } else {
        digits_value(magnitude_part(s))
    }
}

/// Is `s` exactly what `i16`'s decimal parser accepts: an optional sign, one
/// or more digits, and a value within `i16`'s range?
pub open spec fn is_i16_string(s: Seq<char>) -> bool {
    &&& magnitude_part(s).len() > 0
    &&& all_digits(magnitude_part(s))
    &&& -0x8000 <= int_value(s) <= 0x7fff
}

/// What parsing `s` as an `i16` yields.
pub open spec fn parse_i16_spec(s: Seq<char>) -> Option<i16> {
    if is_i16_string(s) {
        Some(int_value(s) as i16)
    } else {
        None
    }
}

/// Ten to the power `n`.
pub open spec fn ten_pow(n: nat) -> int
    decreases n,
{
    if n == 0 {
        1
    } else {
        10 * ten_pow((n - 1) as nat)
    }
}

/// `ten_pow` is positive and grows with its exponent.
pub proof fn lemma_ten_pow_mono(a: nat, b: nat)
    requires
        a <= b,
    ensures
        1 <= ten_pow(a) <= ten_pow(b),
    decreases b,
{
    if b > 0 {
        if a == b {
            lemma_ten_pow_mono((a - 1) as nat, (b - 1) as nat);
        } else {
            lemma_ten_pow_mono(a, (b - 1) as nat);
        }
    }
}

/// A digit string's value lies between zero and ten to its length.
pub proof fn lemma_digits_value_bounds(s: Seq<char>)
    requires
        all_digits(s),
    ensures
        0 <= digits_value(s) < ten_pow(s.len()),
    decreases s.len(),
{
    if s.len() == 0 {
    } else {
        assert(all_digits(s.drop_last())) by {
            assert(forall|i: int|
                0 <= i < s.len() - 1 ==> s.drop_last()[i] == #[trigger] s[i]);
        }
        lemma_digits_value_bounds(s.drop_last());
        assert(is_digit(s[s.len() - 1]));
        assert(s.last() == s[s.len() - 1]);
        assert(0 <= digit_val(s.last()) <= 9);
        assert(digits_value(s.drop_last()) * 10 <= (ten_pow((s.len() - 1) as nat) - 1) * 10)
            by (nonlinear_arith)
            requires
                digits_value(s.drop_last()) <= ten_pow((s.len() - 1) as nat) - 1,
        ;
        assert(digits_value(s.drop_last()) * 10 >= 0) by (nonlinear_arith)
            requires
                digits_value(s.drop_last()) >= 0,
        ;
    }
}

/// A digit string's value is at least its first digit times ten to the
/// length of the rest.
pub proof fn lemma_digits_value_lower(s: Seq<char>)
    requires
        all_digits(s),
        s.len() > 0,
    ensures
        digits_value(s) >= digit_val(s[0]) * ten_pow((s.len() - 1) as nat),
    decreases s.len(),
{
    if s.len() == 1 {
        assert(s.last() == s[0]);
        assert(digits_value(s) == digits_value(s.drop_last()) * 10 + digit_val(s.last()));
        assert(digits_value(s.drop_last()) == 0);
    } else {
        assert(all_digits(s.drop_last())) by {
            assert(forall|i: int|
                0 <= i < s.len() - 1 ==> s.drop_last()[i] == #[trigger] s[i]);
        }
        lemma_digits_value_lower(s.drop_last());
        assert(s.drop_last()[0] == s[0]);
        assert(is_digit(s[s.len() - 1]));
        assert(s.last() == s[s.len() - 1]);
        assert(digit_val(s.last()) >= 0);
        let p = ten_pow((s.len() - 2) as nat);
        assert(ten_pow((s.len() - 1) as nat) == 10 * p);
        assert(digits_value(s.drop_last()) * 10 >= (digit_val(s[0]) * p) * 10)
            by (nonlinear_arith)
            requires
                digits_value(s.drop_last()) >= digit_val(s[0]) * p,
        ;
        assert((digit_val(s[0]) * p) * 10 == digit_val(s[0]) * (10 * p)) by (nonlinear_arith);
    }
}

/// A leading zero does not change a digit string's value.
pub proof fn lemma_drop_leading_zero(s: Seq<char>)
    requires
        s.len() > 0,
        s[0] == '0',
    ensures
        digits_value(s) == digits_value(s.drop_first()),
    decreases s.len(),
{
    if s.len() == 1 {
        assert(s.last() == s[0]);
        assert(digit_val('0') == 0);
        assert(s.drop_first().len() == 0);
        assert(digits_value(s.drop_first()) == 0);
        assert(s.drop_last().len() == 0);
        assert(digits_value(s) == digits_value(s.drop_last()) * 10 + digit_val(s.last()));
    } else {
        assert(s.drop_last()[0] == s[0]);
        lemma_drop_leading_zero(s.drop_last());
        assert(s.drop_first().drop_last() =~= s.drop_last().drop_first());
        assert(s.drop_first().last() == s.drop_first()[s.drop_first().len() - 1]);
        assert(s.drop_first()[s.len() - 2] == s[s.len() - 1]);
        assert(s.drop_first().last() == s.last());
        assert(s.drop_first().len() > 0);
        assert(digits_value(s.drop_first()) == digits_value(s.drop_first().drop_last()) * 10
            + digit_val(s.drop_first().last()));
        assert(digits_value(s.drop_first().drop_last()) == digits_value(
            s.drop_last().drop_first(),
        ));
        assert(digits_value(s.drop_last()) == digits_value(s.drop_last().drop_first()));
        assert(digits_value(s) == digits_value(s.drop_last()) * 10 + digit_val(s.last()));
    }
}

/// Parse `s` as a decimal `i16`, accepting exactly what `str::parse::<i16>`
/// accepts: an optional `+` or `-`, then one or more ASCII digits, with the
/// value in `i16`'s range.
#[verifier::loop_isolation(false)]
pub fn parse_i16(s: &str) -> (r: Option<i16>)
    ensures
        r == parse_i16_spec(s@),
{
    let len: usize = s.unicode_len();
    if len == 0 {
        return None;
    }
    let c0: char = s.get_char(0);
    let signed: bool = c0 == '+' || c0 == '-';
    let neg: bool = c0 == '-';
    let start: usize = if signed {
        1
    } else {
        0
    };
    if start == len {
        // A bare sign has no digits.
        return None;
    }
    proof {
        assert(magnitude_part(s@) =~= s@.subrange(start as int, len as int));
    }
    let mut i: usize = start;
    while i < len
        invariant
            start <= i <= len,
            forall|j: int| start <= j < i ==> is_digit(#[trigger] s@[j]),
        decreases len - i,
    {
        let c: char = s.get_char(i);
        if !is_digit_char(c) {
            proof {
                assert(magnitude_part(s@)[i - start] == s@[i as int]);
            }
            return None;
        }
        i = i + 1;
    }
    proof {
        assert(forall|j: int|
            0 <= j < magnitude_part(s@).len() ==> #[trigger] magnitude_part(s@)[j]
                == s@[j + start]);
        assert(all_digits(magnitude_part(s@)));
    }
    // Skip leading zeros so that the digit count bounds the value.
    let mut z: usize = start;
    while z < len - 1 && s.get_char(z) == '0'
        invariant
            start <= z <= len - 1,
            digits_value(s@.subrange(z as int, len as int)) == digits_value(magnitude_part(s@)),
        decreases len - z,
    {
        proof {
            let tail = s@.subrange(z as int, len as int);
            lemma_drop_leading_zero(tail);
            assert(tail.drop_first() =~= s@.subrange(z + 1, len as int));
        }
        z = z + 1;
    }
    proof {
        assert(forall|j: int|
            0 <= j < len - z ==> #[trigger] s@.subrange(z as int, len as int)[j] == s@[j + z]);
        assert(all_digits(s@.subrange(z as int, len as int)));
    }
    if len - z > 5 {
        // At least six digits led by a non-zero digit: out of range either way.
        proof {
            let tail = s@.subrange(z as int, len as int);
            assert(tail[0] == s@[z as int]);
            assert(tail[0] != '0');
            assert(is_digit(tail[0]));
            assert(digit_val(tail[0]) >= 1);
            lemma_digits_value_lower(tail);
            assert(ten_pow(0) == 1);
            assert(ten_pow(1) == 10);
            assert(ten_pow(2) == 100);
            assert(ten_pow(3) == 1000);
            assert(ten_pow(4) == 10000);
            assert(ten_pow(5) == 100000);
            lemma_ten_pow_mono(5, (tail.len() - 1) as nat);
            assert(digit_val(tail[0]) * ten_pow((tail.len() - 1) as nat) >= ten_pow(
                (tail.len() - 1) as nat,
            )) by (nonlinear_arith)
                requires
                    digit_val(tail[0]) >= 1,
                    ten_pow((tail.len() - 1) as nat) >= 1,
            ;
            assert(digits_value(magnitude_part(s@)) >= 100000);
        }
        return None;
    }
    proof {
        assert(ten_pow(0) == 1);
        assert(ten_pow(1) == 10);
        assert(ten_pow(2) == 100);
        assert(ten_pow(3) == 1000);
        assert(ten_pow(4) == 10000);
        assert(ten_pow(5) == 100000);
    }
    let mut acc: u32 = 0;
    let mut k: usize = z;
    while k < len
        invariant
            z <= k <= len,
            acc == digits_value(s@.subrange(z as int, k as int)),
            0 <= acc < 100000,
        decreases len - k,
    {
        let c: char = s.get_char(k);
        proof {
            assert(is_digit(s@[k as int]));
            let pre = s@.subrange(z as int, k as int);
            let ext = s@.subrange(z as int, k + 1);
            assert(ext.drop_last() =~= pre);
            assert(ext.last() == s@[k as int]);
            assert(forall|j: int| 0 <= j < ext.len() ==> #[trigger] ext[j] == s@[j + z]);
            assert(all_digits(ext));
            lemma_digits_value_bounds(ext);
            lemma_ten_pow_mono(ext.len() as nat, 5);
        }
        acc = acc * 10 + (c as u32 - 0x30);
        k = k + 1;
    }
    proof {
        assert(s@.subrange(z as int, len as int) == s@.subrange(z as int, k as int));
        assert(acc == digits_value(magnitude_part(s@)));
        assert(is_negative(s@) == neg);
    }
    if neg {
        if acc > 0x8000 {
            return None;
        }
        let val: i32 = -(acc as i32);
        Some(val as i16)
    } else {
        if acc > 0x7fff {
            return None;
        }
        Some(acc as i16)
    }
}

} // verus!
