use vstd::prelude::*;

verus! {

/// The characters the tokenizer treats as whitespace: the Unicode
/// white-space set, the same characters `str::split_whitespace` splits on.
pub open spec fn is_space(c: char) -> bool {
    ||| c == ' '
    ||| c == '\t'
    ||| c == '\n'
    ||| c == '\u{b}'
    ||| c == '\u{c}'
    ||| c == '\r'
    ||| c == '\u{85}'
    ||| c == '\u{a0}'
    ||| c == '\u{1680}'
    ||| (0x2000 <= c as u32 && c as u32 <= 0x200a)
    ||| c == '\u{2028}'
    ||| c == '\u{2029}'
    ||| c == '\u{202f}'
    ||| c == '\u{205f}'
    ||| c == '\u{3000}'
}

/// Executable test for `is_space`.
pub fn is_space_char(c: char) -> (r: bool)
    ensures
        r == is_space(c),
{
    let u: u32 = c as u32;
    c == ' ' || c == '\t' || c == '\n' || c == '\u{b}' || c == '\u{c}' || c == '\r'
        || c == '\u{85}' || c == '\u{a0}' || c == '\u{1680}' || (0x2000 <= u && u <= 0x200a)
        || c == '\u{2028}' || c == '\u{2029}' || c == '\u{202f}' || c == '\u{205f}'
        || c == '\u{3000}'
}

/// Is `c` an ASCII decimal digit?
pub open spec fn is_digit(c: char) -> bool {
    0x30 <= c as u32 && c as u32 <= 0x39
}

/// The numeric value of a digit character.
pub open spec fn digit_val(c: char) -> int {
    c as u32 - 0x30
}

/// Executable test for `is_digit`.
pub fn is_digit_char(c: char) -> (r: bool)
    ensures
        r == is_digit(c),
{
    let u: u32 = c as u32;
    0x30 <= u && u <= 0x39
}

/// The digit character for a value below ten.
pub open spec fn digit_char(d: int) -> char {
    if d == 0 {
        '0'
    } else if d == 1 {
        '1'
    } else if d == 2 {
        '2'
    } else if d == 3 {
        '3'
    } else if d == 4 {
        '4'
    } else if d == 5 {
        '5'
    } else if d == 6 {
        '6'
    } else if d == 7 {
        '7'
    } else if d == 8 {
        '8'
    } else {
        '9'
    }
}

} // verus!
