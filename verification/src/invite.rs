//! Invite codes: six decimal digits drawn at random.

use vstd::prelude::*;
use rand::Rng;

verus! {

/// The number of digits of an invite code.
pub const INVITE_CODE_LEN: usize = 6;

pub open spec fn is_decimal_digit(c: char) -> bool {
    '0' as u32 <= c as u32 <= '9' as u32
}

/// A well-formed invite code: exactly six decimal digits.
pub open spec fn is_invite_code(s: Seq<char>) -> bool {
    &&& s.len() == 6
    &&& forall|i: int| 0 <= i < s.len() ==> is_decimal_digit(#[trigger] s[i])
}

/// The character that writes the digit `d`.
pub open spec fn digit_char(d: u8) -> char {
    (('0' as u32 + d as u32) as u32) as char
}

/// The invite code that writes the given six digits in order.
pub open spec fn code_of_digits(digits: Seq<u8>) -> Seq<char> {
    Seq::new(digits.len(), |i: int| digit_char(digits[i]))
}

/// `Rng::random_range` over `0..bound` on the generator that `rand::rng`
/// hands out: some number below `bound`. The range must not be empty.
#[verifier::external_body]
fn random_below(bound: u8) -> (d: u8)
    requires
        bound > 0,
    ensures
        d < bound,
{
    rand::rng().random_range(0..bound)
}

/// The text of one decimal digit.
pub fn digit_text(d: u8) -> (r: &'static str)
    requires
        d < 10,
    ensures
        r@ == seq![digit_char(d)],
{
    proof {
        reveal_strlit("0");
        reveal_strlit("1");
        reveal_strlit("2");
        reveal_strlit("3");
        reveal_strlit("4");
        reveal_strlit("5");
        reveal_strlit("6");
        reveal_strlit("7");
        reveal_strlit("8");
        reveal_strlit("9");
    }
    let r = if d == 0 {
        "0"
    } else if d == 1 {
        "1"
    } else if d == 2 {
        "2"
    } else if d == 3 {
        "3"
    } else if d == 4 {
        "4"
    } else if d == 5 {
        "5"
    } else if d == 6 {
        "6"
    } else if d == 7 {
        "7"
    } else if d == 8 {
        "8"
    } else {
        "9"
    };
    assert(r@ =~= seq![digit_char(d)]);
    r
}

/// Writes a sequence of digits as text, one character per digit. Digits
/// are taken modulo ten.
pub fn code_from_digits(digits: &Vec<u8>) -> (code: String)
    ensures
        code@ == code_of_digits(digits@.map_values(|d: u8| d % 10)),
        digits.len() == INVITE_CODE_LEN ==> is_invite_code(code@),
{
    let mut code = String::new();
    let mut i: usize = 0;
    let ghost reduced = digits@.map_values(|d: u8| d % 10);
    while i < digits.len()
        invariant
            i <= digits.len(),
            reduced == digits@.map_values(|d: u8| d % 10),
            code@ == code_of_digits(reduced.take(i as int)),
        decreases digits.len() - i,
    {
        let d: u8 = digits[i] % 10;
        code.append(digit_text(d));
        proof {
            assert(reduced.take(i + 1) =~= reduced.take(i as int).push(d));
            assert(code@ =~= code_of_digits(reduced.take(i + 1)));
        }
        i += 1;
    }
    proof {
        assert(reduced.take(i as int) =~= reduced);
        assert forall|k: int| 0 <= k < code@.len() implies is_decimal_digit(#[trigger] code@[k]) by {
            assert(reduced[k] < 10);
        }
    }
    code
}

/// Draws a fresh invite code: six digits, each chosen at random.
pub fn create_invite_code() -> (code: String)
    ensures
        is_invite_code(code@),
{
    let mut digits: Vec<u8> = Vec::new();
    let mut i: usize = 0;
    while i < INVITE_CODE_LEN
        invariant
            i <= INVITE_CODE_LEN,
            digits.len() == i,
        decreases INVITE_CODE_LEN - i,
    {
        digits.push(random_below(10));
        i += 1;
    }
    code_from_digits(&digits)
}

} // verus!
