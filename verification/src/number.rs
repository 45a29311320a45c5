//! Signed decimal integer literals.

use vstd::prelude::*;
use crate::fault::NumberFault;

verus! {

/// The largest magnitude a 32-bit integer can have: that of `i32::MIN`.
pub const MAGNITUDE_LIMIT: i64 = 2147483648;

pub open spec fn is_digit(c: char) -> bool {
    '0' <= c <= '9'
}

pub open spec fn digit_value(c: char) -> int {
    c as int - '0' as int
}

pub open spec fn all_digits(s: Seq<char>) -> bool {
    forall|i: int| 0 <= i < s.len() ==> is_digit(#[trigger] s[i])
}

/// The number that a sequence of decimal digits denotes.
pub open spec fn digits_value(s: Seq<char>) -> int
    decreases s.len(),
{
    if s.len() == 0 {
        0
    } else {
        10 * digits_value(s.drop_last()) + digit_value(s.last())
    }
}

pub open spec fn has_sign(s: Seq<char>) -> bool {
    s.len() > 0 && (s[0] == '-' || s[0] == '+')
}

/// The literal without its sign.
pub open spec fn magnitude(s: Seq<char>) -> Seq<char> {
    if has_sign(s) {
        s.drop_first()
    } else {
        s
    }
}

/// A decimal literal is an optional `+` or `-` and then one digit or more.
pub open spec fn is_decimal(s: Seq<char>) -> bool {
    magnitude(s).len() > 0 && all_digits(magnitude(s))
}

/// The number that a decimal literal denotes.
pub open spec fn decimal_value(s: Seq<char>) -> int {
    if has_sign(s) && s[0] == '-' {
        -digits_value(magnitude(s))
    } else {
        digits_value(magnitude(s))
    }
}

/// The 32-bit integer that a token denotes, or why it denotes none.
pub open spec fn i32_of(s: Seq<char>) -> Result<i32, NumberFault> {
    if s.len() == 0 {
        Err(NumberFault::Empty)
    } else if !is_decimal(s) {
        Err(NumberFault::InvalidDigit)
    } else if i32::MIN <= decimal_value(s) <= i32::MAX {
        Ok(decimal_value(s) as i32)
    } else {
        Err(NumberFault::OutOfRange)
    }
}

/// The part of `s` read so far that belongs to the magnitude.
spec fn digits_read(s: Seq<char>, signed: bool, upto: int) -> Seq<char> {
    s.subrange(
        if signed {
            1
        } else {
            0
        },
        upto,
    )
}

proof fn lemma_digits_value_nonnegative(s: Seq<char>)
    requires
        all_digits(s),
    ensures
        digits_value(s) >= 0,
    decreases s.len(),
{
    if s.len() > 0 {
        lemma_digits_value_nonnegative(s.drop_last());
    }
}

/// Reads a signed decimal integer.
pub fn parse_i32(token: &str) -> (res: Result<i32, NumberFault>)
    ensures
        res == i32_of(token@),
{
    if token.is_empty() {
        return Err(NumberFault::Empty);
    }
    let mut first = true;
    let mut signed = false;
    let mut negative = false;
    let mut valid = true;
    let mut any = false;
    let mut big = false;
    let mut acc: i64 = 0;
    for c in it: token.chars()
        invariant
            it.seq() == token@,
            first == (it.index() == 0),
            signed == (it.index() > 0 && has_sign(token@)),
            negative == (signed && token@[0] == '-'),
            any == (digits_read(token@, signed, it.index() as int).len() > 0),
            valid == all_digits(digits_read(token@, signed, it.index() as int)),
            valid && !big ==> acc == digits_value(
                digits_read(token@, signed, it.index() as int),
            ),
            valid && big ==> digits_value(digits_read(token@, signed, it.index() as int))
                > MAGNITUDE_LIMIT,
            0 <= acc <= MAGNITUDE_LIMIT,
    {
        let ghost i = it.index() as int;
        let ghost before = digits_read(token@, signed, i);
        if first && (c == '-' || c == '+') {
            signed = true;
            negative = c == '-';
            assert(digits_read(token@, signed, i + 1) =~= Seq::<char>::empty());
        } else {
            let ghost after = digits_read(token@, signed, i + 1);
            assert(after =~= before.push(c));
            assert(after.drop_last() =~= before);
            assert(all_digits(after) == (all_digits(before) && is_digit(c))) by {
                if all_digits(before) && is_digit(c) {
                    assert forall|j: int| 0 <= j < after.len() implies is_digit(
                        #[trigger] after[j],
                    ) by {
                        if j < before.len() {
                            assert(after[j] == before[j]);
                        }
                    }
                } else if all_digits(after) {
                    assert(is_digit(after[before.len() as int]));
                    assert forall|j: int| 0 <= j < before.len() implies is_digit(
                        #[trigger] before[j],
                    ) by {
                        assert(before[j] == after[j]);
                    }
                }
            }
            any = true;
            if '0' <= c && c <= '9' {
                if valid {
                    proof {
                        lemma_digits_value_nonnegative(before);
                    }
                    if !big {
                        let digit: i64 = ((c as u8) - 48) as i64;
                        acc = acc * 10 + digit;
                        if acc > MAGNITUDE_LIMIT {
                            big = true;
                            acc = 0;
                        }
                    }
                }
            } else {
                valid = false;
            }
        }
        first = false;
    }
    proof {
        assert(digits_read(token@, signed, token@.len() as int) =~= magnitude(token@));
    }
    if !valid || !any {
        Err(NumberFault::InvalidDigit)
    } else if negative {
        if big {
            Err(NumberFault::OutOfRange)
        } else {
            Ok((0 - acc) as i32)
        }
    } else if big || acc == MAGNITUDE_LIMIT {
        Err(NumberFault::OutOfRange)
    } else {
        Ok(acc as i32)
    }
}

/// The character of a decimal digit.
pub open spec fn digit_char(d: nat) -> char {
    (d + 48) as char
}

/// The decimal digits of a number, the most significant first.
pub open spec fn decimal_of(n: nat) -> Seq<char>
    decreases n,
{
    if n < 10 {
        seq![digit_char(n)]
    } else {
        decimal_of(n / 10).push(digit_char(n % 10))
    }
}

/// Writes a number in decimal digits.
pub fn decimal(n: usize) -> (text: String)
    ensures
        text@ == decimal_of(n as nat),
    decreases n,
{
    let mut text = if n < 10 {
        String::new()
    } else {
        decimal(n / 10)
    };
    text.push(((n % 10) as u8 + 48) as char);
    assert(n < 10 ==> text@ =~= seq![digit_char(n as nat)]);
    text
}

/// What `decimal_of` writes, `digits_value` reads back: the digits of a
/// number are digits, and they denote the number.
pub proof fn law_decimal_digits_denote_the_number(n: nat)
    ensures
        decimal_of(n).len() > 0,
        all_digits(decimal_of(n)),
        digits_value(decimal_of(n)) == n,
    decreases n,
{
    let text = decimal_of(n);
    if n < 10 {
        assert(text.drop_last() =~= Seq::<char>::empty());
        assert(digits_value(text) == 10 * digits_value(text.drop_last()) + digit_value(
            text.last(),
        ));
    } else {
        let front = decimal_of(n / 10);
        law_decimal_digits_denote_the_number(n / 10);
        assert(text.drop_last() =~= front);
        assert forall|i: int| 0 <= i < text.len() implies is_digit(#[trigger] text[i]) by {
            if i < front.len() {
                assert(text[i] == front[i]);
            }
        }
    }
}

} // verus!
