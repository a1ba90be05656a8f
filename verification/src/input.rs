//! Reading numbers from the lines a user types.
//!
//! A number is written in decimal digits, with nothing around them; a plus
//! sign may stand in front, and a minus sign where the type has negative
//! values. A line that is not such a number, or whose number the type cannot
//! hold, is not accepted, and the user is to be asked again.

use vstd::prelude::*;
use vstd::string::is_ascii_spec_bytes;

verus! {

/// Whether the character is one of the ten decimal digits.
pub open spec fn is_digit(c: char) -> bool {
    '0' <= c <= '9'
}

/// The value of a decimal digit.
pub open spec fn digit_value(c: char) -> int {
    c as int - '0' as int
}

/// Whether the characters are decimal digits, and at least one.
pub open spec fn is_numeral(digits: Seq<char>) -> bool {
    digits.len() > 0 && forall|i: int| 0 <= i < digits.len() ==> is_digit(#[trigger] digits[i])
}

/// The number that decimal digits spell, read from the left.
pub open spec fn digits_value(digits: Seq<char>) -> int
    decreases digits.len(),
{
    if digits.len() == 0 {
        0
    } else {
        digits_value(digits.drop_last()) * 10 + digit_value(digits.last())
    }
}

/// The integer that a text spells: decimal digits, after a plus sign or
/// none, or after a minus sign where `signed` allows one. Other texts spell
/// no integer.
pub open spec fn integer_spelled(text: Seq<char>, signed: bool) -> Option<int> {
    if text.len() > 0 && text[0] == '+' {
        if is_numeral(text.skip(1)) {
            Some(digits_value(text.skip(1)))
        } else {
            None
        }
    } else if signed && text.len() > 0 && text[0] == '-' {
        if is_numeral(text.skip(1)) {
            Some(-digits_value(text.skip(1)))
        } else {
            None
        }
    } else if is_numeral(text) {
        Some(digits_value(text))
    } else {
        None
    }
}

/// The integer that a text spells, if it lies between the two bounds.
pub open spec fn spelled_within(text: Seq<char>, signed: bool, low: int, high: int) -> Option<int> {
    match integer_spelled(text, signed) {
        Some(value) => if low <= value <= high {
            Some(value)
        } else {
            None
        },
        None => None,
    }
}

/// Digits spell a number that is not negative, and more digits never spell
/// a smaller number than the digits they start with.
pub proof fn lemma_digits_value_grows(digits: Seq<char>, count: int)
    requires
        forall|i: int| 0 <= i < digits.len() ==> is_digit(#[trigger] digits[i]),
        0 <= count <= digits.len(),
    ensures
        0 <= digits_value(digits.take(count)) <= digits_value(digits),
    decreases digits.len() - count,
{
    if count == digits.len() {
        assert(digits.take(count) =~= digits);
        lemma_digits_value_not_negative(digits);
    } else {
        let longer = digits.take(count + 1);
        lemma_digits_value_grows(digits, count + 1);
        assert(digits.take(count) =~= longer.take(count));
        lemma_digits_value_not_negative(digits.take(count));
    }
}

/// Digits spell a number that is not negative.
pub proof fn lemma_digits_value_not_negative(digits: Seq<char>)
    requires
        forall|i: int| 0 <= i < digits.len() ==> is_digit(#[trigger] digits[i]),
    ensures
        0 <= digits_value(digits),
    decreases digits.len(),
{
    if digits.len() > 0 {
        lemma_digits_value_not_negative(digits.drop_last());
    }
}

/// Reads an integer of up to 128 bits from a text.
pub fn parse_integer(text: &str, signed: bool) -> (r: Option<i128>)
    ensures
        match r {
            Some(value) => spelled_within(text@, signed, i128::MIN as int, i128::MAX as int)
                == Some(value as int),
            None => spelled_within(text@, signed, i128::MIN as int, i128::MAX as int) is None,
        },
{
    if !text.is_ascii() {
        proof {
            let k = choose|k: int|
                0 <= k < text@.len() && !('\0' <= #[trigger] text@[k] <= '\u{7f}');
            if k > 0 {
                assert(text@.skip(1)[k - 1] == text@[k]);
            }
        }
        return None;
    }
    let bytes = text.as_bytes();
    proof {
        is_ascii_spec_bytes(text);
    }
    let length = bytes.len();
    if length == 0 {
        return None;
    }
    let negative = signed && bytes[0] == 45u8;
    let start: usize = if negative || bytes[0] == 43u8 {
        1
    } else {
        0
    };
    if start == length {
        return None;
    }
    let ghost digits = text@.skip(start as int);
    let mut value: i128 = 0;
    let mut i: usize = start;
    while i < length
        invariant
            start <= i <= length,
            length == bytes@.len(),
            length == text@.len(),
            digits == text@.skip(start as int),
            negative == (signed && text@[0] == '-'),
            start == if negative || text@[0] == '+' { 1int } else { 0int },
            start == 0 ==> digits == text@,
            forall|j: int| 0 <= j < length ==> bytes@[j] == text@[j] as u8,
            forall|j: int| 0 <= j < length ==> '\0' <= #[trigger] text@[j] <= '\u{7f}',
            forall|j: int| 0 <= j < i - start ==> is_digit(#[trigger] digits[j]),
            negative ==> value as int == -digits_value(digits.take(i - start)),
            !negative ==> value as int == digits_value(digits.take(i - start)),
        decreases length - i,
    {
        let byte = bytes[i];
        if byte < 48u8 || byte > 57u8 {
            proof {
                assert(!is_digit(digits[i - start]));
            }
            return None;
        }
        let digit: i128 = (byte - 48u8) as i128;
        proof {
            let longer = digits.take(i - start + 1);
            assert(longer.drop_last() =~= digits.take(i - start));
        }
        let next = match value.checked_mul(10) {
            Some(tens) => if negative {
                tens.checked_sub(digit)
            } else {
                tens.checked_add(digit)
            },
            None => None,
        };
        match next {
            Some(sum) => {
                value = sum;
            },
            None => {
                proof {
                    if is_numeral(digits) {
                        lemma_digits_value_grows(digits, i - start + 1);
                    }
                }
                return None;
            },
        }
        i += 1;
    }
    proof {
        assert(digits.take(i - start) =~= digits);
    }
    Some(value)
}

/// A type of numbers that can be read from a line of text.
pub trait Readable: Sized {
    /// The number of this type that the text spells, if it spells one.
    spec fn spelled(text: Seq<char>) -> Option<Self>;

    /// Reads a number of this type from the text.
    fn read(text: &str) -> (r: Option<Self>)
        ensures
            r == Self::spelled(text@),
    ;
}

impl Readable for u32 {
    open spec fn spelled(text: Seq<char>) -> Option<u32> {
        match spelled_within(text, false, u32::MIN as int, u32::MAX as int) {
            Some(value) => Some(value as u32),
            None => None,
        }
    }

    fn read(text: &str) -> (r: Option<u32>) {
        match parse_integer(text, false) {
            Some(value) => if 0 <= value && value <= u32::MAX as i128 {
                Some(value as u32)
            } else {
                None
            },
            None => None,
        }
    }
}

impl Readable for u64 {
    open spec fn spelled(text: Seq<char>) -> Option<u64> {
        match spelled_within(text, false, u64::MIN as int, u64::MAX as int) {
            Some(value) => Some(value as u64),
            None => None,
        }
    }

    fn read(text: &str) -> (r: Option<u64>) {
        match parse_integer(text, false) {
            Some(value) => if 0 <= value && value <= u64::MAX as i128 {
                Some(value as u64)
            } else {
                None
            },
            None => None,
        }
    }
}

impl Readable for usize {
    open spec fn spelled(text: Seq<char>) -> Option<usize> {
        match spelled_within(text, false, usize::MIN as int, usize::MAX as int) {
            Some(value) => Some(value as usize),
            None => None,
        }
    }

    fn read(text: &str) -> (r: Option<usize>) {
        match parse_integer(text, false) {
            Some(value) => if 0 <= value && value <= usize::MAX as i128 {
                Some(value as usize)
            } else {
                None
            },
            None => None,
        }
    }
}

impl Readable for i32 {
    open spec fn spelled(text: Seq<char>) -> Option<i32> {
        match spelled_within(text, true, i32::MIN as int, i32::MAX as int) {
            Some(value) => Some(value as i32),
            None => None,
        }
    }

    fn read(text: &str) -> (r: Option<i32>) {
        match parse_integer(text, true) {
            Some(value) => if i32::MIN as i128 <= value && value <= i32::MAX as i128 {
                Some(value as i32)
            } else {
                None
            },
            None => None,
        }
    }
}

impl Readable for i128 {
    open spec fn spelled(text: Seq<char>) -> Option<i128> {
        match spelled_within(text, true, i128::MIN as int, i128::MAX as int) {
            Some(value) => Some(value as i128),
            None => None,
        }
    }

    fn read(text: &str) -> (r: Option<i128>) {
        parse_integer(text, true)
    }
}

/// Reads a value from a line that the user typed in answer to a prompt.
/// `None` says that the line is no such value, and that the user is to be
/// asked again.
pub fn read_value<T: Readable>(line: &str) -> (r: Option<T>)
    ensures
        r == T::spelled(line@),
{
    T::read(line)
}

} // verus!
