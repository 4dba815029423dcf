//! Reading and writing the short texts that values are kept as: decimal
//! numbers and words whose case does not matter.

use vstd::prelude::*;
use vstd::string::*;

verus! {

/// The character is one of the ten digits.
pub open spec fn is_digit(c: char) -> bool {
    '0' <= c && c <= '9'
}

/// The number that a digit stands for.
pub open spec fn digit_value(c: char) -> nat {
    (c as int - 48) as nat
}

/// The digit that stands for a number under ten.
pub open spec fn digit_char(d: nat) -> char {
    (d + 48) as char
}

/// A capital letter of the Latin alphabet as its small letter; any other
/// character as it is.
pub open spec fn lower(c: char) -> char {
    if 'A' <= c && c <= 'Z' {
        (c as int + 32) as char
    } else {
        c
    }
}

/// The text with each character taken through `lower`.
pub open spec fn lowered(text: Seq<char>) -> Seq<char> {
    text.map_values(|c: char| lower(c))
}

/// The two texts differ at most in the case of Latin letters.
pub open spec fn same_ignoring_case(text: Seq<char>, word: Seq<char>) -> bool {
    lowered(text) == lowered(word)
}

/// Every character is a digit.
pub open spec fn all_digits(text: Seq<char>) -> bool {
    forall|i: int| 0 <= i < text.len() ==> is_digit(#[trigger] text[i])
}

/// The number that a run of digits stands for in base ten.
pub open spec fn value_of(digits: Seq<char>) -> nat
    decreases digits.len(),
{
    if digits.len() == 0 {
        0
    } else {
        value_of(digits.drop_last()) * 10 + digit_value(digits.last())
    }
}

/// The digits of a number in base ten, without leading zeros.
pub open spec fn digits_of(n: nat) -> Seq<char>
    decreases n,
{
    if n < 10 {
        seq![digit_char(n)]
    } else {
        digits_of(n / 10).push(digit_char(n % 10))
    }
}

/// The text without a plus sign in front.
pub open spec fn unsigned_part(text: Seq<char>) -> Seq<char> {
    if text.len() > 0 && text[0] == '+' {
        text.drop_first()
    } else {
        text
    }
}

/// The number that a text stands for: one or more digits, a plus sign
/// before them or not, and a value that 32 bits hold.
pub open spec fn parsed_u32(text: Seq<char>) -> Option<u32> {
    let digits = unsigned_part(text);
    if digits.len() > 0 && all_digits(digits) && value_of(digits) <= u32::MAX {
        Some(value_of(digits) as u32)
    } else {
        None
    }
}

/// A run of digits stands for no less than any of its beginnings.
pub proof fn lemma_value_grows(digits: Seq<char>, upto: int)
    requires
        0 <= upto <= digits.len(),
    ensures
        value_of(digits.take(upto)) <= value_of(digits),
    decreases digits.len() - upto,
{
    if upto < digits.len() {
        lemma_value_grows(digits.drop_last(), upto);
        assert(digits.drop_last().take(upto) == digits.take(upto));
    } else {
        assert(digits.take(upto) == digits);
    }
}

/// Reading a number back from its digits gives the number.
pub proof fn lemma_digits_round_trip(n: nat)
    ensures
        digits_of(n).len() > 0,
        all_digits(digits_of(n)),
        value_of(digits_of(n)) == n,
        unsigned_part(digits_of(n)) == digits_of(n),
        n <= u32::MAX ==> parsed_u32(digits_of(n)) == Some(n as u32),
    decreases n,
{
    if n < 10 {
        let text = digits_of(n);
        assert(text.drop_last().len() == 0);
        assert(value_of(text.drop_last()) == 0);
        assert(text.last() == digit_char(n));
    } else {
        let front = digits_of(n / 10);
        lemma_digits_round_trip(n / 10);
        let text = front.push(digit_char(n % 10));
        assert(text.drop_last() == front);
        assert(text[0] == front[0]);
        assert(is_digit(front[0]));
    }
}

/// The small letter of a capital Latin letter; any other character as it
/// is.
pub fn to_lower(c: char) -> (small: char)
    ensures
        small == lower(c),
{
    if 'A' <= c && c <= 'Z' {
        ((c as u8) + 32) as char
    } else {
        c
    }
}

/// Whether the two texts differ at most in the case of Latin letters.
pub fn equals_ignoring_case(text: &str, word: &str) -> (same: bool)
    ensures
        same == same_ignoring_case(text@, word@),
{
    let n = text.unicode_len();
    if n != word.unicode_len() {
        assert(lowered(text@).len() != lowered(word@).len());
        return false;
    }
    let mut i: usize = 0;
    while i < n
        invariant
            i <= n,
            n == text@.len(),
            n == word@.len(),
            forall|k: int| 0 <= k < i ==> lower(#[trigger] text@[k]) == lower(word@[k]),
        decreases n - i,
    {
        if to_lower(text.get_char(i)) != to_lower(word.get_char(i)) {
            assert(lowered(text@)[i as int] != lowered(word@)[i as int]);
            return false;
        }
        i += 1;
    }
    assert(lowered(text@) =~= lowered(word@));
    true
}

/// Whether two texts are the same.
pub fn same_text(text: &str, word: &str) -> (same: bool)
    ensures
        same == (text@ == word@),
{
    let n = text.unicode_len();
    if n != word.unicode_len() {
        return false;
    }
    let mut i: usize = 0;
    while i < n
        invariant
            i <= n,
            n == text@.len(),
            n == word@.len(),
            forall|k: int| 0 <= k < i ==> #[trigger] text@[k] == word@[k],
        decreases n - i,
    {
        if text.get_char(i) != word.get_char(i) {
            return false;
        }
        i += 1;
    }
    assert(text@ =~= word@);
    true
}

/// The digit of a number under ten, as a text.
fn digit_text(d: u32) -> (text: &'static str)
    requires
        d < 10,
    ensures
        text@ == seq![digit_char(d as nat)],
{
    proof {
        reveal_strlit("0");
        reveal_strlit("1");
        reveal_strlit("2");
        reveal_strlit("3");
        reveal_strlit("4");
        reveal_strlit("5");
        reveal_strlit("6");
        reveal_strlit("7");
        reveal_strlit("8");
        reveal_strlit("9");
    }
    let text = match d {
        0 => "0",
        1 => "1",
        2 => "2",
        3 => "3",
        4 => "4",
        5 => "5",
        6 => "6",
        7 => "7",
        8 => "8",
        _ => "9",
    };
    assert(text@ =~= seq![digit_char(d as nat)]);
    text
}

/// The number in base ten, without leading zeros.
pub fn decimal(n: u32) -> (text: String)
    ensures
        text@ == digits_of(n as nat),
    decreases n,
{
    if n < 10 {
        digit_text(n).to_owned()
    } else {
        let mut text = decimal(n / 10);
        text.append(digit_text(n % 10));
        text
    }
}

/// Reads a number in base ten: one or more digits, a plus sign before them
/// or not. `None` for any other text, and for a number that 32 bits do not
/// hold.
pub fn parse_u32(text: &str) -> (number: Option<u32>)
    ensures
        number == parsed_u32(text@),
{
    let n = text.unicode_len();
    let start: usize = if n > 0 && text.get_char(0) == '+' {
        1
    } else {
        0
    };
    let ghost digits = unsigned_part(text@);
    assert(digits == text@.skip(start as int));
    if start == n {
        return None;
    }
    let mut value: u64 = 0;
    let mut i: usize = start;
    assert(digits.take(0).len() == 0);
    while i < n
        invariant
            start <= i <= n,
            n == text@.len(),
            digits == text@.skip(start as int),
            digits == unsigned_part(text@),
            all_digits(digits.take(i - start)),
            value == value_of(digits.take(i - start)),
            value <= u32::MAX,
        decreases n - i,
    {
        let c = text.get_char(i);
        let ghost seen = digits.take(i - start + 1);
        assert(seen.drop_last() == digits.take(i - start));
        assert(seen.last() == c);
        if !('0' <= c && c <= '9') {
            assert(!is_digit(digits[i - start]));
            return None;
        }
        value = value * 10 + ((c as u32 - 48) as u64);
        assert(value == value_of(seen));
        if value > 0xffff_ffff {
            proof {
                if all_digits(digits) {
                    lemma_value_grows(digits, i - start + 1);
                }
            }
            return None;
        }
        assert forall|k: int| 0 <= k < seen.len() implies is_digit(#[trigger] seen[k]) by {
            if k < seen.len() - 1 {
                assert(seen[k] == digits.take(i - start)[k]);
            }
        }
        i += 1;
    }
    assert(digits.take(n - start) == digits);
    Some(value as u32)
}

} // verus!
