//! Decimal numbers as text: reading an unsigned number out of a string and writing one back.

use vstd::prelude::*;
use vstd::string::*;
use vstd::utf8::*;

verus! {

/// Whether `c` is one of the ten ASCII digits.
pub open spec fn is_digit(c: char) -> bool {
    '0' <= c && c <= '9'
}

/// The number a digit stands for; zero for any other character.
pub open spec fn digit_value(c: char) -> nat {
    if is_digit(c) {
        (c as nat - '0' as nat) as nat
    } else {
        0
    }
}

/// Whether every character of `text` is an ASCII digit.
pub open spec fn all_digits(text: Seq<char>) -> bool {
    forall|i: int| 0 <= i < text.len() ==> is_digit(#[trigger] text[i])
}

/// The number that a string of digits denotes in base ten, most significant digit first.
pub open spec fn decimal_value(text: Seq<char>) -> nat
    decreases text.len(),
{
    if text.len() == 0 {
        0
    } else {
        decimal_value(text.drop_last()) * 10 + digit_value(text.last())
    }
}

/// The 16-bit number written in `text`: at least one digit and nothing else, neither a sign
/// nor a blank, the whole not above 65535. Leading zeros are accepted.
pub open spec fn spec_parse_u16(text: Seq<char>) -> Option<u16> {
    if text.len() > 0 && all_digits(text) && decimal_value(text) <= u16::MAX {
        Some(decimal_value(text) as u16)
    } else {
        None
    }
}

/// A number never shrinks when more digits are written behind it.
pub proof fn lemma_decimal_value_grows(text: Seq<char>, k: int)
    requires
        0 <= k <= text.len(),
    ensures
        decimal_value(text.take(k)) <= decimal_value(text),
    decreases text.len() - k,
{
    if k == text.len() {
        assert(text.take(k) == text);
    } else {
        lemma_decimal_value_grows(text, k + 1);
        assert(text.take(k + 1).drop_last() == text.take(k));
    }
}

/// Reads a 16-bit unsigned number written in base ten with digits only.
pub fn parse_u16(text: &str) -> (number: Option<u16>)
    ensures
        number == spec_parse_u16(text@),
{
    let ghost digits = text@;
    if !text.is_ascii() {
        proof {
            let i = choose|i: int|
                0 <= i < text@.len() && !('\0' <= #[trigger] text@[i] <= '\u{7f}');
            assert(!is_digit(digits[i]));
        }
        return None;
    }
    let bytes = text.as_bytes();
    proof {
        is_ascii_spec_bytes(text);
    }
    let n = bytes.len();
    if n == 0 {
        return None;
    }
    let mut value: u32 = 0;
    let mut i: usize = 0;
    while i < n
        invariant
            i <= n,
            n == text@.len(),
            n == bytes@.len(),
            digits == text@,
            forall|j: int| 0 <= j < n ==> text@[j] as u8 == #[trigger] bytes@[j],
            forall|j: int| 0 <= j < n ==> '\0' <= #[trigger] text@[j] <= '\u{7f}',
            all_digits(digits.take(i as int)),
            value == decimal_value(digits.take(i as int)),
            value <= u16::MAX,
        decreases n - i,
    {
        let byte = bytes[i];
        let ghost c = text@[i as int];
        assert(c as u8 == byte);
        if byte < 48u8 || byte > 57u8 {
            assert(!is_digit(digits[i as int]));
            return None;
        }
        assert(is_digit(c));
        assert(digit_value(c) == byte - 48);
        let ghost k = i as int;
        proof {
            assert(digits.take(k + 1).drop_last() == digits.take(k));
            assert(digits.take(k + 1).last() == c);
            assert forall|j: int| 0 <= j < k + 1 implies is_digit(
                #[trigger] digits.take(k + 1)[j],
            ) by {
                if j < k {
                    assert(digits.take(k)[j] == digits.take(k + 1)[j]);
                }
            }
        }
        value = value * 10 + (byte - 48u8) as u32;
        assert(value == decimal_value(digits.take(k + 1)));
        if value > 65535 {
            proof {
                lemma_decimal_value_grows(digits, k + 1);
            }
            return None;
        }
        i += 1;
    }
    proof {
        assert(digits.take(n as int) == digits);
    }
    Some(value as u16)
}

/// The character that stands for a number below ten.
pub open spec fn digit_char(d: nat) -> char
    recommends
        d < 10,
{
    if d == 0 {
        '0'
    } else if d == 1 {
        '1'
    } else if d == 2 {
        '2'
    } else if d == 3 {
        '3'
    } else if d == 4 {
        '4'
    } else if d == 5 {
        '5'
    } else if d == 6 {
        '6'
    } else if d == 7 {
        '7'
    } else if d == 8 {
        '8'
    } else {
        '9'
    }
}

/// A number written in base ten, without a sign and without leading zeros.
pub open spec fn decimal_text(n: nat) -> Seq<char>
    decreases n,
{
    if n < 10 {
        seq![digit_char(n)]
    } else {
        decimal_text(n / 10).push(digit_char(n % 10))
    }
}

/// What is written can be read back: the text of a number consists of digits and denotes
/// that number.
pub proof fn lemma_decimal_round_trip(n: nat)
    ensures
        decimal_text(n).len() > 0,
        all_digits(decimal_text(n)),
        decimal_value(decimal_text(n)) == n,
    decreases n,
{
    if n < 10 {
        let text = decimal_text(n);
        assert(text.drop_last() =~= Seq::<char>::empty());
        assert(decimal_value(text.drop_last()) == 0);
        assert(digit_value(text.last()) == n);
    } else {
        lemma_decimal_round_trip(n / 10);
        let text = decimal_text(n);
        assert(text.drop_last() =~= decimal_text(n / 10));
        assert(digit_value(text.last()) == n % 10);
    }
}

/// A sign is no part of a number: a text that holds anything but digits, a plus sign
/// included, is not read as a number.
pub proof fn lemma_only_digits_are_read(text: Seq<char>, i: int)
    requires
        0 <= i < text.len(),
        !is_digit(text[i]),
    ensures
        spec_parse_u16(text) is None,
{
}

/// What was written as a number is read as that number: the text of a number that fits in
/// 16 bits parses to it.
pub proof fn lemma_parse_reads_what_was_written(n: u16)
    ensures
        spec_parse_u16(decimal_text(n as nat)) == Some(n),
{
    lemma_decimal_round_trip(n as nat);
}

/// The text of one digit.
fn digit_text(d: usize) -> (text: &'static str)
    requires
        d < 10,
    ensures
        text@ == seq![digit_char(d as nat)],
{
    proof {
        reveal_strlit("0");
        reveal_strlit("1");
        reveal_strlit("2");
        reveal_strlit("3");
        reveal_strlit("4");
        reveal_strlit("5");
        reveal_strlit("6");
        reveal_strlit("7");
        reveal_strlit("8");
        reveal_strlit("9");
    }
    let text = if d == 0 {
        "0"
    } else if d == 1 {
        "1"
    } else if d == 2 {
        "2"
    } else if d == 3 {
        "3"
    } else if d == 4 {
        "4"
    } else if d == 5 {
        "5"
    } else if d == 6 {
        "6"
    } else if d == 7 {
        "7"
    } else if d == 8 {
        "8"
    } else {
        "9"
    };
    assert(text@ =~= seq![digit_char(d as nat)]);
    text
}

/// The digits of `digits`, last one first, as text.
spec fn reversed_text(digits: Seq<usize>) -> Seq<char>
    decreases digits.len(),
{
    if digits.len() == 0 {
        Seq::empty()
    } else {
        seq![digit_char(digits.last() as nat)] + reversed_text(digits.drop_last())
    }
}

/// Writes a number in base ten, as `to_string` does.
pub fn to_decimal(n: usize) -> (text: String)
    ensures
        text@ == decimal_text(n as nat),
{
    let mut digits: Vec<usize> = Vec::new();
    let mut rest = n;
    while rest >= 10
        invariant
            forall|i: int| 0 <= i < digits@.len() ==> digits@[i] < 10,
            decimal_text(n as nat) == decimal_text(rest as nat) + reversed_text(digits@),
        decreases rest,
    {
        let ghost earlier = digits@;
        digits.push(rest % 10);
        proof {
            assert(digits@.drop_last() == earlier);
            assert(decimal_text(rest as nat) == decimal_text((rest / 10) as nat).push(
                digit_char((rest % 10) as nat),
            ));
            assert(decimal_text(n as nat) =~= decimal_text((rest / 10) as nat) + reversed_text(
                digits@,
            ));
        }
        rest = rest / 10;
    }
    let mut text = String::from_str(digit_text(rest));
    let mut i: usize = digits.len();
    proof {
        assert(digits@.take(i as int) == digits@);
        assert(decimal_text(rest as nat) == seq![digit_char(rest as nat)]);
    }
    while i > 0
        invariant
            i <= digits@.len(),
            forall|j: int| 0 <= j < digits@.len() ==> digits@[j] < 10,
            decimal_text(n as nat) == text@ + reversed_text(digits@.take(i as int)),
        decreases i,
    {
        i -= 1;
        let ghost earlier = text@;
        text.append(digit_text(digits[i]));
        proof {
            let taken = digits@.take(i + 1);
            assert(taken.drop_last() == digits@.take(i as int));
            assert(taken.last() == digits@[i as int]);
            assert(decimal_text(n as nat) =~= text@ + reversed_text(digits@.take(i as int)));
        }
    }
    proof {
        assert(digits@.take(0) =~= Seq::<usize>::empty());
        assert(text@ + Seq::<char>::empty() =~= text@);
    }
    text
}

/// A list of strings as text.
pub open spec fn texts_of(strings: Seq<String>) -> Seq<Seq<char>> {
    Seq::new(strings.len(), |i: int| strings[i]@)
}

/// Whether two strings hold the same characters.
pub fn same_text(a: &str, b: &str) -> (same: bool)
    ensures
        same == (a@ == b@),
{
    let left = a.as_bytes();
    let right = b.as_bytes();
    proof {
        encode_utf8_decode_utf8(a@);
        encode_utf8_decode_utf8(b@);
    }
    if left.len() != right.len() {
        return false;
    }
    let n = left.len();
    let mut i: usize = 0;
    while i < n
        invariant
            i <= n,
            n == left@.len(),
            n == right@.len(),
            left@ == a.spec_bytes(),
            right@ == b.spec_bytes(),
            decode_utf8(a.spec_bytes()) == a@,
            decode_utf8(b.spec_bytes()) == b@,
            forall|j: int| 0 <= j < i ==> left@[j] == right@[j],
        decreases n - i,
    {
        if left[i] != right[i] {
            return false;
        }
        i += 1;
    }
    assert(left@ =~= right@);
    true
}

} // verus!
