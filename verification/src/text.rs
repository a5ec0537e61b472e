//! Characters, decimal numbers and white space.

use vstd::prelude::*;
use vstd::utf8::*;

pub mod numerals;

verus! {

/// The decimal digit of value `value`.
pub open spec fn digit(value: int) -> char {
    ('0' as int + value) as char
}

/// Whether `c` is a decimal digit.
pub open spec fn is_digit(c: char) -> bool {
    '0' <= c <= '9'
}

/// `value` written in decimal, without leading zeros.
pub open spec fn decimal(value: nat) -> Seq<char>
    decreases value,
{
    if value < 10 {
        seq![digit(value as int)]
    } else {
        decimal(value / 10).push(digit(value as int % 10))
    }
}

/// `value` written in decimal, with a minus sign if it is negative.
pub open spec fn signed_decimal(value: int) -> Seq<char> {
    if value < 0 {
        "-"@ + decimal((-value) as nat)
    } else {
        decimal(value as nat)
    }
}

/// `text` with as many zeros in front as bring it to `width` characters.
pub open spec fn zero_padded(text: Seq<char>, width: int) -> Seq<char> {
    if text.len() >= width {
        text
    } else {
        Seq::new((width - text.len()) as nat, |i: int| '0') + text
    }
}

/// The number that a sequence of digits denotes.
pub open spec fn number(digits: Seq<char>) -> nat
    decreases digits.len(),
{
    if digits.len() == 0 {
        0
    } else {
        number(digits.drop_last()) * 10 + (digits.last() as int - '0' as int) as nat
    }
}

/// What follows the optional plus sign.
pub open spec fn unsigned_part(text: Seq<char>) -> Seq<char> {
    if text.len() > 0 && text[0] == '+' {
        text.skip(1)
    } else {
        text
    }
}

/// The unsigned number that `text` writes, if it writes one that fits in 64 bits.
///
/// A number is an optional plus sign and then at least one digit, and nothing else.
pub open spec fn unsigned_number(text: Seq<char>) -> Option<u64> {
    let digits = unsigned_part(text);
    if digits.len() > 0 && (forall|i: int| 0 <= i < digits.len() ==> is_digit(digits[i])) && number(
        digits,
    ) <= u64::MAX {
        Some(number(digits) as u64)
    } else {
        None
    }
}

/// The text of one decimal digit.
pub fn digit_text(value: u8) -> (text: &'static str)
    requires
        value < 10,
    ensures
        text@ == seq![digit(value as int)],
{
    proof {
        reveal_strlit("0");
        reveal_strlit("1");
        reveal_strlit("2");
        reveal_strlit("3");
        reveal_strlit("4");
        reveal_strlit("5");
        reveal_strlit("6");
        reveal_strlit("7");
        reveal_strlit("8");
        reveal_strlit("9");
    }
    if value == 0 {
        "0"
    } else if value == 1 {
        "1"
    } else if value == 2 {
        "2"
    } else if value == 3 {
        "3"
    } else if value == 4 {
        "4"
    } else if value == 5 {
        "5"
    } else if value == 6 {
        "6"
    } else if value == 7 {
        "7"
    } else if value == 8 {
        "8"
    } else {
        "9"
    }
}

/// Writes `value` in decimal.
pub fn decimal_text(value: u64) -> (text: String)
    ensures
        text@ == decimal(value as nat),
    decreases value,
{
    if value < 10 {
        digit_text(value as u8).to_owned()
    } else {
        let mut text = decimal_text(value / 10);
        text.append(digit_text((value % 10) as u8));
        text
    }
}

/// Writes `value` in decimal, with a minus sign if it is negative.
pub fn signed_text(value: i64) -> (text: String)
    ensures
        text@ == signed_decimal(value as int),
{
    if value < 0 {
        let mut text: String = "-".to_owned();
        text.append(decimal_text((-(value as i128)) as u64).as_str());
        text
    } else {
        decimal_text(value as u64)
    }
}

/// Writes `value` in decimal, with zeros in front up to `width` characters.
pub fn padded_decimal(value: u64, width: usize) -> (text: String)
    ensures
        text@ == zero_padded(decimal(value as nat), width as int),
{
    let digits = decimal_text(value);
    let len: usize = digits.as_str().unicode_len();
    let mut text = String::new();
    if len < width {
        let mut i: usize = 0;
        while i < width - len
            invariant
                i <= width - len,
                len < width,
                text@ =~= Seq::new(i as nat, |j: int| '0'),
            decreases width - len - i,
        {
            proof {
                reveal_strlit("0");
            }
            text.append("0");
            i = i + 1;
        }
    }
    text.append(digits.as_str());
    text
}

/// Reads an unsigned decimal number.
pub fn parse_unsigned(text: &str) -> (result: Option<u64>)
    ensures
        result == unsigned_number(text@),
{
    let len: usize = text.unicode_len();
    let start: usize = if len > 0 && text.get_char(0) == '+' {
        1
    } else {
        0
    };
    let ghost digits = unsigned_part(text@);
    assert(digits =~= text@.skip(start as int));
    if start == len {
        return None;
    }
    let mut value: u64 = 0;
    let mut i: usize = start;
    while i < len
        invariant
            start <= i <= len,
            start <= 1,
            len == text@.len(),
            digits == text@.skip(start as int),
            digits.len() > 0,
            digits == unsigned_part(text@),
            forall|j: int| 0 <= j < i - start ==> is_digit(#[trigger] digits[j]),
            value == number(digits.take(i - start)),
        decreases len - i,
    {
        let c: char = text.get_char(i);
        assert(digits[i - start] == c);
        if c < '0' || c > '9' {
            return None;
        }
        let unit: u64 = (c as u32 - 48) as u64;
        assert(digits.take(i - start + 1).drop_last() =~= digits.take(i - start));
        assert(digits.take(i - start + 1).last() == c);
        assert(number(digits.take(i - start + 1)) == value * 10 + unit);
        if value > (u64::MAX - unit) / 10 {
            proof {
                lemma_number_grows(digits, i - start + 1);
            }
            return None;
        }
        value = value * 10 + unit;
        i = i + 1;
    }
    assert(digits.take(len - start) =~= digits);
    Some(value)
}

proof fn lemma_number_grows(digits: Seq<char>, prefix: int)
    requires
        0 <= prefix <= digits.len(),
    ensures
        number(digits.take(prefix)) <= number(digits),
    decreases digits.len() - prefix,
{
    if prefix < digits.len() {
        lemma_number_grows(digits, prefix + 1);
        assert(digits.take(prefix + 1).drop_last() =~= digits.take(prefix));
    } else {
        assert(digits.take(prefix) =~= digits);
    }
}

/// A number is read back from its decimal digits.
pub proof fn lemma_number_of_decimal(value: nat)
    ensures
        number(decimal(value)) == value,
    decreases value,
{
    let digits = decimal(value);
    assert(digits.last() == digit(value as int % 10));
    if value >= 10 {
        lemma_number_of_decimal(value / 10);
        assert(digits.drop_last() =~= decimal(value / 10));
    } else {
        assert(digits.drop_last() =~= Seq::empty());
        assert(number(digits.drop_last()) == 0);
    }
}

/// Whether a character counts as white space: whether it has the Unicode property
/// `White_Space`.
pub open spec fn whitespace(c: char) -> bool {
    let code = c as int;
    ||| 0x9 <= code <= 0xd
    ||| code == 0x20
    ||| code == 0x85
    ||| code == 0xa0
    ||| code == 0x1680
    ||| 0x2000 <= code <= 0x200a
    ||| code == 0x2028
    ||| code == 0x2029
    ||| code == 0x202f
    ||| code == 0x205f
    ||| code == 0x3000
}

/// `char::is_whitespace`: whether a character has the Unicode property `White_Space`.
pub assume_specification[ char::is_whitespace ](c: char) -> (answer: bool)
    ensures
        answer == whitespace(c),
;

/// Whether `text` holds nothing but white space.
pub open spec fn blank(text: Seq<char>) -> bool {
    forall|i: int| 0 <= i < text.len() ==> whitespace(#[trigger] text[i])
}

/// `text` without the white space at its two ends.
pub open spec fn trimmed(text: Seq<char>) -> Seq<char>
    decreases text.len(),
{
    if text.len() == 0 {
        text
    } else if whitespace(text.first()) {
        trimmed(text.drop_first())
    } else if whitespace(text.last()) {
        trimmed(text.drop_last())
    } else {
        text
    }
}

/// Whether `text` holds nothing but white space.
pub fn is_blank(text: &str) -> (answer: bool)
    ensures
        answer == blank(text@),
{
    let len: usize = text.unicode_len();
    let mut i: usize = 0;
    while i < len
        invariant
            i <= len,
            len == text@.len(),
            forall|j: int| 0 <= j < i ==> whitespace(#[trigger] text@[j]),
        decreases len - i,
    {
        let c: char = text.get_char(i);
        assert(text@[i as int] == c);
        if !c.is_whitespace() {
            return false;
        }
        i = i + 1;
    }
    true
}

/// Cuts the white space off both ends.
pub fn trim(text: &str) -> (inner: String)
    ensures
        inner@ == trimmed(text@),
{
    let len: usize = text.unicode_len();
    let mut from: usize = 0;
    let mut to: usize = len;
    assert(text@.subrange(0, len as int) =~= text@);
    while from < to && text.get_char(from).is_whitespace()
        invariant
            from <= to,
            to == len,
            len == text@.len(),
            trimmed(text@) == trimmed(text@.subrange(from as int, to as int)),
        ensures
            from <= to,
            to == len,
            from < to ==> !whitespace(text@[from as int]),
            trimmed(text@) == trimmed(text@.subrange(from as int, to as int)),
        decreases to - from,
    {
        assert(text@.subrange(from as int, to as int).drop_first() =~= text@.subrange(
            from + 1,
            to as int,
        ));
        from = from + 1;
    }
    while from < to && text.get_char(to - 1).is_whitespace()
        invariant
            from <= to,
            to <= len,
            len == text@.len(),
            from < to ==> !whitespace(text@[from as int]),
            trimmed(text@) == trimmed(text@.subrange(from as int, to as int)),
        ensures
            from <= to <= len,
            from < to ==> !whitespace(text@[from as int]) && !whitespace(text@[to - 1]),
            trimmed(text@) == trimmed(text@.subrange(from as int, to as int)),
        decreases to - from,
    {
        assert(text@.subrange(from as int, to as int).drop_last() =~= text@.subrange(
            from as int,
            to - 1,
        ));
        to = to - 1;
    }
    text.substring_char(from, to).to_owned()
}

/// A text is blank exactly when nothing is left of it after trimming.
pub proof fn law_blank_is_trimmed_empty(text: Seq<char>)
    ensures
        blank(text) <==> trimmed(text).len() == 0,
    decreases text.len(),
{
    if text.len() > 0 {
        if whitespace(text.first()) {
            law_blank_is_trimmed_empty(text.drop_first());
            if blank(text.drop_first()) {
                assert forall|i: int| 0 <= i < text.len() implies whitespace(
                    #[trigger] text[i],
                ) by {
                    if i > 0 {
                        assert(text.drop_first()[i - 1] == text[i]);
                    }
                }
            }
            if blank(text) {
                assert forall|i: int| 0 <= i < text.drop_first().len() implies whitespace(
                    #[trigger] text.drop_first()[i],
                ) by {
                    assert(text.drop_first()[i] == text[i + 1]);
                }
            }
        } else {
            assert(!whitespace(text[0]));
            assert(!blank(text));
            if whitespace(text.last()) {
                law_blank_is_trimmed_empty(text.drop_last());
                if text.len() > 1 {
                    assert(text.drop_last()[0] == text[0]);
                    assert(!blank(text.drop_last()));
                }
            }
        }
    }
}

/// The text that bytes spell, with a replacement character in place of whatever
/// is not well-formed UTF-8.
pub uninterp spec fn lossy_text(bytes: Seq<u8>) -> Seq<char>;

/// `String::from_utf8_lossy`: the decoding of well-formed UTF-8, and otherwise a
/// text that depends on the bytes alone. Where the replacement characters go in
/// ill-formed input is not stated.
#[verifier::external_body]
pub(crate) fn decode_lossy(bytes: &[u8]) -> (text: String)
    ensures
        text@ == lossy_text(bytes@),
        valid_utf8(bytes@) ==> text@ == decode_utf8(bytes@),
{
    String::from_utf8_lossy(bytes).into_owned()
}

} // verus!
