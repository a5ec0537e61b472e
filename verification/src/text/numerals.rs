//! How numbers are written and read, and what trimming leaves.

use vstd::prelude::*;

use crate::text::{
    decimal, number, signed_decimal, trimmed, unsigned_number, whitespace, zero_padded,
};

verus! {

/// The value of a decimal digit.
pub open spec fn worth(c: char) -> int {
    c as int - '0' as int
}

/// Whether a text consists of decimal digits, and is not empty.
pub open spec fn all_digits(text: Seq<char>) -> bool {
    &&& text.len() > 0
    &&& forall|i: int| 0 <= i < text.len() ==> 0 <= worth(#[trigger] text[i]) <= 9
}

/// A digit after a number makes it ten times as large, and adds its own value.
pub proof fn law_numerals_are_positional(text: Seq<char>, c: char)
    requires
        0 <= worth(c) <= 9,
    ensures
        number(seq![]) == 0,
        number(text.push(c)) == 10 * number(text) + worth(c),
{
    assert(text.push(c).drop_last() =~= text);
}

/// A number is written in digits, the first of which is not zero unless it is the only one,
/// and reads back as that number.
pub proof fn law_decimal_reads_back(value: nat)
    ensures
        all_digits(decimal(value)),
        number(decimal(value)) == value,
        value > 0 ==> worth(decimal(value)[0]) > 0,
        value == 0 ==> decimal(value).len() == 1,
    decreases value,
{
    reveal_with_fuel(number, 2);
    let text = decimal(value);
    if value < 10 {
        assert(text.drop_last() =~= seq![]);
    } else {
        let rest = decimal(value / 10);
        law_decimal_reads_back(value / 10);
        assert(text.drop_last() =~= rest);
        assert forall|i: int| 0 <= i < text.len() implies 0 <= worth(#[trigger] text[i]) <= 9 by {
            if i < rest.len() {
                assert(text[i] == rest[i]);
            }
        }
    }
}

/// Zeros in front of a number do not change it.
pub proof fn law_leading_zeros_do_not_count(text: Seq<char>)
    ensures
        number(seq!['0'] + text) == number(text),
    decreases text.len(),
{
    reveal_with_fuel(number, 2);
    let longer = seq!['0'] + text;
    if text.len() == 0 {
        assert(longer.drop_last() =~= seq![]);
    } else {
        law_leading_zeros_do_not_count(text.drop_last());
        assert(longer.drop_last() =~= seq!['0'] + text.drop_last());
        assert(longer.last() == text.last());
    }
}

/// A text is read as an unsigned number exactly if it is digits, with or without a plus sign
/// in front, and the number fits: every number that is written is read back.
pub proof fn law_unsigned_numbers_are_read(text: Seq<char>, value: u64)
    ensures
        all_digits(text) && number(text) <= u64::MAX ==> unsigned_number(text) == Some(
            number(text) as u64,
        ),
        all_digits(text) && number(text) > u64::MAX ==> unsigned_number(text) is None,
        all_digits(text) ==> unsigned_number(seq!['+'] + text) == unsigned_number(text),
        unsigned_number(text) is Some ==> all_digits(text) || (text.len() > 1 && text[0] == '+'
            && all_digits(text.skip(1))),
        unsigned_number(decimal(value as nat)) == Some(value),
        unsigned_number(seq!['+'] + decimal(value as nat)) == Some(value),
{
    lemma_digits_are_read(text);
    law_decimal_reads_back(value as nat);
    lemma_digits_are_read(decimal(value as nat));
    if unsigned_number(text) is Some {
        let digits = crate::text::unsigned_part(text);
        assert forall|i: int| 0 <= i < digits.len() implies 0 <= worth(#[trigger] digits[i])
            <= 9 by {
            assert(crate::text::is_digit(digits[i]));
        }
        assert(all_digits(digits));
    }
}

proof fn lemma_digits_are_read(text: Seq<char>)
    ensures
        all_digits(text) && number(text) <= u64::MAX ==> unsigned_number(text) == Some(
            number(text) as u64,
        ),
        all_digits(text) && number(text) > u64::MAX ==> unsigned_number(text) is None,
        all_digits(text) ==> unsigned_number(seq!['+'] + text) == unsigned_number(text),
{
    if all_digits(text) {
        assert(0 <= worth(text[0]) <= 9);
        assert(crate::text::unsigned_part(text) == text);
        let signed = seq!['+'] + text;
        assert(signed.skip(1) =~= text);
        assert(crate::text::unsigned_part(signed) == text);
        assert forall|i: int| 0 <= i < text.len() implies crate::text::is_digit(text[i]) by {
            assert(0 <= worth(text[i]) <= 9);
        }
    }
}

/// A negative number is written with a minus sign in front of its size.
pub proof fn law_sign_is_written_for_negative_numbers(value: nat)
    ensures
        signed_decimal(value as int) == decimal(value),
        value > 0 ==> signed_decimal(-(value as int)) == seq!['-'] + decimal(value),
{
    reveal_strlit("-");
    assert("-"@ =~= seq!['-']);
}

/// Padding puts zeros in front, as many as are missing, and takes nothing away.
pub proof fn law_padding_puts_zeros_in_front(text: Seq<char>, width: int)
    ensures
        ({
            let padded = zero_padded(text, width);
            let added = padded.len() - text.len();
            &&& text.len() >= width ==> added == 0
            &&& text.len() < width ==> padded.len() == width
            &&& padded.skip(added) == text
            &&& forall|i: int| 0 <= i < added ==> #[trigger] padded[i] == '0'
        }),
{
    let padded = zero_padded(text, width);
    let added = padded.len() - text.len();
    assert(padded.skip(added) =~= text);
}

/// Trimming leaves a part of the text, takes away white space only, and all of it at the two
/// ends.
pub proof fn law_trimming_takes_white_space_off_the_ends(text: Seq<char>)
    ensures
        exists|from: int, to: int| #[trigger] is_core(text, from, to) && trimmed(text)
            == text.subrange(from, to),
    decreases text.len(),
{
    if text.len() == 0 {
        assert(trimmed(text) =~= text.subrange(0, 0));
        assert(is_core(text, 0, 0));
    } else if whitespace(text.first()) {
        let rest = text.drop_first();
        law_trimming_takes_white_space_off_the_ends(rest);
        let (from, to) = choose|from: int, to: int| #[trigger]
            is_core(rest, from, to) && trimmed(rest) == rest.subrange(from, to);
        assert(trimmed(text) =~= text.subrange(from + 1, to + 1));
        lemma_core_after_first(text, from, to);
    } else if whitespace(text.last()) {
        let rest = text.drop_last();
        law_trimming_takes_white_space_off_the_ends(rest);
        let (from, to) = choose|from: int, to: int| #[trigger]
            is_core(rest, from, to) && trimmed(rest) == rest.subrange(from, to);
        assert(trimmed(text) =~= text.subrange(from, to));
        lemma_core_before_last(text, from, to);
    } else {
        assert(trimmed(text) =~= text.subrange(0, text.len() as int));
        assert(is_core(text, 0, text.len() as int));
    }
}

/// Whether a part of a text is what lies between the white space at its ends.
pub open spec fn is_core(text: Seq<char>, from: int, to: int) -> bool {
    &&& 0 <= from <= to <= text.len()
    &&& forall|i: int|
        0 <= i < text.len() && !(from <= i < to) ==> whitespace(#[trigger] text[i])
    &&& from < to ==> !whitespace(text[from]) && !whitespace(text[to - 1])
}

proof fn lemma_core_after_first(text: Seq<char>, from: int, to: int)
    requires
        text.len() > 0,
        whitespace(text[0]),
        is_core(text.drop_first(), from, to),
    ensures
        is_core(text, from + 1, to + 1),
{
    let rest = text.drop_first();
    assert forall|i: int| 0 <= i < text.len() && !(from + 1 <= i < to + 1) implies whitespace(
        #[trigger] text[i],
    ) by {
        if i > 0 {
            assert(rest[i - 1] == text[i]);
        }
    }
}

proof fn lemma_core_before_last(text: Seq<char>, from: int, to: int)
    requires
        text.len() > 0,
        whitespace(text.last()),
        is_core(text.drop_last(), from, to),
    ensures
        is_core(text, from, to),
{
    let rest = text.drop_last();
    assert forall|i: int| 0 <= i < text.len() && !(from <= i < to) implies whitespace(
        #[trigger] text[i],
    ) by {
        if i < text.len() - 1 {
            assert(rest[i] == text[i]);
        }
    }
}

/// The characters between the exclamation mark and the tilde are no white space; space, tab
/// and the ends of lines are.
pub proof fn law_visible_characters_are_no_white_space(c: char)
    ensures
        '!' <= c <= '~' ==> !whitespace(c),
        c == ' ' || c == '\t' || c == '\n' || c == '\r' ==> whitespace(c),
{
}

} // verus!
