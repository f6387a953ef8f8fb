//! What the text of a number says, and how it is read back.

use crate::text::{decimal, digit_char, digit_value, digits_value, u8_value};
use vstd::prelude::*;

verus! {

/// The ten digits stand for zero to nine in the order of their codes, and no other character is a
/// digit. Writing a digit and reading it go by the same codes.
pub proof fn law_digits_go_by_their_codes(c: char, d: int)
    ensures
        digit_value(c) is Some <==> '0' <= c <= '9',
        '0' <= c <= '9' ==> digit_value(c)->0 == c as int - '0' as int,
        0 <= d < 10 ==> digit_char(d) as int == '0' as int + d,
        0 <= d < 10 ==> digit_value(digit_char(d)) == Some(d as nat),
{
}

/// One more digit multiplies a number by ten and adds the digit's value; a character that is no
/// digit spoils the number.
pub proof fn law_digits_are_positional(text: Seq<char>, c: char)
    ensures
        digits_value(Seq::<char>::empty()) == Some(0nat),
        digits_value(text.push(c)) is Some <==> digits_value(text) is Some && '0' <= c <= '9',
        digits_value(text.push(c)) is Some ==> digits_value(text.push(c))->0 == 10 * digits_value(
            text,
        )->0 + (c as int - '0' as int),
{
    assert(text.push(c).drop_last() =~= text);
}

/// A text stands for a number exactly if it consists of digits.
pub proof fn law_numbers_consist_of_digits(text: Seq<char>)
    ensures
        digits_value(text) is Some <==> forall|i: int|
            0 <= i < text.len() ==> '0' <= #[trigger] text[i] <= '9',
    decreases text.len(),
{
    if text.len() > 0 {
        let front = text.drop_last();
        law_numbers_consist_of_digits(front);
        if digits_value(text) is Some {
            assert forall|i: int| 0 <= i < text.len() implies '0' <= #[trigger] text[i] <= '9' by {
                if i < front.len() {
                    assert(front[i] == text[i]);
                }
            }
        }
        if forall|i: int| 0 <= i < text.len() ==> '0' <= #[trigger] text[i] <= '9' {
            assert forall|i: int| 0 <= i < front.len() implies '0' <= #[trigger] front[i]
                <= '9' by {
                assert(front[i] == text[i]);
            }
            assert('0' <= text[text.len() - 1] <= '9');
        }
    }
}

/// The text of a number has digits only, at least one, and no zero in front of another digit.
pub proof fn law_decimal_is_canonical(n: nat)
    ensures
        decimal(n).len() > 0,
        forall|i: int| 0 <= i < decimal(n).len() ==> '0' <= #[trigger] decimal(n)[i] <= '9',
        decimal(n)[0] == '0' ==> n == 0,
        n == 0 ==> decimal(n).len() == 1,
    decreases n,
{
    if n >= 10 {
        law_decimal_is_canonical(n / 10);
    }
}

/// Reading the text of a number gives the number back.
pub proof fn law_decimal_reads_back(n: nat)
    ensures
        digits_value(decimal(n)) == Some(n),
        n <= 255 ==> u8_value(decimal(n)) == Some(n as u8),
        n > 255 ==> u8_value(decimal(n)) is None,
    decreases n,
{
    law_decimal_is_canonical(n);
    if n >= 10 {
        law_decimal_reads_back(n / 10);
        let front = decimal(n / 10);
        let d = (n % 10) as int;
        law_digits_are_positional(front, digit_char(d));
    } else {
        law_digits_are_positional(Seq::empty(), digit_char(n as int));
        assert(Seq::<char>::empty().push(digit_char(n as int)) =~= decimal(n));
    }
    assert(decimal(n)[0] != '+');
}

/// A text of digits without a zero in front is the text of the number that it stands for, so that
/// no other such text is read as this number.
pub proof fn law_canonical_texts_are_decimal(text: Seq<char>)
    requires
        text.len() > 0,
        text[0] == '0' ==> text.len() == 1,
        digits_value(text) is Some,
    ensures
        text == decimal(digits_value(text)->0),
        text[0] != '0' ==> digits_value(text)->0 > 0,
    decreases text.len(),
{
    let front = text.drop_last();
    let c = text[text.len() - 1];
    let n = digits_value(text)->0;
    assert(front.push(c) =~= text);
    law_digits_are_positional(front, c);
    let d = c as int - '0' as int;
    law_digits_go_by_their_codes(c, d);
    assert(digit_char(d) == c);
    if front.len() == 0 {
        assert(front =~= Seq::empty());
        assert(text =~= decimal(n));
    } else {
        assert(front[0] == text[0]);
        law_canonical_texts_are_decimal(front);
        let m = digits_value(front)->0;
        assert(m > 0);
        assert(n == 10 * m + d);
        assert(n / 10 == m && n % 10 == d);
        assert(text =~= decimal(m).push(digit_char(d)));
    }
}

/// Zeros in front do not change a number.
pub proof fn law_zeros_in_front_do_not_count(text: Seq<char>)
    ensures
        digits_value(seq!['0'] + text) == digits_value(text),
    decreases text.len(),
{
    let more = seq!['0'] + text;
    if text.len() == 0 {
        assert(more =~= Seq::<char>::empty().push('0'));
        law_digits_are_positional(Seq::empty(), '0');
        assert(text =~= Seq::empty());
    } else {
        law_zeros_in_front_do_not_count(text.drop_last());
        assert(more.drop_last() =~= seq!['0'] + text.drop_last());
    }
}

/// An 8-bit number is read exactly where a text has digits, with at most one plus sign in front,
/// and their value fits; it is then that value.
pub proof fn law_eight_bit_numbers(text: Seq<char>)
    ensures
        u8_value(seq!['+'] + text) == if text.len() > 0 && text[0] == '+' {
            None
        } else {
            u8_value(text)
        },
        text.len() > 0 && text[0] != '+' ==> match digits_value(text) {
            Some(n) => if n <= 255 {
                u8_value(text) is Some && u8_value(text)->0 == n
            } else {
                u8_value(text) is None
            },
            None => u8_value(text) is None,
        },
        u8_value(Seq::<char>::empty()) is None,
{
    let signed = seq!['+'] + text;
    assert(signed.skip(1) =~= text);
    law_numbers_consist_of_digits(text);
    if text.len() > 0 && text[0] == '+' {
        assert(!('0' <= text[0] <= '9'));
    }
}

} // verus!
