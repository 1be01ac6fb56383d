use vstd::prelude::*;
use crate::luhn::{
    all_digits, check_digit_of, digit_char, digit_value, is_digit, is_luhn_valid,
    luhn_sum, with_check_digit,
};

verus! {

/// Appending a digit on the right shifts every other digit one position to
/// the left, so the sum with the new digit undoubled is that digit plus the
/// old sum with the old rightmost digit doubled.
proof fn lemma_sum_after_append(s: Seq<char>, c: char)
    ensures
        luhn_sum(s.push(c), false) == digit_value(c) + luhn_sum(s, true),
{
    assert(s.push(c).drop_last() == s);
    assert(s.push(c).last() == c);
}

/// The check digit, taken modulo 10, is written as a single digit character.
proof fn lemma_check_digit_char(s: Seq<char>)
    ensures
        0 <= check_digit_of(s) % 10 <= 9,
        is_digit(digit_char(check_digit_of(s) % 10)),
        digit_value(digit_char(check_digit_of(s) % 10)) == check_digit_of(s) % 10,
{
}

/// Generation appends exactly one digit and keeps a sequence of digits a
/// sequence of digits.
proof fn lemma_generated_all_digits(s: Seq<char>)
    requires
        all_digits(s),
    ensures
        all_digits(with_check_digit(s)),
        with_check_digit(s).len() == s.len() + 1,
        with_check_digit(s).drop_last() == s,
{
    lemma_check_digit_char(s);
    let t = with_check_digit(s);
    assert(t.drop_last() == s);
    assert forall|i: int| 0 <= i < t.len() implies is_digit(#[trigger] t[i]) by {
        if i < s.len() {
            assert(t[i] == s[i]);
        }
    }
}

/// Every generated sequence validates, and is again a sequence of digits.
pub proof fn lemma_generated_is_valid(s: Seq<char>)
    requires
        all_digits(s),
    ensures
        all_digits(with_check_digit(s)),
        is_luhn_valid(with_check_digit(s)),
{
    lemma_generated_all_digits(s);
    let d = check_digit_of(s) % 10;
    lemma_check_digit_char(s);
    lemma_sum_after_append(s, digit_char(d));
    let x = luhn_sum(s, true);
    assert((d + x) % 10 == 0);
}

/// Generation is not idempotent: a second generation appends one more digit
/// to the once-generated sequence, so it never gives that sequence back; in
/// particular the two are equal only when the check digit is 10.
pub proof fn lemma_generate_twice(s: Seq<char>)
    requires
        all_digits(s),
    ensures
        with_check_digit(with_check_digit(s)).len() == with_check_digit(s).len() + 1,
        with_check_digit(with_check_digit(s)).drop_last() == with_check_digit(s),
        with_check_digit(with_check_digit(s)) != with_check_digit(s),
        (with_check_digit(with_check_digit(s)) == with_check_digit(s)) ==> check_digit_of(s) == 10,
{
    lemma_generated_all_digits(s);
    lemma_generated_all_digits(with_check_digit(s));
}

/// The check digit is 10 exactly when the sum with the rightmost digit
/// doubled is a multiple of 10, and it always lies in `[1, 10]`.
pub proof fn lemma_check_digit_ten(s: Seq<char>)
    ensures
        (luhn_sum(s, true) % 10 == 0) == (check_digit_of(s) == 10),
        1 <= check_digit_of(s) <= 10,
{
}

} // verus!
