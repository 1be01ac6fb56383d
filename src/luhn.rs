use vstd::prelude::*;
use vstd::arithmetic::div_mod::lemma_add_mod_noop;

verus! {

/// The longest sequence whose sum is guaranteed to fit in a `u32`: every
/// digit contributes at most 9.
pub const MAX_DIGITS: usize = 477_218_588;

/// Why a sequence was refused.
#[derive(Debug, Clone, Copy, PartialEq, Eq, Structural)]
pub enum LuhnError {
    /// A character of the sequence is not an ASCII decimal digit.
    InvalidCharacter,
    /// The sequence has no characters.
    EmptyInput,
}

/// An ASCII decimal digit.
pub open spec fn is_digit(c: char) -> bool {
    '0' <= c && c <= '9'
}

/// The numeric value of a digit character.
pub open spec fn digit_value(c: char) -> int {
    c as int - '0' as int
}

/// The character that writes the digit `d`, for `0 <= d <= 9`.
pub open spec fn digit_char(d: int) -> char {
    (d + '0' as int) as char
}

/// Every character is an ASCII decimal digit.
pub open spec fn all_digits(s: Seq<char>) -> bool {
    forall|i: int| 0 <= i < s.len() ==> is_digit(#[trigger] s[i])
}

/// The error that a sequence is refused with, if any: an empty sequence is
/// `EmptyInput`, one holding a non-digit is `InvalidCharacter`.
pub open spec fn sequence_error(s: Seq<char>) -> Option<LuhnError> {
    if s.len() == 0 {
        Some(LuhnError::EmptyInput)
    } else if !all_digits(s) {
        Some(LuhnError::InvalidCharacter)
    } else {
        None
    }
}

/// What one digit adds to the sum: itself, or when doubled, its double with
/// 9 taken off if that exceeds 9 (the sum of the double's decimal digits).
pub open spec fn contribution(c: char, doubled: bool) -> int {
    let d = digit_value(c);
    if !doubled {
        d
    } else if 2 * d > 9 {
        2 * d - 9
    } else {
        2 * d
    }
}

/// Whether the digit at position `pos`, counted from the right starting at 0,
/// is doubled: the even positions when `start_parity` holds, else the odd ones.
pub open spec fn doubled_at(pos: int, start_parity: bool) -> bool {
    (pos % 2 == 0) == start_parity
}

/// The weighted sum of `s`, read from the right: the rightmost digit is
/// doubled when `double_last` holds, and doubling alternates from there.
pub open spec fn weighted(s: Seq<char>, double_last: bool) -> int
    decreases s.len(),
{
    if s.len() == 0 {
        0
    } else {
        contribution(s.last(), double_last) + weighted(s.drop_last(), !double_last)
    }
}

/// The Luhn sum of `s`. With `even`, the rightmost digit is doubled (the sum
/// from which a check digit to append is computed); without it, the rightmost
/// digit is left as it is (the sum of a sequence that ends in its check digit).
pub open spec fn luhn_sum(s: Seq<char>, even: bool) -> int {
    weighted(s, even)
}

/// The check digit of `s`: `10 - (sum mod 10)` of its sum with the
/// rightmost digit doubled. The value 10 stands for the digit 0: the sum is
/// already a multiple of 10.
pub open spec fn check_digit_of(s: Seq<char>) -> int {
    10 - luhn_sum(s, true) % 10
}

/// `s` with its check digit appended, written as 0 when that digit is 10.
pub open spec fn with_check_digit(s: Seq<char>) -> Seq<char> {
    s.push(digit_char(check_digit_of(s) % 10))
}

/// `s` ends in the right check digit for the digits before it.
pub open spec fn is_luhn_valid(s: Seq<char>) -> bool {
    luhn_sum(s, false) % 10 == 0
}

/// Collects the characters of `sequence` in order.
fn sequence_chars(sequence: &String) -> (r: Vec<char>)
    ensures
        r@ == sequence@,
{
    broadcast use vstd::string::axiom_spec_iter;

    let mut out: Vec<char> = Vec::new();
    for c in it: sequence.chars()
        invariant
            out@ == it.seq().subrange(0, it.index() as int),
            it.seq() == sequence@,
    {
        out.push(c);
    }
    out
}

/// Checks that `chars` is a non-empty sequence of digits.
fn check_chars(chars: &Vec<char>) -> (r: Result<(), LuhnError>)
    ensures
        r == (match sequence_error(chars@) {
            Some(e) => Err(e),
            None => Ok(()),
        }),
{
    if chars.len() == 0 {
        return Err(LuhnError::EmptyInput);
    }
    let mut i: usize = 0;
    while i < chars.len()
        invariant
            i <= chars.len(),
            forall|j: int| 0 <= j < i ==> is_digit(#[trigger] chars@[j]),
        decreases chars.len() - i,
    {
        let c = chars[i];
        if !(c >= '0' && c <= '9') {
            return Err(LuhnError::InvalidCharacter);
        }
        i = i + 1;
    }
    Ok(())
}

/// The routine behind every sum: walks the digits, doubling those whose
/// position from the right is even under `start_parity` and odd without it.
/// With `modulo_ten` it keeps only the sum modulo 10, which never overflows;
/// without it, the full sum.
fn accumulate(chars: &Vec<char>, start_parity: bool, modulo_ten: bool) -> (r: u32)
    requires
        all_digits(chars@),
        !modulo_ten ==> chars.len() <= MAX_DIGITS,
    ensures
        modulo_ten ==> r == weighted(chars@, start_parity) % 10,
        !modulo_ten ==> r == weighted(chars@, start_parity),
{
    let n = chars.len();
    let mut sum: u32 = 0;
    let mut k: usize = 0;
    while k < n
        invariant
            n == chars.len(),
            !modulo_ten ==> n <= MAX_DIGITS,
            all_digits(chars@),
            k <= n,
            modulo_ten ==> sum < 10 && sum == weighted(
                chars@.subrange(0, k as int),
                doubled_at(n - k, start_parity),
            ) % 10,
            !modulo_ten ==> sum <= 9 * k && sum == weighted(
                chars@.subrange(0, k as int),
                doubled_at(n - k, start_parity),
            ),
        decreases n - k,
    {
        let c = chars[k];
        assert(is_digit(chars@[k as int]));
        let digit: u32 = (c as u32) - ('0' as u32);
        let position: usize = n - 1 - k;
        let add: u32 = if (position % 2 == 0) == start_parity {
            let doubled: u32 = digit * 2;
            if doubled > 9 {
                1 + doubled % 10
            } else {
                doubled
            }
        } else {
            digit
        };
        let ghost prefix = chars@.subrange(0, k + 1);
        let ghost before = weighted(chars@.subrange(0, k as int), doubled_at(n - k, start_parity));
        assert(prefix.drop_last() == chars@.subrange(0, k as int));
        assert(prefix.last() == c);
        assert(weighted(prefix, doubled_at(n - (k + 1), start_parity)) == add + before);
        if modulo_ten {
            proof {
                lemma_add_mod_noop(before, add as int, 10);
            }
            sum = (sum + add) % 10;
        } else {
            sum = sum + add;
        }
        k = k + 1;
    }
    assert(chars@.subrange(0, n as int) == chars@);
    sum
}

/// The weighted sum of a digit sequence: the digit at position `i` from the
/// right is doubled when `i mod 2` is 0 under `start_parity` and 1 without it.
pub fn weighted_sum(chars: &Vec<char>, start_parity: bool) -> (r: u32)
    requires
        all_digits(chars@),
        chars.len() <= MAX_DIGITS,
    ensures
        r == weighted(chars@, start_parity),
{
    accumulate(chars, start_parity, false)
}

/// The Luhn sum of `sequence`; `even` doubles the rightmost digit (the sum
/// from which a check digit is computed), otherwise the rightmost digit is
/// taken as a check digit and left undoubled.
pub fn compute_checksum(sequence: &String, even: bool) -> (r: Result<u32, LuhnError>)
    requires
        sequence@.len() <= MAX_DIGITS,
    ensures
        r == (match sequence_error(sequence@) {
            Some(e) => Err(e),
            None => Ok(luhn_sum(sequence@, even) as u32),
        }),
        r is Ok ==> r->Ok_0 == luhn_sum(sequence@, even),
{
    let chars = sequence_chars(sequence);
    match check_chars(&chars) {
        Err(e) => Err(e),
        Ok(()) => Ok(weighted_sum(&chars, even)),
    }
}

/// The check digit of `sequence`: `10 - (sum mod 10)` of its sum with the
/// rightmost digit doubled. A result of 10 stands for the digit 0.
pub fn compute_check_digit(sequence: &String) -> (r: Result<u32, LuhnError>)
    ensures
        r == (match sequence_error(sequence@) {
            Some(e) => Err(e),
            None => Ok(check_digit_of(sequence@) as u32),
        }),
        r is Ok ==> 1 <= r->Ok_0 <= 10 && r->Ok_0 == check_digit_of(sequence@),
{
    let chars = sequence_chars(sequence);
    match check_chars(&chars) {
        Err(e) => Err(e),
        Ok(()) => Ok(10 - accumulate(&chars, true, true)),
    }
}

/// Relies on `String::push`: appends one character at the end.
#[verifier::external_body]
fn push_char(s: &mut String, c: char)
    ensures
        final(s)@ == old(s)@.push(c),
{
    s.push(c);
}

/// `sequence` with its check digit appended, `0` when the check digit is 10.
pub fn compute_valid_sequence(sequence: &String) -> (r: Result<String, LuhnError>)
    ensures
        match sequence_error(sequence@) {
            Some(e) => r == Err::<String, LuhnError>(e),
            None => r is Ok && r->Ok_0@ == with_check_digit(sequence@),
        },
{
    match compute_check_digit(sequence) {
        Err(e) => Err(e),
        Ok(digit) => {
            let mut out = sequence.clone();
            let c = (((digit % 10) + ('0' as u32)) as u8) as char;
            push_char(&mut out, c);
            Ok(out)
        },
    }
}

/// Whether `sequence` ends in the right check digit: its sum with the
/// rightmost digit undoubled is a multiple of 10.
pub fn validate_sequence(sequence: &String) -> (r: Result<bool, LuhnError>)
    ensures
        r == (match sequence_error(sequence@) {
            Some(e) => Err(e),
            None => Ok(is_luhn_valid(sequence@)),
        }),
{
    let chars = sequence_chars(sequence);
    match check_chars(&chars) {
        Err(e) => Err(e),
        Ok(()) => Ok(accumulate(&chars, false, true) == 0),
    }
}

} // verus!
