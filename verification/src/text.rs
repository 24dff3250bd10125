//! Small operations on text that the parsers share.

use vstd::prelude::*;

verus! {

/// The characters of `text`.
pub fn chars_of(text: &str) -> (chars: Vec<char>)
    ensures
        chars@ == text@,
{
    let mut chars: Vec<char> = Vec::new();
    for c in it: text.chars()
        invariant
            it.seq() == text@,
            chars@ == text@.take(it.index()),
    {
        chars.push(c);
    }
    chars
}

/// Whether `text` is `word`.
pub fn is_word(text: &Vec<char>, word: &str) -> (same: bool)
    ensures
        same == (text@ == word@),
{
    let letters = chars_of(word);
    if text.len() != letters.len() {
        return false;
    }
    let mut i: usize = 0;
    while i < text.len()
        invariant
            letters@ == word@,
            text@.len() == letters@.len(),
            i <= text@.len(),
            text@.take(i as int) == letters@.take(i as int),
        decreases text@.len() - i,
    {
        if text[i] != letters[i] {
            return false;
        }
        proof {
            assert(text@.take(i + 1) =~= text@.take(i as int).push(text@[i as int]));
            assert(letters@.take(i + 1) =~= letters@.take(i as int).push(letters@[i as int]));
        }
        i += 1;
    }
    proof {
        assert(text@.take(i as int) =~= text@);
        assert(letters@.take(i as int) =~= letters@);
    }
    true
}

/// Whether `text` and `word` are the same text.
pub fn same(text: &str, word: &str) -> (same: bool)
    ensures
        same == (text@ == word@),
{
    let letters = chars_of(text);
    is_word(&letters, word)
}

/// Whether `text` begins with `word`.
pub fn begins_with(text: &Vec<char>, word: &str) -> (begins: bool)
    ensures
        begins == (word@.len() <= text@.len() && text@.take(word@.len() as int) == word@),
{
    let letters = chars_of(word);
    if text.len() < letters.len() {
        return false;
    }
    let mut i: usize = 0;
    while i < letters.len()
        invariant
            letters@ == word@,
            letters@.len() <= text@.len(),
            i <= letters@.len(),
            text@.take(i as int) == letters@.take(i as int),
        decreases letters@.len() - i,
    {
        if text[i] != letters[i] {
            proof {
                assert(text@.take(letters@.len() as int)[i as int] != letters@[i as int]);
            }
            return false;
        }
        proof {
            assert(text@.take(i + 1) =~= text@.take(i as int).push(text@[i as int]));
            assert(letters@.take(i + 1) =~= letters@.take(i as int).push(letters@[i as int]));
        }
        i += 1;
    }
    proof {
        assert(letters@.take(i as int) =~= letters@);
    }
    true
}

/// Whether `c` is one of the digits `0` to `9`.
pub open spec fn is_digit(c: char) -> bool {
    '0' <= c <= '9'
}

/// The number that `digits` write in base ten, where all of them are digits.
pub open spec fn decimal(digits: Seq<char>) -> nat
    decreases digits.len(),
{
    if digits.len() == 0 {
        0
    } else {
        decimal(digits.drop_last()) * 10 + (digits.last() as nat - '0' as nat) as nat
    }
}

/// What `digits` say as a `u64`: their number in base ten, where there is at
/// least one of them, each is a digit, and the number fits.
pub open spec fn parse_u64(digits: Seq<char>) -> Option<u64> {
    if digits.len() > 0 && (forall|i: int| 0 <= i < digits.len() ==> is_digit(digits[i]))
        && decimal(digits) <= u64::MAX {
        Some(decimal(digits) as u64)
    } else {
        None
    }
}

/// A number only grows when digits are written behind it.
proof fn lemma_decimal_grows(digits: Seq<char>, n: int)
    requires
        0 <= n <= digits.len(),
        forall|i: int| 0 <= i < digits.len() ==> is_digit(digits[i]),
    ensures
        decimal(digits.take(n)) <= decimal(digits),
    decreases digits.len() - n,
{
    if n < digits.len() {
        assert(digits.take(n + 1).drop_last() =~= digits.take(n));
        lemma_decimal_grows(digits, n + 1);
    } else {
        assert(digits.take(n) =~= digits);
    }
}

/// Reads the characters of `text` from `from` on as a number in base ten.
pub fn read_u64(text: &Vec<char>, from: usize) -> (number: Option<u64>)
    requires
        from <= text@.len(),
    ensures
        number == parse_u64(text@.skip(from as int)),
{
    let ghost digits = text@.skip(from as int);
    if from == text.len() {
        return None;
    }
    let mut value: u64 = 0;
    let mut i: usize = from;
    while i < text.len()
        invariant
            from <= i <= text@.len(),
            digits == text@.skip(from as int),
            forall|j: int| 0 <= j < i - from ==> is_digit(digits[j]),
            value == decimal(digits.take(i - from)),
        decreases text@.len() - i,
    {
        let c = text[i];
        assert(digits[i - from] == c);
        if c < '0' || c > '9' {
            return None;
        }
        let digit = (c as u64) - ('0' as u64);
        proof {
            assert(digits.take(i - from + 1).drop_last() =~= digits.take(i - from));
            if value > (u64::MAX - digit) / 10 {
                // the number read so far, with this digit, is already too large
                if forall|j: int| 0 <= j < digits.len() ==> is_digit(digits[j]) {
                    lemma_decimal_grows(digits, i - from + 1);
                }
            }
        }
        if value > (u64::MAX - digit) / 10 {
            return None;
        }
        value = value * 10 + digit;
        i += 1;
    }
    proof {
        assert(digits.take(i - from) =~= digits);
    }
    Some(value)
}

} // verus!
