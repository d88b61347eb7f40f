//! The copy count of a job, read from decimal text.

use vstd::prelude::*;

verus! {

/// Whether a character is one of the ten ASCII digits.
pub open spec fn is_digit(c: char) -> bool {
    0x30 <= c as u32 <= 0x39
}

/// The number that an ASCII digit stands for.
pub open spec fn digit_value(c: char) -> nat {
    (c as u32 - 0x30) as nat
}

/// The number that a sequence of digits writes in base ten.
pub open spec fn decimal_value(digits: Seq<char>) -> nat
    decreases digits.len(),
{
    if digits.len() == 0 {
        0
    } else {
        decimal_value(digits.drop_last()) * 10 + digit_value(digits.last())
    }
}

/// A text without the single `+` that may stand in front of its digits.
pub open spec fn unsigned_digits(text: Seq<char>) -> Seq<char> {
    if text.len() > 0 && text[0] == '+' {
        text.drop_first()
    } else {
        text
    }
}

/// The number that a text writes: an optional `+`, then one or more ASCII
/// digits whose value fits in 32 bits. Every other text writes none.
pub open spec fn parse_unsigned(text: Seq<char>) -> Option<u32> {
    let digits = unsigned_digits(text);
    if digits.len() > 0 && (forall|i: int| 0 <= i < digits.len() ==> is_digit(#[trigger] digits[i]))
        && decimal_value(digits) <= u32::MAX {
        Some(decimal_value(digits) as u32)
    } else {
        None
    }
}

/// The copy count that a text asks for: the number it writes, and one where
/// it writes none.
pub open spec fn copies_of(text: Seq<char>) -> u32 {
    match parse_unsigned(text) {
        Some(n) => n,
        None => 1,
    }
}

/// The copy count is zero only where the text writes zero.
pub proof fn lemma_copies_zero(text: Seq<char>)
    ensures
        copies_of(text) == 0 <==> parse_unsigned(text) == Some(0u32),
{
}

/// A number is at least as large as the number written by any prefix of its
/// digits.
pub proof fn lemma_decimal_prefix(digits: Seq<char>, k: int)
    requires
        0 <= k <= digits.len(),
    ensures
        decimal_value(digits.subrange(0, k)) <= decimal_value(digits),
    decreases digits.len(),
{
    if k == digits.len() {
        assert(digits.subrange(0, k) =~= digits);
    } else {
        let shorter = digits.drop_last();
        lemma_decimal_prefix(shorter, k);
        assert(shorter.subrange(0, k) =~= digits.subrange(0, k));
    }
}

/// Reads an unsigned 32-bit number from decimal text.
pub fn parse_u32(text: &str) -> (number: Option<u32>)
    ensures
        number == parse_unsigned(text@),
{
    let n = text.unicode_len();
    let mut i: usize = 0;
    if n > 0 && text.get_char(0) == '+' {
        i = 1;
    }
    let start = i;
    let ghost digits = unsigned_digits(text@);
    assert(digits =~= text@.subrange(start as int, n as int));
    if i >= n {
        return None;
    }
    let mut acc: u64 = 0;
    assert(digits.subrange(0, 0) =~= Seq::<char>::empty());
    while i < n
        invariant
            start <= i <= n,
            n == text@.len(),
            digits == text@.subrange(start as int, n as int),
            digits == unsigned_digits(text@),
            forall|j: int| 0 <= j < i - start ==> is_digit(#[trigger] digits[j]),
            acc == decimal_value(digits.subrange(0, i - start)),
            acc <= u32::MAX,
        decreases n - i,
    {
        let c = text.get_char(i);
        assert(digits[i - start] == c);
        let v: u32 = c as u32;
        if v < 0x30 || v > 0x39 {
            assert(!is_digit(digits[i - start]));
            return None;
        }
        let next: u64 = acc * 10 + (v - 0x30) as u64;
        proof {
            let longer = digits.subrange(0, i - start + 1);
            assert(longer.drop_last() =~= digits.subrange(0, i - start));
            assert(longer.last() == c);
            assert(next == decimal_value(longer));
            lemma_decimal_prefix(digits, i - start + 1);
        }
        if next > 0xFFFF_FFFF {
            return None;
        }
        acc = next;
        i += 1;
    }
    assert(digits.subrange(0, n - start) =~= digits);
    Some(acc as u32)
}

/// Reads the copy count of a job. A text that writes no number asks for one
/// copy; this never fails.
pub fn parse_copies(text: &str) -> (copies: u32)
    ensures
        copies == copies_of(text@),
{
    match parse_u32(text) {
        Some(n) => n,
        None => 1,
    }
}

} // verus!
