//! Character-level helpers on string slices.

use vstd::prelude::*;

verus! {

/// The characters of `text`, in order.
pub fn chars_of(text: &str) -> (chars: Vec<char>)
    ensures
        chars@ == text@,
{
    let mut chars: Vec<char> = Vec::new();
    for c in it: text.chars()
        invariant
            chars@ == it.seq().take(it.index() as int),
            it.seq() == text@,
    {
        chars.push(c);
    }
    chars
}

/// Whether `a` and `b` hold the same characters.
pub fn same_text(a: &str, b: &str) -> (same: bool)
    ensures
        same == (a@ == b@),
{
    let left = chars_of(a);
    let right = chars_of(b);
    if left.len() != right.len() {
        return false;
    }
    let mut i: usize = 0;
    while i < left.len()
        invariant
            i <= left.len(),
            left.len() == right.len(),
            left@ == a@,
            right@ == b@,
            forall|k: int| 0 <= k < i ==> left@[k] == right@[k],
        decreases left.len() - i,
    {
        if left[i] != right[i] {
            return false;
        }
        i += 1;
    }
    assert(left@ =~= right@);
    true
}

/// Whether `text` begins with the characters of `prefix`.
pub fn begins_with(text: &str, prefix: &str) -> (begins: bool)
    ensures
        begins == prefix@.is_prefix_of(text@),
{
    let whole = chars_of(text);
    let head = chars_of(prefix);
    if head.len() > whole.len() {
        return false;
    }
    let mut i: usize = 0;
    while i < head.len()
        invariant
            i <= head.len() <= whole.len(),
            whole@ == text@,
            head@ == prefix@,
            forall|k: int| 0 <= k < i ==> head@[k] == whole@[k],
        decreases head.len() - i,
    {
        if head[i] != whole[i] {
            return false;
        }
        i += 1;
    }
    assert(head@ =~= whole@.subrange(0, head@.len() as int));
    true
}

pub open spec fn is_digit(c: char) -> bool {
    '0' <= c <= '9'
}

pub open spec fn all_digits(text: Seq<char>) -> bool {
    forall|i: int| 0 <= i < text.len() ==> is_digit(#[trigger] text[i])
}

/// The number that a run of decimal digits writes, most significant first.
pub open spec fn digits_value(text: Seq<char>) -> nat
    decreases text.len(),
{
    if text.len() == 0 {
        0
    } else {
        digits_value(text.drop_last()) * 10 + (text.last() as nat - '0' as nat) as nat
    }
}

/// The digits of an unsigned decimal literal: the text without one leading `+`.
pub open spec fn unsigned_digits(text: Seq<char>) -> Seq<char> {
    if text.len() > 0 && text[0] == '+' {
        text.skip(1)
    } else {
        text
    }
}

/// Whether `text` is an unsigned decimal literal that is at most `max`: an
/// optional `+`, then one or more digits and nothing else.
pub open spec fn is_unsigned(text: Seq<char>, max: nat) -> bool {
    let digits = unsigned_digits(text);
    digits.len() > 0 && all_digits(digits) && digits_value(digits) <= max
}

pub open spec fn unsigned_value(text: Seq<char>) -> nat {
    digits_value(unsigned_digits(text))
}

proof fn lemma_digits_step(text: Seq<char>, k: int)
    requires
        0 <= k < text.len(),
    ensures
        digits_value(text.take(k + 1)) == digits_value(text.take(k)) * 10 + (text[k] as nat
            - '0' as nat) as nat,
{
    assert(text.take(k + 1).drop_last() =~= text.take(k));
}

proof fn lemma_digits_grow(text: Seq<char>, k: int)
    requires
        0 <= k <= text.len(),
    ensures
        digits_value(text.take(k)) <= digits_value(text),
    decreases text.len() - k,
{
    if k == text.len() {
        assert(text.take(k) =~= text);
    } else {
        lemma_digits_step(text, k);
        lemma_digits_grow(text, k + 1);
    }
}

/// Reads an unsigned decimal literal no larger than `max`.
pub fn parse_unsigned(text: &Vec<char>, max: u64) -> (parsed: Option<u64>)
    ensures
        parsed is Some <==> is_unsigned(text@, max as nat),
        parsed matches Some(value) ==> value as nat == unsigned_value(text@),
{
    let start: usize = if text.len() > 0 && text[0] == '+' {
        1
    } else {
        0
    };
    if start == text.len() {
        return None;
    }
    let ghost digits = unsigned_digits(text@);
    assert(digits =~= text@.skip(start as int));
    let mut value: u64 = 0;
    let mut i: usize = start;
    while i < text.len()
        invariant
            start <= i <= text.len(),
            digits == text@.skip(start as int),
            digits == unsigned_digits(text@),
            all_digits(digits.take(i - start)),
            value as nat == digits_value(digits.take(i - start)),
            value <= max,
        decreases text.len() - i,
    {
        let c = text[i];
        let ghost k = i - start;
        assert(digits[k] == c);
        if c < '0' || c > '9' {
            return None;
        }
        let digit: u64 = (c as u32 - '0' as u32) as u64;
        proof {
            lemma_digits_step(digits, k);
            lemma_digits_grow(digits, k + 1);
        }
        if digit > max || value > (max - digit) / 10 {
            return None;
        }
        value = value * 10 + digit;
        i += 1;
        assert forall|j: int| 0 <= j < i - start implies is_digit(
            #[trigger] digits.take(i - start)[j],
        ) by {
            if j < k {
                assert(digits.take(k)[j] == digits[j]);
            }
        }
    }
    assert(digits.take(i - start) =~= digits);
    Some(value)
}

} // verus!
