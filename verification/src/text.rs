//! Texts as sequences of characters: numerals, concatenation, copies.

use vstd::prelude::*;
use vstd::string::*;

verus! {

/// The digit characters of lowercase hexadecimal, indexed by their value.
/// The first ten are the decimal digits.
pub open spec fn digit_char(value: int) -> char
    recommends
        0 <= value < 16,
{
    "0123456789abcdef"@[value]
}

/// The decimal numeral of `n`, without leading zeros.
pub open spec fn decimal_text(n: nat) -> Seq<char>
    decreases n,
{
    if n < 10 {
        seq![digit_char(n as int)]
    } else {
        decimal_text(n / 10).push(digit_char((n % 10) as int))
    }
}

/// The texts of `parts` written one after another, with nothing between.
pub open spec fn concat_all(parts: Seq<Seq<char>>) -> Seq<char>
    decreases parts.len(),
{
    if parts.len() == 0 {
        Seq::empty()
    } else {
        concat_all(parts.drop_last()) + parts.last()
    }
}

/// The views of a sequence of strings.
pub open spec fn texts(strings: Seq<String>) -> Seq<Seq<char>> {
    Seq::new(strings.len(), |i: int| strings[i]@)
}

/// Whether the first `count` characters of `text` exist and are all `'0'`.
pub open spec fn has_leading_zeros(text: Seq<char>, count: nat) -> bool {
    &&& count <= text.len()
    &&& forall|i: int| 0 <= i < count ==> text[i] == '0'
}

/// The one-character text of a digit.
pub fn digit_str(value: u8) -> (digit: &'static str)
    requires
        value < 16,
    ensures
        digit@ == seq![digit_char(value as int)],
{
    let digits = "0123456789abcdef";
    proof {
        reveal_strlit("0123456789abcdef");
    }
    let digit = digits.substring_char(value as usize, value as usize + 1);
    assert(digit@ =~= seq![digit_char(value as int)]);
    digit
}

/// Appends the decimal numeral of `n` to `text`.
pub fn append_decimal(text: &mut String, n: u64)
    ensures
        final(text)@ == old(text)@ + decimal_text(n as nat),
    decreases n,
{
    if n >= 10 {
        append_decimal(text, n / 10);
    }
    text.append(digit_str((n % 10) as u8));
    assert(text@ =~= old(text)@ + decimal_text(n as nat));
}

/// Copies a list of strings.
pub fn copy_texts(source: &Vec<String>) -> (copy: Vec<String>)
    ensures
        texts(copy@) == texts(source@),
{
    let mut copy: Vec<String> = Vec::new();
    let mut i: usize = 0;
    while i < source.len()
        invariant
            i <= source.len(),
            copy@.len() == i,
            forall|j: int| 0 <= j < i ==> copy@[j]@ == source@[j]@,
        decreases source.len() - i,
    {
        copy.push(source[i].clone());
        i += 1;
    }
    assert(texts(copy@) =~= texts(source@));
    copy
}

/// Whether `text` begins with `count` zero digits.
pub fn starts_with_zeros(text: &str, count: usize) -> (ok: bool)
    ensures
        ok == has_leading_zeros(text@, count as nat),
{
    if count > text.unicode_len() {
        return false;
    }
    let mut i: usize = 0;
    while i < count
        invariant
            i <= count <= text@.len(),
            forall|j: int| 0 <= j < i ==> text@[j] == '0',
        decreases count - i,
    {
        if text.get_char(i) != '0' {
            return false;
        }
        i += 1;
    }
    true
}

} // verus!
