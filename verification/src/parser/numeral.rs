//! The numerals: the texts that denote a number.
//!
//! A numeral is an optional sign and then `inf`, `infinity` or `nan` in any
//! mix of cases, or else a decimal number: digits with at most one point
//! among them, before them or after them, and at least one digit in all,
//! followed, if at all, by an exponent: `e` or `E`, an optional sign, and at
//! least one digit.

use vstd::prelude::*;
use crate::text::characters;

verus! {

pub open spec fn is_digit(c: char) -> bool {
    '0' <= c <= '9'
}

pub open spec fn is_sign(c: char) -> bool {
    c == '+' || c == '-'
}

/// The number of digits in `s` from `from` on, up to the first character
/// that is none.
pub open spec fn digits(s: Seq<char>, from: int) -> nat
    decreases s.len() - from,
{
    if 0 <= from < s.len() && is_digit(s[from]) {
        1 + digits(s, from + 1)
    } else {
        0
    }
}

/// Whether `c` is the lower-case letter `letter` or its capital.
pub open spec fn is_letter(c: char, letter: char) -> bool {
    c == letter || c as u32 + 32 == letter as u32
}

/// Whether `s` from `from` to its end spells `word`, a word of lower-case
/// letters, in any mix of cases.
pub open spec fn spells_word(s: Seq<char>, from: int, word: Seq<char>) -> bool {
    &&& 0 <= from
    &&& s.len() - from == word.len()
    &&& forall|i: int| 0 <= i < word.len() ==> is_letter(#[trigger] s[from + i], word[i])
}

/// Whether `s` from `from` to its end is an exponent: `e` or `E`, an
/// optional sign, and digits to the end, at least one.
pub open spec fn is_exponent(s: Seq<char>, from: int) -> bool {
    &&& 0 <= from < s.len()
    &&& is_letter(s[from], 'e')
    &&& {
        let start = if from + 1 < s.len() && is_sign(s[from + 1]) {
            from + 2
        } else {
            from + 1
        };
        digits(s, start) >= 1 && start + digits(s, start) == s.len()
    }
}

/// Whether `s` from `from` to its end is a decimal number.
pub open spec fn is_decimal(s: Seq<char>, from: int) -> bool {
    let whole = digits(s, from);
    let point = from + whole;
    if 0 <= point < s.len() && s[point] == '.' {
        let part = digits(s, point + 1);
        let end = point + 1 + part;
        whole + part >= 1 && (end == s.len() || is_exponent(s, end))
    } else {
        whole >= 1 && (point == s.len() || is_exponent(s, point))
    }
}

/// Whether `s` is a numeral.
pub open spec fn is_numeral(s: Seq<char>) -> bool {
    let from: int = if s.len() > 0 && is_sign(s[0]) {
        1
    } else {
        0
    };
    spells_word(s, from, "inf"@) || spells_word(s, from, "infinity"@) || spells_word(
        s,
        from,
        "nan"@,
    ) || is_decimal(s, from)
}

/// The position after the digits that start at `from`.
fn skip_digits(word: &Vec<char>, from: usize) -> (r: usize)
    requires
        from <= word.len(),
    ensures
        r == from + digits(word@, from as int),
        from <= r <= word.len(),
    decreases word.len() - from,
{
    if from < word.len() && '0' <= word[from] && word[from] <= '9' {
        skip_digits(word, from + 1)
    } else {
        from
    }
}

/// Whether `c` is the lower-case letter `letter` or its capital.
fn letter_is(c: char, letter: char) -> (r: bool)
    requires
        'a' <= letter <= 'z',
    ensures
        r == is_letter(c, letter),
{
    let code: u32 = c as u32;
    c == letter || (code <= 0x7f && code + 32 == letter as u32)
}

/// Whether `word` from `from` to its end spells `name`, one of the three
/// words of a numeral, in any mix of cases.
fn spells_from(word: &Vec<char>, from: usize, name: &Vec<char>) -> (r: bool)
    requires
        from <= word.len(),
        forall|i: int| 0 <= i < name.len() ==> 'a' <= #[trigger] name[i] <= 'z',
    ensures
        r == spells_word(word@, from as int, name@),
{
    if word.len() - from != name.len() {
        return false;
    }
    let mut i: usize = 0;
    while i < name.len()
        invariant
            i <= name.len(),
            from <= word.len(),
            word.len() - from == name.len(),
            forall|j: int| 0 <= j < name.len() ==> 'a' <= #[trigger] name[j] <= 'z',
            forall|j: int| 0 <= j < i ==> is_letter(#[trigger] word[from + j], name[j]),
        decreases name.len() - i,
    {
        if !letter_is(word[from + i], name[i]) {
            return false;
        }
        i = i + 1;
    }
    true
}

/// Whether `word` from `from` to its end is an exponent.
fn exponent_at(word: &Vec<char>, from: usize) -> (r: bool)
    requires
        from <= word.len(),
    ensures
        r == is_exponent(word@, from as int),
{
    if from >= word.len() || !letter_is(word[from], 'e') {
        return false;
    }
    let start: usize = if from + 1 < word.len() && (word[from + 1] == '+' || word[from + 1]
        == '-') {
        from + 2
    } else {
        from + 1
    };
    let end: usize = skip_digits(word, start);
    end > start && end == word.len()
}

/// Whether `word` from `from` to its end is a decimal number.
fn decimal_at(word: &Vec<char>, from: usize) -> (r: bool)
    requires
        from <= word.len(),
    ensures
        r == is_decimal(word@, from as int),
{
    let point: usize = skip_digits(word, from);
    if point < word.len() && word[point] == '.' {
        let end: usize = skip_digits(word, point + 1);
        (point - from) + (end - (point + 1)) >= 1 && (end == word.len() || exponent_at(word, end))
    } else {
        point > from && (point == word.len() || exponent_at(word, point))
    }
}

/// Whether `text` is a numeral.
pub fn denotes_number(text: &str) -> (r: bool)
    ensures
        r == is_numeral(text@),
{
    let word = characters(text);
    let from: usize = if word.len() > 0 && (word[0] == '+' || word[0] == '-') {
        1
    } else {
        0
    };
    let inf = characters("inf");
    let infinity = characters("infinity");
    let nan = characters("nan");
    proof {
        reveal_strlit("inf");
        reveal_strlit("infinity");
        reveal_strlit("nan");
    }
    spells_from(&word, from, &inf) || spells_from(&word, from, &infinity) || spells_from(
        &word,
        from,
        &nan,
    ) || decimal_at(&word, from)
}

} // verus!
