//! Text as sequences of characters.

use vstd::prelude::*;
use vstd::string::*;

verus! {

/// `s` without the run of `c` at its start.
pub open spec fn strip(s: Seq<char>, c: char) -> Seq<char>
    decreases s.len(),
{
    if s.len() > 0 && s[0] == c {
        strip(s.skip(1), c)
    } else {
        s
    }
}

pub open spec fn starts_with(s: Seq<char>, c: char) -> bool {
    s.len() > 0 && s[0] == c
}

proof fn lemma_strip(s: Seq<char>, c: char, n: int)
    requires
        0 <= n <= s.len(),
        forall|i: int| 0 <= i < n ==> s[i] == c,
        n == s.len() || s[n] != c,
    ensures
        strip(s, c) == s.skip(n),
    decreases s.len(),
{
    if n > 0 {
        lemma_strip(s.skip(1), c, n - 1);
        assert(s.skip(1).skip(n - 1) == s.skip(n));
    } else {
        assert(s.skip(0) == s);
    }
}

/// The characters of `s`, in order.
pub fn characters(s: &str) -> (r: Vec<char>)
    ensures
        r@ == s@,
{
    let mut out: Vec<char> = Vec::new();
    for c in it: s.chars()
        invariant
            out@ == it.seq().take(it.index()),
    {
        out.push(c);
    }
    out
}

/// Whether `word` holds exactly the characters of `text`.
pub fn spells(word: &Vec<char>, text: &str) -> (r: bool)
    ensures
        r == (word@ == text@),
{
    let mut same: bool = true;
    let mut n: usize = 0;
    let ghost mut seen: int = 0;
    for c in it: text.chars()
        invariant
            it.seq() == text@,
            seen == it.index(),
            n <= word.len(),
            same ==> n == seen && word@.take(n as int) == text@.take(seen),
            !same ==> word@ != text@,
    {
        if same {
            if n < word.len() && word[n] == c {
                proof {
                    assert(word@.take(n + 1) == word@.take(n as int).push(word@[n as int]));
                    assert(text@.take(seen + 1) == text@.take(seen).push(c));
                }
                n = n + 1;
            } else {
                same = false;
                proof {
                    if word@ == text@ {
                        assert(word@[n as int] == c);
                    }
                }
            }
        }
        proof {
            seen = seen + 1;
        }
    }
    assert(seen == text@.len());
    if same && n == word.len() {
        assert(word@.take(n as int) == word@);
        assert(text@.take(seen) == text@);
        true
    } else {
        false
    }
}

/// Whether two texts hold the same characters.
pub fn same_text(a: &str, b: &str) -> (r: bool)
    ensures
        r == (a@ == b@),
{
    let word = characters(a);
    spells(&word, b)
}

/// Whether two words hold the same characters.
pub fn same_word(a: &Vec<char>, b: &Vec<char>) -> (r: bool)
    ensures
        r == (a@ == b@),
{
    if a.len() != b.len() {
        return false;
    }
    let mut i: usize = 0;
    while i < a.len()
        invariant
            i <= a.len(),
            a.len() == b.len(),
            forall|j: int| 0 <= j < i ==> a[j] == b[j],
        decreases a.len() - i,
    {
        if a[i] != b[i] {
            return false;
        }
        i = i + 1;
    }
    assert(a@ =~= b@);
    true
}

/// `text` without the run of `c` at its start.
pub fn trim_start<'a>(text: &'a str, c: char) -> (r: &'a str)
    ensures
        r@ == strip(text@, c),
{
    let word = characters(text);
    let mut n: usize = 0;
    while n < word.len() && word[n] == c
        invariant
            n <= word.len(),
            forall|i: int| 0 <= i < n ==> word[i] == c,
        decreases word.len() - n,
    {
        n = n + 1;
    }
    proof {
        lemma_strip(text@, c, n as int);
        assert(text@.subrange(n as int, text@.len() as int) == text@.skip(n as int));
    }
    text.substring_char(n, word.len())
}

/// Whether `text` starts with `c`.
pub fn first_is(text: &str, c: char) -> (r: bool)
    ensures
        r == starts_with(text@, c),
{
    let word = characters(text);
    word.len() > 0 && word[0] == c
}

} // verus!
