//! Splitting a script into tokens.

use vstd::prelude::*;
use vstd::string::*;
use crate::text::characters;

verus! {

/// The characters that Unicode classes as `White_Space`.
pub open spec fn is_space(c: char) -> bool {
    let u = c as u32;
    (0x09 <= u <= 0x0d) || u == 0x20 || u == 0x85 || u == 0xa0 || u == 0x1680 || (0x2000 <= u
        <= 0x200a) || u == 0x2028 || u == 0x2029 || u == 0x202f || u == 0x205f || u == 0x3000
}

/// What ends a run of characters.
#[derive(Clone, Copy)]
pub enum Stop {
    /// The line feed.
    LineEnd,
    /// Any white space.
    Space,
    /// Anything but white space.
    Visible,
}

pub open spec fn stops(stop: Stop, c: char) -> bool {
    match stop {
        Stop::LineEnd => c == '\n',
        Stop::Space => is_space(c),
        Stop::Visible => !is_space(c),
    }
}

/// The number of characters at the start of `s` before the first that stops
/// the run; all of `s` if none does.
pub open spec fn run(s: Seq<char>, stop: Stop) -> nat
    decreases s.len(),
{
    if s.len() == 0 || stops(stop, s[0]) {
        0
    } else {
        1 + run(s.skip(1), stop)
    }
}

/// The maximal runs of characters without white space in `s`, in order.
pub open spec fn words(s: Seq<char>) -> Seq<Seq<char>>
    decreases s.len(),
{
    if s.len() == 0 {
        Seq::empty()
    } else if is_space(s[0]) {
        words(s.skip(1))
    } else {
        let n = run(s, Stop::Space) as int;
        if 0 < n <= s.len() {
            seq![s.take(n)] + words(s.skip(n))
        } else {
            Seq::empty()
        }
    }
}

/// A line is a comment when `//` follows its leading white space.
pub open spec fn is_comment(line: Seq<char>) -> bool {
    let body = line.skip(run(line, Stop::Visible) as int);
    body.len() >= 2 && body[0] == '/' && body[1] == '/'
}

/// The tokens of one line: none for a comment, else its words.
pub open spec fn line_tokens(line: Seq<char>) -> Seq<Seq<char>> {
    if is_comment(line) {
        Seq::empty()
    } else {
        words(line)
    }
}

/// The tokens of a script: those of its lines, in order. Lines end at a
/// line feed.
pub open spec fn script_tokens(s: Seq<char>) -> Seq<Seq<char>>
    decreases s.len(),
{
    if s.len() == 0 {
        Seq::empty()
    } else {
        let n = run(s, Stop::LineEnd) as int;
        if n < s.len() {
            line_tokens(s.take(n)) + script_tokens(s.skip(n + 1))
        } else {
            line_tokens(s)
        }
    }
}

/// The character sequences of a list of tokens.
pub open spec fn texts(tokens: Seq<&str>) -> Seq<Seq<char>> {
    Seq::new(tokens.len(), |i: int| tokens[i]@)
}

/// A run ends at `n` when nothing before `n` stops it and `n` does, or is
/// the end.
pub proof fn lemma_run_is(s: Seq<char>, stop: Stop, n: int)
    requires
        0 <= n <= s.len(),
        forall|i: int| 0 <= i < n ==> !stops(stop, s[i]),
        n == s.len() || stops(stop, s[n]),
    ensures
        run(s, stop) == n,
    decreases s.len(),
{
    if n > 0 {
        lemma_run_is(s.skip(1), stop, n - 1);
    }
}

/// Nothing inside a run stops it, and a run is no longer than its text.
pub proof fn lemma_run_holds(s: Seq<char>, stop: Stop)
    ensures
        run(s, stop) <= s.len(),
        forall|i: int| 0 <= i < run(s, stop) ==> !stops(stop, #[trigger] s[i]),
    decreases s.len(),
{
    if !(s.len() == 0 || stops(stop, s[0])) {
        lemma_run_holds(s.skip(1), stop);
        assert forall|i: int| 0 <= i < run(s, stop) implies !stops(stop, #[trigger] s[i]) by {
            if i > 0 {
                assert(s.skip(1)[i - 1] == s[i]);
            }
        }
    }
}

/// A token: at least one character, and no white space in it.
pub open spec fn is_token(word: Seq<char>) -> bool {
    word.len() > 0 && forall|j: int| 0 <= j < word.len() ==> !is_space(#[trigger] word[j])
}

/// The words of a text are tokens.
pub proof fn lemma_words_are_tokens(s: Seq<char>)
    ensures
        forall|i: int| 0 <= i < words(s).len() ==> is_token(#[trigger] words(s)[i]),
    decreases s.len(),
{
    if s.len() > 0 {
        if is_space(s[0]) {
            lemma_words_are_tokens(s.skip(1));
            assert(words(s) == words(s.skip(1)));
        } else {
            let n = run(s, Stop::Space) as int;
            lemma_run_holds(s, Stop::Space);
            assert(0 < n <= s.len());
            lemma_words_are_tokens(s.skip(n));
            let first = s.take(n);
            let rest = words(s.skip(n));
            assert(is_token(first)) by {
                assert forall|j: int| 0 <= j < first.len() implies !is_space(
                    #[trigger] first[j],
                ) by {
                    assert(first[j] == s[j]);
                }
            }
            assert(words(s) == seq![first] + rest);
            assert forall|i: int| 0 <= i < words(s).len() implies is_token(
                #[trigger] words(s)[i],
            ) by {
                if i > 0 {
                    assert(words(s)[i] == rest[i - 1]);
                } else {
                    assert(words(s)[i] == first);
                }
            }
        }
    } else {
        assert(words(s).len() == 0);
    }
}

/// The tokens of a line are tokens.
pub proof fn lemma_line_tokens_are_tokens(line: Seq<char>)
    ensures
        forall|i: int| 0 <= i < line_tokens(line).len() ==> is_token(#[trigger] line_tokens(line)[i]),
{
    lemma_words_are_tokens(line);
}

/// What a script splits into are tokens: none is empty and none holds white
/// space, a line feed least of all, so that no token spans a line break.
/// The empty script has no tokens.
pub proof fn lemma_script_tokens_are_tokens(s: Seq<char>)
    ensures
        forall|i: int| 0 <= i < script_tokens(s).len() ==> is_token(#[trigger] script_tokens(s)[i]),
        s.len() == 0 ==> script_tokens(s).len() == 0,
    decreases s.len(),
{
    if s.len() > 0 {
        let n = run(s, Stop::LineEnd) as int;
        lemma_run_holds(s, Stop::LineEnd);
        if n < s.len() {
            let head = line_tokens(s.take(n));
            let tail = script_tokens(s.skip(n + 1));
            lemma_line_tokens_are_tokens(s.take(n));
            lemma_script_tokens_are_tokens(s.skip(n + 1));
            assert(script_tokens(s) == head + tail);
            assert forall|i: int| 0 <= i < script_tokens(s).len() implies is_token(
                #[trigger] script_tokens(s)[i],
            ) by {
                if i < head.len() {
                    assert(script_tokens(s)[i] == head[i]);
                } else {
                    assert(script_tokens(s)[i] == tail[i - head.len()]);
                }
            }
        } else {
            lemma_line_tokens_are_tokens(s);
        }
    }
}

/// Whether Unicode classes `c` as `White_Space`.
pub fn is_whitespace(c: char) -> (r: bool)
    ensures
        r == is_space(c),
{
    let u: u32 = c as u32;
    (0x09 <= u && u <= 0x0d) || u == 0x20 || u == 0x85 || u == 0xa0 || u == 0x1680 || (0x2000 <= u
        && u <= 0x200a) || u == 0x2028 || u == 0x2029 || u == 0x202f || u == 0x205f || u
        == 0x3000
}

/// Whether `c` ends a run of the given kind.
fn halts(stop: Stop, c: char) -> (r: bool)
    ensures
        r == stops(stop, c),
{
    match stop {
        Stop::LineEnd => c == '\n',
        Stop::Space => is_whitespace(c),
        Stop::Visible => !is_whitespace(c),
    }
}

/// The first position at or after `from`, and before `to`, whose character
/// stops the run; `to` if there is none.
fn scan(chars: &Vec<char>, from: usize, to: usize, stop: Stop) -> (r: usize)
    requires
        from <= to <= chars.len(),
    ensures
        from <= r <= to,
        r - from == run(chars@.subrange(from as int, to as int), stop),
{
    let mut i: usize = from;
    while i < to && !halts(stop, chars[i])
        invariant
            from <= i <= to <= chars.len(),
            forall|j: int| from <= j < i ==> !stops(stop, chars[j]),
        decreases to - i,
    {
        i = i + 1;
    }
    proof {
        lemma_run_is(chars@.subrange(from as int, to as int), stop, i - from);
    }
    i
}

/// Splits a script into its tokens: every line is trimmed, blank lines and
/// lines that start with `//` are dropped, and what is left is split at
/// white space.
pub fn tokenize_script<'a>(contents: &'a str) -> (tokens: Vec<&'a str>)
    ensures
        texts(tokens@) == script_tokens(contents@),
{
    let chars = characters(contents);
    let n: usize = chars.len();
    let mut tokens: Vec<&'a str> = Vec::new();
    let mut i: usize = 0;
    assert(chars@.skip(0) == chars@);
    assert(texts(tokens@) =~= Seq::<Seq<char>>::empty());
    while i < n
        invariant
            i <= n,
            n == chars.len(),
            chars@ == contents@,
            texts(tokens@) + script_tokens(chars@.skip(i as int)) == script_tokens(chars@),
        decreases n - i,
    {
        let ghost rest = chars@.skip(i as int);
        let ghost before = texts(tokens@);
        let end: usize = scan(&chars, i, n, Stop::LineEnd);
        let ghost line = chars@.subrange(i as int, end as int);
        assert(chars@.subrange(i as int, n as int) == rest);
        assert(rest.take(end - i) == line);
        let first: usize = scan(&chars, i, end, Stop::Visible);
        assert(line.skip(first - i) == chars@.subrange(first as int, end as int));
        let comment: bool = end - first >= 2 && chars[first] == '/' && chars[first + 1] == '/';
        assert(comment == is_comment(line));
        if !comment {
            let mut j: usize = i;
            assert(line.skip(0) == line);
            while j < end
                invariant
                    i <= j <= end <= n,
                    n == chars.len(),
                    chars@ == contents@,
                    line == chars@.subrange(i as int, end as int),
                    texts(tokens@) == before + words(line).take(
                        words(line).len() - words(line.skip(j - i)).len(),
                    ),
                    words(line).skip(words(line).len() - words(line.skip(j - i)).len()) == words(
                        line.skip(j - i),
                    ),
                    words(line.skip(j - i)).len() <= words(line).len(),
                decreases end - j,
            {
                let ghost tail = line.skip(j - i);
                assert(tail == chars@.subrange(j as int, end as int));
                if is_whitespace(chars[j]) {
                    assert(tail.skip(1) == line.skip(j + 1 - i));
                    j = j + 1;
                } else {
                    let k: usize = scan(&chars, j, end, Stop::Space);
                    assert(tail.skip(k - j) == line.skip(k - i));
                    assert(tail.take(k - j) == chars@.subrange(j as int, k as int));
                    let word: &'a str = contents.substring_char(j, k);
                    proof {
                        let all = words(line);
                        let left = words(tail);
                        let next = words(line.skip(k - i));
                        assert(left == seq![tail.take(k - j)] + next);
                        assert(left.len() == next.len() + 1);
                        let at = all.len() - left.len();
                        assert(all.skip(at)[0] == left[0]);
                        assert(all.take(at + 1) == all.take(at).push(word@));
                        assert(all.skip(at + 1) == all.skip(at).skip(1));
                        assert(left.skip(1) == next);
                        assert(texts(tokens@.push(word)) == texts(tokens@).push(word@));
                    }
                    tokens.push(word);
                    j = k;
                }
            }
            proof {
                assert(line.skip(end - i).len() == 0);
                assert(words(line).take(words(line).len() as int) == words(line));
            }
        }
        assert(texts(tokens@) == before + line_tokens(line));
        proof {
            if end < n {
                assert(rest.skip(end - i + 1) == chars@.skip(end + 1));
            } else {
                assert(rest.take(end - i) == rest);
                assert(chars@.skip(n as int).len() == 0);
            }
            assert(script_tokens(rest) == line_tokens(line) + script_tokens(
                chars@.skip(if end < n { end + 1 } else { n as int }),
            ));
        }
        i = if end < n {
            end + 1
        } else {
            n
        };
    }
    assert(chars@.skip(n as int).len() == 0);
    tokens
}

} // verus!
