//! Lines of text as sequences of characters: separators, words, trimming.

use vstd::prelude::*;
use vstd::string::StrSliceExecFns;

verus! {

/// Whether `c` separates words: the code points that Unicode gives the
/// property `White_Space`.
pub open spec fn is_space(c: char) -> bool {
    ||| '\u{9}' <= c <= '\u{d}'
    ||| c == ' '
    ||| c == '\u{85}'
    ||| c == '\u{a0}'
    ||| c == '\u{1680}'
    ||| '\u{2000}' <= c <= '\u{200a}'
    ||| c == '\u{2028}'
    ||| c == '\u{2029}'
    ||| c == '\u{202f}'
    ||| c == '\u{205f}'
    ||| c == '\u{3000}'
}

/// A token is a non-empty run of characters, none of them a separator.
pub open spec fn is_token(s: Seq<char>) -> bool {
    &&& s.len() > 0
    &&& forall|i: int| 0 <= i < s.len() ==> !is_space(#[trigger] s[i])
}

/// The number of separators that `s` begins with.
pub open spec fn leading_spaces(s: Seq<char>) -> nat
    decreases s.len(),
{
    if s.len() > 0 && is_space(s[0]) {
        1 + leading_spaces(s.drop_first())
    } else {
        0
    }
}

/// The number of separators that `s` ends with.
pub open spec fn trailing_spaces(s: Seq<char>) -> nat
    decreases s.len(),
{
    if s.len() > 0 && is_space(s.last()) {
        1 + trailing_spaces(s.drop_last())
    } else {
        0
    }
}

/// The number of characters before the first separator of `s`.
pub open spec fn word_len(s: Seq<char>) -> nat
    decreases s.len(),
{
    if s.len() > 0 && !is_space(s[0]) {
        1 + word_len(s.drop_first())
    } else {
        0
    }
}

/// `s` without the separators it begins with.
pub open spec fn trim_start(s: Seq<char>) -> Seq<char> {
    s.skip(leading_spaces(s) as int)
}

/// `s` without the separators it ends with.
pub open spec fn trim_end(s: Seq<char>) -> Seq<char> {
    s.take(s.len() - trailing_spaces(s))
}

/// `s` without the separators at either end.
pub open spec fn trim(s: Seq<char>) -> Seq<char> {
    trim_end(trim_start(s))
}

/// The words of `s`: its maximal runs of characters that are not separators,
/// from left to right.
pub open spec fn words(s: Seq<char>) -> Seq<Seq<char>>
    decreases s.len(),
{
    if s.len() == 0 {
        Seq::empty()
    } else if is_space(s[0]) {
        words(s.drop_first())
    } else {
        proof {
            lemma_word_len_bound(s);
        }
        seq![s.take(word_len(s) as int)] + words(s.skip(word_len(s) as int))
    }
}

/// What follows the first word of `s`, up to the end of `s`.
pub open spec fn after_first_word(s: Seq<char>) -> Seq<char> {
    trim_start(s).skip(word_len(trim_start(s)) as int)
}

/// A stretch of a line, by the positions of its first character and of the
/// one after its last.
#[derive(Clone, Copy, Debug)]
pub struct Span {
    pub start: usize,
    pub end: usize,
}

impl Span {
    /// The span lies within a line of `len` characters and is not empty.
    pub open spec fn fits(self, len: nat) -> bool {
        self.start < self.end <= len
    }

    /// The characters of `s` that the span covers.
    pub open spec fn of(self, s: Seq<char>) -> Seq<char> {
        s.subrange(self.start as int, self.end as int)
    }
}

/// The separators that `s` begins with end before its first character
/// that is none.
pub proof fn lemma_leading_spaces_bound(s: Seq<char>)
    ensures
        leading_spaces(s) <= s.len(),
        leading_spaces(s) < s.len() ==> !is_space(s[leading_spaces(s) as int]),
        forall|i: int| 0 <= i < leading_spaces(s) ==> is_space(#[trigger] s[i]),
    decreases s.len(),
{
    if s.len() > 0 && is_space(s[0]) {
        lemma_leading_spaces_bound(s.drop_first());
        assert forall|i: int| 0 <= i < leading_spaces(s) implies is_space(#[trigger] s[i]) by {
            if i > 0 {
                assert(s[i] == s.drop_first()[i - 1]);
            }
        }
    }
}

/// Where the first `n` characters of `s` are separators and the next one is
/// none, `s` begins with `n` separators.
pub proof fn lemma_leading_spaces_is(s: Seq<char>, n: int)
    requires
        0 <= n <= s.len(),
        forall|i: int| 0 <= i < n ==> is_space(#[trigger] s[i]),
        n < s.len() ==> !is_space(s[n]),
    ensures
        leading_spaces(s) == n,
    decreases n,
{
    if n > 0 {
        assert(is_space(s[0]));
        assert forall|i: int| 0 <= i < n - 1 implies is_space(#[trigger] s.drop_first()[i]) by {
            assert(s.drop_first()[i] == s[i + 1]);
        }
        lemma_leading_spaces_is(s.drop_first(), n - 1);
    }
}

/// The first word of `s` ends before its first separator.
pub proof fn lemma_word_len_bound(s: Seq<char>)
    ensures
        word_len(s) <= s.len(),
        word_len(s) < s.len() ==> is_space(s[word_len(s) as int]),
        forall|i: int| 0 <= i < word_len(s) ==> !is_space(#[trigger] s[i]),
    decreases s.len(),
{
    if s.len() > 0 && !is_space(s[0]) {
        lemma_word_len_bound(s.drop_first());
        assert forall|i: int| 0 <= i < word_len(s) implies !is_space(#[trigger] s[i]) by {
            if i > 0 {
                assert(s[i] == s.drop_first()[i - 1]);
            }
        }
    }
}

/// Where the first `n` characters of `s` are no separators and the next one
/// is, the first word of `s` has `n` characters.
pub proof fn lemma_word_len_is(s: Seq<char>, n: int)
    requires
        0 <= n <= s.len(),
        forall|i: int| 0 <= i < n ==> !is_space(#[trigger] s[i]),
        n < s.len() ==> is_space(s[n]),
    ensures
        word_len(s) == n,
    decreases n,
{
    if n > 0 {
        assert(!is_space(s[0]));
        assert forall|i: int| 0 <= i < n - 1 implies !is_space(#[trigger] s.drop_first()[i]) by {
            assert(s.drop_first()[i] == s[i + 1]);
        }
        lemma_word_len_is(s.drop_first(), n - 1);
    }
}

/// Where the last `n` characters of `s` are separators and the one before
/// them is none, `s` ends with `n` separators.
pub proof fn lemma_trailing_spaces_is(s: Seq<char>, n: int)
    requires
        0 <= n <= s.len(),
        forall|i: int| s.len() - n <= i < s.len() ==> is_space(#[trigger] s[i]),
        n < s.len() ==> !is_space(s[s.len() - n - 1]),
    ensures
        trailing_spaces(s) == n,
    decreases n,
{
    if n > 0 {
        assert(is_space(s[s.len() - 1]));
        assert forall|i: int| s.drop_last().len() - (n - 1) <= i < s.drop_last().len() implies is_space(
            #[trigger] s.drop_last()[i],
        ) by {
            assert(s.drop_last()[i] == s[i]);
        }
        lemma_trailing_spaces_is(s.drop_last(), n - 1);
    }
}

/// Tells whether `c` separates words.
pub fn separates(c: char) -> (b: bool)
    ensures
        b == is_space(c),
{
    ('\u{9}' <= c && c <= '\u{d}') || c == ' ' || c == '\u{85}' || c == '\u{a0}' || c == '\u{1680}'
        || ('\u{2000}' <= c && c <= '\u{200a}') || c == '\u{2028}' || c == '\u{2029}' || c
        == '\u{202f}' || c == '\u{205f}' || c == '\u{3000}'
}

/// The characters of `s`, in order.
pub fn chars_of(s: &str) -> (out: Vec<char>)
    ensures
        out@ == s@,
{
    let mut out: Vec<char> = Vec::new();
    for c in it: s.chars()
        invariant
            out@ == it.seq().take(it.index() as int),
            it.seq() == s@,
    {
        out.push(c);
    }
    out
}

/// The position of the first character at or after `from` that is no
/// separator, or the length of the line where there is none.
pub fn skip_spaces(chars: &[char], from: usize) -> (to: usize)
    requires
        from <= chars.len(),
    ensures
        to == from + leading_spaces(chars@.skip(from as int)),
        to <= chars.len(),
{
    let mut i: usize = from;
    while i < chars.len() && separates(chars[i])
        invariant
            from <= i <= chars.len(),
            leading_spaces(chars@.skip(from as int)) == (i - from) + leading_spaces(
                chars@.skip(i as int),
            ),
        decreases chars.len() - i,
    {
        assert(chars@.skip(i as int).drop_first() =~= chars@.skip(i + 1));
        i += 1;
    }
    i
}

/// The position of the first separator at or after `from`, or the length of
/// the line where there is none.
pub fn skip_word(chars: &[char], from: usize) -> (to: usize)
    requires
        from <= chars.len(),
    ensures
        to == from + word_len(chars@.skip(from as int)),
        to <= chars.len(),
{
    let mut i: usize = from;
    while i < chars.len() && !separates(chars[i])
        invariant
            from <= i <= chars.len(),
            word_len(chars@.skip(from as int)) == (i - from) + word_len(chars@.skip(i as int)),
        decreases chars.len() - i,
    {
        assert(chars@.skip(i as int).drop_first() =~= chars@.skip(i + 1));
        i += 1;
    }
    i
}

/// The position after the last character at or after `from` that is no
/// separator, or `from` where there is none.
pub fn skip_spaces_back(chars: &[char], from: usize) -> (to: usize)
    requires
        from <= chars.len(),
    ensures
        to == chars.len() - trailing_spaces(chars@.skip(from as int)),
        from <= to <= chars.len(),
{
    let mut i: usize = chars.len();
    assert(chars@.skip(from as int) =~= chars@.subrange(from as int, i as int));
    while i > from && separates(chars[i - 1])
        invariant
            from <= i <= chars.len(),
            trailing_spaces(chars@.skip(from as int)) == (chars.len() - i) + trailing_spaces(
                chars@.subrange(from as int, i as int),
            ),
        decreases i,
    {
        assert(chars@.subrange(from as int, i as int).drop_last() =~= chars@.subrange(
            from as int,
            i - 1,
        ));
        i -= 1;
    }
    i
}

/// Where the words of a line stand, from left to right.
pub fn word_spans(chars: &[char]) -> (spans: Vec<Span>)
    ensures
        spans.len() == words(chars@).len(),
        forall|k: int|
            0 <= k < spans.len() ==> (#[trigger] spans[k]).fits(chars@.len()) && spans[k].of(chars@)
                == words(chars@)[k],
        spans.len() > 0 ==> spans[0].start == leading_spaces(chars@),
        forall|k: int|
            0 <= k < spans.len() ==> (#[trigger] spans[k]).end == spans[k].start + word_len(
                chars@.skip(spans[k].start as int),
            ),
        forall|k: int|
            0 < k < spans.len() ==> (#[trigger] spans[k]).start == spans[k - 1].end
                + leading_spaces(chars@.skip(spans[k - 1].end as int)),
{
    let ghost s = chars@;
    let ghost mut done: Seq<Seq<char>> = Seq::empty();
    let ghost mut last_end: int = 0;
    let mut spans: Vec<Span> = Vec::new();
    let mut i: usize = skip_spaces(chars, 0);
    proof {
        assert(s.skip(0) =~= s);
        lemma_words_skip_spaces(s);
        lemma_leading_spaces_bound(s);
    }
    while i < chars.len()
        invariant
            s == chars@,
            i <= chars.len(),
            i < chars.len() ==> !is_space(s[i as int]),
            words(s) == done + words(s.skip(i as int)),
            done.len() == spans.len(),
            forall|k: int|
                0 <= k < spans.len() ==> (#[trigger] spans[k]).fits(s.len()) && spans[k].of(s)
                    == done[k],
            spans.len() > 0 ==> spans[0].start == leading_spaces(s),
            forall|k: int|
                0 <= k < spans.len() ==> (#[trigger] spans[k]).end == spans[k].start + word_len(
                    s.skip(spans[k].start as int),
                ),
            forall|k: int|
                0 < k < spans.len() ==> (#[trigger] spans[k]).start == spans[k - 1].end
                    + leading_spaces(s.skip(spans[k - 1].end as int)),
            spans.len() == 0 ==> i == leading_spaces(s),
            spans.len() > 0 ==> last_end == spans[spans.len() - 1].end && i == last_end
                + leading_spaces(s.skip(last_end)),
        decreases chars.len() - i,
    {
        let j = skip_word(chars, i);
        let next = skip_spaces(chars, j);
        proof {
            let t = s.skip(i as int);
            let rest = s.skip(j as int);
            assert(t[0] == s[i as int]);
            assert(word_len(t) >= 1);
            assert(t.take(word_len(t) as int) =~= s.subrange(i as int, j as int));
            assert(t.skip(word_len(t) as int) =~= rest);
            lemma_words_skip_spaces(rest);
            lemma_leading_spaces_bound(rest);
            assert(trim_start(rest) =~= s.skip(next as int));
            assert(words(t) == seq![s.subrange(i as int, j as int)] + words(s.skip(next as int)));
            assert(done + words(t) =~= done.push(s.subrange(i as int, j as int)) + words(
                s.skip(next as int),
            ));
            done = done.push(s.subrange(i as int, j as int));
            last_end = j as int;
        }
        spans.push(Span { start: i, end: j });
        i = next;
    }
    proof {
        assert(s.skip(i as int).len() == 0);
        assert(done + words(s.skip(i as int)) =~= done);
    }
    spans
}

/// `line` without the separators at either end.
pub fn trimmed(line: &str) -> (out: &str)
    ensures
        out@ == trim(line@),
{
    let chars = chars_of(line);
    let from = skip_spaces(&chars, 0);
    let to = skip_spaces_back(&chars, from);
    proof {
        assert(line@.skip(0) =~= line@);
        assert(trim(line@) =~= line@.subrange(from as int, to as int));
    }
    line.substring_char(from, to)
}

/// Separators at the front of a line do not change its words.
pub proof fn lemma_words_skip_spaces(s: Seq<char>)
    ensures
        words(s) == words(trim_start(s)),
    decreases s.len(),
{
    if s.len() > 0 && is_space(s[0]) {
        lemma_words_skip_spaces(s.drop_first());
        lemma_leading_spaces_bound(s.drop_first());
        assert(s.drop_first().skip(leading_spaces(s.drop_first()) as int) =~= s.skip(
            leading_spaces(s) as int,
        ));
    } else {
        assert(s.skip(0) =~= s);
    }
}

/// A token at the front of a line, with a separator or nothing behind it,
/// is the first word of the line.
pub proof fn lemma_words_after_token(token: Seq<char>, rest: Seq<char>)
    requires
        is_token(token),
        rest.len() > 0 ==> is_space(rest[0]),
    ensures
        words(token + rest) == seq![token] + words(rest),
{
    let s = token + rest;
    assert forall|i: int| 0 <= i < token.len() implies !is_space(#[trigger] s[i]) by {
        assert(s[i] == token[i]);
    }
    if rest.len() > 0 {
        assert(s[token.len() as int] == rest[0]);
    }
    lemma_word_len_is(s, token.len() as int);
    assert(s.take(token.len() as int) =~= token);
    assert(s.skip(token.len() as int) =~= rest);
}

/// Every word of a line is a token.
pub proof fn lemma_words_are_tokens(s: Seq<char>)
    ensures
        forall|k: int| 0 <= k < words(s).len() ==> is_token(#[trigger] words(s)[k]),
    decreases s.len(),
{
    if s.len() == 0 {
        assert(words(s).len() == 0);
    } else if is_space(s[0]) {
        lemma_words_are_tokens(s.drop_first());
        assert(words(s) == words(s.drop_first()));
    } else {
        let n = word_len(s) as int;
        lemma_word_len_bound(s);
        lemma_words_are_tokens(s.skip(n));
        assert(n >= 1);
        assert(is_token(s.take(n)));
        assert forall|k: int| 0 <= k < words(s).len() implies is_token(#[trigger] words(s)[k]) by {
            if k > 0 {
                assert(words(s)[k] == words(s.skip(n))[k - 1]);
            } else {
                assert(words(s)[0] == s.take(n));
            }
        }
    }
}

} // verus!
