//! Command lines as text: the characters of a line, its words, and words
//! compared with keywords.

use vstd::prelude::*;
use vstd::std_specs::iter::IteratorSpec;

verus! {

/// The number of characters in front of the first space of `text`, or the
/// length of `text` where it holds no space.
pub open spec fn first_space(text: Seq<char>) -> nat
    decreases text.len(),
{
    if text.len() == 0 || text[0] == ' ' {
        0
    } else {
        1 + first_space(text.drop_first())
    }
}

/// The words of `text`: what stands between its spaces, in front of the first
/// and behind the last. A text without a space is one word, the empty text
/// too; two spaces in a row enclose an empty word.
pub open spec fn split_words(text: Seq<char>) -> Seq<Seq<char>>
    decreases text.len(),
{
    let n = first_space(text);
    if n >= text.len() {
        seq![text]
    } else {
        seq![text.take(n as int)] + split_words(text.skip(n as int + 1))
    }
}

/// `c` with an upper-case ASCII letter turned into the lower-case one.
pub open spec fn ascii_lower(c: char) -> char {
    if 'A' <= c <= 'Z' {
        ((c as u8) + 32) as char
    } else {
        c
    }
}

/// `text` with every upper-case ASCII letter turned into the lower-case one.
pub open spec fn lower(text: Seq<char>) -> Seq<char> {
    Seq::new(text.len(), |i: int| ascii_lower(text[i]))
}

/// A prefix of `text` of length `n` that holds no space and ends at the end
/// of `text` or in front of a space reaches to the first space.
pub proof fn lemma_first_space_is(text: Seq<char>, n: nat)
    requires
        n <= text.len(),
        forall|k: int| 0 <= k < n ==> text[k] != ' ',
        n == text.len() || text[n as int] == ' ',
    ensures
        first_space(text) == n,
    decreases n,
{
    if n > 0 {
        let rest = text.drop_first();
        assert forall|k: int| 0 <= k < n - 1 implies rest[k] != ' ' by {
            assert(rest[k] == text[k + 1]);
        }
        if n < text.len() {
            assert(rest[n - 1] == text[n as int]);
        }
        lemma_first_space_is(rest, (n - 1) as nat);
    }
}

/// The characters of `s`.
pub fn to_chars(s: &str) -> (chars: Vec<char>)
    ensures
        chars@ == s@,
{
    let mut chars: Vec<char> = Vec::new();
    for c in it: s.chars()
        invariant
            chars@ == it.seq().take(it.index() as int),
            it.seq() == s@,
    {
        chars.push(c);
    }
    chars
}

/// Where the words of `text` stand: for each word the index of its first
/// character and the index behind its last.
pub fn word_bounds(text: &[char]) -> (bounds: Vec<(usize, usize)>)
    ensures
        bounds@.len() == split_words(text@).len(),
        forall|w: int|
            #![trigger bounds@[w]]
            0 <= w < bounds@.len() ==> bounds@[w].0 <= bounds@[w].1 <= text@.len() && split_words(
                text@,
            )[w] == text@.subrange(bounds@[w].0 as int, bounds@[w].1 as int),
{
    let len = text.len();
    let mut bounds: Vec<(usize, usize)> = Vec::new();
    let ghost mut done: Seq<Seq<char>> = Seq::empty();
    let mut start: usize = 0;
    let mut i: usize = 0;
    proof {
        assert(text@.skip(0) =~= text@);
        assert(done + split_words(text@.skip(0)) =~= split_words(text@));
    }
    while i < len
        invariant
            len == text@.len(),
            start <= i <= len,
            done + split_words(text@.skip(start as int)) == split_words(text@),
            done.len() == bounds@.len(),
            forall|k: int| start <= k < i ==> text@[k] != ' ',
            forall|w: int|
                #![trigger bounds@[w]]
                0 <= w < bounds@.len() ==> bounds@[w].0 <= bounds@[w].1 <= text@.len() && done[w]
                    == text@.subrange(bounds@[w].0 as int, bounds@[w].1 as int),
        decreases len - i,
    {
        if text[i] == ' ' {
            proof {
                let rest = text@.skip(start as int);
                let n = (i - start) as nat;
                assert forall|k: int| 0 <= k < n implies rest[k] != ' ' by {
                    assert(rest[k] == text@[start + k]);
                }
                assert(rest[n as int] == text@[i as int]);
                lemma_first_space_is(rest, n);
                assert(rest.take(n as int) =~= text@.subrange(start as int, i as int));
                assert(rest.skip(n as int + 1) =~= text@.skip(i + 1));
                assert(done.push(rest.take(n as int)) + split_words(text@.skip(i + 1)) =~= done
                    + split_words(rest));
                done = done.push(rest.take(n as int));
            }
            bounds.push((start, i));
            start = i + 1;
        }
        i = i + 1;
    }
    proof {
        let rest = text@.skip(start as int);
        let n = (len - start) as nat;
        assert forall|k: int| 0 <= k < n implies rest[k] != ' ' by {
            assert(rest[k] == text@[start + k]);
        }
        lemma_first_space_is(rest, n);
        assert(rest =~= text@.subrange(start as int, len as int));
        assert(done.push(rest) =~= done + split_words(rest));
        done = done.push(rest);
    }
    bounds.push((start, len));
    bounds
}

/// `c` with an upper-case ASCII letter turned into the lower-case one.
pub fn to_ascii_lower(c: char) -> (low: char)
    ensures
        low == ascii_lower(c),
{
    if c >= 'A' && c <= 'Z' {
        ((c as u8) + 32) as char
    } else {
        c
    }
}

/// Whether `word` is `keyword`, letter for letter.
pub fn word_is(word: &[char], keyword: &str) -> (same: bool)
    ensures
        same == (word@ == keyword@),
{
    let expected = to_chars(keyword);
    if word.len() != expected.len() {
        return false;
    }
    let mut i: usize = 0;
    while i < word.len()
        invariant
            i <= word@.len() == expected@.len(),
            expected@ == keyword@,
            forall|k: int| 0 <= k < i ==> word@[k] == expected@[k],
        decreases word@.len() - i,
    {
        if word[i] != expected[i] {
            return false;
        }
        i = i + 1;
    }
    proof {
        assert(word@ =~= expected@);
    }
    true
}

/// Whether `word` is `keyword` when ASCII upper case and lower case count as
/// the same in `word`.
pub fn word_is_lower(word: &[char], keyword: &str) -> (same: bool)
    ensures
        same == (lower(word@) == keyword@),
{
    let expected = to_chars(keyword);
    if word.len() != expected.len() {
        return false;
    }
    let mut i: usize = 0;
    while i < word.len()
        invariant
            i <= word@.len() == expected@.len(),
            expected@ == keyword@,
            forall|k: int| 0 <= k < i ==> lower(word@)[k] == expected@[k],
        decreases word@.len() - i,
    {
        if to_ascii_lower(word[i]) != expected[i] {
            assert(lower(word@)[i as int] != expected@[i as int]);
            return false;
        }
        i = i + 1;
    }
    proof {
        assert(lower(word@) =~= expected@);
    }
    true
}

} // verus!
