//! Words and the spaces between them.
//!
//! A text is a sequence of characters. Its words are the maximal runs of
//! characters that are not white space, in the order in which they stand.
//! To normalise a text is to write its words with one blank between each
//! two of them and nothing before the first or after the last.

use easy_shortcuts::traits::Join;
use vstd::prelude::*;

verus! {

/// White space: the blank, the controls from tab to carriage return, and
/// the separators that Unicode adds to them.
pub open spec fn is_space(c: char) -> bool {
    let u = c as u32;
    ||| u == 0x20
    ||| 0x09 <= u <= 0x0D
    ||| u == 0x85
    ||| u == 0xA0
    ||| u == 0x1680
    ||| 0x2000 <= u <= 0x200A
    ||| u == 0x2028
    ||| u == 0x2029
    ||| u == 0x202F
    ||| u == 0x205F
    ||| u == 0x3000
}

/// A word is not empty and holds no white space.
pub open spec fn is_word(w: Seq<char>) -> bool {
    &&& w.len() > 0
    &&& forall|i: int| 0 <= i < w.len() ==> !is_space(#[trigger] w[i])
}

/// How many characters stand before the first white space of `s`.
pub open spec fn word_len(s: Seq<char>) -> nat
    decreases s.len(),
{
    if s.len() == 0 || is_space(s[0]) {
        0
    } else {
        1 + word_len(s.drop_first())
    }
}

/// The words of `s`, first to last.
pub open spec fn words(s: Seq<char>) -> Seq<Seq<char>>
    decreases s.len(),
    via words_decreases
{
    if s.len() == 0 {
        Seq::empty()
    } else if is_space(s[0]) {
        words(s.drop_first())
    } else {
        let n = word_len(s) as int;
        seq![s.take(n)] + words(s.skip(n))
    }
}

#[via_fn]
proof fn words_decreases(s: Seq<char>) {
    lemma_word_len_bounds(s);
}

/// The parts written one after the other with `delim` between each two.
pub open spec fn joined(parts: Seq<Seq<char>>, delim: char) -> Seq<char>
    decreases parts.len(),
{
    if parts.len() == 0 {
        Seq::empty()
    } else if parts.len() == 1 {
        parts[0]
    } else {
        parts[0] + seq![delim] + joined(parts.drop_first(), delim)
    }
}

/// The words of `s` with single blanks between them.
pub open spec fn normalized(s: Seq<char>) -> Seq<char> {
    joined(words(s), ' ')
}

/// The first word of a text ends inside the text, and it ends at a white
/// space or at the end.
pub proof fn lemma_word_len_bounds(s: Seq<char>)
    ensures
        word_len(s) <= s.len(),
        forall|i: int| 0 <= i < word_len(s) ==> !is_space(#[trigger] s[i]),
        word_len(s) < s.len() ==> is_space(s[word_len(s) as int]),
        s.len() > 0 && !is_space(s[0]) ==> word_len(s) > 0,
    decreases s.len(),
{
    if s.len() > 0 && !is_space(s[0]) {
        let rest = s.drop_first();
        lemma_word_len_bounds(rest);
        assert forall|i: int| 0 <= i < word_len(s) implies !is_space(#[trigger] s[i]) by {
            if i > 0 {
                assert(s[i] == rest[i - 1]);
            }
        }
        if word_len(s) < s.len() {
            assert(s[word_len(s) as int] == rest[word_len(rest) as int]);
        }
    }
}

/// A run of `k` characters without white space that stops at a white space
/// or at the end is the first word.
pub proof fn lemma_word_len_is(s: Seq<char>, k: int)
    requires
        0 <= k <= s.len(),
        forall|i: int| 0 <= i < k ==> !is_space(#[trigger] s[i]),
        k < s.len() ==> is_space(s[k]),
    ensures
        word_len(s) == k,
    decreases k,
{
    if k > 0 {
        let rest = s.drop_first();
        assert forall|i: int| 0 <= i < k - 1 implies !is_space(#[trigger] rest[i]) by {
            assert(rest[i] == s[i + 1]);
        }
        lemma_word_len_is(rest, k - 1);
    }
}

/// Every word of a text is a word: not empty and free of white space.
pub proof fn lemma_words_are_words(s: Seq<char>)
    ensures
        forall|i: int| 0 <= i < words(s).len() ==> is_word(#[trigger] words(s)[i]),
    decreases s.len(),
{
    if s.len() == 0 {
    } else if is_space(s[0]) {
        lemma_words_are_words(s.drop_first());
        assert(words(s) == words(s.drop_first()));
    } else {
        let n = word_len(s) as int;
        let others = words(s.skip(n));
        lemma_word_len_bounds(s);
        lemma_words_are_words(s.skip(n));
        assert(is_word(s.take(n)));
        assert forall|i: int| 0 <= i < words(s).len() implies is_word(#[trigger] words(s)[i]) by {
            if i > 0 {
                assert(words(s)[i] == others[i - 1]);
            }
        }
    }
}

/// A word followed by a text that does not go on with the word is the first
/// word of the whole, and the words of the text follow it.
pub proof fn lemma_words_after_word(w: Seq<char>, rest: Seq<char>)
    requires
        is_word(w),
        rest.len() > 0 ==> is_space(rest[0]),
    ensures
        words(w + rest) == seq![w] + words(rest),
{
    let s = w + rest;
    assert(!is_space(w[0]));
    assert(s[0] == w[0]);
    assert forall|i: int| 0 <= i < w.len() implies !is_space(#[trigger] s[i]) by {
        assert(s[i] == w[i]);
    }
    if rest.len() > 0 {
        assert(s[w.len() as int] == rest[0]);
    }
    lemma_word_len_is(s, w.len() as int);
    assert(s.take(w.len() as int) =~= w);
    assert(s.skip(w.len() as int) =~= rest);
}

/// White space at the front of a text adds no word.
pub proof fn lemma_words_after_space(c: char, rest: Seq<char>)
    requires
        is_space(c),
    ensures
        words(seq![c] + rest) == words(rest),
{
    let s = seq![c] + rest;
    assert(s[0] == c);
    assert(s.drop_first() =~= rest);
}

/// Words joined by blanks come apart again into the same words.
pub proof fn lemma_words_of_joined(parts: Seq<Seq<char>>)
    requires
        forall|i: int| 0 <= i < parts.len() ==> is_word(#[trigger] parts[i]),
    ensures
        words(joined(parts, ' ')) == parts,
    decreases parts.len(),
{
    if parts.len() == 0 {
    } else if parts.len() == 1 {
        lemma_words_after_word(parts[0], Seq::empty());
        assert(parts[0] + Seq::<char>::empty() =~= parts[0]);
        assert(seq![parts[0]] + Seq::<Seq<char>>::empty() =~= parts);
    } else {
        let rest = parts.drop_first();
        let tail = seq![' '] + joined(rest, ' ');
        assert forall|i: int| 0 <= i < rest.len() implies is_word(#[trigger] rest[i]) by {
            assert(rest[i] == parts[i + 1]);
        }
        lemma_words_of_joined(rest);
        lemma_words_after_space(' ', joined(rest, ' '));
        assert(tail[0] == ' ');
        lemma_words_after_word(parts[0], tail);
        assert(joined(parts, ' ') =~= parts[0] + tail);
        assert(seq![parts[0]] + rest =~= parts);
    }
}

/// White space between two texts keeps their words apart: the words of the
/// whole are those of the first text and then those of the second.
pub proof fn lemma_words_around_space(a: Seq<char>, c: char, b: Seq<char>)
    requires
        is_space(c),
    ensures
        words(a + seq![c] + b) == words(a) + words(b),
    decreases a.len(),
{
    let s = a + seq![c] + b;
    if a.len() == 0 {
        lemma_words_after_space(c, b);
        assert(s =~= seq![c] + b);
        assert(words(a) + words(b) =~= words(b));
    } else if is_space(a[0]) {
        assert(s[0] == a[0]);
        assert(s.drop_first() =~= a.drop_first() + seq![c] + b);
        lemma_words_around_space(a.drop_first(), c, b);
    } else {
        let n = word_len(a) as int;
        lemma_word_len_bounds(a);
        assert(s[0] == a[0]);
        assert forall|i: int| 0 <= i < n implies !is_space(#[trigger] s[i]) by {
            assert(s[i] == a[i]);
        }
        if n < a.len() {
            assert(s[n] == a[n]);
        } else {
            assert(s[n] == c);
        }
        lemma_word_len_is(s, n);
        assert(s.take(n) =~= a.take(n));
        assert(s.skip(n) =~= a.skip(n) + seq![c] + b);
        lemma_words_around_space(a.skip(n), c, b);
        assert(words(s) =~= words(a) + words(b));
    }
}

/// Joining two lists of parts that both hold something gives the two
/// joined texts with the delimiter between them.
pub proof fn lemma_joined_concat(a: Seq<Seq<char>>, b: Seq<Seq<char>>, delim: char)
    requires
        a.len() > 0,
        b.len() > 0,
    ensures
        joined(a + b, delim) == joined(a, delim) + seq![delim] + joined(b, delim),
    decreases a.len(),
{
    let all = a + b;
    assert(all[0] == a[0]);
    if a.len() == 1 {
        assert(all.drop_first() =~= b);
    } else {
        assert(all.drop_first() =~= a.drop_first() + b);
        lemma_joined_concat(a.drop_first(), b, delim);
        assert(joined(all, delim) =~= joined(a, delim) + seq![delim] + joined(b, delim));
    }
}

/// Normalising a text that is already normalised changes nothing.
pub proof fn lemma_normalized_idempotent(s: Seq<char>)
    ensures
        normalized(normalized(s)) == normalized(s),
{
    lemma_words_are_words(s);
    lemma_words_of_joined(words(s));
}

/// Whether `c` is white space.
pub fn is_space_char(c: char) -> (r: bool)
    ensures
        r == is_space(c),
{
    let u: u32 = c as u32;
    u == 0x20 || (0x09 <= u && u <= 0x0D) || u == 0x85 || u == 0xA0 || u == 0x1680 || (0x2000 <= u
        && u <= 0x200A) || u == 0x2028 || u == 0x2029 || u == 0x202F || u == 0x205F || u == 0x3000
}

/// The characters of a text, one by one.
pub(crate) fn chars_of(text: &str) -> (chars: Vec<char>)
    ensures
        chars@ == text@,
{
    let mut chars: Vec<char> = Vec::new();
    for c in it: text.chars()
        invariant
            it.seq() == text@,
            chars@ == text@.take(it.index() as int),
    {
        chars.push(c);
        assert(text@.take(it.index() + 1) =~= text@.take(it.index() as int).push(c));
    }
    assert(text@.take(text@.len() as int) =~= text@);
    chars
}

/// Takes a text apart into its words.
pub fn split_words(text: &str) -> (out: Vec<String>)
    ensures
        out.deep_view() == words(text@),
{
    let chars = chars_of(text);
    let n: usize = chars.len();
    let mut out: Vec<String> = Vec::new();
    let mut i: usize = 0;
    assert(text@.skip(0) =~= text@);
    assert(out.deep_view() + words(text@) =~= words(text@));
    while i < n
        invariant
            chars@ == text@,
            n == text@.len(),
            i <= n,
            words(text@) == out.deep_view() + words(text@.skip(i as int)),
        decreases n - i,
    {
        let ghost here = text@.skip(i as int);
        if is_space_char(chars[i]) {
            assert(here.drop_first() =~= text@.skip(i + 1));
            i += 1;
        } else {
            let start: usize = i;
            while i < n && !is_space_char(chars[i])
                invariant
                    chars@ == text@,
                    n == text@.len(),
                    start <= i <= n,
                    forall|k: int| start <= k < i ==> !is_space(#[trigger] text@[k]),
                decreases n - i,
            {
                i += 1;
            }
            let word = String::from_str(text.substring_char(start, i));
            let ghost before = out.deep_view();
            out.push(word);
            proof {
                lemma_word_len_is(here, i - start);
                assert(here.take(i - start) =~= word@);
                assert(here.skip(i - start) =~= text@.skip(i as int));
                assert(out.deep_view() =~= before.push(word@));
                assert(before.push(word@) + words(text@.skip(i as int)) =~= before + words(here));
            }
        }
    }
    assert(text@.skip(n as int) =~= Seq::<char>::empty());
    assert(out.deep_view() + Seq::<Seq<char>>::empty() =~= out.deep_view());
    out
}

/// Joins the parts with `delim`, by `Join::join` of easy_shortcuts on an
/// iterator over them. That method writes each item followed by the
/// delimiter and then takes the last character away again, so the result is
/// the items with the delimiter between each two, and empty for no items.
#[verifier::external_body]
fn join_words(parts: &Vec<String>, delim: char) -> (text: String)
    ensures
        text@ == joined(parts.deep_view(), delim),
{
    parts.iter().join(delim)
}

/// Collapses every run of white space in `text` to one blank and drops the
/// white space at both ends.
pub fn normalize_whitespace(text: &str) -> (out: String)
    ensures
        out@ == normalized(text@),
{
    let parts = split_words(text);
    join_words(&parts, ' ')
}

} // verus!
