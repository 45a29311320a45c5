//! Splitting a source line into whitespace-separated tokens, and comparing
//! pieces of text.

use vstd::prelude::*;
use vstd::string::StringSliceAdditionalSpecFns;

verus! {

/// Assumed of the standard library, not proved: `String::push` appends the
/// character at the end of the string and leaves what came before it as it
/// was.
pub assume_specification[ String::push ](s: &mut String, c: char)
    ensures
        final(s)@ == old(s)@.push(c),
;

/// The characters that separate tokens: those that Unicode classes as
/// `White_Space`.
pub open spec fn is_whitespace(c: char) -> bool {
    ||| '\u{9}' <= c <= '\u{d}'
    ||| c == ' '
    ||| c == '\u{85}'
    ||| c == '\u{a0}'
    ||| c == '\u{1680}'
    ||| '\u{2000}' <= c <= '\u{200a}'
    ||| c == '\u{2028}'
    ||| c == '\u{2029}'
    ||| c == '\u{202f}'
    ||| c == '\u{205f}'
    ||| c == '\u{3000}'
}

/// Length of the longest prefix of `s` that holds no whitespace.
pub open spec fn word_len(s: Seq<char>) -> nat
    decreases s.len(),
{
    if s.len() == 0 || is_whitespace(s[0]) {
        0
    } else {
        1 + word_len(s.drop_first())
    }
}

/// The tokens of a line: its maximal runs of characters that are not
/// whitespace, from left to right.
pub open spec fn tokens_of(s: Seq<char>) -> Seq<Seq<char>>
    decreases s.len(),
    via tokens_of_terminates
{
    if s.len() == 0 {
        Seq::empty()
    } else if is_whitespace(s[0]) {
        tokens_of(s.drop_first())
    } else {
        seq![s.take(word_len(s) as int)] + tokens_of(s.skip(word_len(s) as int))
    }
}

#[via_fn]
proof fn tokens_of_terminates(s: Seq<char>) {
    if s.len() > 0 && !is_whitespace(s[0]) {
        lemma_word_len_bounds(s);
    }
}

/// A word never runs past the end of the text, and is not empty where the
/// text starts with something other than whitespace.
pub proof fn lemma_word_len_bounds(s: Seq<char>)
    ensures
        word_len(s) <= s.len(),
        s.len() > 0 && !is_whitespace(s[0]) ==> word_len(s) >= 1,
    decreases s.len(),
{
    if s.len() > 0 && !is_whitespace(s[0]) {
        lemma_word_len_bounds(s.drop_first());
    }
}

/// A run of `n` characters without whitespace that ends at whitespace, or
/// at the end of the text, is the first word.
pub proof fn lemma_word_len_is(s: Seq<char>, n: int)
    requires
        0 <= n <= s.len(),
        forall|j: int| 0 <= j < n ==> !is_whitespace(#[trigger] s[j]),
        n == s.len() || is_whitespace(s[n]),
    ensures
        word_len(s) == n,
    decreases n,
{
    if n > 0 {
        let rest = s.drop_first();
        assert forall|j: int| 0 <= j < n - 1 implies !is_whitespace(#[trigger] rest[j]) by {
            assert(rest[j] == s[j + 1]);
        }
        lemma_word_len_is(rest, n - 1);
    }
}

/// The first word holds no whitespace.
pub proof fn lemma_word_has_no_whitespace(s: Seq<char>)
    ensures
        word_len(s) <= s.len(),
        forall|j: int| 0 <= j < word_len(s) ==> !is_whitespace(#[trigger] s[j]),
    decreases s.len(),
{
    lemma_word_len_bounds(s);
    if s.len() > 0 && !is_whitespace(s[0]) {
        let rest = s.drop_first();
        lemma_word_has_no_whitespace(rest);
        assert forall|j: int| 0 <= j < word_len(s) implies !is_whitespace(#[trigger] s[j]) by {
            if j > 0 {
                assert(s[j] == rest[j - 1]);
            }
        }
    }
}

/// A word is a non-empty text without whitespace.
pub open spec fn is_word(t: Seq<char>) -> bool {
    t.len() > 0 && forall|j: int| 0 <= j < t.len() ==> !is_whitespace(#[trigger] t[j])
}

/// Every token is a word.
pub proof fn law_tokens_are_words(s: Seq<char>)
    ensures
        forall|i: int| 0 <= i < tokens_of(s).len() ==> is_word(#[trigger] tokens_of(s)[i]),
    decreases s.len(),
{
    if s.len() == 0 {
        assert(tokens_of(s).len() == 0);
    } else if is_whitespace(s[0]) {
        law_tokens_are_words(s.drop_first());
        assert(tokens_of(s) == tokens_of(s.drop_first()));
    } else {
        let n = word_len(s) as int;
        let first = s.take(n);
        let rest = tokens_of(s.skip(n));
        lemma_word_has_no_whitespace(s);
        law_tokens_are_words(s.skip(n));
        assert(is_word(first));
        assert forall|i: int| 0 <= i < tokens_of(s).len() implies is_word(
            #[trigger] tokens_of(s)[i],
        ) by {
            if i > 0 {
                assert(tokens_of(s)[i] == rest[i - 1]);
            }
        }
    }
}

/// Whether `c` separates tokens.
pub fn separates(c: char) -> (b: bool)
    ensures
        b == is_whitespace(c),
{
    ('\u{9}' <= c && c <= '\u{d}') || c == ' ' || c == '\u{85}' || c == '\u{a0}' || c
        == '\u{1680}' || ('\u{2000}' <= c && c <= '\u{200a}') || c == '\u{2028}' || c
        == '\u{2029}' || c == '\u{202f}' || c == '\u{205f}' || c == '\u{3000}'
}

/// Whether two pieces of text hold the same characters.
pub fn same_text(a: &str, b: &str) -> (same: bool)
    ensures
        same == (a@ == b@),
{
    let x = a.as_bytes();
    let y = b.as_bytes();
    if x.len() != y.len() {
        return false;
    }
    let mut i: usize = 0;
    while i < x.len()
        invariant
            x.len() == y.len(),
            i <= x.len(),
            x@ == a.spec_bytes(),
            y@ == b.spec_bytes(),
            forall|j: int| 0 <= j < i ==> x@[j] == y@[j],
        decreases x.len() - i,
    {
        if x[i] != y[i] {
            return false;
        }
        i = i + 1;
    }
    proof {
        // Equal encodings decode to equal texts.
        assert(x@ =~= y@);
        vstd::utf8::encode_utf8_decode_utf8(a@);
        vstd::utf8::encode_utf8_decode_utf8(b@);
    }
    true
}

/// Splits a line into its tokens.
pub fn split_tokens(line: &str) -> (tokens: Vec<String>)
    ensures
        tokens.deep_view() == tokens_of(line@),
{
    let mut tokens: Vec<String> = Vec::new();
    let mut word = String::new();
    let ghost start: int = 0;
    assert(line@.skip(0) =~= line@);
    assert(tokens.deep_view() =~= Seq::<Seq<char>>::empty());
    for c in it: line.chars()
        invariant
            it.seq() == line@,
            0 <= start <= it.index(),
            word@ == line@.subrange(start, it.index() as int),
            forall|j: int| start <= j < it.index() ==> !is_whitespace(#[trigger] line@[j]),
            tokens_of(line@) == tokens.deep_view() + tokens_of(line@.skip(start)),
    {
        let ghost i = it.index() as int;
        let ghost done = tokens.deep_view();
        if separates(c) {
            if !word.as_str().is_empty() {
                proof {
                    lemma_split_first_token(line@.skip(start), i - start);
                    assert(line@.skip(start).take(i - start) =~= word@);
                    assert(line@.skip(start).skip(i - start) =~= line@.skip(i));
                }
                tokens.push(word);
                word = String::new();
                assert(tokens.deep_view() =~= done.push(line@.subrange(start, i)));
            }
            proof {
                assert(line@.skip(i).drop_first() =~= line@.skip(i + 1));
                start = i + 1;
            }
        } else {
            word.push(c);
        }
        assert(word@ =~= line@.subrange(start, i + 1));
    }
    if !word.as_str().is_empty() {
        let ghost n = line@.len() as int;
        let ghost done = tokens.deep_view();
        proof {
            lemma_split_first_token(line@.skip(start), n - start);
            assert(line@.skip(start).take(n - start) =~= word@);
            assert(line@.skip(start).skip(n - start) =~= Seq::<char>::empty());
        }
        tokens.push(word);
        assert(tokens.deep_view() =~= done.push(line@.subrange(start, n)));
    } else {
        assert(line@.skip(start) =~= Seq::<char>::empty());
    }
    tokens
}

/// A text that starts with a word of `n` characters splits into that word
/// and the tokens of what follows it.
proof fn lemma_split_first_token(s: Seq<char>, n: int)
    requires
        0 < n <= s.len(),
        forall|j: int| 0 <= j < n ==> !is_whitespace(#[trigger] s[j]),
        n == s.len() || is_whitespace(s[n]),
    ensures
        tokens_of(s) == seq![s.take(n)] + tokens_of(s.skip(n)),
{
    lemma_word_len_is(s, n);
}

} // verus!
