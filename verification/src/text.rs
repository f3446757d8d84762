//! Text on the level of characters: white space, words and trimming.
//!
//! Every function here states its result over the sequence of characters that
//! a string or slice holds.

use vstd::prelude::*;
use vstd::slice::slice_subrange;

verus! {

/// White space: the code points that Unicode classes as `White_Space`.
pub open spec fn whitespace(c: char) -> bool {
    let u: u32 = c as u32;
    ||| 0x09 <= u <= 0x0D
    ||| u == 0x20
    ||| u == 0x85
    ||| u == 0xA0
    ||| u == 0x1680
    ||| 0x2000 <= u <= 0x200A
    ||| u == 0x2028
    ||| u == 0x2029
    ||| u == 0x202F
    ||| u == 0x205F
    ||| u == 0x3000
}

/// The length of the longest prefix of `s` that holds no white space.
pub open spec fn word_len(s: Seq<char>) -> nat
    decreases s.len(),
{
    if s.len() == 0 || whitespace(s[0]) {
        0
    } else {
        1 + word_len(s.drop_first())
    }
}

/// The words of `s`: its maximal runs of characters that are not white space,
/// from left to right.
pub open spec fn words(s: Seq<char>) -> Seq<Seq<char>>
    decreases s.len(),
{
    if s.len() == 0 {
        Seq::empty()
    } else if whitespace(s[0]) {
        words(s.drop_first())
    } else {
        proof {
            lemma_word_len_bound(s);
        }
        let n: nat = word_len(s);
        seq![s.take(n as int)] + words(s.skip(n as int))
    }
}

/// `s` without the white space at its start.
pub open spec fn trim_start(s: Seq<char>) -> Seq<char>
    decreases s.len(),
{
    if s.len() > 0 && whitespace(s[0]) {
        trim_start(s.drop_first())
    } else {
        s
    }
}

/// `s` without the white space at its end.
pub open spec fn trim_end(s: Seq<char>) -> Seq<char>
    decreases s.len(),
{
    if s.len() > 0 && whitespace(s.last()) {
        trim_end(s.drop_last())
    } else {
        s
    }
}

/// `s` without the white space at either end.
pub open spec fn trim(s: Seq<char>) -> Seq<char> {
    trim_end(trim_start(s))
}

/// No character of `s` is white space.
pub open spec fn solid(s: Seq<char>) -> bool {
    forall|i: int| 0 <= i < s.len() ==> !whitespace(#[trigger] s[i])
}

/// Every character of `s` is white space.
pub open spec fn blank(s: Seq<char>) -> bool {
    forall|i: int| 0 <= i < s.len() ==> whitespace(#[trigger] s[i])
}

/// The texts that `spans` cut out of `s`, each span a pair of a start and an end.
pub open spec fn cut(s: Seq<char>, spans: Seq<(usize, usize)>) -> Seq<Seq<char>> {
    Seq::new(spans.len(), |k: int| s.subrange(spans[k].0 as int, spans[k].1 as int))
}

/// The span from `a` to `b` is a word of `s` in full: it holds a character,
/// none of its characters is white space, and white space or an end of `s`
/// stands on either side of it.
pub open spec fn whole_word(s: Seq<char>, a: int, b: int) -> bool {
    &&& 0 <= a < b <= s.len()
    &&& forall|i: int| a <= i < b ==> !whitespace(#[trigger] s[i])
    &&& a == 0 || whitespace(s[a - 1])
    &&& b == s.len() || whitespace(s[b])
}

/// What follows the first space of `s`, if `s` holds a space.
pub open spec fn after_first_space(s: Seq<char>) -> Option<Seq<char>>
    decreases s.len(),
{
    if s.len() == 0 {
        None
    } else if s[0] == ' ' {
        Some(s.drop_first())
    } else {
        after_first_space(s.drop_first())
    }
}

/// `s` is not empty and has no white space at either end.
pub open spec fn tight(s: Seq<char>) -> bool {
    s.len() > 0 && !whitespace(s[0]) && !whitespace(s.last())
}

/// Tells whether `c` is white space.
pub fn is_whitespace(c: char) -> (b: bool)
    ensures
        b == whitespace(c),
{
    let u: u32 = c as u32;
    (0x09 <= u && u <= 0x0D) || u == 0x20 || u == 0x85 || u == 0xA0 || u == 0x1680 || (0x2000 <= u
        && u <= 0x200A) || u == 0x2028 || u == 0x2029 || u == 0x202F || u == 0x205F || u == 0x3000
}

/// The characters of `s`, in order.
pub fn to_chars(s: &str) -> (chars: Vec<char>)
    ensures
        chars@ == s@,
{
    let mut chars: Vec<char> = Vec::new();
    let source = s.chars();
    for c in it: source
        invariant
            chars@ == it.seq().take(it.index() as int),
            it.seq() == s@,
    {
        chars.push(c);
    }
    chars
}

/// Tells whether `word` holds exactly the characters of `text`.
pub fn is_text(word: &[char], text: &str) -> (b: bool)
    ensures
        b == (word@ == text@),
{
    let expected: Vec<char> = to_chars(text);
    if expected.len() != word.len() {
        return false;
    }
    let mut i: usize = 0;
    while i < word.len()
        invariant
            i <= word.len(),
            expected.len() == word.len(),
            expected@ == text@,
            forall|k: int| 0 <= k < i ==> word@[k] == expected@[k],
        decreases word.len() - i,
    {
        if word[i] != expected[i] {
            return false;
        }
        i = i + 1;
    }
    assert(word@ =~= expected@);
    true
}

/// The spans of the words of `s`, from left to right: each is a word in
/// full, each lies behind the one before it, and their texts are the words
/// of `s`.
pub fn split_words(s: &[char]) -> (spans: Vec<(usize, usize)>)
    ensures
        cut(s@, spans@) == words(s@),
        forall|k: int|
            0 <= k < spans.len() ==> whole_word(
                s@,
                (#[trigger] spans[k]).0 as int,
                spans[k].1 as int,
            ),
        forall|k: int| 0 <= k < spans.len() - 1 ==> (#[trigger] spans[k]).1 < spans[k + 1].0,
{
    let n: usize = s.len();
    let mut spans: Vec<(usize, usize)> = Vec::new();
    let mut i: usize = 0;
    assert(s@.skip(0) =~= s@);
    assert(cut(s@, spans@) =~= Seq::<Seq<char>>::empty());
    while i < n
        invariant
            n == s.len(),
            i <= n,
            words(s@) == cut(s@, spans@) + words(s@.skip(i as int)),
            forall|k: int|
                0 <= k < spans.len() ==> whole_word(
                    s@,
                    (#[trigger] spans[k]).0 as int,
                    spans[k].1 as int,
                ),
            forall|k: int| 0 <= k < spans.len() - 1 ==> (#[trigger] spans[k]).1 < spans[k + 1].0,
            spans.len() > 0 ==> spans[spans.len() - 1].1 <= i,
            i == 0 || whitespace(s@[i - 1]) || (spans.len() > 0 && spans[spans.len() - 1].1 == i),
        decreases n - i,
    {
        let ghost rest: Seq<char> = s@.skip(i as int);
        assert(rest.len() == n - i);
        assert(rest[0] == s@[i as int]);
        assert(rest.drop_first() =~= s@.skip(i + 1));
        if is_whitespace(s[i]) {
            i = i + 1;
        } else {
            let start: usize = i;
            let mut j: usize = i + 1;
            while j < n && !is_whitespace(s[j])
                invariant
                    n == s.len(),
                    start < j <= n,
                    word_len(s@.skip(start as int)) == (j - start) + word_len(s@.skip(j as int)),
                    forall|p: int| start <= p < j ==> !whitespace(#[trigger] s@[p]),
                decreases n - j,
            {
                assert(s@.skip(j as int)[0] == s@[j as int]);
                assert(s@.skip(j as int).drop_first() =~= s@.skip(j + 1));
                j = j + 1;
            }
            proof {
                if j < n {
                    assert(s@.skip(j as int)[0] == s@[j as int]);
                }
                assert(word_len(s@.skip(j as int)) == 0);
                assert(word_len(rest) == j - start);
                assert(rest.take(j - start) =~= s@.subrange(start as int, j as int));
                assert(rest.skip(j - start) =~= s@.skip(j as int));
                assert(cut(s@, spans@.push((start, j))) =~= cut(s@, spans@) + seq![
                    s@.subrange(start as int, j as int),
                ]);
                assert(whole_word(s@, start as int, j as int));
            }
            spans.push((start, j));
            i = j;
        }
    }
    assert(s@.skip(n as int) =~= Seq::<char>::empty());
    assert(cut(s@, spans@) + Seq::<Seq<char>>::empty() =~= cut(s@, spans@));
    spans
}

/// The span of `s` that is left when the white space at both ends is taken
/// off: it starts behind the white space at the start of `s`.
pub fn trim_span(s: &[char]) -> (span: (usize, usize))
    ensures
        span.0 <= span.1 <= s.len(),
        s@.subrange(span.0 as int, span.1 as int) == trim(s@),
        span.0 + trim_start(s@).len() == s.len(),
{
    let n: usize = s.len();
    let mut a: usize = 0;
    assert(s@.skip(0) =~= s@);
    while a < n && is_whitespace(s[a])
        invariant
            n == s.len(),
            a <= n,
            trim_start(s@) == trim_start(s@.skip(a as int)),
        decreases n - a,
    {
        assert(s@.skip(a as int)[0] == s@[a as int]);
        assert(s@.skip(a as int).drop_first() =~= s@.skip(a + 1));
        a = a + 1;
    }
    proof {
        if a < n {
            assert(s@.skip(a as int)[0] == s@[a as int]);
        }
        assert(trim_start(s@) == s@.skip(a as int));
        assert(s@.skip(a as int) =~= s@.subrange(a as int, n as int));
    }
    let mut b: usize = n;
    while b > a && is_whitespace(s[b - 1])
        invariant
            n == s.len(),
            a <= b <= n,
            trim(s@) == trim_end(s@.subrange(a as int, b as int)),
        decreases b - a,
    {
        assert(s@.subrange(a as int, b as int).last() == s@[b - 1]);
        assert(s@.subrange(a as int, b as int).drop_last() =~= s@.subrange(a as int, b - 1));
        b = b - 1;
    }
    proof {
        if b > a {
            assert(s@.subrange(a as int, b as int).last() == s@[b - 1]);
        }
    }
    (a, b)
}

/// Tells whether `s` starts with the characters of `prefix`.
pub fn has_prefix(s: &[char], prefix: &str) -> (b: bool)
    ensures
        b == prefix@.is_prefix_of(s@),
{
    let expected: Vec<char> = to_chars(prefix);
    let n: usize = expected.len();
    if s.len() < n {
        return false;
    }
    is_text(slice_subrange(s, 0, n), prefix)
}

/// The place of the first space in `s`, if `s` holds a space.
pub fn find_space(s: &[char]) -> (at: Option<usize>)
    ensures
        match at {
            Some(i) => i < s.len() && after_first_space(s@) == Some(s@.skip(i + 1)),
            None => after_first_space(s@) is None,
        },
{
    let n: usize = s.len();
    let mut i: usize = 0;
    assert(s@.skip(0) =~= s@);
    while i < n
        invariant
            n == s.len(),
            i <= n,
            after_first_space(s@) == after_first_space(s@.skip(i as int)),
        decreases n - i,
    {
        assert(s@.skip(i as int)[0] == s@[i as int]);
        assert(s@.skip(i as int).drop_first() =~= s@.skip(i + 1));
        if s[i] == ' ' {
            return Some(i);
        }
        i = i + 1;
    }
    assert(s@.skip(n as int).len() == 0);
    None
}

/// A word is never longer than the text it starts.
pub proof fn lemma_word_len_bound(s: Seq<char>)
    ensures
        word_len(s) <= s.len(),
        s.len() > 0 && !whitespace(s[0]) ==> word_len(s) >= 1,
    decreases s.len(),
{
    if s.len() > 0 && !whitespace(s[0]) {
        lemma_word_len_bound(s.drop_first());
    }
}

/// The first word of a text that starts with one: the word has no white
/// space in it, and white space or the end of the text follows it.
pub proof fn lemma_word_len_is_maximal(s: Seq<char>)
    ensures
        word_len(s) <= s.len(),
        solid(s.take(word_len(s) as int)),
        word_len(s) < s.len() ==> whitespace(s[word_len(s) as int]),
    decreases s.len(),
{
    if s.len() > 0 && !whitespace(s[0]) {
        let rest: Seq<char> = s.drop_first();
        lemma_word_len_is_maximal(rest);
        let n: int = word_len(s) as int;
        assert forall|i: int| 0 <= i < n implies !whitespace(#[trigger] s.take(n)[i]) by {
            if i > 0 {
                assert(rest.take(n - 1)[i - 1] == s.take(n)[i]);
            }
        }
        if n < s.len() {
            assert(rest[n - 1] == s[n]);
        }
    }
}

/// A run without white space, followed by white space or by nothing, is a
/// word in full.
pub proof fn lemma_word_len_of_solid(w: Seq<char>, rest: Seq<char>)
    requires
        solid(w),
        rest.len() == 0 || whitespace(rest[0]),
    ensures
        word_len(w + rest) == w.len(),
    decreases w.len(),
{
    let s: Seq<char> = w + rest;
    if w.len() == 0 {
        assert(s =~= rest);
    } else {
        assert(s[0] == w[0]);
        assert(!whitespace(w[0]));
        let shorter: Seq<char> = w.drop_first();
        assert forall|i: int| 0 <= i < shorter.len() implies !whitespace(#[trigger] shorter[i]) by {
            assert(shorter[i] == w[i + 1]);
        }
        assert(s.drop_first() =~= shorter + rest);
        lemma_word_len_of_solid(shorter, rest);
    }
}

/// A text without white space, if it is not empty, is one word.
pub proof fn lemma_words_of_solid(w: Seq<char>)
    requires
        solid(w),
        w.len() > 0,
    ensures
        words(w) == seq![w],
{
    let none: Seq<char> = Seq::empty();
    assert(w + none =~= w);
    lemma_word_len_of_solid(w, none);
    assert(!whitespace(w[0]));
    assert(w.take(w.len() as int) =~= w);
    assert(w.skip(w.len() as int) =~= none);
    assert(words(none) =~= Seq::<Seq<char>>::empty());
    assert(seq![w] + Seq::<Seq<char>>::empty() =~= seq![w]);
}

/// A word, a space and more text: the words are that word and the words of
/// the text behind the space.
pub proof fn lemma_words_after_word(w: Seq<char>, rest: Seq<char>)
    requires
        solid(w),
        w.len() > 0,
    ensures
        words(w + seq![' '] + rest) == seq![w] + words(rest),
{
    let tail: Seq<char> = seq![' '] + rest;
    let s: Seq<char> = w + seq![' '] + rest;
    assert(s =~= w + tail);
    assert(tail[0] == ' ');
    assert(whitespace(tail[0]));
    lemma_word_len_of_solid(w, tail);
    assert(s[0] == w[0]);
    assert(!whitespace(w[0]));
    assert(s.take(w.len() as int) =~= w);
    assert(s.skip(w.len() as int) =~= tail);
    assert(tail.drop_first() =~= rest);
    assert(words(tail) == words(rest));
    assert(words(s) == seq![s.take(word_len(s) as int)] + words(s.skip(word_len(s) as int)));
}

/// A text has no words if and only if it is white space throughout.
pub proof fn lemma_no_words_iff_blank(s: Seq<char>)
    ensures
        words(s).len() == 0 <==> blank(s),
    decreases s.len(),
{
    if s.len() == 0 {
    } else if whitespace(s[0]) {
        let rest: Seq<char> = s.drop_first();
        lemma_no_words_iff_blank(rest);
        if blank(rest) {
            assert forall|i: int| 0 <= i < s.len() implies whitespace(#[trigger] s[i]) by {
                if i > 0 {
                    assert(s[i] == rest[i - 1]);
                }
            }
        }
        if blank(s) {
            assert forall|i: int| 0 <= i < rest.len() implies whitespace(#[trigger] rest[i]) by {
                assert(rest[i] == s[i + 1]);
            }
        }
    } else {
        assert(!blank(s));
    }
}

/// White space behind a text does not lengthen the word that the text
/// starts with.
pub proof fn lemma_word_len_before_blank(s: Seq<char>, t: Seq<char>)
    requires
        blank(t),
    ensures
        word_len(s + t) == word_len(s),
    decreases s.len(),
{
    if s.len() == 0 {
        assert(s + t =~= t);
        if t.len() > 0 {
            assert(whitespace(t[0]));
        }
    } else {
        assert((s + t)[0] == s[0]);
        if !whitespace(s[0]) {
            assert((s + t).drop_first() =~= s.drop_first() + t);
            lemma_word_len_before_blank(s.drop_first(), t);
        }
    }
}

/// White space behind a text adds no word to it.
pub proof fn lemma_words_before_blank(s: Seq<char>, t: Seq<char>)
    requires
        blank(t),
    ensures
        words(s + t) == words(s),
    decreases s.len(),
{
    if s.len() == 0 {
        assert(s + t =~= t);
        lemma_no_words_iff_blank(t);
        assert(words(t) =~= words(s));
    } else {
        assert((s + t)[0] == s[0]);
        if whitespace(s[0]) {
            assert((s + t).drop_first() =~= s.drop_first() + t);
            lemma_words_before_blank(s.drop_first(), t);
        } else {
            lemma_word_len_before_blank(s, t);
            lemma_word_len_bound(s);
            let n: int = word_len(s) as int;
            assert((s + t).take(n) =~= s.take(n));
            assert((s + t).skip(n) =~= s.skip(n) + t);
            lemma_words_before_blank(s.skip(n), t);
        }
    }
}

/// White space behind a text is taken off with the white space at the end
/// of the text.
pub proof fn lemma_trim_end_before_blank(s: Seq<char>, t: Seq<char>)
    requires
        blank(t),
    ensures
        trim_end(s + t) == trim_end(s),
    decreases t.len(),
{
    if t.len() == 0 {
        assert(s + t =~= s);
    } else {
        assert((s + t).last() == t.last());
        assert(whitespace(t.last()));
        assert((s + t).drop_last() =~= s + t.drop_last());
        assert forall|i: int| 0 <= i < t.drop_last().len() implies whitespace(
            #[trigger] t.drop_last()[i],
        ) by {
            assert(t.drop_last()[i] == t[i]);
        }
        lemma_trim_end_before_blank(s, t.drop_last());
    }
}

/// Trimming takes the white space behind a tight text off, and nothing else.
pub proof fn lemma_trim_of_tight(s: Seq<char>, t: Seq<char>)
    requires
        tight(s),
        blank(t),
    ensures
        trim(s + t) == s,
{
    assert((s + t)[0] == s[0]);
    assert(trim_start(s + t) == s + t);
    lemma_trim_end_before_blank(s, t);
}

/// Every word of a text holds a character, and none of its characters is
/// white space.
pub proof fn lemma_words_are_solid(s: Seq<char>)
    ensures
        forall|k: int|
            0 <= k < words(s).len() ==> (#[trigger] words(s)[k]).len() > 0 && solid(words(s)[k]),
    decreases s.len(),
{
    if s.len() == 0 {
        assert(words(s).len() == 0);
    } else if whitespace(s[0]) {
        lemma_words_are_solid(s.drop_first());
        assert(words(s) == words(s.drop_first()));
    } else {
        lemma_word_len_bound(s);
        lemma_word_len_is_maximal(s);
        let n: int = word_len(s) as int;
        lemma_words_are_solid(s.skip(n));
        assert(words(s) == seq![s.take(n)] + words(s.skip(n)));
        assert forall|k: int| 0 <= k < words(s).len() implies (#[trigger] words(s)[k]).len() > 0
            && solid(words(s)[k]) by {
            if k > 0 {
                assert(words(s)[k] == words(s.skip(n))[k - 1]);
            } else {
                assert(words(s)[0] == s.take(n));
            }
        }
    }
}

} // verus!
