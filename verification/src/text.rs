//! Splitting text into runs of characters.

use vstd::prelude::*;

verus! {

/// Whether a character has the Unicode property `White_Space`.
pub open spec fn is_whitespace(c: char) -> bool {
    let n = c as u32;
    ||| 0x09 <= n <= 0x0D
    ||| n == 0x20
    ||| n == 0x85
    ||| n == 0xA0
    ||| n == 0x1680
    ||| 0x2000 <= n <= 0x200A
    ||| n == 0x2028
    ||| n == 0x2029
    ||| n == 0x202F
    ||| n == 0x205F
    ||| n == 0x3000
}

/// Tells whether a character is white space.
pub fn char_is_whitespace(c: char) -> (b: bool)
    ensures
        b == is_whitespace(c),
{
    let n: u32 = c as u32;
    (0x09 <= n && n <= 0x0D) || n == 0x20 || n == 0x85 || n == 0xA0 || n == 0x1680 || (0x2000 <= n
        && n <= 0x200A) || n == 0x2028 || n == 0x2029 || n == 0x202F || n == 0x205F || n == 0x3000
}

/// The length of the longest prefix of `s` that holds no white space.
pub open spec fn word_len(s: Seq<char>) -> nat
    decreases s.len(),
{
    if s.len() == 0 || is_whitespace(s[0]) {
        0
    } else {
        1 + word_len(s.drop_first())
    }
}

/// The words of `s`: its maximal runs of characters that are not white
/// space, from left to right.
pub open spec fn split_whitespace(s: Seq<char>) -> Seq<Seq<char>>
    decreases s.len(),
    via split_whitespace_decreases
{
    if s.len() == 0 {
        Seq::empty()
    } else if is_whitespace(s[0]) {
        split_whitespace(s.drop_first())
    } else {
        let n = word_len(s) as int;
        seq![s.subrange(0, n)] + split_whitespace(s.subrange(n, s.len() as int))
    }
}

#[via_fn]
proof fn split_whitespace_decreases(s: Seq<char>) {
    lemma_word_len_bounds(s);
}

/// A word is no longer than the text it starts, and not empty where the text
/// starts with something other than white space.
pub proof fn lemma_word_len_bounds(s: Seq<char>)
    ensures
        word_len(s) <= s.len(),
        s.len() > 0 && !is_whitespace(s[0]) ==> word_len(s) >= 1,
    decreases s.len(),
{
    if s.len() > 0 && !is_whitespace(s[0]) {
        lemma_word_len_bounds(s.drop_first());
    }
}

/// The word that starts a text ends at the first white space or at the end
/// of the text.
pub proof fn lemma_word_len_is(s: Seq<char>, n: int)
    requires
        0 <= n <= s.len(),
        forall|i: int| 0 <= i < n ==> !is_whitespace(#[trigger] s[i]),
        n == s.len() || is_whitespace(s[n]),
    ensures
        word_len(s) == n,
    decreases s.len(),
{
    if n > 0 {
        let t = s.drop_first();
        assert forall|i: int| 0 <= i < n - 1 implies !is_whitespace(#[trigger] t[i]) by {
            assert(t[i] == s[i + 1]);
        }
        lemma_word_len_is(t, n - 1);
    }
}

/// No word is empty, and no word holds white space.
pub proof fn lemma_words_are_words(s: Seq<char>, k: int)
    requires
        0 <= k < split_whitespace(s).len(),
    ensures
        split_whitespace(s)[k].len() > 0,
        forall|i: int|
            0 <= i < split_whitespace(s)[k].len() ==> !is_whitespace(
                #[trigger] split_whitespace(s)[k][i],
            ),
    decreases s.len(),
{
    if s.len() == 0 {
    } else if is_whitespace(s[0]) {
        lemma_words_are_words(s.drop_first(), k);
    } else {
        lemma_word_len_bounds(s);
        let n = word_len(s) as int;
        if k == 0 {
            lemma_word_has_no_whitespace(s);
        } else {
            lemma_words_are_words(s.subrange(n, s.len() as int), k - 1);
        }
    }
}

/// The word that starts a text holds no white space.
pub proof fn lemma_word_has_no_whitespace(s: Seq<char>)
    ensures
        forall|i: int| 0 <= i < word_len(s) ==> !is_whitespace(#[trigger] s[i]),
    decreases s.len(),
{
    if s.len() > 0 && !is_whitespace(s[0]) {
        let t = s.drop_first();
        lemma_word_has_no_whitespace(t);
        lemma_word_len_bounds(s);
        assert forall|i: int| 0 <= i < word_len(s) implies !is_whitespace(#[trigger] s[i]) by {
            if i > 0 {
                assert(s[i] == t[i - 1]);
            }
        }
    }
}

/// The views of a sequence of strings, in the same order.
pub open spec fn views(v: Seq<String>) -> Seq<Seq<char>> {
    Seq::new(v.len(), |i: int| v[i]@)
}

/// The view of an optional string: the view of what it holds, if anything.
pub open spec fn option_view(text: Option<String>) -> Option<Seq<char>> {
    match text {
        Some(s) => Some(s@),
        None => None,
    }
}

/// Splits a text at runs of white space and drops the empty pieces.
pub fn split_words(raw: &str) -> (words: Vec<String>)
    ensures
        views(words@) == split_whitespace(raw@),
{
    let n = raw.unicode_len();
    let mut out: Vec<String> = Vec::new();
    let mut i: usize = 0;
    assert(raw@.subrange(0, n as int) =~= raw@);
    assert(views(out@) =~= Seq::<Seq<char>>::empty());
    while i < n
        invariant
            i <= n,
            n == raw@.len(),
            views(out@) + split_whitespace(raw@.subrange(i as int, n as int)) == split_whitespace(
                raw@,
            ),
        decreases n - i,
    {
        let ghost rest = raw@.subrange(i as int, n as int);
        let c = raw.get_char(i);
        assert(rest[0] == c);
        if char_is_whitespace(c) {
            assert(rest.drop_first() =~= raw@.subrange(i + 1, n as int));
            i += 1;
        } else {
            let mut j: usize = i + 1;
            loop
                invariant
                    i < j <= n,
                    n == raw@.len(),
                    forall|k: int| i <= k < j ==> !is_whitespace(#[trigger] raw@[k]),
                ensures
                    j == n || is_whitespace(raw@[j as int]),
                decreases n - j,
            {
                if j >= n {
                    break ;
                }
                if char_is_whitespace(raw.get_char(j)) {
                    break ;
                }
                j += 1;
            }
            let word = raw.substring_char(i, j).to_owned();
            proof {
                assert forall|k: int| 0 <= k < j - i implies !is_whitespace(#[trigger] rest[k]) by {
                    assert(rest[k] == raw@[i + k]);
                }
                lemma_word_len_is(rest, j - i);
                assert(rest.subrange(0, j - i) =~= raw@.subrange(i as int, j as int));
                assert(rest.subrange(j - i, rest.len() as int) =~= raw@.subrange(
                    j as int,
                    n as int,
                ));
                assert(views(out@.push(word)) =~= views(out@) + seq![word@]);
                assert(views(out@) + (seq![word@] + split_whitespace(
                    raw@.subrange(j as int, n as int),
                )) =~= views(out@) + seq![word@] + split_whitespace(
                    raw@.subrange(j as int, n as int),
                ));
            }
            out.push(word);
            i = j;
        }
    }
    assert(raw@.subrange(n as int, n as int) =~= Seq::<char>::empty());
    assert(views(out@) + Seq::<Seq<char>>::empty() =~= views(out@));
    out
}

} // verus!
