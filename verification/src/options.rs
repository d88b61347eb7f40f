//! Job options: a text of `key=value` words, read into a mapping.

use vstd::prelude::*;
use crate::outside::{lowercase, to_lowercase};
use crate::text::{split_whitespace, split_words, views};

verus! {

/// The number of characters of a word that stand before its first `=`; the
/// length of the word where it holds none.
pub open spec fn key_len(word: Seq<char>) -> nat
    decreases word.len(),
{
    if word.len() == 0 || word[0] == '=' {
        0
    } else {
        1 + key_len(word.drop_first())
    }
}

/// Whether a word holds a `=`.
pub open spec fn has_value(word: Seq<char>) -> bool {
    key_len(word) < word.len()
}

/// The key that a word sets: what stands before its first `=`, in lower case.
pub open spec fn option_key(word: Seq<char>) -> Seq<char> {
    lowercase(word.subrange(0, key_len(word) as int))
}

/// The value that a word gives its key: what stands behind its first `=`, in
/// lower case; `true` where the word holds no `=`.
pub open spec fn option_value(word: Seq<char>) -> Seq<char> {
    if has_value(word) {
        lowercase(word.subrange(key_len(word) as int + 1, word.len() as int))
    } else {
        "true"@
    }
}

/// The mapping that a sequence of words describes. A later word overrides an
/// earlier one that sets the same key.
pub open spec fn options_of(words: Seq<Seq<char>>) -> Map<Seq<char>, Seq<char>>
    decreases words.len(),
{
    if words.len() == 0 {
        Map::empty()
    } else {
        options_of(words.drop_last()).insert(option_key(words.last()), option_value(words.last()))
    }
}

/// The mapping that an options text describes.
pub open spec fn parse_options(raw: Seq<char>) -> Map<Seq<char>, Seq<char>> {
    options_of(split_whitespace(raw))
}

/// A word overrides whatever the words before it said of its key, and leaves
/// every other key as it was.
pub proof fn lemma_later_word_wins(words: Seq<Seq<char>>, word: Seq<char>)
    ensures
        options_of(words.push(word)) == options_of(words).insert(
            option_key(word),
            option_value(word),
        ),
        options_of(words.push(word))[option_key(word)] == option_value(word),
{
    assert(words.push(word).drop_last() =~= words);
}

/// The first `=` of a word stands where the scan for it stops.
pub proof fn lemma_key_len_is(word: Seq<char>, n: int)
    requires
        0 <= n <= word.len(),
        forall|i: int| 0 <= i < n ==> #[trigger] word[i] != '=',
        n == word.len() || word[n] == '=',
    ensures
        key_len(word) == n,
    decreases word.len(),
{
    if n > 0 {
        let t = word.drop_first();
        assert forall|i: int| 0 <= i < n - 1 implies #[trigger] t[i] != '=' by {
            assert(t[i] == word[i + 1]);
        }
        lemma_key_len_is(t, n - 1);
    }
}

/// Reads one word of an options text into its key and its value.
pub fn split_option(word: &str) -> (pair: (String, String))
    ensures
        pair.0@ == option_key(word@),
        pair.1@ == option_value(word@),
{
    let n = word.unicode_len();
    let mut k: usize = 0;
    loop
        invariant
            k <= n,
            n == word@.len(),
            forall|i: int| 0 <= i < k ==> #[trigger] word@[i] != '=',
        ensures
            k <= n,
            k == n || word@[k as int] == '=',
        decreases n - k,
    {
        if k >= n {
            break ;
        }
        if word.get_char(k) == '=' {
            break ;
        }
        k += 1;
    }
    proof {
        lemma_key_len_is(word@, k as int);
    }
    let key = to_lowercase(word.substring_char(0, k));
    let value = if k < n {
        to_lowercase(word.substring_char(k + 1, n))
    } else {
        "true".to_owned()
    };
    (key, value)
}

/// The key of the entry at a position.
pub open spec fn key_at(entries: Seq<(String, String)>, i: int) -> Seq<char> {
    entries[i].0@
}

/// No two entries have the same key.
pub open spec fn distinct_keys(entries: Seq<(String, String)>) -> bool {
    forall|i: int, j: int|
        0 <= i < j < entries.len() ==> key_at(entries, i) != key_at(entries, j)
}

/// The mapping that a list of entries stands for.
pub open spec fn entries_map(entries: Seq<(String, String)>) -> Map<Seq<char>, Seq<char>>
    decreases entries.len(),
{
    if entries.len() == 0 {
        Map::empty()
    } else {
        entries_map(entries.drop_last()).insert(entries.last().0@, entries.last().1@)
    }
}

proof fn lemma_entries_dom(e: Seq<(String, String)>)
    ensures
        entries_map(e).dom().finite(),
        forall|k: Seq<char>|
            entries_map(e).contains_key(k) <==> exists|i: int|
                0 <= i < e.len() && #[trigger] key_at(e, i) == k,
    decreases e.len(),
{
    if e.len() > 0 {
        let p = e.drop_last();
        let last = e.len() - 1;
        lemma_entries_dom(p);
        assert forall|k: Seq<char>|
            entries_map(e).contains_key(k) <==> exists|i: int|
                0 <= i < e.len() && #[trigger] key_at(e, i) == k by {
            if entries_map(e).contains_key(k) {
                if k == key_at(e, last) {
                } else {
                    assert(entries_map(p).contains_key(k));
                    let i = choose|i: int| 0 <= i < p.len() && #[trigger] key_at(p, i) == k;
                    assert(key_at(e, i) == k);
                }
            }
            if exists|i: int| 0 <= i < e.len() && #[trigger] key_at(e, i) == k {
                let i = choose|i: int| 0 <= i < e.len() && #[trigger] key_at(e, i) == k;
                if i < last {
                    assert(key_at(p, i) == k);
                }
            }
        }
    }
}

proof fn lemma_entries_value(e: Seq<(String, String)>, i: int)
    requires
        0 <= i < e.len(),
        forall|j: int| i < j < e.len() ==> #[trigger] key_at(e, j) != key_at(e, i),
    ensures
        entries_map(e).contains_key(key_at(e, i)),
        entries_map(e)[key_at(e, i)] == e[i].1@,
    decreases e.len(),
{
    let last = e.len() - 1;
    if i < last {
        let p = e.drop_last();
        assert(key_at(e, last) != key_at(e, i));
        assert forall|j: int| i < j < p.len() implies #[trigger] key_at(p, j) != key_at(p, i) by {
            assert(key_at(e, j) != key_at(e, i));
        }
        lemma_entries_value(p, i);
    }
}

proof fn lemma_entries_update(e: Seq<(String, String)>, i: int, entry: (String, String))
    requires
        distinct_keys(e),
        0 <= i < e.len(),
        entry.0@ == key_at(e, i),
    ensures
        distinct_keys(e.update(i, entry)),
        entries_map(e.update(i, entry)) == entries_map(e).insert(entry.0@, entry.1@),
    decreases e.len(),
{
    let u = e.update(i, entry);
    let last = e.len() - 1;
    assert forall|a: int, b: int| 0 <= a < b < u.len() implies key_at(u, a) != key_at(u, b) by {
        assert(key_at(u, a) == key_at(e, a));
        assert(key_at(u, b) == key_at(e, b));
    }
    let p = e.drop_last();
    if i == last {
        assert(u.drop_last() =~= p);
        assert(entries_map(u) =~= entries_map(e).insert(entry.0@, entry.1@));
    } else {
        assert(key_at(e, i) != key_at(e, last));
        assert forall|a: int, b: int| 0 <= a < b < p.len() implies key_at(p, a) != key_at(p, b) by {
            assert(key_at(e, a) != key_at(e, b));
        }
        lemma_entries_update(p, i, entry);
        assert(u.drop_last() =~= p.update(i, entry));
        assert(u.last() == e.last());
        assert(entries_map(u) =~= entries_map(e).insert(entry.0@, entry.1@));
    }
}

proof fn lemma_entries_len(e: Seq<(String, String)>)
    requires
        distinct_keys(e),
    ensures
        entries_map(e).len() == e.len(),
    decreases e.len(),
{
    if e.len() > 0 {
        let p = e.drop_last();
        let last = e.len() - 1;
        assert forall|a: int, b: int| 0 <= a < b < p.len() implies key_at(p, a) != key_at(p, b) by {
            assert(key_at(e, a) != key_at(e, b));
        }
        lemma_entries_len(p);
        lemma_entries_dom(p);
        if entries_map(p).contains_key(key_at(e, last)) {
            let i = choose|i: int| 0 <= i < p.len() && #[trigger] key_at(p, i) == key_at(e, last);
            assert(key_at(e, i) != key_at(e, last));
        }
        assert(entries_map(e).dom() =~= entries_map(p).dom().insert(key_at(e, last)));
    }
}

/// The options of a job: a finite mapping from keys to values.
#[derive(Debug)]
pub struct Options {
    entries: Vec<(String, String)>,
}

impl View for Options {
    type V = Map<Seq<char>, Seq<char>>;

    closed spec fn view(&self) -> Map<Seq<char>, Seq<char>> {
        entries_map(self.entries@)
    }
}

impl Options {
    /// Every key is held once.
    pub closed spec fn wf(&self) -> bool {
        distinct_keys(self.entries@)
    }

    /// The empty mapping.
    pub fn new() -> (options: Options)
        ensures
            options.wf(),
            options@ == Map::<Seq<char>, Seq<char>>::empty(),
    {
        Options { entries: Vec::new() }
    }

    /// The number of keys.
    pub fn len(&self) -> (n: usize)
        requires
            self.wf(),
        ensures
            n == self@.len(),
            self@.dom().finite(),
    {
        proof {
            lemma_entries_len(self.entries@);
            lemma_entries_dom(self.entries@);
        }
        self.entries.len()
    }

    fn position(&self, key: &String) -> (found: Option<usize>)
        ensures
            match found {
                Some(i) => i < self.entries@.len() && key_at(self.entries@, i as int) == key@,
                None => forall|i: int|
                    0 <= i < self.entries@.len() ==> #[trigger] key_at(self.entries@, i) != key@,
            },
    {
        let mut i: usize = 0;
        while i < self.entries.len()
            invariant
                i <= self.entries@.len(),
                forall|j: int| 0 <= j < i ==> #[trigger] key_at(self.entries@, j) != key@,
            decreases self.entries@.len() - i,
        {
            if self.entries[i].0 == *key {
                return Some(i);
            }
            i += 1;
        }
        None
    }

    /// The value of a key, if the key is set.
    pub fn get(&self, key: &str) -> (value: Option<&String>)
        requires
            self.wf(),
        ensures
            match value {
                Some(v) => self@.contains_key(key@) && self@[key@] == v@,
                None => !self@.contains_key(key@),
            },
    {
        let owned = key.to_owned();
        proof {
            lemma_entries_dom(self.entries@);
        }
        match self.position(&owned) {
            Some(i) => {
                proof {
                    lemma_entries_value(self.entries@, i as int);
                }
                Some(&self.entries[i].1)
            },
            None => None,
        }
    }

    /// The keys with their values, each key once, in no particular order.
    pub fn pairs(&self) -> (pairs: &Vec<(String, String)>)
        requires
            self.wf(),
        ensures
            distinct_keys(pairs@),
            entries_map(pairs@) == self@,
    {
        &self.entries
    }

    /// Sets a key to a value, in place of the value it had, if any.
    pub fn insert(&mut self, key: String, value: String)
        requires
            old(self).wf(),
        ensures
            final(self).wf(),
            final(self)@ == old(self)@.insert(key@, value@),
    {
        let ghost before = self.entries@;
        match self.position(&key) {
            Some(i) => {
                proof {
                    lemma_entries_update(before, i as int, (key, value));
                }
                self.entries.set(i, (key, value));
            },
            None => {
                proof {
                    assert(before.push((key, value)).drop_last() =~= before);
                    assert forall|a: int, b: int| 0 <= a < b < before.len() + 1 implies key_at(
                        before.push((key, value)),
                        a,
                    ) != key_at(before.push((key, value)), b) by {
                        if b < before.len() {
                            assert(key_at(before, a) != key_at(before, b));
                        } else {
                            assert(key_at(before, a) != key@);
                        }
                    }
                }
                self.entries.push((key, value));
            },
        }
    }

    /// Reads an options text: its words, split at white space, each set a
    /// key; a later word overrides an earlier one with the same key.
    pub fn parse(raw: &str) -> (options: Options)
        ensures
            options.wf(),
            options@ == parse_options(raw@),
    {
        let words = split_words(raw);
        let mut options = Options::new();
        let mut i: usize = 0;
        while i < words.len()
            invariant
                options.wf(),
                i <= words@.len(),
                options@ == options_of(views(words@).subrange(0, i as int)),
            decreases words@.len() - i,
        {
            let pair = split_option(words[i].as_str());
            proof {
                assert(views(words@).subrange(0, i + 1).drop_last() =~= views(words@).subrange(
                    0,
                    i as int,
                ));
            }
            options.insert(pair.0, pair.1);
            i += 1;
        }
        assert(views(words@).subrange(0, words@.len() as int) =~= views(words@));
        options
    }
}

} // verus!
