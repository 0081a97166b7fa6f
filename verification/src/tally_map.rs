//! A collection for tallying word counts using a hash map.
use vstd::prelude::*;
use vstd::string::StringSliceAdditionalSpecFns;

use crate::options::case::Case;
use crate::options::encoding::{normalized_unicode, string_views, unicode_word_list, unicode_words};

mod chunks;
pub(crate) mod stream;

verus! {

// ---------------------------------------------------------------------------
// Mathematical model of a tally: a map from words to counts.
// ---------------------------------------------------------------------------

/// A tally of words: each word maps to the number of times it was seen.
pub type Counts = Map<Seq<char>, nat>;

/// The count of `word` in `counts`, zero when the word is absent.
pub open spec fn count_in(counts: Counts, word: Seq<char>) -> nat {
    if counts.contains_key(word) {
        counts[word]
    } else {
        0
    }
}

/// `counts` with `amount` more occurrences of `word`.
pub open spec fn add_count(counts: Counts, word: Seq<char>, amount: nat) -> Counts {
    counts.insert(word, count_in(counts, word) + amount)
}

/// `counts` with one more occurrence of each word of `words`.
pub open spec fn add_all(counts: Counts, words: Seq<Seq<char>>) -> Counts
    decreases words.len(),
{
    if words.len() == 0 {
        counts
    } else {
        add_count(add_all(counts, words.drop_last()), words.last(), 1)
    }
}

/// `counts` with the count of each `(word, count)` entry added to it, in order.
pub open spec fn add_entries(counts: Counts, entries: Seq<(String, usize)>) -> Counts
    decreases entries.len(),
{
    if entries.len() == 0 {
        counts
    } else {
        add_count(add_entries(counts, entries.drop_last()), entries.last().0@, entries.last().1 as nat)
    }
}

/// The word-wise sum of two tallies.
pub open spec fn merged(a: Counts, b: Counts) -> Counts {
    Map::new(
        |w: Seq<char>| a.contains_key(w) || b.contains_key(w),
        |w: Seq<char>| count_in(a, w) + count_in(b, w),
    )
}

/// The largest count held in `counts` stays at most `bound`.
pub open spec fn counts_at_most(counts: Counts, bound: int) -> bool {
    forall|w: Seq<char>| #[trigger] count_in(counts, w) <= bound
}

/// The sum of all counts in a finite tally.
pub open spec fn total(counts: Counts) -> nat
    decreases counts.dom().len(),
    when counts.dom().finite()
{
    if counts.dom().len() == 0 {
        0
    } else {
        let w = counts.dom().choose();
        counts[w] + total(counts.remove(w))
    }
}

/// Views a table of machine counts as a tally.
pub open spec fn as_counts(table: Map<Seq<char>, usize>) -> Counts {
    table.map_values(|c: usize| c as nat)
}

/// The sum of the counts of a sequence of entries.
pub open spec fn entries_total(entries: Seq<(String, usize)>) -> nat
    decreases entries.len(),
{
    if entries.len() == 0 {
        0
    } else {
        entries_total(entries.drop_last()) + entries.last().1 as nat
    }
}

/// `entries` lists the tally `counts`: every word once, each with its count.
pub open spec fn lists_counts(entries: Seq<(String, usize)>, counts: Counts) -> bool {
    &&& entries.len() == counts.dom().len()
    &&& forall|i: int|
        0 <= i < entries.len() ==> #[trigger] counts.contains_key(entries[i].0@) && counts[entries[i].0@]
            == entries[i].1 as nat
    &&& forall|i: int, j: int|
        0 <= i < entries.len() && 0 <= j < entries.len() && i != j ==> #[trigger] entries[i].0@
            != #[trigger] entries[j].0@
    &&& forall|w: Seq<char>|
        #[trigger] counts.contains_key(w) ==> exists|i: int|
            0 <= i < entries.len() && #[trigger] entries[i].0@ == w
}

/// `order` with `word` added at its end, unless it is there already.
pub open spec fn add_to_order(order: Seq<Seq<char>>, word: Seq<char>) -> Seq<Seq<char>> {
    if order.contains(word) {
        order
    } else {
        order.push(word)
    }
}

/// `order` followed by each word of `words` that it does not hold yet, in the order each is
/// first seen.
pub open spec fn extend_order(order: Seq<Seq<char>>, words: Seq<Seq<char>>) -> Seq<Seq<char>>
    decreases words.len(),
{
    if words.len() == 0 {
        order
    } else {
        add_to_order(extend_order(order, words.drop_last()), words.last())
    }
}

/// The distinct words of `words`, in the order of their first occurrence.
pub open spec fn first_seen(words: Seq<Seq<char>>) -> Seq<Seq<char>> {
    extend_order(Seq::empty(), words)
}

/// The words of `order` that `kept` holds, in the same order.
pub open spec fn kept_order(order: Seq<Seq<char>>, kept: Counts) -> Seq<Seq<char>>
    decreases order.len(),
{
    if order.len() == 0 {
        order
    } else if kept.contains_key(order.last()) {
        kept_order(order.drop_last(), kept).push(order.last())
    } else {
        kept_order(order.drop_last(), kept)
    }
}

/// The words of a list of entries, in order.
pub open spec fn entry_words(entries: Seq<(String, usize)>) -> Seq<Seq<char>> {
    entries.map_values(|entry: (String, usize)| entry.0@)
}

// ---------------------------------------------------------------------------
// The hash map of the `hashbrown` crate, behind trusted items.
// ---------------------------------------------------------------------------

/// Holder for a `hashbrown::HashMap` from words to counts.
///
/// The map is opaque to the proofs; what they know of it is its contents, `hash_counts`.
#[verifier::external_body]
pub struct HashCounts {
    inner: hashbrown::HashMap<String, usize>,
}

/// What a `HashCounts` holds: each word (by its characters) with its count.
pub uninterp spec fn hash_counts(table: HashCounts) -> Map<Seq<char>, usize>;

/// Calls `hashbrown::HashMap::new`: the new map holds nothing.
#[verifier::external_body]
pub(crate) fn table_new() -> (table: HashCounts)
    ensures
        hash_counts(table).dom() == Set::<Seq<char>>::empty(),
{
    HashCounts { inner: hashbrown::HashMap::new() }
}

/// Calls `hashbrown::HashMap::with_capacity`: the new map holds nothing.
#[verifier::external_body]
pub(crate) fn table_with_capacity(capacity: usize) -> (table: HashCounts)
    ensures
        hash_counts(table).dom() == Set::<Seq<char>>::empty(),
{
    HashCounts { inner: hashbrown::HashMap::with_capacity(capacity) }
}

/// Calls `hashbrown::HashMap::len`: the number of words held.
#[verifier::external_body]
pub(crate) fn table_len(table: &HashCounts) -> (len: usize)
    ensures
        len == hash_counts(*table).dom().len(),
{
    table.inner.len()
}

/// Calls `hashbrown::HashMap::get`: the count held for `word`, if any.
#[verifier::external_body]
pub(crate) fn table_get(table: &HashCounts, word: &str) -> (found: Option<usize>)
    ensures
        found == (if hash_counts(*table).contains_key(word@) {
            Some(hash_counts(*table)[word@])
        } else {
            None
        }),
{
    table.inner.get(word).copied()
}

/// Calls `hashbrown::HashMap::insert`: `word` now maps to `count`, other words are untouched.
#[verifier::external_body]
pub(crate) fn table_insert(table: &mut HashCounts, word: String, count: usize)
    ensures
        hash_counts(*final(table)) == hash_counts(*old(table)).insert(word@, count),
{
    table.inner.insert(word, count);
}

// ---------------------------------------------------------------------------
// TallyMap
// ---------------------------------------------------------------------------

/// Map for tracking word counts, which also remembers the order in which words were first
/// seen.
pub struct TallyMap {
    inner: HashCounts,
    order: Vec<String>,
}

impl View for TallyMap {
    type V = Counts;

    closed spec fn view(&self) -> Counts {
        as_counts(hash_counts(self.inner))
    }
}

impl Default for TallyMap {
    fn default() -> (tally: Self)
        ensures
            tally.wf(),
            tally@ == Counts::empty(),
    {
        Self::new()
    }
}

impl TallyMap {
    /// The map holds finitely many words, and the order lists each of them exactly once.
    pub closed spec fn wf(&self) -> bool {
        &&& hash_counts(self.inner).dom().finite()
        &&& self.spec_order().no_duplicates()
        &&& forall|w: Seq<char>|
            #![trigger hash_counts(self.inner).contains_key(w)]
            #![trigger self.spec_order().contains(w)]
            hash_counts(self.inner).contains_key(w) <==> self.spec_order().contains(w)
    }

    /// The words of the tally, in the order in which they were first seen.
    pub closed spec fn spec_order(&self) -> Seq<Seq<char>> {
        string_views(self.order@)
    }

    /// The order lists exactly the words of the tally.
    pub proof fn lemma_order_words(&self)
        requires
            self.wf(),
        ensures
            self.spec_order().no_duplicates(),
            forall|w: Seq<char>| #[trigger] self@.contains_key(w) <==> self.spec_order().contains(w),
            self.spec_order().len() == self@.dom().len(),
            self@.dom().finite(),
    {
        assert(self@.dom() =~= hash_counts(self.inner).dom());
        assert(self.spec_order().to_set() =~= self@.dom());
        self.spec_order().unique_seq_to_set();
    }

    /// The words of the view are the words held by the hash map.
    proof fn lemma_view_dom(&self)
        ensures
            self@.dom() == hash_counts(self.inner).dom(),
            self.wf() ==> self@.dom().finite(),
    {
        assert(self@.dom() =~= hash_counts(self.inner).dom());
    }

    /// Creates a new empty `TallyMap`.
    pub fn new() -> (tally: Self)
        ensures
            tally.wf(),
            tally@ == Counts::empty(),
            tally.spec_order() == Seq::<Seq<char>>::empty(),
    {
        let tally = TallyMap { inner: table_new(), order: Vec::new() };
        assert(tally@ =~= Counts::empty());
        assert(tally.spec_order() =~= Seq::<Seq<char>>::empty());
        tally
    }

    /// Creates a new empty `TallyMap` with room for `capacity` words.
    pub fn with_capacity(capacity: usize) -> (tally: Self)
        ensures
            tally.wf(),
            tally@ == Counts::empty(),
            tally.spec_order() == Seq::<Seq<char>>::empty(),
    {
        let tally = TallyMap { inner: table_with_capacity(capacity), order: Vec::new() };
        assert(tally@ =~= Counts::empty());
        assert(tally.spec_order() =~= Seq::<Seq<char>>::empty());
        tally
    }

    /// The number of distinct words in the tally.
    pub fn len(&self) -> (len: usize)
        requires
            self.wf(),
        ensures
            len == self@.dom().len(),
    {
        assert(self@.dom() =~= hash_counts(self.inner).dom());
        table_len(&self.inner)
    }

    /// Returns true if no word has been tallied.
    pub fn is_empty(&self) -> (empty: bool)
        requires
            self.wf(),
        ensures
            empty == (self@.dom().len() == 0),
    {
        self.len() == 0
    }

    /// The count of `word`, or `None` if it was never tallied.
    pub fn get(&self, word: &str) -> (found: Option<usize>)
        ensures
            found matches Some(c) ==> self@.contains_key(word@) && self@[word@] == c as nat,
            found is None ==> !self@.contains_key(word@),
    {
        table_get(&self.inner, word)
    }

    /// Adds `amount` to the count of an owned `word`.
    pub(crate) fn add_owned(&mut self, word: String, amount: usize)
        requires
            old(self).wf(),
            count_in(old(self)@, word@) + amount <= usize::MAX,
        ensures
            final(self).wf(),
            final(self)@ == add_count(old(self)@, word@, amount as nat),
            final(self).spec_order() == add_to_order(old(self).spec_order(), word@),
    {
        let current = table_get(&self.inner, word.as_str());
        let ghost key = word@;
        let next: usize = match current {
            Some(c) => c + amount,
            None => amount,
        };
        if current.is_none() {
            let ghost before = self.order@;
            self.order.push(word.clone());
            proof {
                assert(self.order@ =~= before.push(self.order@.last()));
                assert(string_views(self.order@) =~= string_views(before).push(key));
                assert(!string_views(before).contains(key));
            }
        }
        table_insert(&mut self.inner, word, next);
        assert(self@ =~= add_count(old(self)@, key, amount as nat));
        proof {
            assert(self.spec_order() =~= add_to_order(old(self).spec_order(), key));
            assert(hash_counts(self.inner).dom() =~= hash_counts(old(self).inner).dom().insert(key));
            if current.is_none() {
                assert(self.spec_order() =~= old(self).spec_order().push(key));
                assert forall|w: Seq<char>| #[trigger] self.spec_order().contains(w) <==> (old(self).spec_order().contains(w)
                    || w == key) by {
                    if self.spec_order().contains(w) && w != key {
                        let k = choose|k: int| 0 <= k < self.spec_order().len() && self.spec_order()[k] == w;
                        assert(old(self).spec_order()[k] == w);
                    }
                    if w == key {
                        assert(self.spec_order()[self.spec_order().len() - 1] == key);
                    }
                    if old(self).spec_order().contains(w) {
                        let k = choose|k: int| 0 <= k < old(self).spec_order().len() && old(self).spec_order()[k] == w;
                        assert(self.spec_order()[k] == w);
                    }
                }
            } else {
                assert(self.spec_order() == old(self).spec_order());
                assert(old(self).spec_order().contains(key));
            }
        }
    }

    /// Increments a word's tally by reference.
    fn increment(&mut self, word: &str)
        requires
            old(self).wf(),
            count_in(old(self)@, word@) < usize::MAX,
        ensures
            final(self).wf(),
            final(self)@ == add_count(old(self)@, word@, 1),
            final(self).spec_order() == add_to_order(old(self).spec_order(), word@),
    {
        self.add_owned(word.to_owned(), 1);
    }

    /// Increments a word's tally using an owned key.
    fn increment_owned(&mut self, word: String)
        requires
            old(self).wf(),
            count_in(old(self)@, word@) < usize::MAX,
        ensures
            final(self).wf(),
            final(self)@ == add_count(old(self)@, word@, 1),
            final(self).spec_order() == add_to_order(old(self).spec_order(), word@),
    {
        self.add_owned(word, 1);
    }

    /// Lists every word once with its count, in the order in which the words were first seen.
    pub fn entries(&self) -> (entries: Vec<(String, usize)>)
        requires
            self.wf(),
        ensures
            lists_counts(entries@, self@),
            entry_words(entries@) == self.spec_order(),
    {
        proof {
            self.lemma_order_words();
        }
        let ghost order = self.spec_order();
        let mut entries: Vec<(String, usize)> = Vec::new();
        let mut i: usize = 0;
        while i < self.order.len()
            invariant
                self.wf(),
                order == self.spec_order(),
                order.len() == self.order@.len(),
                0 <= i <= order.len(),
                entries@.len() == i,
                forall|j: int| 0 <= j < i ==> (#[trigger] entries@[j]).0@ == order[j] && self@.contains_key(order[j])
                    && self@[order[j]] == entries@[j].1 as nat,
            decreases order.len() - i,
        {
            let word = self.order[i].clone();
            proof {
                assert(word@ == order[i as int]);
                assert(order.contains(word@));
            }
            let count = match table_get(&self.inner, word.as_str()) {
                Some(c) => c,
                None => 0,
            };
            entries.push((word, count));
            i = i + 1;
        }
        proof {
            assert(entry_words(entries@) =~= order);
            assert forall|a: int, b: int|
                0 <= a < entries@.len() && 0 <= b < entries@.len() && a != b implies #[trigger] entries@[a].0@
                != #[trigger] entries@[b].0@ by {
                assert(order[a] != order[b]);
            }
            assert forall|w: Seq<char>| #[trigger] self@.contains_key(w) implies exists|k: int|
                0 <= k < entries@.len() && #[trigger] entries@[k].0@ == w by {
                assert(order.contains(w));
                let k = choose|k: int| 0 <= k < order.len() && order[k] == w;
                assert(entries@[k].0@ == w);
            }
        }
        entries
    }

    /// The total of all counts: the number of words tallied; `None` when it does not fit in a
    /// `usize`.
    pub fn total_count(&self) -> (count: Option<usize>)
        requires
            self.wf(),
        ensures
            total(self@) <= usize::MAX ==> count == Some(total(self@) as usize),
            total(self@) > usize::MAX ==> count is None,
    {
        proof {
            self.lemma_view_dom();
        }
        let entries = self.entries();
        proof {
            lemma_entries_total(entries@, self@);
        }
        let mut sum: usize = 0;
        let mut i: usize = 0;
        while i < entries.len()
            invariant
                0 <= i <= entries@.len(),
                sum == entries_total(entries@.take(i as int)),
                entries_total(entries@) == total(self@),
            decreases entries@.len() - i,
        {
            proof {
                assert(entries@.take(i + 1).drop_last() =~= entries@.take(i as int));
                lemma_entries_total_prefix(entries@, i + 1);
            }
            match sum.checked_add(entries[i].1) {
                Some(next) => sum = next,
                None => return None,
            }
            i = i + 1;
        }
        proof {
            assert(entries@.take(entries@.len() as int) =~= entries@);
        }
        Some(sum)
    }

    /// Consumes the tally, listing every word once with its count, in the order in which the
    /// words were first seen.
    pub fn into_entries(self) -> (entries: Vec<(String, usize)>)
        requires
            self.wf(),
        ensures
            lists_counts(entries@, self@),
            entry_words(entries@) == self.spec_order(),
            self@.dom().finite(),
    {
        proof {
            self.lemma_view_dom();
        }
        self.entries()
    }
}


impl TallyMap {
    /// Adds each `(word, count)` entry to the tally.
    pub fn extend(&mut self, entries: &Vec<(String, usize)>)
        requires
            old(self).wf(),
            counts_at_most(add_entries(old(self)@, entries@), usize::MAX as int),
        ensures
            final(self).wf(),
            final(self)@ == add_entries(old(self)@, entries@),
            final(self).spec_order() == extend_order(old(self).spec_order(), entry_words(entries@)),
    {
        let n = entries.len();
        let mut i: usize = 0;
        while i < n
            invariant
                n == entries.len(),
                0 <= i <= n,
                self.wf(),
                self@ == add_entries(old(self)@, entries@.take(i as int)),
                self.spec_order() == extend_order(old(self).spec_order(), entry_words(entries@.take(i as int))),
                counts_at_most(add_entries(old(self)@, entries@), usize::MAX as int),
            decreases n - i,
        {
            let (word, count) = &entries[i];
            proof {
                lemma_add_entries_prefix_le(old(self)@, entries@, (i + 1) as int, word@);
                assert(entries@.take((i + 1) as int).drop_last() =~= entries@.take(i as int));
                assert(entry_words(entries@.take(i + 1)) =~= entry_words(entries@.take(i as int)).push(word@));
                assert(entry_words(entries@.take(i + 1)).drop_last() =~= entry_words(entries@.take(i as int)));
            }
            let owned = word.clone();
            assert(owned@ == word@);
            self.add_owned(owned, *count);
            i = i + 1;
        }
        assert(entries@.take(n as int) =~= entries@);
    }

    /// Creates a tally from `(word, count)` entries, adding up the counts of repeated words.
    pub fn from_entries(entries: Vec<(String, usize)>) -> (tally: Self)
        requires
            counts_at_most(add_entries(Counts::empty(), entries@), usize::MAX as int),
        ensures
            tally.wf(),
            tally@ == add_entries(Counts::empty(), entries@),
    {
        let mut tally = Self::with_capacity(entries.len());
        tally.extend(&entries);
        tally
    }

    /// Merges two tally maps: the counts of `other` are added to `self`, and the words first
    /// seen in `other` follow those of `self`, in their order.
    ///
    /// Returns the merged map containing the combined counts from both input maps.
    pub fn merge(self, other: Self) -> (merged_map: Self)
        requires
            self.wf(),
            other.wf(),
            counts_at_most(merged(self@, other@), usize::MAX as int),
        ensures
            merged_map.wf(),
            merged_map@ == merged(self@, other@),
            merged_map.spec_order() == extend_order(self.spec_order(), other.spec_order()),
    {
        proof {
            self.lemma_view_dom();
            other.lemma_view_dom();
        }
        let ghost a = self@;
        let ghost b = other@;
        let entries = other.into_entries();
        let mut this = self;
        proof {
            lemma_add_entries_merged(a, entries@, b);
        }
        this.extend(&entries);
        this
    }
}

/// Tallying counts every occurrence: after tallying `words`, a word's count is its count
/// before plus the number of times it occurs in `words`, whatever their order.
pub proof fn lemma_add_all_counts_occurrences(counts: Counts, words: Seq<Seq<char>>, w: Seq<char>)
    ensures
        count_in(add_all(counts, words), w) == count_in(counts, w) + words.to_multiset().count(w),
    decreases words.len(),
{
    broadcast use vstd::seq_lib::group_to_multiset_ensures;

    if words.len() == 0 {
    } else {
        let rest = words.drop_last();
        lemma_add_all_counts_occurrences(counts, rest, w);
        assert(rest.push(words.last()) =~= words);
    }
}

/// Merging the tallies of two word sequences counts each word as often as it occurs in both
/// together.
pub proof fn lemma_merged_counts_occurrences(first: Seq<Seq<char>>, second: Seq<Seq<char>>, w: Seq<char>)
    ensures
        count_in(merged(add_all(Counts::empty(), first), add_all(Counts::empty(), second)), w) == (first
            + second).to_multiset().count(w),
{
    broadcast use vstd::seq_lib::group_to_multiset_ensures;

    lemma_add_all_counts_occurrences(Counts::empty(), first, w);
    lemma_add_all_counts_occurrences(Counts::empty(), second, w);
    vstd::seq_lib::lemma_multiset_commutative(first, second);
}

/// Extending an order keeps it free of repeats, and it then holds exactly the words it held
/// and the new ones.
pub proof fn lemma_extend_order_contents(order: Seq<Seq<char>>, words: Seq<Seq<char>>)
    requires
        order.no_duplicates(),
    ensures
        extend_order(order, words).no_duplicates(),
        forall|w: Seq<char>| #[trigger] extend_order(order, words).contains(w) <==> (order.contains(w)
            || words.contains(w)),
    decreases words.len(),
{
    if words.len() > 0 {
        let rest = words.drop_last();
        let last = words.last();
        lemma_extend_order_contents(order, rest);
        let before = extend_order(order, rest);
        assert forall|w: Seq<char>| #[trigger] extend_order(order, words).contains(w) <==> (order.contains(w)
            || words.contains(w)) by {
            if words.contains(w) && !rest.contains(w) {
                let k = choose|k: int| 0 <= k < words.len() && words[k] == w;
                if k < rest.len() {
                    assert(rest[k] == w);
                }
                assert(w == last);
            }
            if rest.contains(w) {
                let k = choose|k: int| 0 <= k < rest.len() && rest[k] == w;
                assert(words[k] == w);
            }
            if !before.contains(last) {
                let after = before.push(last);
                if after.contains(w) && w != last {
                    let k = choose|k: int| 0 <= k < after.len() && after[k] == w;
                    assert(before[k] == w);
                }
                if before.contains(w) {
                    let k = choose|k: int| 0 <= k < before.len() && before[k] == w;
                    assert(after[k] == w);
                }
                assert(after[after.len() - 1] == last);
            }
        }
        if !before.contains(last) {
            let after = before.push(last);
            assert forall|i: int, j: int| 0 <= i < after.len() && 0 <= j < after.len() && i != j implies after[i]
                != after[j] by {
                if i == after.len() - 1 {
                    assert(after[j] == before[j]);
                    if before[j] == last {
                        assert(before.contains(last));
                    }
                } else if j == after.len() - 1 {
                    assert(after[i] == before[i]);
                    if before[i] == last {
                        assert(before.contains(last));
                    }
                }
            }
        }
    }
}

/// The distinct words of a sequence, in first-seen order, hold no repeats and exactly the
/// words of the sequence.
pub proof fn lemma_first_seen_contents(words: Seq<Seq<char>>)
    ensures
        first_seen(words).no_duplicates(),
        forall|w: Seq<char>| #[trigger] first_seen(words).contains(w) <==> words.contains(w),
{
    lemma_extend_order_contents(Seq::empty(), words);
}

/// Extending an order by two sequences, one after the other, is extending it by their
/// concatenation.
pub proof fn lemma_extend_order_concat(order: Seq<Seq<char>>, first: Seq<Seq<char>>, second: Seq<Seq<char>>)
    ensures
        extend_order(extend_order(order, first), second) == extend_order(order, first + second),
    decreases second.len(),
{
    if second.len() == 0 {
        assert(first + second =~= first);
    } else {
        lemma_extend_order_concat(order, first, second.drop_last());
        assert((first + second).drop_last() =~= first + second.drop_last());
        assert((first + second).last() == second.last());
    }
}

/// Extending an order by the first-seen words of a sequence is extending it by the sequence
/// itself: repeats add nothing.
pub proof fn lemma_extend_order_first_seen(order: Seq<Seq<char>>, words: Seq<Seq<char>>)
    requires
        order.no_duplicates(),
    ensures
        extend_order(order, first_seen(words)) == extend_order(order, words),
    decreases words.len(),
{
    if words.len() > 0 {
        let rest = words.drop_last();
        let last = words.last();
        lemma_extend_order_first_seen(order, rest);
        let seen = first_seen(rest);
        lemma_first_seen_contents(rest);
        lemma_extend_order_contents(order, rest);
        if seen.contains(last) {
            assert(rest.contains(last));
            assert(extend_order(order, rest).contains(last));
        } else {
            assert(seen.push(last).drop_last() =~= seen);
            assert(first_seen(words) == seen.push(last));
        }
    }
}

/// The first-seen order of two pieces of a text, one after the other, is the first-seen order
/// of the whole: merging the tallies of consecutive pieces keeps the order of the text.
pub proof fn lemma_first_seen_concat(first: Seq<Seq<char>>, second: Seq<Seq<char>>)
    ensures
        extend_order(first_seen(first), first_seen(second)) == first_seen(first + second),
{
    lemma_first_seen_contents(first);
    lemma_extend_order_first_seen(first_seen(first), second);
    lemma_extend_order_concat(Seq::empty(), first, second);
}

/// Adding a prefix of the entries never gives a word more than adding all of them.
proof fn lemma_add_entries_prefix_le(counts: Counts, entries: Seq<(String, usize)>, i: int, w: Seq<char>)
    requires
        0 <= i <= entries.len(),
    ensures
        count_in(add_entries(counts, entries.take(i)), w) <= count_in(add_entries(counts, entries), w),
    decreases entries.len() - i,
{
    if i < entries.len() {
        lemma_add_entries_prefix_le(counts, entries, i + 1, w);
        assert(entries.take(i + 1).drop_last() =~= entries.take(i));
    } else {
        assert(entries.take(i) =~= entries);
    }
}

/// Dropping the last entry of a listing lists the tally without that entry's word.
proof fn lemma_lists_counts_drop_last(entries: Seq<(String, usize)>, b: Counts)
    requires
        b.dom().finite(),
        lists_counts(entries, b),
        entries.len() > 0,
    ensures
        lists_counts(entries.drop_last(), b.remove(entries.last().0@)),
        b.contains_key(entries.last().0@),
        b[entries.last().0@] == entries.last().1 as nat,
{
    let k = entries.last().0@;
    let rest = entries.drop_last();
    let b2 = b.remove(k);
    assert(b.contains_key(k));
    assert(b2.dom() =~= b.dom().remove(k));
    assert forall|w: Seq<char>| #[trigger] b2.contains_key(w) implies exists|i: int|
        0 <= i < rest.len() && #[trigger] rest[i].0@ == w by {
        assert(b.contains_key(w));
        let i = choose|i: int| 0 <= i < entries.len() && #[trigger] entries[i].0@ == w;
        assert(i != entries.len() - 1);
        assert(rest[i].0@ == w);
    }
    assert forall|i: int| 0 <= i < rest.len() implies #[trigger] b2.contains_key(rest[i].0@)
        && b2[rest[i].0@] == rest[i].1 as nat by {
        assert(entries[i] == rest[i]);
        assert(entries[i].0@ != entries[entries.len() - 1].0@);
    }
    assert forall|i: int, j: int|
        0 <= i < rest.len() && 0 <= j < rest.len() && i != j implies #[trigger] rest[i].0@
        != #[trigger] rest[j].0@ by {
        assert(entries[i] == rest[i]);
        assert(entries[j] == rest[j]);
    }
}

/// Adding the entries that list `b` to `a` gives the word-wise sum of `a` and `b`.
proof fn lemma_add_entries_merged(a: Counts, entries: Seq<(String, usize)>, b: Counts)
    requires
        b.dom().finite(),
        lists_counts(entries, b),
    ensures
        add_entries(a, entries) == merged(a, b),
    decreases entries.len(),
{
    if entries.len() == 0 {
        assert(b.dom() =~= Set::<Seq<char>>::empty());
        assert(merged(a, b) =~= a);
    } else {
        let k = entries.last().0@;
        lemma_lists_counts_drop_last(entries, b);
        lemma_add_entries_merged(a, entries.drop_last(), b.remove(k));
        assert(add_entries(a, entries) =~= merged(a, b));
    }
}

/// Removing a word from a finite tally takes its count off the total.
pub proof fn lemma_total_remove(counts: Counts, word: Seq<char>)
    requires
        counts.dom().finite(),
        counts.contains_key(word),
    ensures
        total(counts) == counts[word] + total(counts.remove(word)),
    decreases counts.dom().len(),
{
    assert(counts.dom().len() > 0);
    let w = counts.dom().choose();
    if w != word {
        let without_w = counts.remove(w);
        let without_word = counts.remove(word);
        assert(without_w.dom() =~= counts.dom().remove(w));
        assert(without_word.dom() =~= counts.dom().remove(word));
        lemma_total_remove(without_w, word);
        lemma_total_remove(without_word, w);
        assert(without_w.remove(word) =~= without_word.remove(w));
    }
}

/// Adding `amount` occurrences of a word adds `amount` to the total.
pub proof fn lemma_total_add_count(counts: Counts, word: Seq<char>, amount: nat)
    requires
        counts.dom().finite(),
    ensures
        add_count(counts, word, amount).dom().finite(),
        total(add_count(counts, word, amount)) == total(counts) + amount,
{
    let added = add_count(counts, word, amount);
    assert(added.dom() =~= counts.dom().insert(word));
    lemma_total_remove(added, word);
    if counts.contains_key(word) {
        lemma_total_remove(counts, word);
        assert(added.remove(word) =~= counts.remove(word));
    } else {
        assert(added.remove(word) =~= counts);
    }
}

/// Tallying a sequence of words adds its length to the total: every word is counted once.
pub proof fn lemma_total_add_all(counts: Counts, words: Seq<Seq<char>>)
    requires
        counts.dom().finite(),
    ensures
        add_all(counts, words).dom().finite(),
        total(add_all(counts, words)) == total(counts) + words.len(),
    decreases words.len(),
{
    if words.len() > 0 {
        lemma_total_add_all(counts, words.drop_last());
        lemma_total_add_count(add_all(counts, words.drop_last()), words.last(), 1);
    }
}

/// Merging two finite tallies adds their totals: no count is lost or made up.
pub proof fn lemma_total_merged(a: Counts, b: Counts)
    requires
        a.dom().finite(),
        b.dom().finite(),
    ensures
        merged(a, b).dom().finite(),
        total(merged(a, b)) == total(a) + total(b),
    decreases b.dom().len(),
{
    assert(merged(a, b).dom() =~= a.dom().union(b.dom()));
    if b.dom().len() == 0 {
        assert(b.dom() =~= Set::<Seq<char>>::empty());
        assert(merged(a, b) =~= a);
    } else {
        let k = b.dom().choose();
        let rest = b.remove(k);
        assert(rest.dom() =~= b.dom().remove(k));
        lemma_total_merged(a, rest);
        lemma_total_remove(b, k);
        lemma_total_add_count(merged(a, rest), k, b[k]);
        assert(merged(a, b) =~= add_count(merged(a, rest), k, b[k]));
    }
}

/// The counts of a listing of a tally add up to the tally's total.
pub proof fn lemma_entries_total(entries: Seq<(String, usize)>, counts: Counts)
    requires
        counts.dom().finite(),
        lists_counts(entries, counts),
    ensures
        entries_total(entries) == total(counts),
    decreases entries.len(),
{
    if entries.len() == 0 {
        assert(counts.dom().len() == 0);
    } else {
        let k = entries.last().0@;
        lemma_lists_counts_drop_last(entries, counts);
        lemma_entries_total(entries.drop_last(), counts.remove(k));
        lemma_total_remove(counts, k);
    }
}

/// The counts of a prefix of the entries add up to no more than those of all of them.
pub proof fn lemma_entries_total_prefix(entries: Seq<(String, usize)>, i: int)
    requires
        0 <= i <= entries.len(),
    ensures
        entries_total(entries.take(i)) <= entries_total(entries),
    decreases entries.len() - i,
{
    if i < entries.len() {
        lemma_entries_total_prefix(entries, i + 1);
        assert(entries.take(i + 1).drop_last() =~= entries.take(i));
    } else {
        assert(entries.take(i) =~= entries);
    }
}

/// A part of a tally totals no more than the whole.
pub proof fn lemma_total_submap(part: Counts, whole: Counts)
    requires
        whole.dom().finite(),
        part.dom().subset_of(whole.dom()),
        forall|w: Seq<char>| #[trigger] part.contains_key(w) ==> part[w] == whole[w],
    ensures
        part.dom().finite(),
        total(part) <= total(whole),
    decreases whole.dom().len(),
{
    vstd::set_lib::lemma_len_subset(part.dom(), whole.dom());
    if part.dom().len() == 0 {
    } else {
        let k = part.dom().choose();
        assert(part.contains_key(k));
        lemma_total_remove(part, k);
        lemma_total_remove(whole, k);
        let p2 = part.remove(k);
        let w2 = whole.remove(k);
        assert(w2.dom() =~= whole.dom().remove(k));
        assert(p2.dom() =~= part.dom().remove(k));
        lemma_total_submap(p2, w2);
    }
}

/// Reordering a listing of a tally still lists it.
pub proof fn lemma_lists_counts_permutation(
    before: Seq<(String, usize)>,
    after: Seq<(String, usize)>,
    counts: Counts,
)
    requires
        lists_counts(before, counts),
        after.to_multiset() == before.to_multiset(),
    ensures
        lists_counts(after, counts),
{
    broadcast use vstd::seq_lib::group_to_multiset_ensures;

    assert(before.no_duplicates()) by {
        assert forall|i: int, j: int|
            0 <= i < before.len() && 0 <= j < before.len() && i != j implies before[i]
            != before[j] by {
            assert(before[i].0@ != before[j].0@);
        }
    }
    before.lemma_multiset_has_no_duplicates();
    assert forall|x: (String, usize)| after.to_multiset().contains(x) implies after.to_multiset().count(x)
        == 1 by {
        assert(before.to_multiset().contains(x));
    }
    after.lemma_multiset_has_no_duplicates_conv();
    assert(after.len() == before.len()) by {
        assert(after.len() == after.to_multiset().len());
        assert(before.len() == before.to_multiset().len());
    }
    assert forall|i: int| 0 <= i < after.len() implies exists|j: int|
        0 <= j < before.len() && before[j] == #[trigger] after[i] by {
        assert(after.contains(after[i]));
        assert(after.to_multiset().count(after[i]) > 0);
        assert(before.contains(after[i]));
    }
    assert forall|i: int| 0 <= i < after.len() implies #[trigger] counts.contains_key(after[i].0@)
        && counts[after[i].0@] == after[i].1 as nat by {
        let j = choose|j: int| 0 <= j < before.len() && before[j] == after[i];
        assert(counts.contains_key(before[j].0@));
    }
    assert forall|i: int, j: int|
        0 <= i < after.len() && 0 <= j < after.len() && i != j implies #[trigger] after[i].0@
        != #[trigger] after[j].0@ by {
        let a = choose|a: int| 0 <= a < before.len() && before[a] == after[i];
        let b = choose|b: int| 0 <= b < before.len() && before[b] == after[j];
        if after[i].0@ == after[j].0@ {
            if a != b {
                assert(before[a].0@ != before[b].0@);
            }
            assert(after[i] != after[j]);
        }
    }
    assert forall|w: Seq<char>| #[trigger] counts.contains_key(w) implies exists|i: int|
        0 <= i < after.len() && #[trigger] after[i].0@ == w by {
        let j = choose|j: int| 0 <= j < before.len() && #[trigger] before[j].0@ == w;
        assert(before.contains(before[j]));
        assert(before.to_multiset().count(before[j]) > 0);
        assert(after.contains(before[j]));
        let i = choose|i: int| 0 <= i < after.len() && after[i] == before[j];
        assert(after[i].0@ == w);
    }
}

/// Merging is commutative: the order of two tallies does not matter.
pub proof fn lemma_merge_commutative(a: Counts, b: Counts)
    ensures
        merged(a, b) == merged(b, a),
{
    assert(merged(a, b) =~= merged(b, a));
}

/// Merging is associative: tallies can be merged in any grouping.
pub proof fn lemma_merge_associative(a: Counts, b: Counts, c: Counts)
    ensures
        merged(merged(a, b), c) == merged(a, merged(b, c)),
{
    assert(merged(merged(a, b), c) =~= merged(a, merged(b, c)));
}

/// Merging with an empty tally changes nothing.
pub proof fn lemma_merge_empty(a: Counts)
    ensures
        merged(a, Counts::empty()) == a,
{
    assert(merged(a, Counts::empty()) =~= a);
}

/// Tallying words one sequence after another is tallying their concatenation.
pub proof fn lemma_add_all_concat(counts: Counts, first: Seq<Seq<char>>, second: Seq<Seq<char>>)
    ensures
        add_all(add_all(counts, first), second) == add_all(counts, first + second),
    decreases second.len(),
{
    if second.len() == 0 {
        assert(first + second =~= first);
    } else {
        lemma_add_all_concat(counts, first, second.drop_last());
        assert((first + second).drop_last() =~= first + second.drop_last());
    }
}

/// Tallying words into an existing tally is merging the existing tally with a fresh
/// tally of those words.
pub proof fn lemma_add_all_is_merge(counts: Counts, words: Seq<Seq<char>>)
    ensures
        add_all(counts, words) == merged(counts, add_all(Counts::empty(), words)),
    decreases words.len(),
{
    if words.len() == 0 {
        assert(merged(counts, Counts::empty()) =~= counts);
    } else {
        lemma_add_all_is_merge(counts, words.drop_last());
        assert(add_all(counts, words) =~= merged(counts, add_all(Counts::empty(), words)));
    }
}

/// Tallying two pieces of a text separately and merging the tallies gives the tally
/// of all their words together.
pub proof fn lemma_merge_of_tallies(first: Seq<Seq<char>>, second: Seq<Seq<char>>)
    ensures
        merged(add_all(Counts::empty(), first), add_all(Counts::empty(), second))
            == add_all(Counts::empty(), first + second),
{
    lemma_add_all_is_merge(add_all(Counts::empty(), first), second);
    lemma_add_all_concat(Counts::empty(), first, second);
}

impl TallyMap {
    /// Extends the tally map with the Unicode words of `content`, normalized with `case`.
    pub fn add_words(&mut self, content: &str, case: Case)
        requires
            old(self).wf(),
            counts_at_most(old(self)@, usize::MAX - content.spec_bytes().len() - 1),
        ensures
            final(self).wf(),
            final(self)@ == add_all(old(self)@, normalized_unicode(unicode_words(content@), case)),
            final(self).spec_order() == extend_order(
                old(self).spec_order(),
                normalized_unicode(unicode_words(content@), case),
            ),
            forall|w: Seq<char>| #[trigger] count_in(final(self)@, w) <= count_in(old(self)@, w)
                + content.spec_bytes().len() + 1,
    {
        let words = unicode_word_list(content, case);
        let ghost views = string_views(words@);
        let n = words.len();
        let mut i: usize = 0;
        while i < n
            invariant
                n == words@.len(),
                n <= content.spec_bytes().len() + 1,
                views == string_views(words@),
                0 <= i <= n,
                self.wf(),
                self@ == add_all(old(self)@, views.take(i as int)),
                self.spec_order() == extend_order(old(self).spec_order(), views.take(i as int)),
                counts_at_most(old(self)@, usize::MAX - content.spec_bytes().len() - 1),
                forall|w: Seq<char>| #[trigger] count_in(self@, w) <= count_in(old(self)@, w) + i,
            decreases n - i,
        {
            proof {
                assert(views.take(i + 1).drop_last() =~= views.take(i as int));
                assert(count_in(self@, words@[i as int]@) <= count_in(old(self)@, words@[i as int]@) + i);
            }
            let ghost prev = self@;
            self.increment(words[i].as_str());
            proof {
                assert forall|w: Seq<char>| #[trigger] count_in(self@, w) <= count_in(old(self)@, w)
                    + i + 1 by {
                    assert(count_in(prev, w) <= count_in(old(self)@, w) + i);
                }
            }
            i = i + 1;
        }
        proof {
            assert(views.take(n as int) =~= views);
        }
    }
}
} // verus!
