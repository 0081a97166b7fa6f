//! A tally of words with a count of the number of times each appears.
//!
//! `WordTally` tallies the number of times words appear in source input. Word boundaries
//! follow the Unicode word segmentation rules (through ICU4X), or, in ASCII mode, runs of
//! ASCII letters, digits and apostrophes.
use vstd::prelude::*;

pub mod args;
pub mod case;
pub mod config;
mod error;
pub mod exit_code;
pub mod formatting;
pub mod input_reader;
pub mod options;
pub mod output;
pub mod performance;
pub mod tally_map;
pub mod verbose;

pub use error::{IoErrorKind, WordTallyError};
pub use exit_code::ExitCode;
pub use input_reader::SliceReader;
pub use options::case::Case;
pub use options::filters::{ExcludeWords, Filters, MinChars, MinCount, PatternList};
pub use options::io::Io;
pub use options::patterns::{ExcludePatterns, IncludePatterns};
pub use options::performance::Performance;
pub use options::serialization::Serialization;
pub use options::sort::Sort;
pub use options::threads::Threads;
pub use options::Options;
pub use tally_map::TallyMap;

use options::sort::{sorted_asc, sorted_by, sorted_desc};
use options::filters::lemma_no_filters_keep_all;
use tally_map::{
    add_all, entries_total, entry_words, kept_order, lemma_entries_total, lemma_lists_counts_permutation, lemma_total_add_all, lists_counts,
    total, Counts,
};

verus! {

/// The count of occurrences for a word.
pub type Count = usize;

/// A word.
pub type Word = String;

/// A collection of word-count pairs.
pub type Tally = Vec<(Word, Count)>;

/// A tally of word frequencies and counts, along with processing options.
pub struct WordTally<'a> {
    /// Ordered pairs of words and the count of times they appear.
    tally: Tally,
    /// All of the options specified for how to tally.
    options: &'a Options,
    /// The sum of all words tallied.
    count: Count,
    /// The sum of unique words tallied.
    uniq_count: Count,
}

impl<'a> WordTally<'a> {
    /// The word-count pairs, in their current order.
    pub closed spec fn spec_tally(&self) -> Seq<(Word, Count)> {
        self.tally@
    }

    /// The options the tally was made with.
    pub closed spec fn spec_options(&self) -> Options {
        *self.options
    }

    /// The sum of all counts.
    pub closed spec fn spec_count(&self) -> Count {
        self.count
    }

    /// The number of distinct words.
    pub closed spec fn spec_uniq_count(&self) -> Count {
        self.uniq_count
    }

    /// The tally lists each kept word once with its count, the totals agree with it, and
    /// its order is the one that the sort option asks for.
    pub open spec fn tallies(&self, kept: tally_map::Counts) -> bool {
        &&& lists_counts(self.spec_tally(), kept)
        &&& self.spec_count() == total(kept)
        &&& self.spec_uniq_count() == kept.dom().len()
        &&& self.spec_uniq_count() == self.spec_tally().len()
        &&& (self.spec_options().spec_sort() is Desc ==> sorted_desc(self.spec_tally()))
        &&& (self.spec_options().spec_sort() is Asc ==> sorted_asc(self.spec_tally()))
    }

    /// Creates a `WordTally` from a `TallyMap` and `Options`: applies the filters, totals
    /// the counts and sorts the pairs; unsorted, the words keep the order in which they were
    /// first seen.
    pub fn from_tally_map(tally_map: TallyMap, options: &'a Options) -> (word_tally: Self)
        requires
            tally_map.wf(),
            total(options.spec_filters().retained(tally_map@, options.spec_case())) <= usize::MAX,
        ensures
            word_tally.spec_options() == *options,
            word_tally.tallies(options.spec_filters().retained(tally_map@, options.spec_case())),
            options.spec_sort() is Unsorted ==> entry_words(word_tally.spec_tally()) == kept_order(
                tally_map.spec_order(),
                options.spec_filters().retained(tally_map@, options.spec_case()),
            ),
    {
        let ghost kept = options.spec_filters().retained(tally_map@, options.spec_case());
        let ghost first_order = tally_map.spec_order();
        let mut tally_map = tally_map;
        options.filters().apply(&mut tally_map, options.case());
        let entries = tally_map.into_entries();
        proof {
            lemma_entries_total(entries@, kept);
        }
        let n = entries.len();
        let mut count: usize = 0;
        let mut i: usize = 0;
        while i < n
            invariant
                n == entries@.len(),
                0 <= i <= n,
                entries_total(entries@) <= usize::MAX,
                count == entries_total(entries@.take(i as int)),
                entries_total(entries@.take(i as int)) <= entries_total(entries@),
            decreases n - i,
        {
            proof {
                assert(entries@.take(i + 1).drop_last() =~= entries@.take(i as int));
                tally_map::lemma_entries_total_prefix(entries@, i + 1);
            }
            count = count + entries[i].1;
            i = i + 1;
        }
        proof {
            assert(entries@.take(n as int) =~= entries@);
        }
        let uniq_count = entries.len();
        let ghost listed = entries@;
        let mut instance = WordTally { tally: entries, options, count, uniq_count };
        instance.sort();
        proof {
            if instance.spec_options().spec_sort() is Unsorted {
                assert(instance.spec_tally() == listed);
            } else {
                lemma_lists_counts_permutation(listed, instance.spec_tally(), kept);
            }
        }
        instance
    }

    /// Sorts the `tally` field in place if a sort order other than `Unsorted` is provided.
    pub fn sort(&mut self)
        ensures
            final(self).spec_options() == old(self).spec_options(),
            final(self).spec_count() == old(self).spec_count(),
            final(self).spec_uniq_count() == old(self).spec_uniq_count(),
            sorted_by(old(self).spec_options().spec_sort(), old(self).spec_tally(), final(self).spec_tally()),
    {
        let sort = self.options.sort();
        let io = self.options.io();
        sort.apply(self.tally.as_mut_slice(), io);
    }

    /// Converts to a tally whose options reference may live shorter.
    pub fn into_owned<'b>(self) -> (word_tally: WordTally<'b>)
        where
            'a: 'b,
        ensures
            word_tally.spec_tally() == self.spec_tally(),
            word_tally.spec_options() == self.spec_options(),
            word_tally.spec_count() == self.spec_count(),
            word_tally.spec_uniq_count() == self.spec_uniq_count(),
    {
        WordTally { tally: self.tally, options: self.options, count: self.count, uniq_count: self.uniq_count }
    }

    /// Gets the `tally` field.
    pub fn tally(&self) -> (tally: &[(Word, Count)])
        ensures
            tally@ == self.spec_tally(),
    {
        self.tally.as_slice()
    }

    /// Consumes the `tally` field.
    pub fn into_tally(self) -> (tally: Tally)
        ensures
            tally@ == self.spec_tally(),
    {
        self.tally
    }

    /// Gets a reference to the `options`.
    pub fn options(&self) -> (options: &Options)
        ensures
            *options == self.spec_options(),
    {
        self.options
    }

    /// Gets the `uniq_count` field.
    pub fn uniq_count(&self) -> (uniq_count: Count)
        ensures
            uniq_count == self.spec_uniq_count(),
    {
        self.uniq_count
    }

    /// Gets the `count` field.
    pub fn count(&self) -> (count: Count)
        ensures
            count == self.spec_count(),
    {
        self.count
    }
}

/// When no filter is set, a word tally of a text counts every word of it: its count is the
/// number of words tallied.
pub proof fn lemma_unfiltered_count(word_tally: WordTally, words: Seq<Seq<char>>)
    requires
        word_tally.spec_options().spec_filters().spec_min_chars() is None,
        word_tally.spec_options().spec_filters().spec_min_count() is None,
        word_tally.spec_options().spec_filters().spec_exclude_words() is None,
        word_tally.spec_options().spec_filters().spec_exclude_patterns() is None,
        word_tally.spec_options().spec_filters().spec_include_patterns() is None,
        word_tally.tallies(
            word_tally.spec_options().spec_filters().retained(
                add_all(Counts::empty(), words),
                word_tally.spec_options().spec_case(),
            ),
        ),
    ensures
        word_tally.spec_count() == words.len(),
{
    let filters = word_tally.spec_options().spec_filters();
    let case = word_tally.spec_options().spec_case();
    lemma_no_filters_keep_all(filters, add_all(Counts::empty(), words), case);
    assert(Counts::empty().dom() =~= Set::<Seq<char>>::empty());
    lemma_total_add_all(Counts::empty(), words);
}

/// A word tally of some kept counts lists each kept word exactly once with its count and
/// nothing else, counts as many words as the kept counts add up to, and, when sorted, lists
/// the counts from the largest down (`Desc`) or from the smallest up (`Asc`).
pub proof fn lemma_word_tally_lists_kept_words(word_tally: WordTally, kept: Counts)
    requires
        kept.dom().finite(),
        word_tally.tallies(kept),
    ensures
        forall|w: Seq<char>| #[trigger] kept.contains_key(w) ==> exists|i: int|
            0 <= i < word_tally.spec_tally().len() && #[trigger] word_tally.spec_tally()[i].0@ == w
                && word_tally.spec_tally()[i].1 as nat == kept[w],
        forall|i: int|
            0 <= i < word_tally.spec_tally().len() ==> kept.contains_key(#[trigger] word_tally.spec_tally()[i].0@),
        forall|i: int, j: int|
            0 <= i < j < word_tally.spec_tally().len() ==> #[trigger] word_tally.spec_tally()[i].0@
                != #[trigger] word_tally.spec_tally()[j].0@,
        word_tally.spec_count() == entries_total(word_tally.spec_tally()),
        word_tally.spec_options().spec_sort() is Desc ==> forall|i: int, j: int|
            0 <= i < j < word_tally.spec_tally().len() ==> #[trigger] word_tally.spec_tally()[i].1
                >= #[trigger] word_tally.spec_tally()[j].1,
        word_tally.spec_options().spec_sort() is Asc ==> forall|i: int, j: int|
            0 <= i < j < word_tally.spec_tally().len() ==> #[trigger] word_tally.spec_tally()[i].1
                <= #[trigger] word_tally.spec_tally()[j].1,
{
    lemma_entries_total(word_tally.spec_tally(), kept);
    assert forall|w: Seq<char>| #[trigger] kept.contains_key(w) implies exists|i: int|
        0 <= i < word_tally.spec_tally().len() && #[trigger] word_tally.spec_tally()[i].0@ == w
            && word_tally.spec_tally()[i].1 as nat == kept[w] by {
        let i = choose|i: int| 0 <= i < word_tally.spec_tally().len() && #[trigger] word_tally.spec_tally()[i].0@ == w;
        assert(kept.contains_key(word_tally.spec_tally()[i].0@));
    }
}

} // verus!
