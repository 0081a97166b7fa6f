//! Filtering words based on length, frequency, patterns and exclusion lists.
use vstd::prelude::*;

use crate::error::WordTallyError;
use crate::options::case::{normalize_unicode_spec, Case};
use crate::options::encoding::string_views;
use crate::options::patterns::{
    regex_error_message, regex_patterns_compile, regex_set_matches, ExcludePatterns,
    IncludePatterns,
};
use crate::tally_map::{
    count_in, entry_words, hash_counts, kept_order, lists_counts, table_get, table_insert, table_new, Counts, HashCounts,
    TallyMap,
};

verus! {

/// Minimum number of characters a word needs to have to be tallied.
pub type MinChars = usize;

/// Minimum number of times a word needs to appear to be tallied.
pub type MinCount = usize;

/// Collection of words to be excluded from the tally.
pub type ExcludeWordsList = Vec<String>;

/// A list of regex pattern strings.
pub type PatternList = Vec<String>;

/// The number of grapheme cluster breakpoints in a text, as ICU4X's grapheme cluster
/// segmenter finds them (both ends included, so one more than the number of graphemes of a
/// non-empty text).
pub uninterp spec fn grapheme_breaks(text: Seq<char>) -> usize;

/// Counts the breakpoints that `icu_segmenter::GraphemeClusterSegmenter::new().segment_str`
/// yields for `word`.
#[verifier::external_body]
fn grapheme_break_count(word: &str) -> (breaks: usize)
    ensures
        breaks == grapheme_breaks(word@),
{
    icu_segmenter::GraphemeClusterSegmenter::new().segment_str(word).count()
}

/// A list of words that should be omitted from the tally.
#[derive(Clone, Debug, PartialEq, Eq, Hash)]
pub struct ExcludeWords(pub ExcludeWordsList);

impl ExcludeWords {
    /// The excluded words joined by commas, as the verbose output shows them.
    pub fn to_string(&self) -> (joined: String)
        ensures
            joined@ == join_with_commas(string_views(self.0@)),
    {
        join_strings(self.0.as_slice())
    }
}

/// Joins strings with a comma between each two.
pub fn join_strings(strings: &[String]) -> (joined: String)
    ensures
        joined@ == join_with_commas(string_views(strings@)),
{
    let mut joined = String::new();
    let mut i: usize = 0;
    while i < strings.len()
        invariant
            0 <= i <= strings@.len(),
            joined@ == join_with_commas(string_views(strings@).take(i as int)),
        decreases strings@.len() - i,
    {
        proof {
            assert(string_views(strings@).take(i + 1).drop_last() =~= string_views(strings@).take(i as int));
        }
        if i > 0 {
            joined.append(",");
        }
        joined.append(strings[i].as_str());
        i = i + 1;
    }
    proof {
        assert(string_views(strings@).take(strings@.len() as int) =~= string_views(strings@));
    }
    joined
}

/// Words joined with a comma between each two.
pub open spec fn join_with_commas(words: Seq<Seq<char>>) -> Seq<char>
    decreases words.len(),
{
    if words.len() == 0 {
        seq![]
    } else if words.len() == 1 {
        words[0]
    } else {
        join_with_commas(words.drop_last()) + ","@ + words.last()
    }
}

/// Filters for which words should be tallied.
pub struct Filters {
    /// Minimum characters required for a word.
    min_chars: Option<MinChars>,
    /// Minimum count for number of times a word must appear.
    min_count: Option<MinCount>,
    /// List of specific words to exclude.
    exclude_words: Option<ExcludeWords>,
    /// List of regex patterns to exclude words matching the patterns.
    exclude_patterns: Option<ExcludePatterns>,
    /// List of regex patterns to include only words matching the patterns.
    include_patterns: Option<IncludePatterns>,
}

/// The pattern list that a builder sets: none for an empty list.
pub open spec fn patterns_setting(patterns: Seq<Seq<char>>) -> Option<Seq<Seq<char>>> {
    if patterns.len() == 0 {
        None
    } else {
        Some(patterns)
    }
}

impl Filters {
    /// The minimum character setting.
    pub closed spec fn spec_min_chars(&self) -> Option<usize> {
        self.min_chars
    }

    /// The minimum count setting.
    pub closed spec fn spec_min_count(&self) -> Option<usize> {
        self.min_count
    }

    /// The words to exclude, if set.
    pub closed spec fn spec_exclude_words(&self) -> Option<Seq<Seq<char>>> {
        match self.exclude_words {
            Some(words) => Some(string_views(words.0@)),
            None => None,
        }
    }

    /// The patterns whose matches are excluded, if set.
    pub closed spec fn spec_exclude_patterns(&self) -> Option<Seq<Seq<char>>> {
        match self.exclude_patterns {
            Some(p) => Some(p.patterns()),
            None => None,
        }
    }

    /// The patterns that words must match, if set.
    pub closed spec fn spec_include_patterns(&self) -> Option<Seq<Seq<char>>> {
        match self.include_patterns {
            Some(p) => Some(p.patterns()),
            None => None,
        }
    }

    /// Whether a word seen `count` times passes every filter that is set.
    pub open spec fn keeps(&self, word: Seq<char>, count: nat, case: Case) -> bool {
        &&& (self.spec_min_count() matches Some(m) ==> count >= m)
        &&& (self.spec_min_chars() matches Some(m) ==> grapheme_breaks(word) > m)
        &&& (self.spec_exclude_words() matches Some(ws) ==> !(exists|i: int|
            0 <= i < ws.len() && normalize_unicode_spec(case, #[trigger] ws[i]) == word))
        &&& (self.spec_exclude_patterns() matches Some(ps) ==> !regex_set_matches(ps, word))
        &&& (self.spec_include_patterns() matches Some(ps) ==> regex_set_matches(ps, word))
    }

    /// The part of a tally that passes the filters.
    pub open spec fn retained(&self, counts: Counts, case: Case) -> Counts {
        Map::new(
            |w: Seq<char>| counts.contains_key(w) && self.keeps(w, counts[w], case),
            |w: Seq<char>| counts[w],
        )
    }

    /// Filters that filter nothing.
    pub fn empty() -> (filters: Self)
        ensures
            filters.spec_min_chars() is None,
            filters.spec_min_count() is None,
            filters.spec_exclude_words() is None,
            filters.spec_exclude_patterns() is None,
            filters.spec_include_patterns() is None,
    {
        Filters {
            min_chars: None,
            min_count: None,
            exclude_words: None,
            exclude_patterns: None,
            include_patterns: None,
        }
    }

    /// Constructs a new `Filters` instance with the specified filters. An empty pattern list
    /// sets no pattern filter.
    ///
    /// Fails with `WordTallyError::Pattern` when exclude or include patterns do not compile.
    pub fn new(
        min_chars: Option<MinChars>,
        min_count: Option<MinCount>,
        exclude_words: Option<ExcludeWordsList>,
        exclude_patterns: Option<PatternList>,
        include_patterns: Option<PatternList>,
    ) -> (result: Result<Self, WordTallyError>)
        ensures
            result is Ok <==> ((exclude_patterns matches Some(p) ==> (p@.len() == 0
                || regex_patterns_compile(string_views(p@)))) && (include_patterns matches Some(p)
                ==> (p@.len() == 0 || regex_patterns_compile(string_views(p@))))),
            result matches Ok(f) ==> {
                &&& f.spec_min_chars() == min_chars
                &&& f.spec_min_count() == min_count
                &&& f.spec_exclude_words() == (match exclude_words {
                    Some(w) => Some(string_views(w@)),
                    None => None::<Seq<Seq<char>>>,
                })
                &&& f.spec_exclude_patterns() == (match exclude_patterns {
                    Some(p) => patterns_setting(string_views(p@)),
                    None => None::<Seq<Seq<char>>>,
                })
                &&& f.spec_include_patterns() == (match include_patterns {
                    Some(p) => patterns_setting(string_views(p@)),
                    None => None::<Seq<Seq<char>>>,
                })
            },
            result matches Err(e) ==> e is Pattern,
    {
        let words = match exclude_words {
            Some(w) => Some(ExcludeWords(w)),
            None => None,
        };
        let mut filters = Filters {
            min_chars,
            min_count,
            exclude_words: words,
            exclude_patterns: None,
            include_patterns: None,
        };
        if let Some(patterns) = exclude_patterns {
            filters = match filters.with_exclude_patterns(&patterns) {
                Ok(f) => f,
                Err(e) => return Err(e),
            };
        }
        if let Some(patterns) = include_patterns {
            filters = match filters.with_include_patterns(&patterns) {
                Ok(f) => f,
                Err(e) => return Err(e),
            };
        }
        Ok(filters)
    }

    /// Set minimum character requirement.
    pub fn with_min_chars(self, min_chars: MinChars) -> (filters: Self)
        ensures
            filters.spec_min_chars() == Some(min_chars),
            filters.spec_min_count() == self.spec_min_count(),
            filters.spec_exclude_words() == self.spec_exclude_words(),
            filters.spec_exclude_patterns() == self.spec_exclude_patterns(),
            filters.spec_include_patterns() == self.spec_include_patterns(),
    {
        Filters { min_chars: Some(min_chars), ..self }
    }

    /// Set minimum count requirement.
    pub fn with_min_count(self, min_count: MinCount) -> (filters: Self)
        ensures
            filters.spec_min_count() == Some(min_count),
            filters.spec_min_chars() == self.spec_min_chars(),
            filters.spec_exclude_words() == self.spec_exclude_words(),
            filters.spec_exclude_patterns() == self.spec_exclude_patterns(),
            filters.spec_include_patterns() == self.spec_include_patterns(),
    {
        Filters { min_count: Some(min_count), ..self }
    }

    /// Set words to exclude.
    pub fn with_exclude_words(self, words: Vec<String>) -> (filters: Self)
        ensures
            filters.spec_exclude_words() == Some(string_views(words@)),
            filters.spec_min_chars() == self.spec_min_chars(),
            filters.spec_min_count() == self.spec_min_count(),
            filters.spec_exclude_patterns() == self.spec_exclude_patterns(),
            filters.spec_include_patterns() == self.spec_include_patterns(),
    {
        Filters { exclude_words: Some(ExcludeWords(words)), ..self }
    }

    /// Sets patterns to exclude words that match; an empty list clears the setting.
    ///
    /// Fails with `WordTallyError::Pattern` (of kind "exclude") when the patterns do not compile.
    pub fn with_exclude_patterns(self, input_patterns: &PatternList) -> (result: Result<
        Self,
        WordTallyError,
    >)
        ensures
            result is Ok <==> (input_patterns@.len() == 0 || regex_patterns_compile(
                string_views(input_patterns@),
            )),
            result matches Ok(f) ==> {
                &&& f.spec_exclude_patterns() == patterns_setting(string_views(input_patterns@))
                &&& f.spec_min_chars() == self.spec_min_chars()
                &&& f.spec_min_count() == self.spec_min_count()
                &&& f.spec_exclude_words() == self.spec_exclude_words()
                &&& f.spec_include_patterns() == self.spec_include_patterns()
            },
            result matches Err(e) ==> (e matches WordTallyError::Pattern { kind, .. } && kind@ == "exclude"@),
    {
        if input_patterns.len() == 0 {
            return Ok(Filters { exclude_patterns: None, ..self });
        }
        let copy = crate::options::patterns::clone_strings(input_patterns);
        match ExcludePatterns::new(copy) {
            Ok(p) => Ok(Filters { exclude_patterns: Some(p), ..self }),
            Err(e) => Err(
                WordTallyError::Pattern { kind: "exclude".to_owned(), message: regex_error_message(&e) },
            ),
        }
    }

    /// Sets patterns to include only words that match; an empty list clears the setting.
    ///
    /// Fails with `WordTallyError::Pattern` (of kind "include") when the patterns do not compile.
    pub fn with_include_patterns(self, input_patterns: &PatternList) -> (result: Result<
        Self,
        WordTallyError,
    >)
        ensures
            result is Ok <==> (input_patterns@.len() == 0 || regex_patterns_compile(
                string_views(input_patterns@),
            )),
            result matches Ok(f) ==> {
                &&& f.spec_include_patterns() == patterns_setting(string_views(input_patterns@))
                &&& f.spec_min_chars() == self.spec_min_chars()
                &&& f.spec_min_count() == self.spec_min_count()
                &&& f.spec_exclude_words() == self.spec_exclude_words()
                &&& f.spec_exclude_patterns() == self.spec_exclude_patterns()
            },
            result matches Err(e) ==> (e matches WordTallyError::Pattern { kind, .. } && kind@ == "include"@),
    {
        if input_patterns.len() == 0 {
            return Ok(Filters { include_patterns: None, ..self });
        }
        let copy = crate::options::patterns::clone_strings(input_patterns);
        match IncludePatterns::new(copy) {
            Ok(p) => Ok(Filters { include_patterns: Some(p), ..self }),
            Err(e) => Err(
                WordTallyError::Pattern { kind: "include".to_owned(), message: regex_error_message(&e) },
            ),
        }
    }

    /// Get the minimum character requirement.
    pub fn min_chars(&self) -> (min_chars: Option<MinChars>)
        ensures
            min_chars == self.spec_min_chars(),
    {
        self.min_chars
    }

    /// Get the minimum count requirement.
    pub fn min_count(&self) -> (min_count: Option<MinCount>)
        ensures
            min_count == self.spec_min_count(),
    {
        self.min_count
    }

    /// Get the excluded words list.
    pub fn exclude_words(&self) -> (words: Option<&ExcludeWords>)
        ensures
            match words {
                Some(w) => self.spec_exclude_words() == Some(string_views(w.0@)),
                None => self.spec_exclude_words() is None,
            },
    {
        match &self.exclude_words {
            Some(w) => Some(w),
            None => None,
        }
    }

    /// Get the excluded patterns.
    pub fn exclude_patterns(&self) -> (patterns: Option<&ExcludePatterns>)
        ensures
            match patterns {
                Some(p) => self.spec_exclude_patterns() == Some(p.patterns()),
                None => self.spec_exclude_patterns() is None,
            },
    {
        match &self.exclude_patterns {
            Some(p) => Some(p),
            None => None,
        }
    }

    /// Get the included patterns.
    pub fn include_patterns(&self) -> (patterns: Option<&IncludePatterns>)
        ensures
            match patterns {
                Some(p) => self.spec_include_patterns() == Some(p.patterns()),
                None => self.spec_include_patterns() is None,
            },
    {
        match &self.include_patterns {
            Some(p) => Some(p),
            None => None,
        }
    }

    /// The excluded words normalized with `case`, as a hash set.
    fn discard_set(&self, case: Case) -> (discard: Option<HashCounts>)
        ensures
            match self.spec_exclude_words() {
                None => discard is None,
                Some(ws) => discard matches Some(table) && (forall|w: Seq<char>|
                    #[trigger] hash_counts(table).contains_key(w) <==> exists|i: int|
                        0 <= i < ws.len() && normalize_unicode_spec(case, #[trigger] ws[i]) == w),
            },
    {
        match &self.exclude_words {
            None => None,
            Some(words) => {
                let ghost ws = string_views(words.0@);
                let mut table = table_new();
                let mut i: usize = 0;
                while i < words.0.len()
                    invariant
                        ws == string_views(words.0@),
                        0 <= i <= words.0@.len(),
                        forall|w: Seq<char>|
                            #[trigger] hash_counts(table).contains_key(w) <==> exists|j: int|
                                0 <= j < i && normalize_unicode_spec(case, #[trigger] ws[j]) == w,
                    decreases words.0@.len() - i,
                {
                    let normalized = case.normalize_unicode(words.0[i].as_str());
                    let ghost key = normalized@;
                    table_insert(&mut table, normalized, 1);
                    proof {
                        assert forall|w: Seq<char>|
                            #[trigger] hash_counts(table).contains_key(w) <==> exists|j: int|
                                0 <= j < i + 1 && normalize_unicode_spec(case, #[trigger] ws[j])
                                    == w by {
                            if w == key {
                                assert(normalize_unicode_spec(case, ws[i as int]) == w);
                            }
                        }
                    }
                    i = i + 1;
                }
                proof {
                    assert(self.spec_exclude_words() == Some(ws));
                    assert(ws.len() == i);
                }
                Some(table)
            },
        }
    }

    /// Whether a word seen `count` times passes every filter that is set.
    fn keeps_word(&self, word: &str, count: usize, case: Case, discard: &Option<HashCounts>) -> (keep:
        bool)
        requires
            match self.spec_exclude_words() {
                None => discard is None,
                Some(ws) => discard matches Some(table) && (forall|w: Seq<char>|
                    #[trigger] hash_counts(*table).contains_key(w) <==> exists|i: int|
                        0 <= i < ws.len() && normalize_unicode_spec(case, #[trigger] ws[i]) == w),
            },
        ensures
            keep == self.keeps(word@, count as nat, case),
    {
        if let Some(min_count) = self.min_count {
            if count < min_count {
                return false;
            }
        }
        if let Some(min_chars) = self.min_chars {
            if grapheme_break_count(word) <= min_chars {
                return false;
            }
        }
        if let Some(table) = discard {
            if table_get(table, word).is_some() {
                return false;
            }
        }
        if let Some(patterns) = &self.exclude_patterns {
            if patterns.matches(word) {
                return false;
            }
        }
        if let Some(patterns) = &self.include_patterns {
            if !patterns.matches(word) {
                return false;
            }
        }
        true
    }

    /// Removes words from the `tally_map` based on any word `Filters`.
    pub fn apply(&self, tally_map: &mut TallyMap, case: Case)
        requires
            old(tally_map).wf(),
        ensures
            final(tally_map).wf(),
            final(tally_map)@ == self.retained(old(tally_map)@, case),
            final(tally_map).spec_order() == kept_order(
                old(tally_map).spec_order(),
                self.retained(old(tally_map)@, case),
            ),
    {
        let discard = self.discard_set(case);
        let mut taken = TallyMap::new();
        std::mem::swap(&mut taken, tally_map);
        let ghost counts = taken@;
        let ghost order = taken.spec_order();
        let entries = taken.into_entries();
        let mut kept = TallyMap::new();
        let mut i: usize = 0;
        while i < entries.len()
            invariant
                counts == old(tally_map)@,
                order == old(tally_map).spec_order(),
                entry_words(entries@) == order,
                kept.spec_order() == kept_order(order.take(i as int), self.retained(counts, case)),
                lists_counts(entries@, counts),
                0 <= i <= entries@.len(),
                kept.wf(),
                match self.spec_exclude_words() {
                    None => discard is None,
                    Some(ws) => discard matches Some(table) && (forall|w: Seq<char>|
                        #[trigger] hash_counts(table).contains_key(w) <==> exists|k: int|
                            0 <= k < ws.len() && normalize_unicode_spec(case, #[trigger] ws[k])
                                == w),
                },
                forall|j: int|
                    0 <= j < i && self.keeps(entries@[j].0@, entries@[j].1 as nat, case)
                        ==> #[trigger] kept@.contains_key(entries@[j].0@),
                forall|w: Seq<char>|
                    #[trigger] kept@.contains_key(w) ==> counts.contains_key(w) && kept@[w]
                        == counts[w] && self.keeps(w, counts[w], case) && exists|j: int|
                        0 <= j < i && #[trigger] entries@[j].0@ == w,
            decreases entries@.len() - i,
        {
            let (word, count) = &entries[i];
            proof {
                assert(order[i as int] == word@);
                assert(order.take(i + 1).drop_last() =~= order.take(i as int));
                assert(order.take(i + 1).last() == word@);
                assert(counts.contains_key(entries@[i as int].0@));
                assert(counts[word@] == *count as nat);
            }
            if self.keeps_word(word.as_str(), *count, case, &discard) {
                proof {
                    if kept@.contains_key(word@) {
                        let j = choose|j: int| 0 <= j < i && #[trigger] entries@[j].0@ == word@;
                        assert(entries@[j].0@ != entries@[i as int].0@);
                    }
                    assert(count_in(kept@, word@) == 0);
                }
                let ghost prev = kept@;
                let owned = word.clone();
                assert(owned@ == word@);
                proof {
                    assert(!kept.spec_order().contains(word@)) by {
                        kept.lemma_order_words();
                    }
                }
                kept.add_owned(owned, *count);
                proof {
                    assert(counts.contains_key(entries@[i as int].0@));
                    assert forall|w: Seq<char>| #[trigger] kept@.contains_key(w) implies counts.contains_key(w)
                        && kept@[w] == counts[w] && self.keeps(w, counts[w], case) && exists|j: int|
                        0 <= j < i + 1 && #[trigger] entries@[j].0@ == w by {
                        if w == word@ {
                            assert(entries@[i as int].0@ == w);
                        } else {
                            assert(prev.contains_key(w));
                        }
                    }
                }
            }
            i = i + 1;
        }
        proof {
            assert forall|w: Seq<char>| #[trigger] counts.contains_key(w) && self.keeps(w, counts[w], case)
                implies kept@.contains_key(w) by {
                let j = choose|j: int| 0 <= j < entries@.len() && #[trigger] entries@[j].0@ == w;
                assert(entries@[j].1 as nat == counts[w]);
            }
            assert(kept@ =~= self.retained(counts, case));
            assert(order.take(entries@.len() as int) =~= order);
        }
        *tally_map = kept;
    }
}

/// Filters with no setting keep every word of a tally, with its count.
pub proof fn lemma_no_filters_keep_all(filters: Filters, counts: Counts, case: Case)
    requires
        filters.spec_min_chars() is None,
        filters.spec_min_count() is None,
        filters.spec_exclude_words() is None,
        filters.spec_exclude_patterns() is None,
        filters.spec_include_patterns() is None,
    ensures
        filters.retained(counts, case) == counts,
{
    assert(filters.retained(counts, case) =~= counts);
}

/// Filtering keeps a part of the tally: each kept word with its count.
pub proof fn lemma_retained_part(filters: Filters, counts: Counts, case: Case)
    ensures
        filters.retained(counts, case).dom().subset_of(counts.dom()),
        forall|w: Seq<char>| #[trigger] filters.retained(counts, case).contains_key(w) ==> filters.retained(
            counts,
            case,
        )[w] == counts[w],
{
}

/// Every word of the exclude list is filtered out, in its normalized form: whatever the
/// tally and the case setting, no word equal to the normalized form of any listed word is left.
/// A word that is not listed, and that passes the other filters, stays with its count.
pub proof fn lemma_excluded_words_removed(filters: Filters, counts: Counts, case: Case)
    ensures
        filters.spec_exclude_words() matches Some(ws) ==> forall|i: int|
            0 <= i < ws.len() ==> !filters.retained(counts, case).contains_key(
                #[trigger] normalize_unicode_spec(case, ws[i]),
            ),
        filters.spec_min_chars() is None && filters.spec_min_count() is None
            && filters.spec_exclude_patterns() is None && filters.spec_include_patterns() is None
            ==> forall|w: Seq<char>|
            #[trigger] counts.contains_key(w) && !(filters.spec_exclude_words() matches Some(ws) && exists|i: int|
                0 <= i < ws.len() && normalize_unicode_spec(case, ws[i]) == w) ==> filters.retained(counts, case).contains_key(w)
                && filters.retained(counts, case)[w] == counts[w],
{
}

/// The minimum-count filter keeps exactly the words seen at least that often.
pub proof fn lemma_min_count_keeps_frequent(filters: Filters, counts: Counts, case: Case)
    ensures
        filters.spec_min_count() matches Some(m) ==> forall|w: Seq<char>|
            #[trigger] filters.retained(counts, case).contains_key(w) ==> counts[w] >= m,
{
}

impl Default for Filters {
    fn default() -> (filters: Self)
        ensures
            filters.spec_min_chars() is None,
            filters.spec_min_count() is None,
            filters.spec_exclude_words() is None,
            filters.spec_exclude_patterns() is None,
            filters.spec_include_patterns() is None,
    {
        Filters::empty()
    }
}

} // verus!
