//! Regular expression pattern matching for word filtering.
use vstd::prelude::*;

use crate::options::encoding::string_views;
use crate::options::filters::{join_strings, join_with_commas};

verus! {

/// Collection of regex pattern strings.
pub type InputPatterns = Vec<String>;

/// The `regex::RegexSet` type, opaque to the proofs.
#[verifier::external_type_specification]
#[verifier::external_body]
pub struct ExRegexSet(regex::RegexSet);

/// The `regex::Error` type, opaque to the proofs.
#[verifier::external_type_specification]
#[verifier::external_body]
pub struct ExRegexError(regex::Error);

/// The patterns a `RegexSet` was built from, in order (what `RegexSet::patterns` lists).
pub uninterp spec fn regex_set_patterns(set: regex::RegexSet) -> Seq<Seq<char>>;

/// Whether `RegexSet::new` accepts these patterns (each parses and the set fits the
/// crate's default size limits).
pub uninterp spec fn regex_patterns_compile(patterns: Seq<Seq<char>>) -> bool;

/// Whether some pattern of the list matches somewhere in `text` (what `RegexSet::is_match`
/// answers for a set built from these patterns).
pub uninterp spec fn regex_set_matches(patterns: Seq<Seq<char>>, text: Seq<char>) -> bool;

/// Calls `regex::RegexSet::new`: succeeds exactly when the patterns compile, and the set then
/// holds these patterns.
#[verifier::external_body]
fn regex_set_new(patterns: &Vec<String>) -> (result: Result<regex::RegexSet, regex::Error>)
    ensures
        result is Ok == regex_patterns_compile(string_views(patterns@)),
        result matches Ok(set) ==> regex_set_patterns(set) == string_views(patterns@),
{
    regex::RegexSet::new(patterns)
}

/// Calls `regex::RegexSet::empty`: a set with no patterns.
#[verifier::external_body]
fn regex_set_empty() -> (set: regex::RegexSet)
    ensures
        regex_set_patterns(set) == Seq::<Seq<char>>::empty(),
{
    regex::RegexSet::empty()
}

/// Calls `regex::RegexSet::is_match`; a set without patterns matches nothing.
#[verifier::external_body]
fn regex_set_is_match(set: &regex::RegexSet, word: &str) -> (found: bool)
    ensures
        found == regex_set_matches(regex_set_patterns(*set), word@),
        regex_set_patterns(*set).len() == 0 ==> !found,
{
    set.is_match(word)
}

/// Calls `regex::RegexSet::clone`: the copy holds the same patterns.
#[verifier::external_body]
fn regex_set_clone(set: &regex::RegexSet) -> (copy: regex::RegexSet)
    ensures
        regex_set_patterns(copy) == regex_set_patterns(*set),
{
    set.clone()
}

/// Calls `regex::Error`'s `Display` implementation; nothing is promised of the text.
#[verifier::external_body]
pub(crate) fn regex_error_message(error: &regex::Error) -> String {
    error.to_string()
}

/// Base struct for regex pattern filtering: the raw input patterns and their compiled set.
struct Patterns {
    /// Original pattern strings.
    input_patterns: InputPatterns,
    /// Compiled regex set for matching.
    regex_set: regex::RegexSet,
}

impl Patterns {
    #[verifier::type_invariant]
    spec fn compiled_from_input(self) -> bool {
        regex_set_patterns(self.regex_set) == string_views(self.input_patterns@)
    }

    spec fn spec_patterns(&self) -> Seq<Seq<char>> {
        string_views(self.input_patterns@)
    }

    /// Creates a pattern set and compiles the `RegexSet`.
    fn new(input_patterns: InputPatterns) -> (result: Result<Self, regex::Error>)
        ensures
            result is Ok == regex_patterns_compile(string_views(input_patterns@)),
            result matches Ok(p) ==> p.spec_patterns() == string_views(input_patterns@),
    {
        match regex_set_new(&input_patterns) {
            Ok(regex_set) => Ok(Patterns { input_patterns, regex_set }),
            Err(e) => Err(e),
        }
    }

    fn empty() -> (p: Self)
        ensures
            p.spec_patterns() == Seq::<Seq<char>>::empty(),
    {
        let regex_set = regex_set_empty();
        let input_patterns: Vec<String> = Vec::new();
        proof {
            assert(string_views(input_patterns@) =~= Seq::<Seq<char>>::empty());
        }
        Patterns { input_patterns, regex_set }
    }

    /// Checks if a word matches any pattern in the `RegexSet`.
    fn matches(&self, word: &str) -> (found: bool)
        ensures
            found == regex_set_matches(self.spec_patterns(), word@),
    {
        proof {
            use_type_invariant(self);
        }
        regex_set_is_match(&self.regex_set, word)
    }

    fn copy(&self) -> (p: Self)
        ensures
            p.spec_patterns() == self.spec_patterns(),
    {
        proof {
            use_type_invariant(self);
        }
        let regex_set = regex_set_clone(&self.regex_set);
        let input_patterns = clone_strings(&self.input_patterns);
        Patterns { input_patterns, regex_set }
    }
}

/// A copy of a list of strings.
pub fn clone_strings(strings: &Vec<String>) -> (copy: Vec<String>)
    ensures
        string_views(copy@) == string_views(strings@),
        copy@.len() == strings@.len(),
{
    let mut copy: Vec<String> = Vec::new();
    let mut i: usize = 0;
    while i < strings.len()
        invariant
            0 <= i <= strings@.len(),
            copy@.len() == i,
            forall|k: int| 0 <= k < i ==> #[trigger] copy@[k]@ == strings@[k]@,
        decreases strings.len() - i,
    {
        copy.push(strings[i].clone());
        i = i + 1;
    }
    proof {
        assert(string_views(copy@) =~= string_views(strings@));
    }
    copy
}

/// Regex patterns used to exclude matching words.
pub struct ExcludePatterns(Patterns);

/// Regex patterns used to include only matching words.
pub struct IncludePatterns(Patterns);

impl ExcludePatterns {
    /// The patterns, in order.
    pub closed spec fn patterns(&self) -> Seq<Seq<char>> {
        self.0.spec_patterns()
    }

    /// Creates patterns from owned pattern strings; fails exactly when they do not compile.
    pub fn new(input_patterns: InputPatterns) -> (result: Result<Self, regex::Error>)
        ensures
            result is Ok == regex_patterns_compile(string_views(input_patterns@)),
            result matches Ok(p) ==> p.patterns() == string_views(input_patterns@),
    {
        match Patterns::new(input_patterns) {
            Ok(p) => Ok(ExcludePatterns(p)),
            Err(e) => Err(e),
        }
    }

    /// Tests if a word matches any pattern.
    pub fn matches(&self, word: &str) -> (found: bool)
        ensures
            found == regex_set_matches(self.patterns(), word@),
    {
        self.0.matches(word)
    }

    /// Returns a slice of the original pattern strings.
    pub fn as_patterns(&self) -> (patterns: &[String])
        ensures
            string_views(patterns@) == self.patterns(),
    {
        self.0.input_patterns.as_slice()
    }

    /// Returns the number of patterns.
    pub fn len(&self) -> (len: usize)
        ensures
            len == self.patterns().len(),
    {
        self.0.input_patterns.len()
    }

    /// Returns true if there are no patterns.
    pub fn is_empty(&self) -> (empty: bool)
        ensures
            empty == (self.patterns().len() == 0),
    {
        self.0.input_patterns.len() == 0
    }

    /// A copy with the same patterns.
    pub fn copy(&self) -> (p: Self)
        ensures
            p.patterns() == self.patterns(),
    {
        ExcludePatterns(self.0.copy())
    }

    /// The patterns joined by commas, as the verbose output shows them.
    pub fn to_string(&self) -> (joined: String)
        ensures
            joined@ == join_with_commas(self.patterns()),
    {
        join_strings(self.0.input_patterns.as_slice())
    }
}

impl Default for ExcludePatterns {
    fn default() -> (p: Self)
        ensures
            p.patterns() == Seq::<Seq<char>>::empty(),
    {
        ExcludePatterns(Patterns::empty())
    }
}

impl IncludePatterns {
    /// The patterns, in order.
    pub closed spec fn patterns(&self) -> Seq<Seq<char>> {
        self.0.spec_patterns()
    }

    /// Creates patterns from owned pattern strings; fails exactly when they do not compile.
    pub fn new(input_patterns: InputPatterns) -> (result: Result<Self, regex::Error>)
        ensures
            result is Ok == regex_patterns_compile(string_views(input_patterns@)),
            result matches Ok(p) ==> p.patterns() == string_views(input_patterns@),
    {
        match Patterns::new(input_patterns) {
            Ok(p) => Ok(IncludePatterns(p)),
            Err(e) => Err(e),
        }
    }

    /// Tests if a word matches any pattern.
    pub fn matches(&self, word: &str) -> (found: bool)
        ensures
            found == regex_set_matches(self.patterns(), word@),
    {
        self.0.matches(word)
    }

    /// Returns a slice of the original pattern strings.
    pub fn as_patterns(&self) -> (patterns: &[String])
        ensures
            string_views(patterns@) == self.patterns(),
    {
        self.0.input_patterns.as_slice()
    }

    /// Returns the number of patterns.
    pub fn len(&self) -> (len: usize)
        ensures
            len == self.patterns().len(),
    {
        self.0.input_patterns.len()
    }

    /// Returns true if there are no patterns.
    pub fn is_empty(&self) -> (empty: bool)
        ensures
            empty == (self.patterns().len() == 0),
    {
        self.0.input_patterns.len() == 0
    }

    /// A copy with the same patterns.
    pub fn copy(&self) -> (p: Self)
        ensures
            p.patterns() == self.patterns(),
    {
        IncludePatterns(self.0.copy())
    }

    /// The patterns joined by commas, as the verbose output shows them.
    pub fn to_string(&self) -> (joined: String)
        ensures
            joined@ == join_with_commas(self.patterns()),
    {
        join_strings(self.0.input_patterns.as_slice())
    }
}

impl Default for IncludePatterns {
    fn default() -> (p: Self)
        ensures
            p.patterns() == Seq::<Seq<char>>::empty(),
    {
        IncludePatterns(Patterns::empty())
    }
}

} // verus!
