//! Formatting options: case normalization, sort order and output format.
use vstd::prelude::*;

use crate::case::Case;
use crate::options::sort::{count_key, par_sort_by_count, sorted_asc, sorted_by_count, sorted_desc};
use crate::performance::Processing;
use crate::{Count, Word};

verus! {

/// Output format options.
#[derive(Clone, Copy, Debug, PartialEq, Eq, PartialOrd, Ord, Hash)]
pub enum Format {
    /// Plain text.
    Text,
    /// JSON.
    Json,
    /// CSV.
    Csv,
}

impl Default for Format {
    fn default() -> (format: Self)
        ensures
            format == Format::Text,
    {
        Format::Text
    }
}

impl Format {
    /// The name of the format.
    pub fn to_string(&self) -> (name: String)
        ensures
            name@ == format_name(*self),
    {
        match self {
            Format::Text => "text".to_owned(),
            Format::Json => "json".to_owned(),
            Format::Csv => "csv".to_owned(),
        }
    }
}

/// The name of a format.
pub open spec fn format_name(format: Format) -> Seq<char> {
    match format {
        Format::Text => "text"@,
        Format::Json => "json"@,
        Format::Csv => "csv"@,
    }
}

/// The name of a case setting.
pub open spec fn case_name(case: Case) -> Seq<char> {
    match case {
        Case::Lower => "lower"@,
        Case::Upper => "upper"@,
        Case::Original => "original"@,
    }
}

/// The name of a sort order.
pub open spec fn sort_name(sort: Sort) -> Seq<char> {
    match sort {
        Sort::Desc => "desc"@,
        Sort::Asc => "asc"@,
        Sort::Unsorted => "unsorted"@,
    }
}

/// Formatting options for word tallying.
#[derive(Clone, Copy, Debug, PartialEq, Eq, PartialOrd, Ord, Hash)]
pub struct Formatting {
    case: Case,
    sort: Sort,
    format: Format,
}

impl Default for Formatting {
    fn default() -> (formatting: Self)
        ensures
            formatting.spec_case() == Case::Lower,
            formatting.spec_sort() == Sort::Desc,
            formatting.spec_format() == Format::Text,
    {
        Formatting { case: Case::default(), sort: Sort::default(), format: Format::default() }
    }
}

impl Formatting {
    /// The case setting.
    pub closed spec fn spec_case(&self) -> Case {
        self.case
    }

    /// The sort setting.
    pub closed spec fn spec_sort(&self) -> Sort {
        self.sort
    }

    /// The format setting.
    pub closed spec fn spec_format(&self) -> Format {
        self.format
    }

    /// Construct `Formatting`.
    pub fn new(case: Case, sort: Sort, format: Format) -> (formatting: Self)
        ensures
            formatting.spec_case() == case,
            formatting.spec_sort() == sort,
            formatting.spec_format() == format,
    {
        Formatting { case, sort, format }
    }

    /// With custom sort, and the default case and format.
    pub fn with_sort(sort: Sort) -> (formatting: Self)
        ensures
            formatting.spec_case() == Case::Lower,
            formatting.spec_sort() == sort,
            formatting.spec_format() == Format::Text,
    {
        Formatting { sort, ..Self::default() }
    }

    /// With custom case, and the default sort and format.
    pub fn with_case(case: Case) -> (formatting: Self)
        ensures
            formatting.spec_case() == case,
            formatting.spec_sort() == Sort::Desc,
            formatting.spec_format() == Format::Text,
    {
        Formatting { case, ..Self::default() }
    }

    /// With custom format, and the default case and sort.
    pub fn with_format(format: Format) -> (formatting: Self)
        ensures
            formatting.spec_case() == Case::Lower,
            formatting.spec_sort() == Sort::Desc,
            formatting.spec_format() == format,
    {
        Formatting { format, ..Self::default() }
    }

    /// Set the case option and return a new instance.
    pub fn with_case_setting(self, case: Case) -> (formatting: Self)
        ensures
            formatting.spec_case() == case,
            formatting.spec_sort() == self.spec_sort(),
            formatting.spec_format() == self.spec_format(),
    {
        Formatting { case, ..self }
    }

    /// Set the sort option and return a new instance.
    pub fn with_sort_setting(self, sort: Sort) -> (formatting: Self)
        ensures
            formatting.spec_case() == self.spec_case(),
            formatting.spec_sort() == sort,
            formatting.spec_format() == self.spec_format(),
    {
        Formatting { sort, ..self }
    }

    /// Set the format option and return a new instance.
    pub fn with_format_setting(self, format: Format) -> (formatting: Self)
        ensures
            formatting.spec_case() == self.spec_case(),
            formatting.spec_sort() == self.spec_sort(),
            formatting.spec_format() == format,
    {
        Formatting { format, ..self }
    }

    /// Get the case setting.
    pub fn case(&self) -> (case: Case)
        ensures
            case == self.spec_case(),
    {
        self.case
    }

    /// Get the sort setting.
    pub fn sort(&self) -> (sort: Sort)
        ensures
            sort == self.spec_sort(),
    {
        self.sort
    }

    /// Get the format setting.
    pub fn format(&self) -> (format: Format)
        ensures
            format == self.spec_format(),
    {
        self.format
    }

    /// The settings as the verbose output shows them.
    pub fn to_string(&self) -> (text: String)
        ensures
            text@ == "Formatting { case: "@ + case_name(self.spec_case()) + ", sort: "@ + sort_name(self.spec_sort())
                + ", format: "@ + format_name(self.spec_format()) + " }"@,
    {
        let mut text = "Formatting { case: ".to_owned();
        let case = self.case.to_string();
        text.append(case.as_str());
        text.append(", sort: ");
        let sort = self.sort.to_string();
        text.append(sort.as_str());
        text.append(", format: ");
        let format = self.format.to_string();
        text.append(format.as_str());
        text.append(" }");
        text
    }
}

/// `after` holds the entries of `before`, reordered so that entries with equal counts keep
/// their order.
pub open spec fn stably_reordered(before: Seq<(Word, Count)>, after: Seq<(Word, Count)>) -> bool {
    exists|positions: Seq<int>|
        {
            &&& positions.len() == before.len()
            &&& after.len() == before.len()
            &&& forall|i: int| 0 <= i < positions.len() ==> 0 <= #[trigger] positions[i] < before.len()
            &&& forall|i: int, j: int|
                0 <= i < j < positions.len() ==> #[trigger] positions[i] != #[trigger] positions[j]
            &&& forall|i: int| 0 <= i < after.len() ==> #[trigger] after[i] == before[positions[i]]
            &&& forall|i: int, j: int|
                0 <= i < j < after.len() && #[trigger] after[i].1 == #[trigger] after[j].1 ==> positions[i]
                    < positions[j]
        }
}

/// `slice::sort_by_key` with `count_key` as the key: a stable sort in order of count.
#[verifier::external_body]
fn stable_sort_by_count(tally: &mut [(Word, Count)], descending: bool)
    ensures
        stably_reordered(old(tally)@, final(tally)@),
        sorted_by_count(final(tally)@, descending),
{
    tally.sort_by_key(|&(_, count)| count_key(count, descending));
}

/// Sort order by count.
#[derive(Clone, Copy, Debug, PartialEq, Eq, PartialOrd, Ord, Hash)]
pub enum Sort {
    /// Descending by count.
    Desc,
    /// Ascending by count.
    Asc,
    /// As tallied.
    Unsorted,
}

impl Default for Sort {
    fn default() -> (sort: Self)
        ensures
            sort == Sort::Desc,
    {
        Sort::Desc
    }
}

impl Sort {
    /// The name of the sort order.
    pub fn to_string(&self) -> (name: String)
        ensures
            name@ == sort_name(*self),
    {
        match self {
            Sort::Desc => "desc".to_owned(),
            Sort::Asc => "asc".to_owned(),
            Sort::Unsorted => "unsorted".to_owned(),
        }
    }

    /// Sorts the tally in place if a sort order other than `Unsorted` is provided: an unstable
    /// parallel sort for parallel processing, a stable sort for sequential processing.
    pub fn apply(&self, tally: &mut [(Word, Count)], processing: Processing)
        ensures
            *self is Unsorted ==> final(tally)@ == old(tally)@,
            *self is Desc ==> sorted_desc(final(tally)@),
            *self is Asc ==> sorted_asc(final(tally)@),
            processing is Parallel && !(*self is Unsorted) ==> final(tally)@.to_multiset() == old(tally)@.to_multiset(),
            processing is Sequential && !(*self is Unsorted) ==> stably_reordered(old(tally)@, final(tally)@),
    {
        match (self, processing) {
            (Sort::Unsorted, _) => {},
            (Sort::Desc, Processing::Parallel) => par_sort_by_count(tally, true),
            (Sort::Asc, Processing::Parallel) => par_sort_by_count(tally, false),
            (Sort::Desc, Processing::Sequential) => stable_sort_by_count(tally, true),
            (Sort::Asc, Processing::Sequential) => stable_sort_by_count(tally, false),
        }
    }
}

} // verus!
