//! Sorting options for word tallying results.
use vstd::prelude::*;

use rayon::slice::ParallelSliceMut;

use crate::options::io::Io;

verus! {

/// The entries are in descending order of count.
pub open spec fn sorted_desc(tally: Seq<(String, usize)>) -> bool {
    forall|i: int, j: int| 0 <= i < j < tally.len() ==> #[trigger] tally[i].1 >= #[trigger] tally[j].1
}

/// The entries are in ascending order of count.
pub open spec fn sorted_asc(tally: Seq<(String, usize)>) -> bool {
    forall|i: int, j: int| 0 <= i < j < tally.len() ==> #[trigger] tally[i].1 <= #[trigger] tally[j].1
}

/// The sort key of a count: the count for an ascending sort, its negation for a descending one.
pub fn count_key(count: usize, descending: bool) -> (key: i128)
    ensures
        key == (if descending {
            -(count as int)
        } else {
            count as int
        }),
{
    if descending {
        -(count as i128)
    } else {
        count as i128
    }
}

/// The entries are in order of count: descending or ascending.
pub open spec fn sorted_by_count(tally: Seq<(String, usize)>, descending: bool) -> bool {
    if descending {
        sorted_desc(tally)
    } else {
        sorted_asc(tally)
    }
}

/// `slice::sort_unstable_by_key` with `count_key` as the key: the same entries, in order of
/// count; the order of equal counts is not promised.
#[verifier::external_body]
pub(crate) fn sort_by_count(tally: &mut [(String, usize)], descending: bool)
    ensures
        final(tally)@.to_multiset() == old(tally)@.to_multiset(),
        sorted_by_count(final(tally)@, descending),
{
    tally.sort_unstable_by_key(|&(_, count)| count_key(count, descending));
}

/// `rayon::slice::ParallelSliceMut::par_sort_unstable_by_key` with `count_key` as the key:
/// the same entries, in order of count; the order of equal counts is not promised.
#[verifier::external_body]
pub(crate) fn par_sort_by_count(tally: &mut [(String, usize)], descending: bool)
    ensures
        final(tally)@.to_multiset() == old(tally)@.to_multiset(),
        sorted_by_count(final(tally)@, descending),
{
    tally.par_sort_unstable_by_key(|&(_, count)| count_key(count, descending));
}

/// Sort order by count.
#[derive(Clone, Copy, Debug, PartialEq, Eq, Hash)]
pub enum Sort {
    /// Sort by count descending.
    Desc,
    /// Sort by count ascending.
    Asc,
    /// No sorting applied.
    Unsorted,
}

impl Default for Sort {
    fn default() -> (sort: Self)
        ensures
            sort == Sort::Desc,
    {
        Sort::Desc
    }
}

/// What sorting with `sort` promises of the entries afterwards, given those before.
pub open spec fn sorted_by(sort: Sort, before: Seq<(String, usize)>, after: Seq<(String, usize)>) -> bool {
    match sort {
        Sort::Unsorted => after == before,
        Sort::Desc => after.to_multiset() == before.to_multiset() && sorted_desc(after),
        Sort::Asc => after.to_multiset() == before.to_multiset() && sorted_asc(after),
    }
}

impl Sort {
    /// The name of the sort order, as the command line spells it.
    pub fn to_string(&self) -> (name: String)
        ensures
            name@ == (match *self {
                Sort::Desc => "desc"@,
                Sort::Asc => "asc"@,
                Sort::Unsorted => "unsorted"@,
            }),
    {
        match self {
            Sort::Desc => "desc".to_owned(),
            Sort::Asc => "asc".to_owned(),
            Sort::Unsorted => "unsorted".to_owned(),
        }
    }

    /// Returns true if sorting should be applied.
    pub fn should_sort(&self) -> (b: bool)
        ensures
            b == !(*self is Unsorted),
    {
        !matches!(self, Sort::Unsorted)
    }

    /// Returns true if sorting should be in descending order.
    pub fn is_descending(&self) -> (b: bool)
        ensures
            b == (*self is Desc),
    {
        matches!(self, Sort::Desc)
    }

    /// Sorts the tally in place by count; sequentially for `Io::Stream`, in parallel otherwise.
    pub fn apply(&self, tally: &mut [(String, usize)], io: Io)
        ensures
            sorted_by(*self, old(tally)@, final(tally)@),
    {
        match (self, io) {
            (Sort::Unsorted, _) => {},
            (Sort::Desc, Io::Stream) => sort_by_count(tally, true),
            (Sort::Asc, Io::Stream) => sort_by_count(tally, false),
            (Sort::Desc, _) => par_sort_by_count(tally, true),
            (Sort::Asc, _) => par_sort_by_count(tally, false),
        }
    }
}

} // verus!
