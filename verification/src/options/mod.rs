//! Configuration options for word tallying.
use vstd::prelude::*;

pub mod case;
pub mod delimiter;
pub mod delimiters;
pub mod encoding;
pub mod filters;
pub mod io;
pub mod patterns;
pub mod performance;
pub mod processing;
pub mod serialization;
pub mod sort;
pub mod threads;

use self::case::Case;
use self::encoding::Encoding;
use self::filters::Filters;
use self::io::Io;
use self::performance::Performance;
use self::serialization::Serialization;
use self::sort::Sort;
use self::threads::{pool_failure_message, Threads};
use crate::error::WordTallyError;

verus! {

/// Unified configuration for word tallying operations.
pub struct Options {
    /// Case handling strategy (original, lower, upper).
    case: Case,
    /// Sort order for results (unsorted, ascending, descending).
    sort: Sort,
    /// Serialization configuration (output format, delimiter).
    serialization: Serialization,
    /// Filter settings (word length, frequency, patterns, exclusions).
    filters: Filters,
    /// I/O strategy (sequential, streamed, in-memory, memory-mapped).
    io: Io,
    /// Performance tuning configuration (threads, memory allocation, chunk size).
    performance: Performance,
    /// Text encoding strategy (unicode, ascii).
    encoding: Encoding,
}

impl Options {
    /// The case setting.
    pub closed spec fn spec_case(&self) -> Case {
        self.case
    }

    /// The sort setting.
    pub closed spec fn spec_sort(&self) -> Sort {
        self.sort
    }

    /// The serialization setting.
    pub closed spec fn spec_serialization(&self) -> Serialization {
        self.serialization
    }

    /// The filters.
    pub closed spec fn spec_filters(&self) -> Filters {
        self.filters
    }

    /// The I/O strategy.
    pub closed spec fn spec_io(&self) -> Io {
        self.io
    }

    /// The performance configuration.
    pub closed spec fn spec_performance(&self) -> Performance {
        self.performance
    }

    /// The encoding setting.
    pub closed spec fn spec_encoding(&self) -> Encoding {
        self.encoding
    }

    /// Creates a new `Options` with custom case, sort, serializer, filters, I/O and
    /// performance configurations, and Unicode encoding.
    pub fn new(
        case: Case,
        sort: Sort,
        serialization: Serialization,
        filters: Filters,
        io: Io,
        performance: Performance,
    ) -> (options: Self)
        ensures
            options.spec_case() == case,
            options.spec_sort() == sort,
            options.spec_serialization() == serialization,
            options.spec_filters() == filters,
            options.spec_io() == io,
            options.spec_performance() == performance,
            options.spec_encoding() == Encoding::Unicode,
    {
        Options { case, sort, serialization, filters, io, performance, encoding: Encoding::Unicode }
    }

    /// Set case handling strategy.
    pub fn with_case(self, case: Case) -> (options: Self)
        ensures
            options.spec_case() == case,
            options.spec_sort() == self.spec_sort(),
            options.spec_serialization() == self.spec_serialization(),
            options.spec_filters() == self.spec_filters(),
            options.spec_io() == self.spec_io(),
            options.spec_performance() == self.spec_performance(),
            options.spec_encoding() == self.spec_encoding(),
    {
        Options { case, ..self }
    }

    /// Set sort order.
    pub fn with_sort(self, sort: Sort) -> (options: Self)
        ensures
            options.spec_case() == self.spec_case(),
            options.spec_sort() == sort,
            options.spec_serialization() == self.spec_serialization(),
            options.spec_filters() == self.spec_filters(),
            options.spec_io() == self.spec_io(),
            options.spec_performance() == self.spec_performance(),
            options.spec_encoding() == self.spec_encoding(),
    {
        Options { sort, ..self }
    }

    /// Set serialization options while preserving other options.
    pub fn with_serialization(self, serialization: Serialization) -> (options: Self)
        ensures
            options.spec_case() == self.spec_case(),
            options.spec_sort() == self.spec_sort(),
            options.spec_serialization() == serialization,
            options.spec_filters() == self.spec_filters(),
            options.spec_io() == self.spec_io(),
            options.spec_performance() == self.spec_performance(),
            options.spec_encoding() == self.spec_encoding(),
    {
        Options { serialization, ..self }
    }

    /// Set filters while preserving other options.
    pub fn with_filters(self, filters: Filters) -> (options: Self)
        ensures
            options.spec_case() == self.spec_case(),
            options.spec_sort() == self.spec_sort(),
            options.spec_serialization() == self.spec_serialization(),
            options.spec_filters() == filters,
            options.spec_io() == self.spec_io(),
            options.spec_performance() == self.spec_performance(),
            options.spec_encoding() == self.spec_encoding(),
    {
        Options { filters, ..self }
    }

    /// Set performance configuration while preserving other options.
    pub fn with_performance(self, performance: Performance) -> (options: Self)
        ensures
            options.spec_case() == self.spec_case(),
            options.spec_sort() == self.spec_sort(),
            options.spec_serialization() == self.spec_serialization(),
            options.spec_filters() == self.spec_filters(),
            options.spec_io() == self.spec_io(),
            options.spec_performance() == performance,
            options.spec_encoding() == self.spec_encoding(),
    {
        Options { performance, ..self }
    }

    /// Set I/O strategy.
    pub fn with_io(self, io: Io) -> (options: Self)
        ensures
            options.spec_case() == self.spec_case(),
            options.spec_sort() == self.spec_sort(),
            options.spec_serialization() == self.spec_serialization(),
            options.spec_filters() == self.spec_filters(),
            options.spec_io() == io,
            options.spec_performance() == self.spec_performance(),
            options.spec_encoding() == self.spec_encoding(),
    {
        Options { io, ..self }
    }

    /// Set text encoding strategy.
    pub fn with_encoding(self, encoding: Encoding) -> (options: Self)
        ensures
            options.spec_case() == self.spec_case(),
            options.spec_sort() == self.spec_sort(),
            options.spec_serialization() == self.spec_serialization(),
            options.spec_filters() == self.spec_filters(),
            options.spec_io() == self.spec_io(),
            options.spec_performance() == self.spec_performance(),
            options.spec_encoding() == encoding,
    {
        Options { encoding, ..self }
    }

    /// Get the case normalization setting.
    pub fn case(&self) -> (case: Case)
        ensures
            case == self.spec_case(),
    {
        self.case
    }

    /// Get the word sorting setting.
    pub fn sort(&self) -> (sort: Sort)
        ensures
            sort == self.spec_sort(),
    {
        self.sort
    }

    /// Get a reference to the serialization options.
    pub fn serialization(&self) -> (serialization: &Serialization)
        ensures
            *serialization == self.spec_serialization(),
    {
        &self.serialization
    }

    /// Get a reference to the filters.
    pub fn filters(&self) -> (filters: &Filters)
        ensures
            *filters == self.spec_filters(),
    {
        &self.filters
    }

    /// Get a reference to the performance configuration.
    pub fn performance(&self) -> (performance: &Performance)
        ensures
            *performance == self.spec_performance(),
    {
        &self.performance
    }

    /// Get the I/O strategy.
    pub fn io(&self) -> (io: Io)
        ensures
            io == self.spec_io(),
    {
        self.io
    }

    /// Initialize the thread pool if the I/O strategy is a parallel one.
    pub fn init_thread_pool_if_parallel(&self) -> (result: Result<(), WordTallyError>)
        ensures
            (self.spec_io() is Stream || self.spec_performance().threads is All) ==> result is Ok,
            !(self.spec_io() is Stream) ==> (self.spec_performance().threads matches Threads::Count(n) ==> (
            result is Ok || (result matches Err(WordTallyError::Config(message)) && message@
                == pool_failure_message(n)))),
            !(self.spec_io() is Stream) ==> self.spec_performance().threads.sets_up_pool(result),
    {
        match self.io {
            Io::Stream => Ok(()),
            Io::ParallelStream | Io::ParallelInMemory | Io::ParallelMmap | Io::ParallelBytes => {
                self.performance.threads().init_pool()
            },
        }
    }

    /// Get the text encoding strategy.
    pub fn encoding(&self) -> (encoding: Encoding)
        ensures
            encoding == self.spec_encoding(),
    {
        self.encoding
    }
}

impl Default for Options {
    fn default() -> (options: Self)
        ensures
            options.spec_case() == Case::Original,
            options.spec_sort() == Sort::Desc,
            options.spec_io() == Io::ParallelStream,
            options.spec_encoding() == Encoding::Unicode,
            options.spec_performance().uniqueness_ratio == 32,
            options.spec_performance().words_per_kb == 128,
            options.spec_performance().chunk_size == 65536,
            options.spec_performance().base_stdin_size == 262144,
            options.spec_filters().spec_min_chars() is None,
            options.spec_filters().spec_min_count() is None,
            options.spec_filters().spec_exclude_words() is None,
            options.spec_filters().spec_exclude_patterns() is None,
            options.spec_filters().spec_include_patterns() is None,
            options.spec_serialization() matches Serialization::Text(d) && d.spec_field() == " "@
                && d.spec_entry() == "\n"@,
    {
        Options {
            case: Case::default(),
            sort: Sort::default(),
            serialization: Serialization::default(),
            filters: Filters::default(),
            io: Io::default(),
            performance: Performance::default(),
            encoding: Encoding::default(),
        }
    }
}

} // verus!
