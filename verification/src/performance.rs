//! Configuration for word tallying performance: I/O and processing strategies, thread
//! counts, size hints and capacity estimates.
use vstd::prelude::*;

use crate::options::case::ascii_lowercase;
use crate::options::io::eq_ignore_ascii_case;
use crate::options::performance::{env_number, opt_view, parse_unsigned, parsed_unsigned};
use crate::options::threads::{build_global_pool, current_num_threads, global_pool_answer, lemma_global_pool_answer};
use crate::output::{decimal, decimal_string};

verus! {

/// Determines the I/O strategy for input.
#[derive(Debug, Clone, Copy, PartialEq, Eq, PartialOrd, Ord, Hash)]
pub enum Io {
    /// Process input line-by-line without loading entire file into memory.
    Streamed,
    /// Read entire file into memory before processing.
    Buffered,
    /// Use memory-mapped I/O for efficient file access.
    MemoryMapped,
}

impl Default for Io {
    fn default() -> (io: Self)
        ensures
            io == Io::Streamed,
    {
        Io::Streamed
    }
}

impl Io {
    /// The name of the I/O strategy.
    pub fn to_string(&self) -> (name: String)
        ensures
            name@ == (match *self {
                Io::Streamed => "streamed"@,
                Io::Buffered => "buffered"@,
                Io::MemoryMapped => "memory-mapped"@,
            }),
    {
        match self {
            Io::Streamed => "streamed".to_owned(),
            Io::Buffered => "buffered".to_owned(),
            Io::MemoryMapped => "memory-mapped".to_owned(),
        }
    }
}

/// Determines the processing strategy.
#[derive(Debug, Clone, Copy, PartialEq, Eq, PartialOrd, Ord, Hash)]
pub enum Processing {
    /// Process input sequentially (single-threaded).
    Sequential,
    /// Process input in parallel (multi-threaded).
    Parallel,
}

impl Default for Processing {
    fn default() -> (processing: Self)
        ensures
            processing == Processing::Sequential,
    {
        Processing::Sequential
    }
}

impl Processing {
    /// The name of the processing strategy.
    pub fn to_string(&self) -> (name: String)
        ensures
            name@ == (match *self {
                Processing::Sequential => "sequential"@,
                Processing::Parallel => "parallel"@,
            }),
    {
        match self {
            Processing::Sequential => "sequential".to_owned(),
            Processing::Parallel => "parallel".to_owned(),
        }
    }
}

/// Thread count configuration for parallel processing.
#[derive(Debug, Clone, Copy, PartialEq, Eq, PartialOrd, Ord, Hash)]
pub enum Threads {
    /// Use all available cores.
    All,
    /// Use a specific number of threads.
    Count(u16),
}

impl Default for Threads {
    fn default() -> (threads: Self)
        ensures
            threads == Threads::All,
    {
        Threads::All
    }
}

impl Threads {
    /// The thread setting as the verbose output shows it: `all` or the count.
    pub fn to_string(&self) -> (text: String)
        ensures
            text@ == (match *self {
                Threads::All => "all"@,
                Threads::Count(n) => decimal(n as nat),
            }),
    {
        match self {
            Threads::All => "all".to_owned(),
            Threads::Count(count) => decimal_string(*count as u64),
        }
    }

    /// A specific number of threads.
    pub fn from_count(count: u16) -> (threads: Self)
        ensures
            threads == Threads::Count(count),
    {
        Threads::Count(count)
    }
}

/// A size hint for input data to optimize capacity allocation.
#[derive(Debug, Clone, Copy, PartialEq, Eq, PartialOrd, Ord, Hash)]
pub enum SizeHint {
    /// No size hint available (use default capacity).
    Unknown,
    /// Size hint in bytes.
    Bytes(u64),
}

impl Default for SizeHint {
    fn default() -> (hint: Self)
        ensures
            hint == SizeHint::Unknown,
    {
        SizeHint::Unknown
    }
}

impl SizeHint {
    /// The size hint as the verbose output shows it: `none` or the size in bytes.
    pub fn to_string(&self) -> (text: String)
        ensures
            text@ == (match *self {
                SizeHint::Unknown => "none"@,
                SizeHint::Bytes(size) => decimal(size as nat) + " bytes"@,
            }),
    {
        match self {
            SizeHint::Unknown => "none".to_owned(),
            SizeHint::Bytes(size) => {
                let mut text = decimal_string(*size);
                text.append(" bytes");
                text
            },
        }
    }

    /// A hint from an optional size: bytes when known, none otherwise.
    pub fn from_option(size: Option<u64>) -> (hint: Self)
        ensures
            hint == (match size {
                Some(s) => SizeHint::Bytes(s),
                None => SizeHint::Unknown,
            }),
    {
        match size {
            Some(s) => SizeHint::Bytes(s),
            None => SizeHint::Unknown,
        }
    }

    /// The size in bytes, if known.
    pub fn to_option(self) -> (size: Option<u64>)
        ensures
            size == (match self {
                SizeHint::Bytes(s) => Some(s),
                SizeHint::Unknown => None,
            }),
    {
        match self {
            SizeHint::Bytes(size) => Some(size),
            SizeHint::Unknown => None,
        }
    }
}

/// Default capacity when no size hint is available.
pub const DEFAULT_CAPACITY: usize = 1024;
/// Default ratio of input size to unique words.
pub const DEFAULT_UNIQUENESS_RATIO: u8 = 10;
/// Default unique words per ten characters of a chunk.
pub const DEFAULT_WORD_DENSITY: u8 = 15;
/// Default chunk size: 64 KB.
pub const DEFAULT_CHUNK_SIZE: u32 = 65536;
/// Default threshold for capacity reservation when merging maps.
pub const DEFAULT_RESERVE_THRESHOLD: usize = 1000;

/// Configuration struct for `Performance` parameters.
#[derive(Debug, Clone, Copy, PartialEq, Eq, Hash)]
pub struct PerformanceConfig {
    /// Default capacity for a map when no size hint is available.
    pub default_capacity: usize,
    /// Ratio used to estimate number of unique words based on input size.
    pub uniqueness_ratio: u8,
    /// Estimated number of unique words per character in input.
    pub unique_word_density: u8,
    /// Size of chunks for parallel processing (in bytes).
    pub chunk_size: u32,
    /// I/O strategy (streamed, buffered, or memory-mapped).
    pub io: Io,
    /// Processing strategy (sequential or parallel).
    pub processing: Processing,
    /// Size hint for input data to optimize capacity allocation.
    pub size_hint: SizeHint,
    /// Thread configuration for parallel processing.
    pub threads: Threads,
    /// Option to print verbose messages.
    pub verbose: bool,
    /// Threshold for capacity reservation when merging maps.
    pub reserve_threshold: usize,
}

impl Default for PerformanceConfig {
    fn default() -> (config: Self)
        ensures
            config == (PerformanceConfig {
                default_capacity: DEFAULT_CAPACITY,
                uniqueness_ratio: DEFAULT_UNIQUENESS_RATIO,
                unique_word_density: DEFAULT_WORD_DENSITY,
                chunk_size: DEFAULT_CHUNK_SIZE,
                io: Io::Streamed,
                processing: Processing::Sequential,
                size_hint: SizeHint::Unknown,
                threads: Threads::All,
                verbose: false,
                reserve_threshold: DEFAULT_RESERVE_THRESHOLD,
            }),
    {
        PerformanceConfig {
            default_capacity: DEFAULT_CAPACITY,
            uniqueness_ratio: DEFAULT_UNIQUENESS_RATIO,
            unique_word_density: DEFAULT_WORD_DENSITY,
            chunk_size: DEFAULT_CHUNK_SIZE,
            io: Io::default(),
            processing: Processing::default(),
            size_hint: SizeHint::default(),
            threads: Threads::default(),
            verbose: false,
            reserve_threshold: DEFAULT_RESERVE_THRESHOLD,
        }
    }
}

/// The values of the environment variables that configure performance, each `None` when
/// unset.
pub struct PerformanceEnv {
    /// `WORD_TALLY_DEFAULT_CAPACITY`.
    pub default_capacity: Option<String>,
    /// `WORD_TALLY_UNIQUENESS_RATIO`.
    pub uniqueness_ratio: Option<String>,
    /// `WORD_TALLY_WORD_DENSITY`.
    pub word_density: Option<String>,
    /// `WORD_TALLY_CHUNK_SIZE`.
    pub chunk_size: Option<String>,
    /// `WORD_TALLY_RESERVE_THRESHOLD`.
    pub reserve_threshold: Option<String>,
    /// `WORD_TALLY_THREADS`.
    pub threads: Option<String>,
    /// `WORD_TALLY_IO`.
    pub io: Option<String>,
    /// `WORD_TALLY_PROCESSING`.
    pub processing: Option<String>,
    /// `WORD_TALLY_VERBOSE`.
    pub verbose: Option<String>,
}

/// The characters of an optional owned string.
pub open spec fn owned_view(value: Option<String>) -> Option<Seq<char>> {
    match value {
        Some(text) => Some(text@),
        None => None,
    }
}

/// Whether `text` equals `name` once ASCII letters are lowercased on both sides.
pub open spec fn names(text: Seq<char>, name: Seq<char>) -> bool {
    ascii_lowercase(text) == ascii_lowercase(name)
}

/// The I/O strategy from the value of `WORD_TALLY_IO`.
pub open spec fn env_io(value: Option<Seq<char>>) -> Io {
    match value {
        Some(text) => if names(text, "streamed"@) {
            Io::Streamed
        } else if names(text, "buffered"@) {
            Io::Buffered
        } else if names(text, "memory-mapped"@) || names(text, "mmap"@) {
            Io::MemoryMapped
        } else {
            Io::Streamed
        },
        None => Io::Streamed,
    }
}

/// The processing strategy from the value of `WORD_TALLY_PROCESSING`.
pub open spec fn env_processing(value: Option<Seq<char>>) -> Processing {
    match value {
        Some(text) => if names(text, "sequential"@) {
            Processing::Sequential
        } else if names(text, "parallel"@) {
            Processing::Parallel
        } else {
            Processing::Sequential
        },
        None => Processing::Sequential,
    }
}

/// The thread setting from the value of `WORD_TALLY_THREADS`.
pub open spec fn env_threads(value: Option<Seq<char>>) -> Threads {
    match value {
        Some(text) => if names(text, "all"@) {
            Threads::All
        } else {
            match parsed_unsigned(text, u16::MAX as nat) {
                Some(n) => Threads::Count(n as u16),
                None => Threads::All,
            }
        },
        None => Threads::All,
    }
}

/// The verbose flag from the value of `WORD_TALLY_VERBOSE`: "1", "true", "yes" or "on".
pub open spec fn env_verbose(value: Option<Seq<char>>) -> bool {
    match value {
        Some(text) => text == "1"@ || text == "true"@ || text == "yes"@ || text == "on"@,
        None => false,
    }
}

/// Parses a numeric setting, falling back to `default`.
fn parse_number(value: &Option<String>, max: u64, default: u64) -> (setting: u64)
    requires
        default <= max,
    ensures
        setting == env_number(owned_view(*value), max as nat, default as nat),
        setting <= max,
{
    match value {
        Some(text) => match parse_unsigned(text.as_str(), max) {
            Some(v) => v,
            None => default,
        },
        None => default,
    }
}

/// Whether `text` equals `name`, ignoring ASCII case.
fn is_named(text: &String, name: &str) -> (same: bool)
    ensures
        same == names(text@, name@),
{
    eq_ignore_ascii_case(text.as_str(), name)
}

/// Whether two strings hold the same characters.
fn same_text(text: &String, other: &str) -> (same: bool)
    ensures
        same == (text@ == other@),
{
    let owned = other.to_owned();
    *text == owned
}

/// The message for a thread pool that could not be set up with one thread.
pub open spec fn single_thread_warning(error: Seq<char>) -> Seq<char> {
    "Warning: Failed to configure single-threaded pool ("@ + error + "). Using default configuration."@
}

/// The message for a thread pool that could not be set up with `count` threads.
pub open spec fn pool_warning(count: nat, error: Seq<char>) -> Seq<char> {
    "Warning: Failed to configure thread pool with "@ + decimal(count) + " threads ("@ + error
        + "). Using default configuration."@
}

/// The message for a thread pool set up with `count` threads.
pub open spec fn pool_configured(count: nat) -> Seq<char> {
    "Thread pool configured with "@ + decimal(count) + " threads"@
}

/// Performance configuration: capacity estimates, I/O and processing strategies, threads.
#[derive(Debug, Clone, Copy, PartialEq, Eq, Hash)]
pub struct Performance {
    config: PerformanceConfig,
}

impl Default for Performance {
    fn default() -> (performance: Self)
        ensures
            performance.spec_config() == (PerformanceConfig {
                default_capacity: DEFAULT_CAPACITY,
                uniqueness_ratio: DEFAULT_UNIQUENESS_RATIO,
                unique_word_density: DEFAULT_WORD_DENSITY,
                chunk_size: DEFAULT_CHUNK_SIZE,
                io: Io::Streamed,
                processing: Processing::Sequential,
                size_hint: SizeHint::Unknown,
                threads: Threads::All,
                verbose: false,
                reserve_threshold: DEFAULT_RESERVE_THRESHOLD,
            }),
    {
        Performance { config: PerformanceConfig::default() }
    }
}

/// The map capacity estimated for an input of `size` bytes: its size divided by the
/// uniqueness ratio.
pub open spec fn size_capacity(size: u64, uniqueness_ratio: u8) -> usize {
    (size / (uniqueness_ratio as u64)) as usize
}

/// The overall map capacity estimated by a configuration: the default capacity without a size
/// hint, else the size divided by the uniqueness ratio.
pub open spec fn estimated_capacity(config: PerformanceConfig) -> usize {
    match config.size_hint {
        SizeHint::Unknown => config.default_capacity,
        SizeHint::Bytes(size) => size_capacity(size, config.uniqueness_ratio),
    }
}

/// A capacity shared among `threads` threads.
pub open spec fn per_thread(capacity: usize, threads: int) -> int {
    capacity as int / threads
}

/// A thread count kept between 1 and 128.
pub open spec fn clamp_threads(threads: int) -> int {
    if threads < 1 {
        1
    } else if threads > 128 {
        128
    } else {
        threads
    }
}

impl Performance {
    /// All the settings.
    pub closed spec fn spec_config(&self) -> PerformanceConfig {
        self.config
    }

    /// Create a new performance configuration with default values.
    pub fn new() -> (performance: Self)
        ensures
            performance.spec_config() == (PerformanceConfig {
                default_capacity: DEFAULT_CAPACITY,
                uniqueness_ratio: DEFAULT_UNIQUENESS_RATIO,
                unique_word_density: DEFAULT_WORD_DENSITY,
                chunk_size: DEFAULT_CHUNK_SIZE,
                io: Io::Streamed,
                processing: Processing::Sequential,
                size_hint: SizeHint::Unknown,
                threads: Threads::All,
                verbose: false,
                reserve_threshold: DEFAULT_RESERVE_THRESHOLD,
            }),
    {
        Self::default()
    }

    /// Create a performance configuration from a config struct.
    pub fn from_config(config: PerformanceConfig) -> (performance: Self)
        ensures
            performance.spec_config() == config,
    {
        Performance { config }
    }

    /// Create performance configuration from the values of the environment variables: a
    /// number that does not parse leaves the default, strategies are named ignoring ASCII case,
    /// and verbose mode is on for "1", "true", "yes" or "on".
    pub fn from_env(env: &PerformanceEnv) -> (performance: Self)
        ensures
            performance.spec_config().default_capacity == env_number(
                owned_view(env.default_capacity),
                usize::MAX as nat,
                DEFAULT_CAPACITY as nat,
            ),
            performance.spec_config().uniqueness_ratio == env_number(
                owned_view(env.uniqueness_ratio),
                u8::MAX as nat,
                DEFAULT_UNIQUENESS_RATIO as nat,
            ),
            performance.spec_config().unique_word_density == env_number(
                owned_view(env.word_density),
                u8::MAX as nat,
                DEFAULT_WORD_DENSITY as nat,
            ),
            performance.spec_config().chunk_size == env_number(
                owned_view(env.chunk_size),
                u32::MAX as nat,
                DEFAULT_CHUNK_SIZE as nat,
            ),
            performance.spec_config().reserve_threshold == env_number(
                owned_view(env.reserve_threshold),
                usize::MAX as nat,
                DEFAULT_RESERVE_THRESHOLD as nat,
            ),
            performance.spec_config().io == env_io(owned_view(env.io)),
            performance.spec_config().processing == env_processing(owned_view(env.processing)),
            performance.spec_config().threads == env_threads(owned_view(env.threads)),
            performance.spec_config().size_hint == SizeHint::Unknown,
            performance.spec_config().verbose == env_verbose(owned_view(env.verbose)),
    {
        let config = PerformanceConfig {
            default_capacity: parse_number(&env.default_capacity, usize::MAX as u64, DEFAULT_CAPACITY as u64) as usize,
            uniqueness_ratio: parse_number(&env.uniqueness_ratio, u8::MAX as u64, DEFAULT_UNIQUENESS_RATIO as u64) as u8,
            unique_word_density: parse_number(&env.word_density, u8::MAX as u64, DEFAULT_WORD_DENSITY as u64) as u8,
            chunk_size: parse_number(&env.chunk_size, u32::MAX as u64, DEFAULT_CHUNK_SIZE as u64) as u32,
            reserve_threshold: parse_number(&env.reserve_threshold, usize::MAX as u64, DEFAULT_RESERVE_THRESHOLD as u64)
                as usize,
            io: Self::parse_io(&env.io),
            processing: Self::parse_processing(&env.processing),
            threads: Self::parse_threads(&env.threads),
            size_hint: SizeHint::Unknown,
            verbose: Self::parse_verbose(&env.verbose),
        };
        Performance { config }
    }

    /// Parse the I/O strategy from the value of `WORD_TALLY_IO`.
    fn parse_io(value: &Option<String>) -> (io: Io)
        ensures
            io == env_io(owned_view(*value)),
    {
        match value {
            Some(text) => {
                if is_named(text, "streamed") {
                    Io::Streamed
                } else if is_named(text, "buffered") {
                    Io::Buffered
                } else if is_named(text, "memory-mapped") || is_named(text, "mmap") {
                    Io::MemoryMapped
                } else {
                    Io::default()
                }
            },
            None => Io::default(),
        }
    }

    /// Parse the processing strategy from the value of `WORD_TALLY_PROCESSING`.
    fn parse_processing(value: &Option<String>) -> (processing: Processing)
        ensures
            processing == env_processing(owned_view(*value)),
    {
        match value {
            Some(text) => {
                if is_named(text, "sequential") {
                    Processing::Sequential
                } else if is_named(text, "parallel") {
                    Processing::Parallel
                } else {
                    Processing::default()
                }
            },
            None => Processing::default(),
        }
    }

    /// Parse the thread count from the value of `WORD_TALLY_THREADS`.
    fn parse_threads(value: &Option<String>) -> (threads: Threads)
        ensures
            threads == env_threads(owned_view(*value)),
    {
        match value {
            Some(text) => {
                if is_named(text, "all") {
                    Threads::All
                } else {
                    match parse_unsigned(text.as_str(), u16::MAX as u64) {
                        Some(n) => Threads::Count(n as u16),
                        None => Threads::default(),
                    }
                }
            },
            None => Threads::default(),
        }
    }

    /// Parse the verbose flag from the value of `WORD_TALLY_VERBOSE`.
    fn parse_verbose(value: &Option<String>) -> (verbose: bool)
        ensures
            verbose == env_verbose(owned_view(*value)),
    {
        match value {
            Some(text) => same_text(text, "1") || same_text(text, "true") || same_text(text, "yes") || same_text(
                text,
                "on",
            ),
            None => false,
        }
    }

    /// The size of global pool that `init_thread_pool` asks Rayon for: one thread for a count
    /// of zero, the count when it is below the available parallelism, none otherwise.
    pub open spec fn spec_pool_size_request(self, available_parallelism: usize) -> Option<usize> {
        match self.spec_config().threads {
            Threads::Count(n) => if n == 0 {
                Some(1usize)
            } else if (n as usize) < available_parallelism {
                Some(n as usize)
            } else {
                None
            },
            Threads::All => None,
        }
    }

    /// The size of global pool that `init_thread_pool` asks Rayon for.
    pub fn pool_size_request(&self, available_parallelism: usize) -> (size: Option<usize>)
        ensures
            size == self.spec_pool_size_request(available_parallelism),
    {
        match self.config.threads {
            Threads::Count(0) => Some(1),
            Threads::Count(n) => if (n as usize) < available_parallelism {
                Some(n as usize)
            } else {
                None
            },
            Threads::All => None,
        }
    }

    /// The message that verbose mode prints once Rayon answered `built` to the pool request.
    pub open spec fn pool_message(self, built: Result<(), String>) -> Option<Seq<char>> {
        if !self.spec_config().verbose {
            None
        } else {
            match self.spec_config().threads {
                Threads::Count(n) => match built {
                    Ok(()) => if n == 0 {
                        None
                    } else {
                        Some(pool_configured(n as nat))
                    },
                    Err(e) => if n == 0 {
                        Some(single_thread_warning(e@))
                    } else {
                        Some(pool_warning(n as nat, e@))
                    },
                },
                Threads::All => None,
            }
        }
    }

    /// The verbose message for Rayon's answer `built` to the pool request.
    pub fn pool_message_for(&self, built: Result<(), String>) -> (message: Option<String>)
        ensures
            owned_view(message) == self.pool_message(built),
    {
        if !self.config.verbose {
            return None;
        }
        match self.config.threads {
            Threads::Count(count) => match built {
                Ok(()) => if count == 0 {
                    None
                } else {
                    let digits = decimal_string(count as u64);
                    let mut text = "Thread pool configured with ".to_owned();
                    text.append(digits.as_str());
                    text.append(" threads");
                    Some(text)
                },
                Err(error) => if count == 0 {
                    let mut text = "Warning: Failed to configure single-threaded pool (".to_owned();
                    text.append(error.as_str());
                    text.append("). Using default configuration.");
                    Some(text)
                } else {
                    let digits = decimal_string(count as u64);
                    let mut text = "Warning: Failed to configure thread pool with ".to_owned();
                    text.append(digits.as_str());
                    text.append(" threads (");
                    text.append(error.as_str());
                    text.append("). Using default configuration.");
                    Some(text)
                },
            },
            Threads::All => None,
        }
    }

    /// Initialize the Rayon thread pool from the thread setting: asks `build_global_pool` for
    /// one thread for a count of zero, the count when it is below the available parallelism,
    /// and keeps the default pool otherwise. Returns the message that verbose mode prints, if
    /// any.
    ///
    /// Rayon sets up the global pool once per process; callers attempt this at most once.
    pub fn init_thread_pool(&self, available_parallelism: usize) -> (message: Option<String>)
        ensures
            self.spec_pool_size_request(available_parallelism) is None ==> message is None,
            self.spec_pool_size_request(available_parallelism) matches Some(size) ==> exists|
                built: Result<(), String>,
            | #[trigger] global_pool_answer(size, built) && owned_view(message) == self.pool_message(built),
            self.spec_config().threads matches Threads::Count(n) ==> (self.spec_config().verbose && 0 < n
                < available_parallelism ==> message is Some),
    {
        match self.pool_size_request(available_parallelism) {
            Some(size) => {
                let built = build_global_pool(size);
                let ghost answer = built;
                proof {
                    lemma_global_pool_answer(size, answer);
                }
                let message = self.pool_message_for(built);
                assert(global_pool_answer(size, answer) && owned_view(message) == self.pool_message(answer));
                message
            },
            None => None,
        }
    }

    /// Set the default capacity.
    pub fn with_capacity(self, capacity: usize) -> (performance: Self)
        ensures
            performance.spec_config() == (PerformanceConfig { default_capacity: capacity, ..self.spec_config() }),
    {
        Performance { config: PerformanceConfig { default_capacity: capacity, ..self.config } }
    }

    /// Set the uniqueness ratio for this configuration.
    pub fn with_uniqueness_ratio(self, ratio: u8) -> (performance: Self)
        ensures
            performance.spec_config() == (PerformanceConfig { uniqueness_ratio: ratio, ..self.spec_config() }),
    {
        Performance { config: PerformanceConfig { uniqueness_ratio: ratio, ..self.config } }
    }

    /// Set the word density for this configuration.
    pub fn with_word_density(self, density: u8) -> (performance: Self)
        ensures
            performance.spec_config() == (PerformanceConfig { unique_word_density: density, ..self.spec_config() }),
    {
        Performance { config: PerformanceConfig { unique_word_density: density, ..self.config } }
    }

    /// Set the chunk size for this configuration.
    pub fn with_chunk_size(self, size: u32) -> (performance: Self)
        ensures
            performance.spec_config() == (PerformanceConfig { chunk_size: size, ..self.spec_config() }),
    {
        Performance { config: PerformanceConfig { chunk_size: size, ..self.config } }
    }

    /// Set the I/O strategy for this configuration.
    pub fn with_io(self, io: Io) -> (performance: Self)
        ensures
            performance.spec_config() == (PerformanceConfig { io, ..self.spec_config() }),
    {
        Performance { config: PerformanceConfig { io, ..self.config } }
    }

    /// Set the processing strategy for this configuration.
    pub fn with_processing(self, processing: Processing) -> (performance: Self)
        ensures
            performance.spec_config() == (PerformanceConfig { processing, ..self.spec_config() }),
    {
        Performance { config: PerformanceConfig { processing, ..self.config } }
    }

    /// Set the size hint for this configuration.
    pub fn with_size_hint(self, size_hint: SizeHint) -> (performance: Self)
        ensures
            performance.spec_config() == (PerformanceConfig { size_hint, ..self.spec_config() }),
    {
        Performance { config: PerformanceConfig { size_hint, ..self.config } }
    }

    /// Set the thread configuration.
    pub fn with_threads(self, threads: Threads) -> (performance: Self)
        ensures
            performance.spec_config() == (PerformanceConfig { threads, ..self.spec_config() }),
    {
        Performance { config: PerformanceConfig { threads, ..self.config } }
    }

    /// Set verbose mode.
    pub fn with_verbose(self, verbose: bool) -> (performance: Self)
        ensures
            performance.spec_config() == (PerformanceConfig { verbose, ..self.spec_config() }),
    {
        Performance { config: PerformanceConfig { verbose, ..self.config } }
    }

    /// Set the reserve threshold for capacity allocation.
    pub fn with_reserve_threshold(self, threshold: usize) -> (performance: Self)
        ensures
            performance.spec_config() == (PerformanceConfig { reserve_threshold: threshold, ..self.spec_config() }),
    {
        Performance { config: PerformanceConfig { reserve_threshold: threshold, ..self.config } }
    }

    /// Get the default capacity for hash maps.
    pub fn default_capacity(&self) -> (capacity: usize)
        ensures
            capacity == self.spec_config().default_capacity,
    {
        self.config.default_capacity
    }

    /// Get the uniqueness ratio used for capacity estimation.
    pub fn uniqueness_ratio(&self) -> (ratio: u8)
        ensures
            ratio == self.spec_config().uniqueness_ratio,
    {
        self.config.uniqueness_ratio
    }

    /// Get the unique word density used for chunk capacity estimation.
    pub fn unique_word_density(&self) -> (density: u8)
        ensures
            density == self.spec_config().unique_word_density,
    {
        self.config.unique_word_density
    }

    /// Get the chunk size for parallel processing.
    pub fn chunk_size(&self) -> (size: u32)
        ensures
            size == self.spec_config().chunk_size,
    {
        self.config.chunk_size
    }

    /// Get the size hint.
    pub fn size_hint(&self) -> (hint: SizeHint)
        ensures
            hint == self.spec_config().size_hint,
    {
        self.config.size_hint
    }

    /// Get the thread configuration.
    pub fn threads(&self) -> (threads: Threads)
        ensures
            threads == self.spec_config().threads,
    {
        self.config.threads
    }

    /// Get the I/O strategy.
    pub fn io(&self) -> (io: Io)
        ensures
            io == self.spec_config().io,
    {
        self.config.io
    }

    /// Get the processing strategy.
    pub fn processing(&self) -> (processing: Processing)
        ensures
            processing == self.spec_config().processing,
    {
        self.config.processing
    }

    /// Check if verbose mode is enabled.
    pub fn verbose(&self) -> (verbose: bool)
        ensures
            verbose == self.spec_config().verbose,
    {
        self.config.verbose
    }

    /// Get the reserve threshold for capacity allocation.
    pub fn reserve_threshold(&self) -> (threshold: usize)
        ensures
            threshold == self.spec_config().reserve_threshold,
    {
        self.config.reserve_threshold
    }

    /// Calculate the dynamic reserve threshold: the configured threshold, raised to a tenth
    /// of the estimated capacity when the input size is known.
    pub fn calc_reserve_threshold(&self) -> (threshold: usize)
        requires
            self.spec_config().size_hint is Bytes ==> self.spec_config().uniqueness_ratio > 0,
        ensures
            threshold == (match self.spec_config().size_hint {
                SizeHint::Unknown => self.spec_config().reserve_threshold,
                SizeHint::Bytes(size) => {
                    let estimated = size_capacity(size, self.spec_config().uniqueness_ratio) / 10;
                    if self.spec_config().reserve_threshold >= estimated {
                        self.spec_config().reserve_threshold
                    } else {
                        estimated
                    }
                },
            }),
    {
        let base_threshold = self.config.reserve_threshold;
        match self.config.size_hint {
            SizeHint::Unknown => base_threshold,
            SizeHint::Bytes(size) => {
                let estimated_capacity = (size / self.config.uniqueness_ratio as u64) as usize;
                let estimated = estimated_capacity / 10;
                if base_threshold >= estimated {
                    base_threshold
                } else {
                    estimated
                }
            },
        }
    }

    /// Estimate overall map capacity: the default capacity without a size hint, else the size
    /// divided by the uniqueness ratio.
    pub fn estimate_capacity(&self) -> (capacity: usize)
        requires
            self.spec_config().size_hint is Bytes ==> self.spec_config().uniqueness_ratio > 0,
        ensures
            capacity == estimated_capacity(self.spec_config()),
    {
        match self.config.size_hint {
            SizeHint::Unknown => self.config.default_capacity,
            SizeHint::Bytes(size) => (size / self.config.uniqueness_ratio as u64) as usize,
        }
    }

    /// Estimate thread-local map capacity for parallel processing: the overall estimate shared
    /// among the threads, counted between 1 and 128.
    pub fn estimate_thread_local_capacity(&self) -> (capacity: usize)
        requires
            self.spec_config().size_hint is Bytes ==> self.spec_config().uniqueness_ratio > 0,
        ensures
            exists|threads: int|
                1 <= threads <= 128 && capacity == #[trigger] per_thread(estimated_capacity(self.spec_config()), threads),
            self.spec_config().threads matches Threads::Count(n) ==> capacity == per_thread(
                estimated_capacity(self.spec_config()),
                clamp_threads(n as int),
            ),
    {
        let threads = match self.config.threads {
            Threads::All => current_num_threads(),
            Threads::Count(n) => n as usize,
        };
        let base_capacity = self.estimate_capacity();
        let max_threads = if threads < 1 {
            1
        } else if threads > 128 {
            128
        } else {
            threads
        };
        assert(per_thread(estimated_capacity(self.spec_config()), max_threads as int) == base_capacity / max_threads);
        base_capacity / max_threads
    }

    /// Estimate chunk map capacity: a tenth of the chunk size times the word density, plus ten.
    pub fn estimate_chunk_capacity(&self, chunk_size: usize) -> (capacity: usize)
        requires
            chunk_size * self.spec_config().unique_word_density / 10 + 10 <= usize::MAX,
            chunk_size * self.spec_config().unique_word_density <= usize::MAX,
        ensures
            capacity == chunk_size * self.spec_config().unique_word_density / 10 + 10,
    {
        (chunk_size * self.config.unique_word_density as usize) / 10 + 10
    }
}

} // verus!
