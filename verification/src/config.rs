//! Configuration for word tallying and processing.
use vstd::prelude::*;

use crate::options::performance::{env_number, opt_view, parse_env_var};

verus! {

/// Configuration for word tallying and processing.
#[derive(Debug, Clone, Copy, PartialEq, Eq, Hash)]
pub struct Config {
    /// Default capacity for a map when no size hint is available.
    default_capacity: usize,
    /// Ratio used to estimate number of unique words based on input size.
    uniqueness_ratio: u8,
    /// Estimated number of unique words per character in input.
    unique_word_density: u8,
    /// Size of chunks for parallel processing (in bytes).
    chunk_size: u32,
}

/// Default capacity when no size hint is available.
pub const DEFAULT_CAPACITY: usize = 1024;
/// Default ratio of input size to unique words.
pub const DEFAULT_UNIQUENESS_RATIO: u8 = 10;
/// Default unique words per character of a chunk.
pub const DEFAULT_WORD_DENSITY: u8 = 15;
/// Default chunk size: 16 KB.
pub const DEFAULT_CHUNK_SIZE: u32 = 16384;

impl Default for Config {
    fn default() -> (config: Self)
        ensures
            config.spec_default_capacity() == DEFAULT_CAPACITY,
            config.spec_uniqueness_ratio() == DEFAULT_UNIQUENESS_RATIO,
            config.spec_unique_word_density() == DEFAULT_WORD_DENSITY,
            config.spec_chunk_size() == DEFAULT_CHUNK_SIZE,
    {
        Config {
            default_capacity: DEFAULT_CAPACITY,
            uniqueness_ratio: DEFAULT_UNIQUENESS_RATIO,
            unique_word_density: DEFAULT_WORD_DENSITY,
            chunk_size: DEFAULT_CHUNK_SIZE,
        }
    }
}

impl Config {
    /// The default capacity setting.
    pub closed spec fn spec_default_capacity(&self) -> usize {
        self.default_capacity
    }

    /// The uniqueness ratio setting.
    pub closed spec fn spec_uniqueness_ratio(&self) -> u8 {
        self.uniqueness_ratio
    }

    /// The unique word density setting.
    pub closed spec fn spec_unique_word_density(&self) -> u8 {
        self.unique_word_density
    }

    /// The chunk size setting.
    pub closed spec fn spec_chunk_size(&self) -> u32 {
        self.chunk_size
    }

    /// Create a new configuration for a word tally.
    pub fn new(default_capacity: usize, uniqueness_ratio: u8, unique_word_density: u8, chunk_size: u32) -> (config: Self)
        ensures
            config.spec_default_capacity() == default_capacity,
            config.spec_uniqueness_ratio() == uniqueness_ratio,
            config.spec_unique_word_density() == unique_word_density,
            config.spec_chunk_size() == chunk_size,
    {
        Config { default_capacity, uniqueness_ratio, unique_word_density, chunk_size }
    }

    /// Create configuration from the values of the environment variables
    /// `WORD_TALLY_DEFAULT_CAPACITY`, `WORD_TALLY_UNIQUENESS_RATIO`, `WORD_TALLY_WORD_DENSITY`
    /// and `WORD_TALLY_CHUNK_SIZE`, each `None` when unset; a value that does not parse leaves
    /// the default.
    pub fn from_env(
        default_capacity: Option<&str>,
        uniqueness_ratio: Option<&str>,
        word_density: Option<&str>,
        chunk_size: Option<&str>,
    ) -> (config: Self)
        ensures
            config.spec_default_capacity() == env_number(opt_view(default_capacity), usize::MAX as nat, DEFAULT_CAPACITY as nat),
            config.spec_uniqueness_ratio() == env_number(opt_view(uniqueness_ratio), u8::MAX as nat, DEFAULT_UNIQUENESS_RATIO as nat),
            config.spec_unique_word_density() == env_number(opt_view(word_density), u8::MAX as nat, DEFAULT_WORD_DENSITY as nat),
            config.spec_chunk_size() == env_number(opt_view(chunk_size), u32::MAX as nat, DEFAULT_CHUNK_SIZE as nat),
    {
        Config {
            default_capacity: parse_env_var(default_capacity, usize::MAX as u64, DEFAULT_CAPACITY as u64) as usize,
            uniqueness_ratio: parse_env_var(uniqueness_ratio, u8::MAX as u64, DEFAULT_UNIQUENESS_RATIO as u64) as u8,
            unique_word_density: parse_env_var(word_density, u8::MAX as u64, DEFAULT_WORD_DENSITY as u64) as u8,
            chunk_size: parse_env_var(chunk_size, u32::MAX as u64, DEFAULT_CHUNK_SIZE as u64) as u32,
        }
    }

    /// Get the default capacity for hash maps.
    pub fn default_capacity(&self) -> (capacity: usize)
        ensures
            capacity == self.spec_default_capacity(),
    {
        self.default_capacity
    }

    /// Get the uniqueness ratio used for capacity estimation.
    pub fn uniqueness_ratio(&self) -> (ratio: u8)
        ensures
            ratio == self.spec_uniqueness_ratio(),
    {
        self.uniqueness_ratio
    }

    /// Get the unique word density used for chunk capacity estimation.
    pub fn unique_word_density(&self) -> (density: u8)
        ensures
            density == self.spec_unique_word_density(),
    {
        self.unique_word_density
    }

    /// Get the chunk size for parallel processing.
    pub fn chunk_size(&self) -> (size: u32)
        ensures
            size == self.spec_chunk_size(),
    {
        self.chunk_size
    }

    /// Set the default capacity.
    pub fn with_capacity(self, capacity: usize) -> (config: Self)
        ensures
            config.spec_default_capacity() == capacity,
            config.spec_uniqueness_ratio() == self.spec_uniqueness_ratio(),
            config.spec_unique_word_density() == self.spec_unique_word_density(),
            config.spec_chunk_size() == self.spec_chunk_size(),
    {
        Config { default_capacity: capacity, ..self }
    }

    /// Set the uniqueness ratio for this configuration.
    pub fn with_uniqueness_ratio(self, ratio: u8) -> (config: Self)
        ensures
            config.spec_default_capacity() == self.spec_default_capacity(),
            config.spec_uniqueness_ratio() == ratio,
            config.spec_unique_word_density() == self.spec_unique_word_density(),
            config.spec_chunk_size() == self.spec_chunk_size(),
    {
        Config { uniqueness_ratio: ratio, ..self }
    }

    /// Set the word density for this configuration.
    pub fn with_word_density(self, density: u8) -> (config: Self)
        ensures
            config.spec_default_capacity() == self.spec_default_capacity(),
            config.spec_uniqueness_ratio() == self.spec_uniqueness_ratio(),
            config.spec_unique_word_density() == density,
            config.spec_chunk_size() == self.spec_chunk_size(),
    {
        Config { unique_word_density: density, ..self }
    }

    /// Set the chunk size for this configuration.
    pub fn with_chunk_size(self, size: u32) -> (config: Self)
        ensures
            config.spec_default_capacity() == self.spec_default_capacity(),
            config.spec_uniqueness_ratio() == self.spec_uniqueness_ratio(),
            config.spec_unique_word_density() == self.spec_unique_word_density(),
            config.spec_chunk_size() == size,
    {
        Config { chunk_size: size, ..self }
    }

    /// Estimate map capacity based on input size: the input size divided by the uniqueness
    /// ratio, or the default capacity when the size is unknown.
    pub fn estimate_capacity(&self, size_hint: Option<u64>) -> (capacity: usize)
        requires
            size_hint is Some ==> self.spec_uniqueness_ratio() > 0,
        ensures
            capacity == (match size_hint {
                None => self.spec_default_capacity(),
                Some(size) => (size / (self.spec_uniqueness_ratio() as u64)) as usize,
            }),
    {
        match size_hint {
            None => self.default_capacity,
            Some(size) => (size / self.uniqueness_ratio as u64) as usize,
        }
    }

    /// Estimate chunk map capacity based on chunk size: the size times the word density.
    pub fn estimate_chunk_capacity(&self, chunk_size: usize) -> (capacity: usize)
        requires
            chunk_size * self.spec_unique_word_density() <= usize::MAX,
        ensures
            capacity == chunk_size * self.spec_unique_word_density(),
    {
        chunk_size * self.unique_word_density as usize
    }
}

} // verus!
