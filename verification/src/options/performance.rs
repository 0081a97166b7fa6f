//! Configuration for word tallying performance.
use vstd::prelude::*;

use crate::options::threads::{current_num_threads, Threads};
use crate::options::case::ascii_lowercase;
use crate::options::io::eq_ignore_ascii_case;
use crate::output::{decimal, decimal_string, digit_char};

verus! {

/// `value`, or `u64::MAX` when it is larger.
pub open spec fn saturate_u64(value: int) -> int {
    if value > u64::MAX {
        u64::MAX as int
    } else {
        value
    }
}

/// `value`, or `usize::MAX` when it is larger.
pub open spec fn saturate_usize(value: int) -> int {
    if value > usize::MAX {
        usize::MAX as int
    } else {
        value
    }
}

/// `n / d` rounded up.
pub open spec fn div_ceil(n: int, d: int) -> int {
    if n % d == 0 {
        n / d
    } else {
        n / d + 1
    }
}

/// Estimated capacity for `byte_size` bytes of text with the given density and uniqueness.
pub open spec fn chunk_capacity_for(byte_size: u64, words_per_kb: u16, uniqueness_ratio: u16) -> int {
    saturate_usize(saturate_u64((byte_size / 1024) * words_per_kb) / (uniqueness_ratio as int))
}

/// The batch size for streaming with `threads` threads.
pub open spec fn batch_size_for(threads: int) -> int {
    saturate_u64(saturate_u64(4 * threads) * (64 * 1024))
}

/// The streaming batch size for an input of `input_size` bytes split into `chunks` chunks: a
/// chunk's share of the input, but at least 64 KB.
pub open spec fn batch_target(input_size: int, chunks: int) -> int {
    if div_ceil(input_size, chunks) > 65536 {
        div_ceil(input_size, chunks)
    } else {
        65536
    }
}

/// The characters of an optional string.
pub open spec fn opt_view(value: Option<&str>) -> Option<Seq<char>> {
    match value {
        Some(text) => Some(text@),
        None => None,
    }
}

/// An ASCII digit.
pub open spec fn is_digit(c: char) -> bool {
    '0' <= c && c <= '9'
}

/// The value of a sequence of decimal digits.
pub open spec fn digits_value(digits: Seq<char>) -> nat
    decreases digits.len(),
{
    if digits.len() == 0 {
        0
    } else {
        digits_value(digits.drop_last()) * 10 + (digits.last() as nat - 48) as nat
    }
}

/// Where the digits of an unsigned number start: after an optional leading `+`.
pub open spec fn digits_start(text: Seq<char>) -> int {
    if text.len() > 0 && text[0] == '+' {
        1
    } else {
        0
    }
}

/// What `str::parse` gives for an unsigned integer type whose largest value is `max`: an
/// optional `+` then at least one decimal digit and nothing else, of value at most `max`.
pub open spec fn parsed_unsigned(text: Seq<char>, max: nat) -> Option<nat> {
    let digits = text.subrange(digits_start(text), text.len() as int);
    if digits.len() > 0 && (forall|i: int| 0 <= i < digits.len() ==> is_digit(#[trigger] digits[i]))
        && digits_value(digits) <= max {
        Some(digits_value(digits))
    } else {
        None
    }
}

/// More digits never make a smaller value.
proof fn lemma_digits_value_prefix(digits: Seq<char>, n: int)
    requires
        0 <= n <= digits.len(),
        forall|i: int| 0 <= i < digits.len() ==> is_digit(#[trigger] digits[i]),
    ensures
        digits_value(digits.take(n)) <= digits_value(digits),
    decreases digits.len() - n,
{
    if n < digits.len() {
        lemma_digits_value_prefix(digits, n + 1);
        assert(digits.take(n + 1).drop_last() =~= digits.take(n));
    } else {
        assert(digits.take(n) =~= digits);
    }
}

/// Parses an unsigned decimal number no larger than `max`, as `str::parse` does for unsigned
/// integer types.
pub fn parse_unsigned(text: &str, max: u64) -> (parsed: Option<u64>)
    ensures
        parsed == (match parsed_unsigned(text@, max as nat) {
            Some(v) => Some(v as u64),
            None => None::<u64>,
        }),
{
    let ghost chars = text@;
    let ghost start = digits_start(chars);
    let mut value: u64 = 0;
    let mut first = true;
    let mut seen_digit = false;
    for c in it: text.chars()
        invariant
            it.seq() == chars,
            chars == text@,
            start == digits_start(chars),
            first == (it.index() == 0),
            it.index() < start ==> it.index() == 0,
            forall|j: int| start <= j < it.index() ==> is_digit(#[trigger] chars[j]),
            it.index() >= start ==> value == digits_value(chars.subrange(start, it.index() as int)),
            it.index() >= start ==> seen_digit == (it.index() > start),
            it.index() < start ==> !seen_digit && value == 0,
            value <= max,
    {
        let ghost pos = it.index();
        assert(c == chars[pos]);
        if first && c == '+' {
            proof {
                assert(chars.subrange(start, pos + 1) =~= Seq::<char>::empty());
                assert(digits_value(chars.subrange(start, pos + 1)) == 0);
            }
        } else {
            let ghost digits = chars.subrange(start, chars.len() as int);
            if !('0' <= c && c <= '9') {
                proof {
                    assert(!is_digit(digits[pos - start]));
                }
                return None;
            }
            let d = (c as u32 - 48) as u64;
            let next: u128 = value as u128 * 10 + d as u128;
            proof {
                assert(chars.subrange(start, pos + 1).drop_last() =~= chars.subrange(start, pos));
                assert(chars.subrange(start, pos + 1).last() == c);
                assert(next == digits_value(chars.subrange(start, pos + 1)));
            }
            if next > max as u128 {
                proof {
                    if forall|i: int| 0 <= i < digits.len() ==> is_digit(#[trigger] digits[i]) {
                        assert(digits.take(pos + 1 - start) =~= chars.subrange(start, pos + 1));
                        lemma_digits_value_prefix(digits, pos + 1 - start);
                    }
                }
                return None;
            }
            value = next as u64;
            seen_digit = true;
        }
        first = false;
    }
    if !seen_digit {
        return None;
    }
    proof {
        assert(chars.subrange(start, chars.len() as int) =~= chars.subrange(start, chars.len() as int));
    }
    Some(value)
}

/// The decimal representation of a number is made of digits whose value is the number.
pub(crate) proof fn lemma_decimal_digits(n: nat)
    ensures
        decimal(n).len() > 0,
        forall|i: int| 0 <= i < decimal(n).len() ==> is_digit(#[trigger] decimal(n)[i]),
        digits_value(decimal(n)) == n,
    decreases n,
{
    if n < 10 {
        let c = digit_char(n);
        assert((c as int) == 48 + n);
        assert(decimal(n) == seq![c]);
        assert(decimal(n).drop_last() =~= Seq::<char>::empty());
        assert(decimal(n).last() == c);
        assert(digits_value(Seq::<char>::empty()) == 0);
        assert(digits_value(decimal(n)) == digits_value(decimal(n).drop_last()) * 10 + (c as nat - 48) as nat);
    } else {
        lemma_decimal_digits(n / 10);
        let c = digit_char(n % 10);
        assert((c as int) == 48 + n % 10);
        assert(decimal(n).drop_last() =~= decimal(n / 10));
        assert(decimal(n).last() == c);
        assert(n == (n / 10) * 10 + n % 10);
        assert(digits_value(decimal(n)) == digits_value(decimal(n / 10)) * 10 + (c as nat - 48) as nat);
        assert(forall|i: int| 0 <= i < decimal(n / 10).len() ==> decimal(n)[i] == #[trigger] decimal(n / 10)[i]);
    }
}

/// A number written out in decimal reads back as the same number: what the text output
/// prints of a count, the settings' parser takes back.
pub proof fn lemma_decimal_parses_back(n: nat, max: nat)
    requires
        n <= max,
    ensures
        parsed_unsigned(decimal(n), max) == Some(n),
{
    lemma_decimal_digits(n);
    let text = decimal(n);
    assert(is_digit(text[0]));
    assert(digits_start(text) == 0);
    assert(text.subrange(0, text.len() as int) =~= text);
}

/// The setting from an environment variable's value: its number when it parses, else
/// `default`.
pub open spec fn env_number(value: Option<Seq<char>>, max: nat, default: nat) -> nat {
    match value {
        Some(text) => match parsed_unsigned(text, max) {
            Some(v) => v,
            None => default,
        },
        None => default,
    }
}

/// The thread setting from the value of `WORD_TALLY_THREADS`: all threads for `all` in any
/// case, a count for a number that fits in a `u16`, else the default of all threads.
pub open spec fn env_threads(value: Option<Seq<char>>) -> Threads {
    match value {
        Some(text) => if ascii_lowercase(text) == "all"@ {
            Threads::All
        } else {
            match parsed_unsigned(text, u16::MAX as nat) {
                Some(n) => Threads::Count(n as u16),
                None => Threads::All,
            }
        },
        None => Threads::All,
    }
}

/// Parses a numeric setting, falling back to `default`.
pub(crate) fn parse_env_var(value: Option<&str>, max: u64, default: u64) -> (setting: u64)
    requires
        default <= max,
    ensures
        setting == env_number(
            match value {
                Some(text) => Some(text@),
                None => None,
            },
            max as nat,
            default as nat,
        ),
        setting <= max,
{
    match value {
        Some(text) => match parse_unsigned(text, max) {
            Some(v) => v,
            None => default,
        },
        None => default,
    }
}

/// The product of two `u64`s, or `u64::MAX` when it overflows.
fn saturating_mul(a: u64, b: u64) -> (product: u64)
    ensures
        product == saturate_u64(a * b),
{
    match a.checked_mul(b) {
        Some(p) => p,
        None => u64::MAX,
    }
}

/// `n / d` rounded up.
fn div_ceil_u64(n: u64, d: u64) -> (q: u64)
    requires
        d > 0,
    ensures
        q == div_ceil(n as int, d as int),
{
    if n % d == 0 {
        n / d
    } else {
        assert(d >= 2 ==> n / d < u64::MAX) by (nonlinear_arith)
            requires
                d > 0,
        ;
        n / d + 1
    }
}

/// Performance tuning configuration parameters.
#[derive(Clone, Copy, Debug, PartialEq, Eq, Hash)]
pub struct Performance {
    /// Ratio used to estimate number of unique words based on input size.
    pub uniqueness_ratio: u16,
    /// Words-per-KB of text.
    pub words_per_kb: u16,
    /// Size of chunks for parallel processing (in bytes).
    pub chunk_size: u64,
    /// Base stdin size for unknown-sized inputs.
    pub base_stdin_size: u64,
    /// Thread configuration for parallel processing.
    pub threads: Threads,
}

impl Default for Performance {
    fn default() -> (p: Self)
        ensures
            p.uniqueness_ratio == 32,
            p.words_per_kb == 128,
            p.chunk_size == 64 * 1024,
            p.base_stdin_size == 256 * 1024,
            p.threads == Threads::All,
    {
        Performance {
            uniqueness_ratio: Self::UNIQUENESS_RATIO,
            words_per_kb: Self::WORDS_PER_KB,
            chunk_size: Self::PAR_CHUNK_SIZE,
            base_stdin_size: Self::BASE_STDIN_SIZE,
            threads: Threads::All,
        }
    }
}

impl Performance {
    /// Estimated is 128 words per KB.
    pub const WORDS_PER_KB: u16 = 128;
    /// At most, 512 words per KB (one word every other byte).
    pub const MAX_WORDS_PER_KB: u16 = 512;
    /// Estimated 32 words per unique word (32:1 ratio).
    pub const UNIQUENESS_RATIO: u16 = 32;
    /// Estimated stdin size is 256KB.
    pub const BASE_STDIN_SIZE: u64 = 262144;
    /// Target chunks per thread (2-4 chunks per thread helps with work stealing).
    pub const PAR_CHUNKS_PER_THREAD: u8 = 4;
    /// Chunk size for parallel processing is 64KB.
    pub const PAR_CHUNK_SIZE: u64 = 65536;

    /// Converts a `u64` to `usize` for capacity calculations, giving `usize::MAX` when it
    /// would overflow.
    pub fn saturating_cast(value: u64) -> (cast: usize)
        ensures
            cast == saturate_usize(value as int),
    {
        if value as u128 > usize::MAX as u128 {
            usize::MAX
        } else {
            value as usize
        }
    }

    /// Environment variable for the base stdin size.
    pub const ENV_STDIN_BUFFER_SIZE: &'static str = "WORD_TALLY_STDIN_BUFFER_SIZE";
    /// Environment variable for the chunk size.
    pub const ENV_CHUNK_SIZE: &'static str = "WORD_TALLY_CHUNK_SIZE";
    /// Environment variable for the uniqueness ratio.
    pub const ENV_UNIQUENESS_RATIO: &'static str = "WORD_TALLY_UNIQUENESS_RATIO";
    /// Environment variable for the words per KB.
    pub const ENV_WORDS_PER_KB: &'static str = "WORD_TALLY_WORDS_PER_KB";
    /// Environment variable for the thread count.
    pub const ENV_THREADS: &'static str = "WORD_TALLY_THREADS";

    /// Create performance configuration from the values of the environment variables, each
    /// `None` when unset: a value that does not parse leaves the default, and the words per
    /// KB are capped at 512.
    pub fn from_env(
        stdin_buffer_size: Option<&str>,
        chunk_size: Option<&str>,
        uniqueness_ratio: Option<&str>,
        words_per_kb: Option<&str>,
        threads: Option<&str>,
    ) -> (p: Self)
        ensures
            p.base_stdin_size == env_number(opt_view(stdin_buffer_size), u64::MAX as nat, 262144),
            p.chunk_size == env_number(opt_view(chunk_size), u64::MAX as nat, 65536),
            p.uniqueness_ratio == env_number(opt_view(uniqueness_ratio), u16::MAX as nat, 32),
            p.words_per_kb == (if env_number(opt_view(words_per_kb), u16::MAX as nat, 128) > 512 {
                512
            } else {
                env_number(opt_view(words_per_kb), u16::MAX as nat, 128)
            }),
            p.threads == env_threads(opt_view(threads)),
    {
        let base_stdin_size = parse_env_var(stdin_buffer_size, u64::MAX, Self::BASE_STDIN_SIZE);
        let chunk = parse_env_var(chunk_size, u64::MAX, Self::PAR_CHUNK_SIZE);
        let ratio = parse_env_var(uniqueness_ratio, u16::MAX as u64, Self::UNIQUENESS_RATIO as u64);
        let words = parse_env_var(words_per_kb, u16::MAX as u64, Self::WORDS_PER_KB as u64);
        let words_per_kb = if words > Self::MAX_WORDS_PER_KB as u64 {
            Self::MAX_WORDS_PER_KB
        } else {
            words as u16
        };
        Performance {
            uniqueness_ratio: ratio as u16,
            words_per_kb,
            chunk_size: chunk,
            base_stdin_size,
            threads: Self::parse_threads(threads),
        }
    }

    /// Parse the thread count from the value of `WORD_TALLY_THREADS`.
    fn parse_threads(value: Option<&str>) -> (threads: Threads)
        ensures
            threads == env_threads(opt_view(value)),
    {
        match value {
            Some(text) => {
                if eq_ignore_ascii_case(text, "all") {
                    proof {
                        reveal_strlit("all");
                        assert(ascii_lowercase("all"@) =~= "all"@);
                    }
                    Threads::All
                } else {
                    proof {
                        reveal_strlit("all");
                        assert(ascii_lowercase("all"@) =~= "all"@);
                    }
                    match parse_unsigned(text, u16::MAX as u64) {
                        Some(n) => Threads::Count(n as u16),
                        None => Threads::All,
                    }
                }
            },
            None => Threads::All,
        }
    }

    /// Set the base stdin size for unknown-sized inputs.
    pub fn with_base_stdin_size(self, size: u64) -> (p: Self)
        ensures
            p == (Performance { base_stdin_size: size, ..self }),
    {
        Performance { base_stdin_size: size, ..self }
    }

    /// Set the chunk size for this configuration.
    pub fn with_chunk_size(self, size: u64) -> (p: Self)
        ensures
            p == (Performance { chunk_size: size, ..self }),
    {
        Performance { chunk_size: size, ..self }
    }

    /// Set the thread count.
    pub fn with_threads(self, threads: Threads) -> (p: Self)
        ensures
            p == (Performance { threads, ..self }),
    {
        Performance { threads, ..self }
    }

    /// Set the uniqueness ratio for this configuration.
    pub fn with_uniqueness_ratio(self, ratio: u16) -> (p: Self)
        ensures
            p == (Performance { uniqueness_ratio: ratio, ..self }),
    {
        Performance { uniqueness_ratio: ratio, ..self }
    }

    /// Set the words-per-KB for this configuration, capped at 512.
    pub fn with_words_per_kb(self, words_per_kb: u16) -> (p: Self)
        ensures
            p == (Performance {
                words_per_kb: if words_per_kb > 512 {
                    512
                } else {
                    words_per_kb
                },
                ..self
            }),
    {
        let capped = if words_per_kb > Self::MAX_WORDS_PER_KB {
            Self::MAX_WORDS_PER_KB
        } else {
            words_per_kb
        };
        Performance { words_per_kb: capped, ..self }
    }

    /// Get the base stdin size.
    pub fn base_stdin_size(&self) -> (size: u64)
        ensures
            size == self.base_stdin_size,
    {
        self.base_stdin_size
    }

    /// Get the base stdin size as usize.
    pub fn base_stdin_size_usize(&self) -> (size: usize)
        ensures
            size == saturate_usize(self.base_stdin_size as int),
    {
        Self::saturating_cast(self.base_stdin_size)
    }

    /// Get the chunk size.
    pub fn chunk_size(&self) -> (size: u64)
        ensures
            size == self.chunk_size,
    {
        self.chunk_size
    }

    /// Get the thread configuration.
    pub fn threads(&self) -> (threads: Threads)
        ensures
            threads == self.threads,
    {
        self.threads
    }

    /// Calculate capacity based on input size in bytes.
    pub fn chunk_capacity(&self, byte_size: u64) -> (capacity: usize)
        requires
            self.uniqueness_ratio > 0,
        ensures
            capacity == chunk_capacity_for(byte_size, self.words_per_kb, self.uniqueness_ratio),
    {
        let kb_size = byte_size / 1024;
        let estimated_words = saturating_mul(kb_size, self.words_per_kb as u64);
        let capacity = estimated_words / self.uniqueness_ratio as u64;
        Self::saturating_cast(capacity)
    }

    /// Estimated capacity based on input size; the default stdin capacity when it is unknown.
    pub fn capacity(&self, input_size: Option<u64>) -> (capacity: usize)
        requires
            input_size is Some ==> self.uniqueness_ratio > 0,
        ensures
            capacity == (match input_size {
                None => 1024,
                Some(size) => chunk_capacity_for(size, self.words_per_kb, self.uniqueness_ratio),
            }),
    {
        match input_size {
            None => Self::base_stdin_tally_capacity(),
            Some(size) => self.chunk_capacity(size),
        }
    }

    /// Default tally capacity for input of unknown size: 256 KB of text at 128 words per KB
    /// and a 32:1 uniqueness ratio.
    pub fn base_stdin_tally_capacity() -> (capacity: usize)
        ensures
            capacity == 1024,
    {
        let kb: u64 = Self::BASE_STDIN_SIZE / 1024;
        assert(kb == 256);
        let words = saturating_mul(kb, Self::WORDS_PER_KB as u64);
        assert(words == 32768);
        let ratio: u64 = Self::UNIQUENESS_RATIO as u64;
        assert(ratio == 32);
        let capacity = words / ratio;
        assert(capacity == 1024);
        Self::saturating_cast(capacity)
    }

    /// Calculate the number of chunks for content of the given length: none for no content,
    /// else the length divided by the chunk size, rounded up.
    pub fn total_chunks(&self, content_len: u64) -> (chunks: u64)
        requires
            content_len > 0 ==> self.chunk_size > 0,
        ensures
            chunks == (if content_len == 0 {
                0
            } else {
                div_ceil(content_len as int, self.chunk_size as int)
            }),
    {
        if content_len == 0 {
            return 0;
        }
        div_ceil_u64(content_len, self.chunk_size)
    }

    /// The batch size for streaming with `threads` threads: 4 chunks of 64 KB per thread.
    pub fn batch_size_for_threads(threads: usize) -> (size: u64)
        ensures
            size == batch_size_for(threads as int),
    {
        saturating_mul(saturating_mul(Self::PAR_CHUNKS_PER_THREAD as u64, threads as u64), Self::PAR_CHUNK_SIZE)
    }

    /// Get the batch buffer size for streaming operations, from the size of the current
    /// thread pool.
    pub fn stream_batch_size() -> (size: u64)
        ensures
            exists|threads: int| 1 <= threads <= 65535 && size == #[trigger] batch_size_for(threads),
    {
        let threads = current_num_threads();
        Self::batch_size_for_threads(threads)
    }

    /// Calculate total number of chunks for streaming: 4 per thread of the current pool.
    pub fn stream_total_chunks() -> (chunks: usize)
        ensures
            chunks % 4 == 0,
            4 <= chunks <= 4 * 65535,
    {
        let threads = current_num_threads();
        let per_thread: usize = Self::PAR_CHUNKS_PER_THREAD as usize;
        assert(per_thread == 4);
        threads * per_thread
    }

    /// The streaming batch size for an input of `input_size` bytes split into `total_chunks`
    /// chunks: a chunk's share of the input, but at least 64 KB.
    pub fn batch_size_for_input(input_size: u64, total_chunks: u64) -> (size: u64)
        requires
            total_chunks > 0,
        ensures
            size == batch_target(input_size as int, total_chunks as int),
    {
        let target_batch_size = div_ceil_u64(input_size, total_chunks);
        if target_batch_size > Self::PAR_CHUNK_SIZE {
            target_batch_size
        } else {
            Self::PAR_CHUNK_SIZE
        }
    }

    /// Calculate streaming batch size based on input size and the current thread pool.
    pub fn stream_batch_size_for_input(&self, input_size: u64) -> (size: u64)
        ensures
            exists|threads: int| 1 <= threads <= 65535 && size == #[trigger] batch_target(input_size as int, 4 * threads),
    {
        let total_chunks = Self::stream_total_chunks() as u64;
        let size = Self::batch_size_for_input(input_size, total_chunks);
        assert(size == batch_target(input_size as int, 4 * (total_chunks / 4)));
        size
    }

    /// Calculate chunk boundary capacity based on total chunks: one more than the chunks.
    pub fn chunk_boundary_capacity(total_chunks: u64) -> (capacity: usize)
        ensures
            capacity == saturate_usize(saturate_u64(total_chunks + 1)),
    {
        let boundaries = if total_chunks == u64::MAX {
            u64::MAX
        } else {
            total_chunks + 1
        };
        Self::saturating_cast(boundaries)
    }

    /// Calculate chunk boundary capacity for streaming, from the current thread pool.
    pub fn stream_boundary_capacity() -> (capacity: usize)
        ensures
            capacity % 4 == 1,
            5 <= capacity <= 4 * 65535 + 1,
    {
        Self::chunk_boundary_capacity(Self::stream_total_chunks() as u64)
    }

    /// The settings as verbose output shows them, with the thread count of the current pool
    /// for `Threads::All`.
    pub fn to_string(&self) -> (text: String)
        ensures
            exists|threads: nat|
                text@ == "Performance { tally_capacity: "@ + decimal(1024) + ", uniqueness: "@ + decimal(self.uniqueness_ratio as nat)
                    + ", words/kb: "@ + decimal(self.words_per_kb as nat) + ", chunk: "@ + decimal(
                    self.chunk_size as nat,
                ) + ", stdin_size: "@ + decimal(self.base_stdin_size as nat) + ", threads: "@ + #[trigger] decimal(
                    threads,
                ) + " }"@,
            self.threads matches Threads::Count(n) ==> text@ == "Performance { tally_capacity: "@ + decimal(1024) + ", uniqueness: "@
                + decimal(self.uniqueness_ratio as nat) + ", words/kb: "@ + decimal(self.words_per_kb as nat)
                + ", chunk: "@ + decimal(self.chunk_size as nat) + ", stdin_size: "@ + decimal(
                self.base_stdin_size as nat,
            ) + ", threads: "@ + decimal(n as nat) + " }"@,
    {
        let mut text = "Performance { tally_capacity: ".to_owned();
        let capacity = decimal_string(Self::base_stdin_tally_capacity() as u64);
        text.append(capacity.as_str());
        text.append(", uniqueness: ");
        text.append(decimal_string(self.uniqueness_ratio as u64).as_str());
        text.append(", words/kb: ");
        text.append(decimal_string(self.words_per_kb as u64).as_str());
        text.append(", chunk: ");
        text.append(decimal_string(self.chunk_size).as_str());
        text.append(", stdin_size: ");
        text.append(decimal_string(self.base_stdin_size).as_str());
        text.append(", threads: ");
        let threads = self.threads.count();
        text.append(decimal_string(threads as u64).as_str());
        text.append(" }");
        proof {
            assert(text@ == "Performance { tally_capacity: "@ + decimal(1024) + ", uniqueness: "@ + decimal(self.uniqueness_ratio as nat)
                + ", words/kb: "@ + decimal(self.words_per_kb as nat) + ", chunk: "@ + decimal(self.chunk_size as nat)
                + ", stdin_size: "@ + decimal(self.base_stdin_size as nat) + ", threads: "@ + decimal(threads as nat)
                + " }"@);
        }
        text
    }

    /// Calculate chunk size for streaming based on target batch size.
    pub fn stream_chunk_size(target_batch_size: usize) -> (size: usize)
        ensures
            size == target_batch_size / 4,
    {
        target_batch_size / Self::PAR_CHUNKS_PER_THREAD as usize
    }
}

} // verus!
