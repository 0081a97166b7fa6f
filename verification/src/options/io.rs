//! Configuration for I/O strategies.
use vstd::prelude::*;

use crate::options::case::ascii_lowercase;

verus! {

/// `str::eq_ignore_ascii_case`: the two texts are equal once ASCII letters are lowercased.
#[verifier::external_body]
pub(crate) fn eq_ignore_ascii_case(a: &str, b: &str) -> (same: bool)
    ensures
        same == (ascii_lowercase(a@) == ascii_lowercase(b@)),
{
    a.eq_ignore_ascii_case(b)
}

/// Determines the I/O strategy for processing input.
#[derive(Clone, Copy, Debug, PartialEq, Eq, Hash)]
pub enum Io {
    /// Parallel streaming I/O — balanced memory/performance (default)
    ParallelStream,
    /// Sequential streaming I/O — minimal memory
    Stream,
    /// Parallel memory-mapped I/O — high performance but requires files, not stdin
    ParallelMmap,
    /// Parallel bytes - similar to memory-mapped I/O but directly from bytes not files
    ParallelBytes,
    /// Parallel in-memory from I/O — fully loaded into memory, primarily for stdin
    ParallelInMemory,
}

impl Default for Io {
    fn default() -> (io: Self)
        ensures
            io == Io::ParallelStream,
    {
        Io::ParallelStream
    }
}

/// The name of an I/O strategy, as the command line spells it.
pub open spec fn io_name(io: Io) -> Seq<char> {
    match io {
        Io::Stream => "stream"@,
        Io::ParallelStream => "parallel-stream"@,
        Io::ParallelInMemory => "parallel-in-memory"@,
        Io::ParallelMmap => "parallel-mmap"@,
        Io::ParallelBytes => "parallel-bytes"@,
    }
}

/// The I/O strategy that a text names, ignoring ASCII case ("mmap" too names `ParallelMmap`).
pub open spec fn io_named(s: Seq<char>) -> Option<Io> {
    let l = ascii_lowercase(s);
    if l == ascii_lowercase("stream"@) {
        Some(Io::Stream)
    } else if l == ascii_lowercase("parallel-stream"@) {
        Some(Io::ParallelStream)
    } else if l == ascii_lowercase("parallel-in-memory"@) {
        Some(Io::ParallelInMemory)
    } else if l == ascii_lowercase("parallel-mmap"@) || l == ascii_lowercase("mmap"@) {
        Some(Io::ParallelMmap)
    } else if l == ascii_lowercase("parallel-bytes"@) {
        Some(Io::ParallelBytes)
    } else {
        None
    }
}

impl Io {
    /// Environment variable name for I/O configuration.
    pub const ENV_IO: &'static str = "WORD_TALLY_IO";

    /// The name of the I/O strategy, as the command line spells it.
    pub fn to_string(&self) -> (name: String)
        ensures
            name@ == io_name(*self),
    {
        match self {
            Io::Stream => "stream".to_owned(),
            Io::ParallelStream => "parallel-stream".to_owned(),
            Io::ParallelInMemory => "parallel-in-memory".to_owned(),
            Io::ParallelMmap => "parallel-mmap".to_owned(),
            Io::ParallelBytes => "parallel-bytes".to_owned(),
        }
    }

    /// Parses an I/O strategy name, ignoring ASCII case.
    pub fn from_str(s: &str) -> (parsed: Result<Io, ()>)
        ensures
            match io_named(s@) {
                Some(io) => parsed == Ok::<Io, ()>(io),
                None => parsed is Err,
            },
    {
        if eq_ignore_ascii_case(s, "stream") {
            Ok(Io::Stream)
        } else if eq_ignore_ascii_case(s, "parallel-stream") {
            Ok(Io::ParallelStream)
        } else if eq_ignore_ascii_case(s, "parallel-in-memory") {
            Ok(Io::ParallelInMemory)
        } else if eq_ignore_ascii_case(s, "parallel-mmap") || eq_ignore_ascii_case(s, "mmap") {
            Ok(Io::ParallelMmap)
        } else if eq_ignore_ascii_case(s, "parallel-bytes") {
            Ok(Io::ParallelBytes)
        } else {
            Err(())
        }
    }

    /// Parse I/O strategy from a string value, falling back to the default.
    pub fn from_str_value(value: Option<&str>) -> (io: Self)
        ensures
            io == (match value {
                Some(s) => match io_named(s@) {
                    Some(named) => named,
                    None => Io::ParallelStream,
                },
                None => Io::ParallelStream,
            }),
    {
        match value {
            Some(s) => match Io::from_str(s) {
                Ok(io) => io,
                Err(()) => Io::default(),
            },
            None => Io::default(),
        }
    }

    /// Whether the strategy processes input in parallel.
    pub fn is_parallel(&self) -> (parallel: bool)
        ensures
            parallel == !(*self is Stream),
    {
        !matches!(self, Io::Stream)
    }
}

/// Reading back the name of an I/O strategy gives the same strategy.
pub proof fn lemma_io_name_round_trip(io: Io)
    ensures
        io_named(io_name(io)) == Some(io),
{
    reveal_strlit("stream");
    reveal_strlit("parallel-stream");
    reveal_strlit("parallel-in-memory");
    reveal_strlit("parallel-mmap");
    reveal_strlit("mmap");
    reveal_strlit("parallel-bytes");
    let l = ascii_lowercase(io_name(io));
    assert(ascii_lowercase("stream"@).len() == 6);
    assert(ascii_lowercase("parallel-stream"@).len() == 15);
    assert(ascii_lowercase("parallel-in-memory"@).len() == 18);
    assert(ascii_lowercase("parallel-mmap"@).len() == 13);
    assert(ascii_lowercase("mmap"@).len() == 4);
    assert(ascii_lowercase("parallel-bytes"@).len() == 14);
    if io == Io::ParallelStream {
        assert(l != ascii_lowercase("stream"@));
    }
    if io == Io::ParallelInMemory {
        assert(l != ascii_lowercase("stream"@));
        assert(l != ascii_lowercase("parallel-stream"@));
    }
    if io == Io::ParallelMmap {
        assert(l != ascii_lowercase("stream"@));
        assert(l != ascii_lowercase("parallel-stream"@));
        assert(l != ascii_lowercase("parallel-in-memory"@));
    }
    if io == Io::ParallelBytes {
        assert(l != ascii_lowercase("stream"@));
        assert(l != ascii_lowercase("parallel-stream"@));
        assert(l != ascii_lowercase("parallel-in-memory"@));
        assert(l != ascii_lowercase("parallel-mmap"@));
        assert(l != ascii_lowercase("mmap"@));
    }
}

} // verus!
