//! The decisions of streamed tallying: where a buffer of input is split, which part of it is
//! tallied, and what is kept for the next read.
use vstd::prelude::*;
use vstd::string::StringSliceAdditionalSpecFns;
use vstd::utf8::*;

use super::chunks::{
    chunks_words, is_tally_of, is_utf8_error, is_ws_byte, last_space_or_newline, last_ws_before,
    lemma_last_ws_before, splits_text, utf8_text,
};
use super::{add_all, count_in, counts_at_most, extend_order, first_seen, Counts, TallyMap};
use crate::error::WordTallyError;
use crate::options::case::Case;
use crate::options::encoding::{normalized_unicode, unicode_words};
use crate::options::performance::{batch_size_for, batch_target, Performance};

verus! {

broadcast use vstd::utf8::group_utf8_lib;

/// The index of each space or newline among the first `end` bytes, in increasing order.
pub open spec fn ws_positions_in(bytes: Seq<u8>, end: int) -> Seq<usize>
    decreases end,
{
    if end <= 0 {
        seq![]
    } else if is_ws_byte(bytes[end - 1]) {
        ws_positions_in(bytes, end - 1).push((end - 1) as usize)
    } else {
        ws_positions_in(bytes, end - 1)
    }
}

/// The index of each space or newline in `bytes`, in increasing order.
pub open spec fn ws_positions_of(bytes: Seq<u8>) -> Seq<usize> {
    ws_positions_in(bytes, bytes.len() as int)
}

/// `memchr::memchr2_iter` for a space and a newline, collected: the index of each one in
/// `haystack`, in increasing order.
#[verifier::external_body]
fn ws_positions(haystack: &[u8]) -> (positions: Vec<usize>)
    ensures
        positions@ == ws_positions_of(haystack@),
{
    memchr::memchr2_iter(b' ', b'\n', haystack).collect()
}

/// The whitespace positions are increasing, lie within the bytes and are spaces or newlines.
proof fn lemma_ws_positions(bytes: Seq<u8>, end: int)
    requires
        0 <= end <= bytes.len() <= usize::MAX,
    ensures
        forall|i: int, j: int|
            0 <= i < j < ws_positions_in(bytes, end).len() ==> #[trigger] ws_positions_in(bytes, end)[i]
                < #[trigger] ws_positions_in(bytes, end)[j],
        forall|i: int|
            0 <= i < ws_positions_in(bytes, end).len() ==> #[trigger] ws_positions_in(bytes, end)[i] < end
                && is_ws_byte(bytes[ws_positions_in(bytes, end)[i] as int]),
        ws_positions_in(bytes, end).len() <= end,
    decreases end,
{
    if end > 0 {
        lemma_ws_positions(bytes, end - 1);
    }
}

/// The boundaries chosen among whitespace `positions`, the last one before them being
/// `last`: just past each position that lies at least `min_chunk_size` past the last boundary.
pub open spec fn boundaries_after(positions: Seq<usize>, min_chunk_size: int, last: int) -> Seq<usize>
    decreases positions.len(),
{
    if positions.len() == 0 {
        seq![]
    } else if positions[0] - last >= min_chunk_size {
        seq![(positions[0] + 1) as usize] + boundaries_after(positions.drop_first(), min_chunk_size, positions[0] + 1)
    } else {
        boundaries_after(positions.drop_first(), min_chunk_size, last)
    }
}

/// The chunk boundaries of a streamed batch: zero, the boundaries chosen among the
/// whitespace positions for chunks of a quarter of the target batch size, and, at the end of
/// the input, the end of the buffer when it is not a boundary yet.
pub open spec fn streamed_boundaries_of(
    len: int,
    positions: Seq<usize>,
    target_batch_size: int,
    reached_eof: bool,
) -> Seq<usize> {
    let chosen = seq![0usize] + boundaries_after(positions, target_batch_size / 4, 0);
    if reached_eof && chosen.last() < len {
        chosen.push(len as usize)
    } else {
        chosen
    }
}

/// The tally of a streamed batch, with the bytes of the buffer that it covers; `None` when,
/// before the end of the input, no chunk boundary can be chosen yet and more input is needed.
pub open spec fn processes_stream_buffer(
    buffer: Seq<u8>,
    target_batch_size: int,
    reached_eof: bool,
    case: Case,
    result: Result<Option<(TallyMap, usize)>, WordTallyError>,
) -> bool {
    let positions = ws_positions_of(buffer);
    let boundaries = streamed_boundaries_of(buffer.len() as int, positions, target_batch_size, reached_eof);
    if !reached_eof && boundaries.len() == 1 {
        result == Ok::<Option<(TallyMap, usize)>, WordTallyError>(None)
    } else if boundaries.len() == 1 && reached_eof && buffer.len() > 0 {
        if valid_utf8(buffer) {
            result matches Ok(Some((tally, processed))) && processed == buffer.len() && tally.wf()
                && tally@ == add_all(
                Counts::empty(),
                normalized_unicode(unicode_words(decode_utf8(buffer)), case),
            ) && tally.spec_order() == first_seen(normalized_unicode(unicode_words(decode_utf8(buffer)), case))
        } else {
            result matches Err(e) && is_utf8_error(e)
        }
    } else {
        let end = boundaries.last() as int;
        if valid_utf8(buffer.take(end)) {
            result matches Ok(Some((tally, processed))) && processed == end && tally.wf() && tally@
                == add_all(Counts::empty(), chunks_words(buffer.take(end), boundaries, case))
                && tally.spec_order() == first_seen(chunks_words(buffer.take(end), boundaries, case))
        } else {
            result matches Err(e) && is_utf8_error(e)
        }
    }
}

/// How much of a streamed buffer a low-memory step tallies: all of it at the end of the input,
/// else everything up to and including its last space or newline (nothing when it has none),
/// so that a word cut by the read is kept whole for the next step.
pub open spec fn stream_split(buffer: Seq<u8>, reached_eof: bool) -> int {
    if reached_eof {
        buffer.len() as int
    } else {
        last_ws_before(buffer, buffer.len() as int) + 1
    }
}

/// The size of a streamed input: its size when known, else the base stdin size.
pub open spec fn stream_input_size(size: Option<u64>, perf: Performance) -> int {
    match size {
        Some(s) => s as int,
        None => perf.base_stdin_size as int,
    }
}

/// The length of the longest prefix of `bytes` that is valid UTF-8.
pub open spec fn longest_valid_prefix(bytes: Seq<u8>) -> int {
    choose|k: int|
        0 <= k <= bytes.len() && valid_utf8(bytes.take(k)) && forall|j: int|
            k < j <= bytes.len() ==> !valid_utf8(#[trigger] bytes.take(j))
}

/// The outcome of a UTF-8 check that reports the valid prefix: the text when `bytes` are valid
/// UTF-8, else the length of the longest prefix that is.
pub open spec fn checks_utf8(bytes: Seq<u8>, result: Result<&str, usize>) -> bool {
    match result {
        Ok(text) => valid_utf8(bytes) && text.spec_bytes() == bytes,
        Err(valid_up_to) => {
            &&& !valid_utf8(bytes)
            &&& valid_up_to <= bytes.len()
            &&& valid_utf8(bytes.take(valid_up_to as int))
            &&& forall|j: int| valid_up_to < j <= bytes.len() ==> !valid_utf8(#[trigger] bytes.take(j))
        },
    }
}

/// `simdutf8::compat::from_utf8`: the text when `bytes` are valid UTF-8; otherwise the error's
/// `valid_up_to`, the length of the longest prefix of `bytes` that is valid UTF-8.
#[verifier::external_body]
fn utf8_text_or_valid_prefix(bytes: &[u8]) -> (result: Result<&str, usize>)
    ensures
        checks_utf8(bytes@, result),
{
    match simdutf8::compat::from_utf8(bytes) {
        Ok(text) => Ok(text),
        Err(error) => Err(error.valid_up_to()),
    }
}

/// `std::str::from_utf8`: the text that `bytes` encode, when they are valid UTF-8.
#[verifier::external_body]
pub(crate) fn std_utf8_text(bytes: &[u8]) -> (text: Option<&str>)
    ensures
        text is Some <==> valid_utf8(bytes@),
        text matches Some(t) ==> t.spec_bytes() == bytes@,
{
    std::str::from_utf8(bytes).ok()
}

/// The longest valid prefix that the UTF-8 check reports is the one `longest_valid_prefix`
/// names.
proof fn lemma_longest_valid_prefix(bytes: Seq<u8>, k: int)
    requires
        0 <= k <= bytes.len(),
        valid_utf8(bytes.take(k)),
        forall|j: int| k < j <= bytes.len() ==> !valid_utf8(#[trigger] bytes.take(j)),
    ensures
        longest_valid_prefix(bytes) == k,
{
    let c = longest_valid_prefix(bytes);
    assert(0 <= c <= bytes.len() && valid_utf8(bytes.take(c)));
    if c < k {
        assert(!valid_utf8(bytes.take(k)));
    }
    if c > k {
        assert(!valid_utf8(bytes.take(c)));
    }
}

/// The normalized words of the text that `bytes` encode.
pub open spec fn text_words(bytes: Seq<u8>, case: Case) -> Seq<Seq<char>> {
    normalized_unicode(unicode_words(decode_utf8(bytes)), case)
}

/// In valid UTF-8, the byte after an ASCII byte starts a character, or is the end.
pub(crate) proof fn lemma_boundary_after_ascii(bytes: Seq<u8>, p: int)
    requires
        valid_utf8(bytes),
        0 <= p < bytes.len(),
        bytes[p] <= 0x7f,
    ensures
        is_char_boundary(bytes, p + 1),
    decreases bytes.len(),
{
    let first = length_of_first_scalar(bytes);
    let rest = pop_first_scalar(bytes);
    if p >= first {
        assert(rest[p - first] == bytes[p]);
        lemma_boundary_after_ascii(rest, p - first);
    } else if p == 0 {
        assert(first == 1);
        assert(is_char_boundary(rest, 0));
    }
}

impl TallyMap {
    /// Calculate boundaries from positions based on minimum chunk size: the start, then just
    /// past each position that lies at least `min_chunk_size` past the last boundary.
    fn calculate_boundaries_from_positions(
        positions: &[usize],
        min_chunk_size: usize,
        start_pos: usize,
    ) -> (boundaries: Vec<usize>)
        requires
            forall|i: int, j: int| 0 <= i < j < positions@.len() ==> #[trigger] positions@[i] < #[trigger] positions@[j],
            forall|i: int| 0 <= i < positions@.len() ==> #[trigger] positions@[i] < usize::MAX,
            positions@.len() > 0 ==> start_pos <= positions@[0],
        ensures
            boundaries@ == seq![start_pos] + boundaries_after(positions@, min_chunk_size as int, start_pos as int),
            boundaries@.len() <= positions@.len() + 1,
            forall|i: int, j: int| 0 <= i < j < boundaries@.len() ==> #[trigger] boundaries@[i] < #[trigger] boundaries@[j],
            forall|j: int| 1 <= j < boundaries@.len() ==> exists|k: int|
                0 <= k < positions@.len() && #[trigger] boundaries@[j] == positions@[k] + 1,
    {
        let ghost target = seq![start_pos] + boundaries_after(positions@, min_chunk_size as int, start_pos as int);
        let mut boundaries: Vec<usize> = Vec::new();
        boundaries.push(start_pos);
        let mut last_boundary = start_pos;
        let mut i: usize = 0;
        proof {
            assert(positions@.skip(0) =~= positions@);
        }
        while i < positions.len()
            invariant
                forall|a: int, b: int| 0 <= a < b < positions@.len() ==> #[trigger] positions@[a] < #[trigger] positions@[b],
                forall|a: int| 0 <= a < positions@.len() ==> #[trigger] positions@[a] < usize::MAX,
                0 <= i <= positions@.len(),
                i < positions@.len() ==> last_boundary <= positions@[i as int],
                boundaries@.len() >= 1,
                boundaries@.len() <= i + 1,
                boundaries@[0] == start_pos,
                boundaries@.last() == last_boundary,
                boundaries@ + boundaries_after(positions@.skip(i as int), min_chunk_size as int, last_boundary as int)
                    == target,
                forall|a: int, b: int| 0 <= a < b < boundaries@.len() ==> #[trigger] boundaries@[a] < #[trigger] boundaries@[b],
                forall|j: int| 1 <= j < boundaries@.len() ==> exists|k: int|
                    0 <= k < i && #[trigger] boundaries@[j] == positions@[k] + 1,
            decreases positions@.len() - i,
        {
            let pos = positions[i];
            let ghost rest = positions@.skip(i as int);
            proof {
                assert(rest[0] == pos);
                assert(rest.drop_first() =~= positions@.skip(i + 1));
            }
            let ghost before = boundaries@;
            if pos - last_boundary >= min_chunk_size {
                last_boundary = pos + 1;
                boundaries.push(pos + 1);
                proof {
                    assert(before + (seq![(pos + 1) as usize] + boundaries_after(positions@.skip(i + 1), min_chunk_size as int, pos + 1))
                        =~= boundaries@ + boundaries_after(positions@.skip(i + 1), min_chunk_size as int, pos + 1));
                    assert(boundaries@[boundaries@.len() - 1] == positions@[i as int] + 1);
                }
            }
            proof {
                if i + 1 < positions@.len() {
                    assert(positions@[i as int] < positions@[i + 1]);
                }
            }
            i = i + 1;
        }
        proof {
            assert(positions@.skip(positions@.len() as int) =~= Seq::<usize>::empty());
            assert(boundaries@ + Seq::<usize>::empty() =~= boundaries@);
        }
        boundaries
    }

    /// Calculate chunk boundaries within a streamed batch based on whitespace positions.
    fn streamed_boundaries(
        buffer: &[u8],
        whitespace_positions: &[usize],
        target_batch_size: usize,
        reached_eof: bool,
    ) -> (boundaries: Vec<usize>)
        requires
            buffer@.len() < usize::MAX,
            whitespace_positions@ == ws_positions_of(buffer@),
        ensures
            boundaries@ == streamed_boundaries_of(
                buffer@.len() as int,
                whitespace_positions@,
                target_batch_size as int,
                reached_eof,
            ),
            1 <= boundaries@.len() <= buffer@.len() + 2,
            boundaries@[0] == 0,
            forall|i: int, j: int| 0 <= i < j < boundaries@.len() ==> #[trigger] boundaries@[i] < #[trigger] boundaries@[j],
            forall|j: int| 0 <= j < boundaries@.len() ==> #[trigger] boundaries@[j] <= buffer@.len(),
            forall|j: int|
                1 <= j < boundaries@.len() && boundaries@[j] < buffer@.len() ==> exists|k: int|
                    0 <= k < whitespace_positions@.len() && #[trigger] boundaries@[j] == whitespace_positions@[k] + 1,
    {
        proof {
            lemma_ws_positions(buffer@, buffer@.len() as int);
        }
        let chunk_size = target_batch_size / Performance::PAR_CHUNKS_PER_THREAD as usize;
        assert(chunk_size == target_batch_size as int / 4);
        let mut boundaries = Self::calculate_boundaries_from_positions(whitespace_positions, chunk_size, 0);
        proof {
            let last = boundaries@.len() - 1;
            if last >= 1 {
                let k = choose|k: int| 0 <= k < whitespace_positions@.len() && #[trigger] boundaries@[last] == whitespace_positions@[k] + 1;
                assert(boundaries@[last] <= buffer@.len());
            }
            assert forall|j: int| 0 <= j < boundaries@.len() implies #[trigger] boundaries@[j] <= buffer@.len() by {
                if j < last {
                    assert(boundaries@[j] < boundaries@[last]);
                }
            }
        }
        let end_is_boundary = match boundaries.last() {
            Some(last) => *last >= buffer.len(),
            None => false,
        };
        if reached_eof && !end_is_boundary {
            boundaries.push(buffer.len());
        }
        boundaries
    }

    /// Process the stream buffer and return the tally of the batch with the number of bytes
    /// it covers, which is never zero for a buffer that holds bytes; `None` when, before the end
    /// of the input, no whitespace boundary a quarter batch in can be chosen yet, so that more
    /// data is needed (and a full buffer has to grow).
    pub fn process_stream_buffer(
        buffer: &[u8],
        target_batch_size: usize,
        reached_eof: bool,
        case: Case,
        perf: &Performance,
    ) -> (result: Result<Option<(Self, usize)>, WordTallyError>)
        requires
            2 * buffer@.len() + 3 <= usize::MAX,
            perf.uniqueness_ratio > 0,
        ensures
            processes_stream_buffer(buffer@, target_batch_size as int, reached_eof, case, result),
            result matches Ok(Some((_, processed))) ==> 0 < processed <= buffer@.len() || buffer@.len() == 0,
            result matches Ok(None) ==> !reached_eof,
    {
        let whitespace_positions = ws_positions(buffer);
        if whitespace_positions.len() == 0 && !reached_eof && buffer.len() < target_batch_size {
            return Ok(None);
        }
        let chunk_boundaries = Self::streamed_boundaries(
            buffer,
            whitespace_positions.as_slice(),
            target_batch_size,
            reached_eof,
        );
        let n = chunk_boundaries.len();
        if n == 1 && !reached_eof {
            return Ok(None);
        }
        if n == 1 && reached_eof && buffer.len() > 0 {
            let remaining = match Self::parse_utf8_slice(buffer) {
                Ok(text) => text,
                Err(e) => return Err(e),
            };
            let mut tally = Self::with_capacity(perf.chunk_capacity(buffer.len() as u64));
            tally.add_words(remaining, case);
            proof {
                assert(remaining@ == decode_utf8(buffer@));
            }
            Ok(Some((tally, buffer.len())))
        } else {
            let process_end = chunk_boundaries[n - 1];
            let (head, _) = buffer.split_at(process_end);
            let ghost bytes = head@;
            assert(bytes =~= buffer@.take(process_end as int));
            let content = match Self::parse_utf8_slice(head) {
                Ok(text) => text,
                Err(e) => return Err(e),
            };
            proof {
                lemma_ws_positions(buffer@, buffer@.len() as int);
                is_char_boundary_start_end_of_seq(bytes);
                assert forall|j: int| 0 <= j < chunk_boundaries@.len() implies is_char_boundary(
                    bytes,
                    #[trigger] chunk_boundaries@[j] as int,
                ) by {
                    if j == n - 1 {
                    } else if j > 0 {
                        assert(chunk_boundaries@[j] < chunk_boundaries@[n - 1]);
                        let k = choose|k: int|
                            0 <= k < whitespace_positions@.len() && #[trigger] chunk_boundaries@[j]
                                == whitespace_positions@[k] + 1;
                        let p = whitespace_positions@[k] as int;
                        assert(bytes[p] == buffer@[p]);
                        lemma_boundary_after_ascii(bytes, p);
                    }
                }
                assert forall|i: int, j: int| 0 <= i <= j < chunk_boundaries@.len() implies #[trigger] chunk_boundaries@[i]
                    <= #[trigger] chunk_boundaries@[j] by {
                    if i < j {
                        assert(chunk_boundaries@[i] < chunk_boundaries@[j]);
                    }
                }
                assert forall|j: int| 0 <= j < chunk_boundaries@.len() implies #[trigger] chunk_boundaries@[j] <= bytes.len() by {
                    if j < n - 1 {
                        assert(chunk_boundaries@[j] < chunk_boundaries@[n - 1]);
                    }
                }
                assert(splits_text(bytes, chunk_boundaries@));
            }
            let batch = Self::process_chunks(content, chunk_boundaries.as_slice(), case);
            Ok(Some((batch, process_end)))
        }
    }

    /// Handle UTF-8 decoding errors by processing the valid portion of the buffer and keeping
    /// the rest of what was read for the next step.
    fn handle_utf8_error(
        valid_up_to: usize,
        tally: &mut Self,
        case: Case,
        remainder: &mut Vec<u8>,
        buffer: &[u8],
        process_until: usize,
    ) -> (result: Result<(), WordTallyError>)
        requires
            valid_up_to <= process_until <= buffer@.len(),
            old(tally).wf(),
            counts_at_most(old(tally)@, usize::MAX - valid_up_to - 1),
        ensures
            final(tally).wf(),
            valid_up_to > 0 && !valid_utf8(buffer@.take(valid_up_to as int)) ==> (result matches Err(
                WordTallyError::Utf8 { byte, message },
            ) && byte == valid_up_to && message@ == "simdutf8 validation inconsistency"@
                && final(tally)@ == old(tally)@ && final(tally).spec_order() == old(tally).spec_order()
                && final(remainder)@ == old(remainder)@),
            !(valid_up_to > 0 && !valid_utf8(buffer@.take(valid_up_to as int))) ==> (result is Ok
                && final(tally)@ == (if valid_up_to > 0 {
                add_all(old(tally)@, text_words(buffer@.take(valid_up_to as int), case))
            } else {
                old(tally)@
            }) && final(tally).spec_order() == (if valid_up_to > 0 {
                extend_order(old(tally).spec_order(), text_words(buffer@.take(valid_up_to as int), case))
            } else {
                old(tally).spec_order()
            }) && final(remainder)@ == buffer@.subrange(valid_up_to as int, process_until as int)),
    {
        if valid_up_to > 0 {
            let (head, _) = buffer.split_at(valid_up_to);
            assert(head@ =~= buffer@.take(valid_up_to as int));
            let valid = match std_utf8_text(head) {
                Some(text) => text,
                None => {
                    return Err(
                        WordTallyError::Utf8 {
                            byte: valid_up_to,
                            message: "simdutf8 validation inconsistency".to_owned(),
                        },
                    );
                },
            };
            proof {
                assert(valid@ == decode_utf8(head@));
            }
            tally.add_words(valid, case);
        }
        remainder.clear();
        let (_, tail) = buffer.split_at(valid_up_to);
        let (kept, _) = tail.split_at(process_until - valid_up_to);
        remainder.extend_from_slice(kept);
        assert(remainder@ =~= buffer@.subrange(valid_up_to as int, process_until as int));
        Ok(())
    }

    /// How much of the buffer a low-memory step tallies: all of it at the end of the input,
    /// else up to and including its last space or newline.
    pub fn stream_process_until(buffer: &[u8], reached_eof: bool) -> (until: usize)
        ensures
            until == stream_split(buffer@, reached_eof),
            until <= buffer@.len(),
            0 < until < buffer@.len() ==> is_ws_byte(buffer@[until - 1]),
            !reached_eof ==> forall|j: int| until <= j < buffer@.len() ==> !is_ws_byte(#[trigger] buffer@[j]),
    {
        proof {
            lemma_last_ws_before(buffer@, buffer@.len() as int);
        }
        if reached_eof {
            buffer.len()
        } else {
            match last_space_or_newline(buffer) {
                Some(pos) => {
                    let ghost w = last_ws_before(buffer@, buffer@.len() as int);
                    assert(buffer@.len() == buffer.len());
                    assert(0 <= w < buffer@.len());
                    pos + 1
                },
                None => 0,
            }
        }
    }

    /// One step of low-memory streamed tallying, after the buffer was filled: the part of the
    /// buffer that `stream_split` picks (all of it at the end of the input, else up to its last
    /// space or newline, so that no word is cut at a read), after any bytes kept from the
    /// previous step, is tallied up to its longest valid UTF-8 prefix; what follows that
    /// prefix is kept, and the rest of the buffer stays for the next read.
    pub fn stream_count_step(
        &mut self,
        buffer: &mut Vec<u8>,
        remainder: &mut Vec<u8>,
        reached_eof: bool,
        case: Case,
    ) -> (result: Result<(), WordTallyError>)
        requires
            old(self).wf(),
            old(remainder)@.len() + old(buffer)@.len() + 1 < usize::MAX,
            counts_at_most(old(self)@, usize::MAX - old(remainder)@.len() - old(buffer)@.len() - 1),
            ({
                let chunk = old(buffer)@.take(stream_split(old(buffer)@, reached_eof));
                !valid_utf8(old(remainder)@ + chunk) ==> longest_valid_prefix(old(remainder)@ + chunk)
                    <= chunk.len()
            }),
        ensures
            final(self).wf(),
            ({
                let until = stream_split(old(buffer)@, reached_eof);
                let chunk = old(buffer)@.take(until);
                let joined = old(remainder)@ + chunk;
                let valid_up_to = longest_valid_prefix(joined);
                if until == 0 {
                    result is Ok && final(self)@ == old(self)@ && final(self).spec_order() == old(self).spec_order()
                        && final(buffer)@ == old(buffer)@ && final(remainder)@ == old(remainder)@
                } else if valid_utf8(joined) {
                    result is Ok && final(self)@ == add_all(old(self)@, text_words(joined, case))
                        && final(self).spec_order() == extend_order(old(self).spec_order(), text_words(joined, case))
                        && final(buffer)@ == old(buffer)@.skip(until) && final(remainder)@.len() == 0
                } else if valid_up_to > 0 && !valid_utf8(chunk.take(valid_up_to)) {
                    result matches Err(WordTallyError::Utf8 { byte, message }) && byte == valid_up_to
                        && message@ == "simdutf8 validation inconsistency"@ && final(self)@ == old(self)@
                        && final(self).spec_order() == old(self).spec_order()
                        && final(buffer)@ == old(buffer)@ && final(remainder)@ == (if old(remainder)@.len() == 0 {
                        old(remainder)@
                    } else {
                        joined
                    })
                } else {
                    result is Ok && final(self)@ == (if valid_up_to > 0 {
                        add_all(old(self)@, text_words(chunk.take(valid_up_to), case))
                    } else {
                        old(self)@
                    }) && final(self).spec_order() == (if valid_up_to > 0 {
                        extend_order(old(self).spec_order(), text_words(chunk.take(valid_up_to), case))
                    } else {
                        old(self).spec_order()
                    }) && final(buffer)@ == old(buffer)@.skip(until) && final(remainder)@ == chunk.skip(
                        valid_up_to,
                    )
                }
            }),
    {
        let process_until = Self::stream_process_until(buffer.as_slice(), reached_eof);
        let ghost chunk_view = buffer@.take(process_until as int);
        let ghost joined = remainder@ + chunk_view;
        if process_until > 0 {
            let (chunk, _) = buffer.as_slice().split_at(process_until);
            assert(chunk@ =~= chunk_view);
            let remainder_was_empty = remainder.len() == 0;
            if !remainder_was_empty {
                remainder.extend_from_slice(chunk);
                assert(remainder@ =~= joined);
            } else {
                assert(joined =~= chunk_view);
            }
            let content = if remainder_was_empty {
                utf8_text_or_valid_prefix(chunk)
            } else {
                utf8_text_or_valid_prefix(remainder.as_slice())
            };
            match content {
                Ok(text) => {
                    proof {
                        assert(text@ == decode_utf8(joined));
                    }
                    self.add_words(text, case);
                    remainder.clear();
                },
                Err(valid_up_to) => {
                    proof {
                        lemma_longest_valid_prefix(joined, valid_up_to as int);
                        assert(buffer@.take(valid_up_to as int) =~= chunk_view.take(valid_up_to as int));
                    }
                    let handled = Self::handle_utf8_error(
                        valid_up_to,
                        self,
                        case,
                        remainder,
                        buffer.as_slice(),
                        process_until,
                    );
                    if handled.is_err() {
                        return handled;
                    }
                    assert(buffer@.subrange(valid_up_to as int, process_until as int) =~= chunk_view.skip(
                        valid_up_to as int,
                    ));
                },
            }
            let rest = buffer.split_off(process_until);
            *buffer = rest;
        }
        Ok(())
    }

    /// The target batch size for the next read: twice the current one when a step over a full
    /// buffer made no progress (a word or a run without whitespace longer than the batch), so
    /// that the buffer grows until a boundary fits; `None` when that no longer fits a `usize`.
    pub fn next_batch_target(target_batch_size: usize, buffered: usize, progressed: bool) -> (next: Option<usize>)
        ensures
            progressed || buffered < target_batch_size ==> next == Some(target_batch_size),
            !progressed && buffered >= target_batch_size ==> (if 2 * target_batch_size <= usize::MAX {
                next == Some((2 * target_batch_size) as usize)
            } else {
                next is None
            }),
    {
        if progressed || buffered < target_batch_size {
            Some(target_batch_size)
        } else {
            target_batch_size.checked_mul(2)
        }
    }

    /// The buffer sizes for streaming an input of the given size (the base stdin size when it
    /// is unknown): the batch buffer's capacity and the target batch size.
    pub fn calculate_batch_sizes_from_size(size: Option<u64>, perf: &Performance) -> (result: Result<
        (usize, usize),
        WordTallyError,
    >)
        ensures
            match result {
                Ok((batch_size, target_batch_size)) => (exists|threads: int|
                    1 <= threads <= 65535 && batch_size == #[trigger] batch_size_for(threads)) && exists|threads: int|
                    1 <= threads <= 65535 && target_batch_size == #[trigger] batch_target(
                        stream_input_size(size, *perf),
                        4 * threads,
                    ),
                Err(WordTallyError::BatchSizeExceeded { size }) => size > usize::MAX,
                Err(_) => false,
            },
    {
        let stream_batch = Performance::stream_batch_size();
        if stream_batch as u128 > usize::MAX as u128 {
            return Err(WordTallyError::BatchSizeExceeded { size: stream_batch });
        }
        let batch_size = stream_batch as usize;
        let input_size = match size {
            Some(s) => s,
            None => perf.base_stdin_size(),
        };
        assert(input_size == stream_input_size(size, *perf));
        let target_size = perf.stream_batch_size_for_input(input_size);
        if target_size as u128 > usize::MAX as u128 {
            return Err(WordTallyError::BatchSizeExceeded { size: target_size });
        }
        Ok((batch_size, target_size as usize))
    }

    /// The last step of low-memory streamed tallying: the bytes kept from the previous step
    /// are tallied; `Err(())` when they are not valid UTF-8.
    pub fn stream_count_finish(&mut self, remainder: &[u8], case: Case) -> (result: Result<(), ()>)
        requires
            old(self).wf(),
            counts_at_most(old(self)@, usize::MAX - remainder@.len() - 1),
        ensures
            final(self).wf(),
            remainder@.len() == 0 ==> result is Ok && final(self)@ == old(self)@ && final(self).spec_order()
                == old(self).spec_order(),
            remainder@.len() > 0 && valid_utf8(remainder@) ==> result is Ok && final(self)@ == add_all(
                old(self)@,
                text_words(remainder@, case),
            ) && final(self).spec_order() == extend_order(old(self).spec_order(), text_words(remainder@, case)),
            remainder@.len() > 0 && !valid_utf8(remainder@) ==> result is Err && final(self)@ == old(self)@
                && final(self).spec_order() == old(self).spec_order(),
    {
        if remainder.len() > 0 {
            match utf8_text(remainder) {
                Some(final_text) => {
                    proof {
                        assert(final_text@ == decode_utf8(remainder@));
                    }
                    self.add_words(final_text, case);
                },
                None => return Err(()),
            }
        }
        Ok(())
    }
}

} // verus!
