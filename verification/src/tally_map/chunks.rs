//! Splitting text into whitespace-aligned chunks and tallying the chunks.
use vstd::prelude::*;

use rayon::iter::{IntoParallelRefIterator, ParallelIterator};
use vstd::string::StringSliceAdditionalSpecFns;
use vstd::utf8::*;

use super::stream::lemma_boundary_after_ascii;
use super::{add_all, count_in, extend_order, first_seen, merged, Counts, TallyMap};
use crate::error::WordTallyError;
use crate::options::case::Case;
use crate::options::encoding::{normalized_unicode, str_slice, unicode_words};
use crate::options::io::Io;
use crate::options::performance::{div_ceil, Performance};
use crate::options::Options;

verus! {

/// A space or a newline: the bytes that chunks are split after.
pub open spec fn is_ws_byte(b: u8) -> bool {
    b == 32u8 || b == 10u8
}

/// The index of the last space or newline among the first `end` bytes, or -1.
pub open spec fn last_ws_before(bytes: Seq<u8>, end: int) -> int
    decreases end,
{
    if end <= 0 {
        -1
    } else if is_ws_byte(bytes[end - 1]) {
        end - 1
    } else {
        last_ws_before(bytes, end - 1)
    }
}

/// The whitespace-aligned boundary at or before `target`: just past the last space or
/// newline before `target`, or the start when there is none, so that no word is split; the
/// length of the bytes when `target` reaches it.
pub open spec fn whitespace_boundary(bytes: Seq<u8>, target: int) -> int {
    if target >= bytes.len() {
        bytes.len() as int
    } else {
        last_ws_before(bytes, target) + 1
    }
}

/// The boundaries of `num_chunks` chunks of `bytes`: zero, then the whitespace-aligned
/// boundary at or before each multiple of the target chunk size.
pub open spec fn chunk_boundaries_of(bytes: Seq<u8>, num_chunks: int) -> Seq<usize> {
    Seq::new(
        (num_chunks + 1) as nat,
        |i: int|
            if i == 0 {
                0usize
            } else {
                whitespace_boundary(bytes, i * div_ceil(bytes.len() as int, num_chunks)) as usize
            },
    )
}

/// `last_ws_before` finds a space or newline, and none lies after it.
pub(crate) proof fn lemma_last_ws_before(bytes: Seq<u8>, end: int)
    requires
        0 <= end <= bytes.len(),
    ensures
        -1 <= last_ws_before(bytes, end) < end,
        last_ws_before(bytes, end) >= 0 ==> is_ws_byte(bytes[last_ws_before(bytes, end)]),
        forall|j: int| last_ws_before(bytes, end) < j < end ==> !is_ws_byte(#[trigger] bytes[j]),
    decreases end,
{
    if end > 0 && !is_ws_byte(bytes[end - 1]) {
        lemma_last_ws_before(bytes, end - 1);
    }
}

/// The last space or newline before a larger end lies no earlier.
proof fn lemma_last_ws_before_monotonic(bytes: Seq<u8>, a: int, b: int)
    requires
        0 <= a <= b <= bytes.len(),
    ensures
        last_ws_before(bytes, a) <= last_ws_before(bytes, b),
        last_ws_before(bytes, b) < a ==> last_ws_before(bytes, a) == last_ws_before(bytes, b),
    decreases b - a,
{
    lemma_last_ws_before(bytes, a);
    lemma_last_ws_before(bytes, b);
    if a < b {
        lemma_last_ws_before_monotonic(bytes, a, b - 1);
    }
}

/// Whitespace boundaries lie within the bytes and grow with their targets.
pub proof fn lemma_whitespace_boundary_monotonic(bytes: Seq<u8>, a: int, b: int)
    requires
        0 <= a <= b,
    ensures
        0 <= whitespace_boundary(bytes, a) <= whitespace_boundary(bytes, b) <= bytes.len(),
{
    let n = bytes.len() as int;
    if a < n {
        lemma_last_ws_before(bytes, a);
        if b < n {
            lemma_last_ws_before(bytes, b);
            lemma_last_ws_before_monotonic(bytes, a, b);
        }
    }
}

/// A whitespace boundary inside the bytes comes just after a space or newline: chunks cut
/// there never split a word or a character.
pub proof fn lemma_whitespace_boundary_after_space(bytes: Seq<u8>, target: int)
    requires
        0 <= target,
        0 < whitespace_boundary(bytes, target) < bytes.len(),
    ensures
        is_ws_byte(bytes[whitespace_boundary(bytes, target) - 1]),
{
    lemma_last_ws_before(bytes, target);
}

/// Every chunk boundary strictly inside the bytes comes just after a space or newline.
pub proof fn lemma_chunk_boundaries_after_space(bytes: Seq<u8>, num_chunks: int, i: int)
    requires
        num_chunks > 0,
        bytes.len() <= usize::MAX,
        0 <= i <= num_chunks,
        0 < chunk_boundaries_of(bytes, num_chunks)[i] < bytes.len(),
    ensures
        is_ws_byte(bytes[chunk_boundaries_of(bytes, num_chunks)[i] - 1]),
{
    let size = div_ceil(bytes.len() as int, num_chunks);
    assert(size >= 0) by (nonlinear_arith)
        requires num_chunks > 0, size == div_ceil(bytes.len() as int, num_chunks);
    assert(i * size >= 0) by (nonlinear_arith)
        requires i >= 0, size >= 0;
    if i > 0 {
        lemma_whitespace_boundary_monotonic(bytes, i * size, i * size);
        assert(chunk_boundaries_of(bytes, num_chunks)[i] == whitespace_boundary(bytes, i * size));
        lemma_whitespace_boundary_after_space(bytes, i * size);
    }
}

/// `memchr::memrchr2` for a space and a newline: the index of the last one in `haystack`.
#[verifier::external_body]
pub(crate) fn last_space_or_newline(haystack: &[u8]) -> (found: Option<usize>)
    ensures
        found == (if last_ws_before(haystack@, haystack@.len() as int) < 0 {
            None
        } else {
            Some(last_ws_before(haystack@, haystack@.len() as int) as usize)
        }),
{
    memchr::memrchr2(b' ', b'\n', haystack)
}

impl TallyMap {
    /// Find whitespace-aligned boundary at or before the target position.
    pub(crate) fn find_whitespace_boundary(content_bytes: &[u8], target_pos: usize) -> (boundary: usize)
        ensures
            boundary == whitespace_boundary(content_bytes@, target_pos as int),
    {
        if target_pos >= content_bytes.len() {
            return content_bytes.len();
        }
        let (search_region, _) = content_bytes.split_at(target_pos);
        proof {
            assert(search_region@ =~= content_bytes@.take(target_pos as int));
            lemma_last_ws_shorter(content_bytes@, target_pos as int);
            lemma_last_ws_before(content_bytes@, target_pos as int);
        }
        match last_space_or_newline(search_region) {
            Some(pos) => pos + 1,
            None => 0,
        }
    }

    /// Find chunk boundaries using efficient backwards search from target positions.
    fn chunk_boundaries(content: &[u8], num_chunks: usize) -> (boundaries: Vec<usize>)
        requires
            num_chunks > 0,
            content@.len() + num_chunks < usize::MAX,
        ensures
            boundaries@ == chunk_boundaries_of(content@, num_chunks as int),
    {
        let content_len = content.len();
        let target_chunk_size: usize = if content_len % num_chunks == 0 {
            content_len / num_chunks
        } else {
            content_len / num_chunks + 1
        };
        let ghost size = div_ceil(content_len as int, num_chunks as int);
        assert(target_chunk_size == size);
        assert(num_chunks * size < content_len + num_chunks) by (nonlinear_arith)
            requires
                num_chunks > 0,
                size == div_ceil(content_len as int, num_chunks as int),
        {
            assert(num_chunks * (content_len as int / num_chunks as int) + content_len as int
                % num_chunks as int == content_len);
        }
        let mut boundaries: Vec<usize> = Vec::with_capacity(num_chunks + 1);
        boundaries.push(0);
        let mut i: usize = 1;
        while i <= num_chunks
            invariant
                1 <= i <= num_chunks + 1,
                target_chunk_size == size,
                size == div_ceil(content@.len() as int, num_chunks as int),
                num_chunks * size < content_len + num_chunks,
                content_len == content@.len(),
                content@.len() + num_chunks < usize::MAX,
                boundaries@.len() == i,
                forall|k: int|
                    0 <= k < i ==> boundaries@[k] == #[trigger] chunk_boundaries_of(
                        content@,
                        num_chunks as int,
                    )[k],
            decreases num_chunks + 1 - i,
        {
            assert(i * size <= num_chunks * size) by (nonlinear_arith)
                requires
                    i <= num_chunks,
                    size >= 0,
            ;
            let target_pos = i * target_chunk_size;
            let boundary = Self::find_whitespace_boundary(content, target_pos);
            proof {
                lemma_whitespace_boundary_monotonic(content@, 0, target_pos as int);
            }
            boundaries.push(boundary);
            assert(boundaries@[i as int] == chunk_boundaries_of(content@, num_chunks as int)[i as int]);
            i = i + 1;
        }
        assert(boundaries@ =~= chunk_boundaries_of(content@, num_chunks as int));
        boundaries
    }
}

/// Searching up to `end` looks at the first `end` bytes only.
proof fn lemma_last_ws_shorter(bytes: Seq<u8>, end: int)
    requires
        0 <= end <= bytes.len(),
    ensures
        last_ws_before(bytes.take(end), end) == last_ws_before(bytes, end),
    decreases end,
{
    if end > 0 {
        assert(bytes.take(end)[end - 1] == bytes[end - 1]);
        lemma_last_ws_shorter(bytes, end - 1);
        assert(bytes.take(end).take(end - 1) =~= bytes.take(end - 1));
        lemma_last_ws_shorter(bytes.take(end), end - 1);
    }
}

/// The normalized words of the text between two byte offsets.
pub open spec fn piece_words(bytes: Seq<u8>, start: int, end: int, case: Case) -> Seq<Seq<char>> {
    normalized_unicode(unicode_words(decode_utf8(bytes.subrange(start, end))), case)
}

/// The normalized words of the chunks between consecutive boundaries, up to boundary `k`;
/// an empty chunk gives none.
pub open spec fn chunk_words(bytes: Seq<u8>, boundaries: Seq<usize>, k: int, case: Case) -> Seq<Seq<char>>
    decreases k,
{
    if k <= 0 {
        seq![]
    } else {
        chunk_words(bytes, boundaries, k - 1, case) + (if boundaries[k] > boundaries[k - 1] {
            piece_words(bytes, boundaries[k - 1] as int, boundaries[k] as int, case)
        } else {
            seq![]
        })
    }
}

/// The normalized words of all the chunks between consecutive boundaries.
pub open spec fn chunks_words(bytes: Seq<u8>, boundaries: Seq<usize>, case: Case) -> Seq<Seq<char>> {
    chunk_words(bytes, boundaries, boundaries.len() - 1, case)
}

/// Boundaries that can split a text: in order, within it, and on character boundaries.
pub open spec fn splits_text(bytes: Seq<u8>, boundaries: Seq<usize>) -> bool {
    &&& forall|i: int, j: int| 0 <= i <= j < boundaries.len() ==> #[trigger] boundaries[i] <= #[trigger] boundaries[j]
    &&& forall|i: int| 0 <= i < boundaries.len() ==> #[trigger] boundaries[i] <= bytes.len()
    &&& forall|i: int| 0 <= i < boundaries.len() ==> is_char_boundary(bytes, #[trigger] boundaries[i] as int)
}

/// A byte range of a text that falls on character boundaries.
pub open spec fn is_text_range(bytes: Seq<u8>, range: (usize, usize)) -> bool {
    &&& range.0 <= range.1 <= bytes.len()
    &&& is_char_boundary(bytes, range.0 as int)
    &&& is_char_boundary(bytes, range.1 as int)
    &&& range.1 - range.0 < usize::MAX
}

/// The tally of one chunk, with its words in first-seen order: each count at most one more
/// than the chunk's length in bytes.
pub open spec fn tallies_range(tally: TallyMap, bytes: Seq<u8>, range: (usize, usize), case: Case) -> bool {
    &&& tally.wf()
    &&& tally@ == add_all(Counts::empty(), piece_words(bytes, range.0 as int, range.1 as int, case))
    &&& tally.spec_order() == first_seen(piece_words(bytes, range.0 as int, range.1 as int, case))
    &&& forall|w: Seq<char>| #[trigger] count_in(tally@, w) <= range.1 - range.0 + 1
}

/// `rayon`'s `par_iter().map(..).collect()`: tallies each range of `content` on the thread
/// pool, keeping the order of the ranges.
#[verifier::external_body]
fn par_range_tallies(content: &str, ranges: &[(usize, usize)], case: Case) -> (tallies: Vec<TallyMap>)
    requires
        forall|i: int| 0 <= i < ranges@.len() ==> #[trigger] is_text_range(content.spec_bytes(), ranges@[i]),
    ensures
        tallies@.len() == ranges@.len(),
        forall|i: int|
            0 <= i < ranges@.len() ==> #[trigger] tallies_range(
                tallies@[i],
                content.spec_bytes(),
                ranges@[i],
                case,
            ),
{
    ranges.par_iter().map(|&(start, end)| TallyMap::range_tally(content, start, end, case)).collect()
}

impl TallyMap {
    /// Tallies the words of the text between two byte offsets.
    fn range_tally(content: &str, start: usize, end: usize, case: Case) -> (tally: Self)
        requires
            is_text_range(content.spec_bytes(), (start, end)),
        ensures
            tallies_range(tally, content.spec_bytes(), (start, end), case),
    {
        let piece = str_slice(content, start, end);
        let mut tally = TallyMap::new();
        tally.add_words(piece, case);
        tally
    }

    /// Process content in parallel using provided chunk boundaries: each chunk between
    /// consecutive boundaries is tallied, and the tallies are merged.
    pub(crate) fn process_chunks(content: &str, boundaries: &[usize], case: Case) -> (tally: Self)
        requires
            splits_text(content.spec_bytes(), boundaries@),
            boundaries@.len() > 0 ==> boundaries@[boundaries@.len() - 1] + boundaries@.len() < usize::MAX,
        ensures
            tally.wf(),
            tally@ == add_all(Counts::empty(), chunks_words(content.spec_bytes(), boundaries@, case)),
            tally.spec_order() == first_seen(chunks_words(content.spec_bytes(), boundaries@, case)),
    {
        let ghost bytes = content.spec_bytes();
        let mut ranges: Vec<(usize, usize)> = Vec::new();
        let mut k: usize = 1;
        while k < boundaries.len()
            invariant
                bytes == content.spec_bytes(),
                splits_text(bytes, boundaries@),
                1 <= k,
                boundaries@.len() > 0 ==> k <= boundaries@.len(),
                boundaries@.len() == 0 ==> k == 1,
                boundaries@.len() > 0 ==> boundaries@[boundaries@.len() - 1] + boundaries@.len() < usize::MAX,
                forall|i: int| 0 <= i < ranges@.len() ==> #[trigger] is_text_range(bytes, ranges@[i]),
                forall|i: int| 0 <= i < ranges@.len() ==> (#[trigger] ranges@[i]).0 < ranges@[i].1,
                ranges_words(bytes, ranges@, case) == chunk_words(bytes, boundaries@, k - 1, case),
                ranges@.len() <= k - 1,
                boundaries@.len() > 0 ==> ranges_size(ranges@) <= boundaries@[k - 1] + ranges@.len(),
            decreases boundaries.len() - k,
        {
            let start = boundaries[k - 1];
            let end = boundaries[k];
            let ghost before = ranges@;
            if end > start {
                ranges.push((start, end));
                proof {
                    assert(ranges@.drop_last() =~= before);
                }
            }
            k = k + 1;
        }
        assert(ranges_size(ranges@) < usize::MAX);
        let tallies = par_range_tallies(content, ranges.as_slice(), case);
        let ghost all = tallies@;
        let mut tally = TallyMap::new();
        for next in it: tallies
            invariant
                bytes == content.spec_bytes(),
                all.len() == ranges@.len(),
                it.seq() == all,
                forall|j: int| 0 <= j < all.len() ==> #[trigger] tallies_range(all[j], bytes, ranges@[j], case),
                forall|j: int| 0 <= j < ranges@.len() ==> (#[trigger] ranges@[j]).0 < ranges@[j].1,
                tally.wf(),
                tally@ == add_all(Counts::empty(), ranges_words(bytes, ranges@.take(it.index() as int), case)),
                tally.spec_order() == first_seen(ranges_words(bytes, ranges@.take(it.index() as int), case)),
                ranges_size(ranges@) < usize::MAX,
                forall|w: Seq<char>| #[trigger] count_in(tally@, w) <= ranges_size(ranges@.take(it.index() as int)),
        {
            let ghost i = it.index();
            proof {
                assert(next == all[i]);
                assert(tallies_range(next, bytes, ranges@[i], case));
                let prefix = ranges@.take(i + 1);
                assert(prefix.drop_last() =~= ranges@.take(i));
                assert(prefix.last() == ranges@[i]);
                lemma_ranges_size_prefix(ranges@, i + 1);
                assert forall|w: Seq<char>| #[trigger] count_in(merged(tally@, next@), w) <= ranges_size(prefix) by {
                    assert(count_in(tally@, w) <= ranges_size(ranges@.take(i)));
                    assert(count_in(next@, w) <= ranges@[i].1 - ranges@[i].0 + 1);
                }
                super::lemma_merge_of_tallies(
                    ranges_words(bytes, ranges@.take(i), case),
                    piece_words(bytes, ranges@[i].0 as int, ranges@[i].1 as int, case),
                );
                super::lemma_first_seen_concat(
                    ranges_words(bytes, ranges@.take(i), case),
                    piece_words(bytes, ranges@[i].0 as int, ranges@[i].1 as int, case),
                );
            }
            tally = tally.merge(next);
        }
        proof {
            assert(ranges@.take(ranges@.len() as int) =~= ranges@);
        }
        tally
    }
}

/// The lengths of the ranges, each plus one: a bound on how often a word can occur in them.
pub open spec fn ranges_size(ranges: Seq<(usize, usize)>) -> int
    decreases ranges.len(),
{
    if ranges.len() == 0 {
        0
    } else {
        ranges_size(ranges.drop_last()) + ranges.last().1 - ranges.last().0 + 1
    }
}

/// The ranges of a prefix are no larger in total than all of them.
proof fn lemma_ranges_size_prefix(ranges: Seq<(usize, usize)>, i: int)
    requires
        0 <= i <= ranges.len(),
        forall|j: int| 0 <= j < ranges.len() ==> (#[trigger] ranges[j]).0 <= ranges[j].1,
    ensures
        ranges_size(ranges.take(i)) <= ranges_size(ranges),
    decreases ranges.len() - i,
{
    if i < ranges.len() {
        lemma_ranges_size_prefix(ranges, i + 1);
        assert(ranges.take(i + 1).drop_last() =~= ranges.take(i));
    } else {
        assert(ranges.take(i) =~= ranges);
    }
}

/// The normalized words of each range, one range after another.
pub open spec fn ranges_words(bytes: Seq<u8>, ranges: Seq<(usize, usize)>, case: Case) -> Seq<Seq<char>>
    decreases ranges.len(),
{
    if ranges.len() == 0 {
        seq![]
    } else {
        ranges_words(bytes, ranges.drop_last(), case) + piece_words(
            bytes,
            ranges.last().0 as int,
            ranges.last().1 as int,
            case,
        )
    }
}

/// The chunk boundaries of a text are in order and within it, and the last is its end.
proof fn lemma_chunk_boundaries_ordered(bytes: Seq<u8>, num_chunks: int)
    requires
        num_chunks > 0,
        bytes.len() <= usize::MAX,
    ensures
        forall|i: int, j: int|
            0 <= i <= j <= num_chunks ==> #[trigger] chunk_boundaries_of(bytes, num_chunks)[i]
                <= #[trigger] chunk_boundaries_of(bytes, num_chunks)[j],
        forall|i: int| 0 <= i <= num_chunks ==> #[trigger] chunk_boundaries_of(bytes, num_chunks)[i] <= bytes.len(),
        chunk_boundaries_of(bytes, num_chunks)[num_chunks] == bytes.len(),
{
    let b = chunk_boundaries_of(bytes, num_chunks);
    let len = bytes.len() as int;
    let size = div_ceil(len, num_chunks);
    assert(size >= 0) by (nonlinear_arith)
        requires
            num_chunks > 0,
            len >= 0,
            size == div_ceil(len, num_chunks),
    ;
    assert(num_chunks * size >= len) by (nonlinear_arith)
        requires
            num_chunks > 0,
            len >= 0,
            size == div_ceil(len, num_chunks),
    {
        assert(num_chunks * (len / num_chunks) + len % num_chunks == len);
    }
    assert(whitespace_boundary(bytes, num_chunks * size) == len);
    assert forall|i: int| 0 <= i <= num_chunks implies 0 <= #[trigger] b[i] <= bytes.len() by {
        if i > 0 {
            assert(i * size >= 0) by (nonlinear_arith)
                requires
                    i > 0,
                    size >= 0,
            ;
            lemma_whitespace_boundary_monotonic(bytes, i * size, i * size);
        }
    }
    assert forall|i: int, j: int| 0 <= i <= j <= num_chunks implies #[trigger] b[i] <= #[trigger] b[j] by {
        if i > 0 {
            assert(i * size <= j * size && 0 <= i * size) by (nonlinear_arith)
                requires
                    0 < i <= j,
                    size >= 0,
            ;
            lemma_whitespace_boundary_monotonic(bytes, i * size, j * size);
        }
    }
}

/// What tallying `bytes` in memory needs to run: a positive chunk size, some content and room
/// in a `usize` for the offsets.
pub open spec fn can_count_in_memory(bytes: Seq<u8>, perf: Performance) -> bool {
    let num_chunks = div_ceil(bytes.len() as int, perf.chunk_size as int);
    &&& perf.chunk_size > 0
    &&& bytes.len() > 0
    &&& bytes.len() + num_chunks + 1 < usize::MAX
}

/// In UTF-8 text every chunk boundary falls on a character boundary: each is the start, the
/// end, or just after a space or newline.
pub proof fn lemma_chunk_boundaries_on_characters(bytes: Seq<u8>, num_chunks: int)
    requires
        num_chunks > 0,
        bytes.len() <= usize::MAX,
        valid_utf8(bytes),
    ensures
        forall|i: int|
            0 <= i <= num_chunks ==> is_char_boundary(bytes, #[trigger] chunk_boundaries_of(bytes, num_chunks)[i] as int),
{
    lemma_chunk_boundaries_ordered(bytes, num_chunks);
    is_char_boundary_start_end_of_seq(bytes);
    assert forall|i: int| 0 <= i <= num_chunks implies is_char_boundary(
        bytes,
        #[trigger] chunk_boundaries_of(bytes, num_chunks)[i] as int,
    ) by {
        let b = chunk_boundaries_of(bytes, num_chunks)[i] as int;
        if 0 < b < bytes.len() {
            lemma_chunk_boundaries_after_space(bytes, num_chunks, i);
            lemma_boundary_after_ascii(bytes, b - 1);
        }
    }
}

/// Counting in memory covers every byte exactly once and cuts no word: its chunk boundaries
/// run from the start to the end without going back, and each one strictly inside the bytes
/// comes just after a space or newline, on a character boundary of UTF-8 text.
pub proof fn lemma_in_memory_chunks_cover_input(bytes: Seq<u8>, perf: Performance)
    requires
        can_count_in_memory(bytes, perf),
    ensures
        ({
            let n = div_ceil(bytes.len() as int, perf.chunk_size as int);
            let b = chunk_boundaries_of(bytes, n);
            &&& b.len() == n + 1
            &&& b[0] == 0
            &&& b[n] == bytes.len()
            &&& forall|i: int, j: int| 0 <= i <= j <= n ==> #[trigger] b[i] <= #[trigger] b[j]
            &&& forall|i: int| 0 <= i <= n && 0 < #[trigger] b[i] < bytes.len() ==> is_ws_byte(bytes[b[i] - 1])
            &&& valid_utf8(bytes) ==> forall|i: int| 0 <= i <= n ==> is_char_boundary(bytes, #[trigger] b[i] as int)
        }),
{
    let n = div_ceil(bytes.len() as int, perf.chunk_size as int);
    assert(n >= 1) by (nonlinear_arith)
        requires
            perf.chunk_size > 0,
            bytes.len() > 0,
            n == div_ceil(bytes.len() as int, perf.chunk_size as int),
    ;
    lemma_chunk_boundaries_ordered(bytes, n);
    assert forall|i: int| 0 <= i <= n && 0 < #[trigger] chunk_boundaries_of(bytes, n)[i] < bytes.len() implies is_ws_byte(
        bytes[chunk_boundaries_of(bytes, n)[i] - 1],
    ) by {
        lemma_chunk_boundaries_after_space(bytes, n, i);
    }
    if valid_utf8(bytes) {
        lemma_chunk_boundaries_on_characters(bytes, n);
    }
}

/// The words of `bytes` as counted in memory: the words of each whitespace-aligned chunk, one
/// chunk after another.
pub open spec fn in_memory_words(bytes: Seq<u8>, perf: Performance, case: Case) -> Seq<Seq<char>> {
    let num_chunks = div_ceil(bytes.len() as int, perf.chunk_size as int);
    chunks_words(bytes, chunk_boundaries_of(bytes, num_chunks), case)
}

/// The error for bytes that are not valid UTF-8.
pub open spec fn is_utf8_error(error: WordTallyError) -> bool {
    error matches WordTallyError::Utf8 { byte, message } && byte == 0 && message@ == "invalid UTF-8 sequence"@
}

/// The error for a streaming I/O mode given a memory view.
pub open spec fn is_stream_mode_error(error: WordTallyError) -> bool {
    error matches WordTallyError::Config(message) && message@ == "stream mode requires a Buffered, not a Mapped"@
}

/// `result` is a well-formed tally of `words`: each counted, in the order first seen.
pub open spec fn is_tally_of(result: Result<TallyMap, WordTallyError>, words: Seq<Seq<char>>) -> bool {
    result matches Ok(tally) && tally.wf() && tally@ == add_all(Counts::empty(), words) && tally.spec_order()
        == first_seen(words)
}

/// `simdutf8::basic::from_utf8`: the text that `bytes` encode, when they are valid UTF-8.
#[verifier::external_body]
pub(crate) fn utf8_text(bytes: &[u8]) -> (text: Option<&str>)
    ensures
        text is Some <==> valid_utf8(bytes@),
        text matches Some(t) ==> t.spec_bytes() == bytes@,
{
    simdutf8::basic::from_utf8(bytes).ok()
}

impl TallyMap {
    /// Parse a UTF-8 slice with fast validation.
    pub(crate) fn parse_utf8_slice(buffer: &[u8]) -> (result: Result<&str, WordTallyError>)
        ensures
            valid_utf8(buffer@) ==> (result matches Ok(text) && text.spec_bytes() == buffer@),
            !valid_utf8(buffer@) ==> (result matches Err(e) && is_utf8_error(e)),
    {
        match utf8_text(buffer) {
            Some(text) => Ok(text),
            None => Err(WordTallyError::Utf8 { byte: 0, message: "invalid UTF-8 sequence".to_owned() }),
        }
    }

    /// Parallel in-memory word tallying: validates UTF-8 once, splits the text into
    /// whitespace-aligned chunks and tallies the chunks in parallel.
    fn par_memory_count(bytes: &[u8], options: &Options) -> (result: Result<Self, WordTallyError>)
        requires
            can_count_in_memory(bytes@, options.spec_performance()),
        ensures
            valid_utf8(bytes@) ==> is_tally_of(
                result,
                in_memory_words(bytes@, options.spec_performance(), options.spec_case()),
            ),
            !valid_utf8(bytes@) ==> (result matches Err(e) && is_utf8_error(e)),
    {
        let perf = options.performance();
        let content = Self::parse_utf8_slice(bytes)?;
        Self::process_content_parallel(content, perf, options.case())
    }

    /// Splits `content` into the chunks that the performance settings ask for and tallies
    /// them in parallel.
    fn process_content_parallel(content: &str, perf: &Performance, case: Case) -> (result: Result<
        Self,
        WordTallyError,
    >)
        requires
            can_count_in_memory(content.spec_bytes(), *perf),
        ensures
            is_tally_of(result, in_memory_words(content.spec_bytes(), *perf, case)),
    {
        let ghost bytes = content.spec_bytes();
        let content_bytes = content.as_bytes();
        let total_chunks = perf.total_chunks(content_bytes.len() as u64);
        let ghost n = div_ceil(bytes.len() as int, perf.chunk_size as int);
        assert(n <= bytes.len()) by (nonlinear_arith)
            requires
                perf.chunk_size > 0,
                bytes.len() > 0,
                n == div_ceil(bytes.len() as int, perf.chunk_size as int),
        ;
        assert(n >= 1) by (nonlinear_arith)
            requires
                perf.chunk_size > 0,
                bytes.len() > 0,
                n == div_ceil(bytes.len() as int, perf.chunk_size as int),
        ;
        if total_chunks as u128 > usize::MAX as u128 {
            return Err(WordTallyError::ChunkCountExceeded { chunks: total_chunks });
        }
        let num_chunks = total_chunks as usize;
        let boundaries = Self::chunk_boundaries(content_bytes, num_chunks);
        proof {
            lemma_chunk_boundaries_ordered(bytes, n);
            encode_utf8_valid_utf8(content@);
            lemma_chunk_boundaries_on_characters(bytes, n);
        }
        let tally = Self::process_chunks(content, boundaries.as_slice(), case);
        Ok(tally)
    }

    /// Whether `bytes` can be tallied in memory with these performance settings: a positive
    /// chunk size, some content and offsets that fit in a `usize`. Tallying in memory needs all
    /// of them.
    pub fn can_count_in_memory(bytes: &[u8], perf: &Performance) -> (ok: bool)
        ensures
            ok == can_count_in_memory(bytes@, *perf),
    {
        if perf.chunk_size == 0 || bytes.len() == 0 {
            return false;
        }
        let total_chunks = perf.total_chunks(bytes.len() as u64);
        let ghost n = div_ceil(bytes@.len() as int, perf.chunk_size as int);
        assert(n <= bytes@.len()) by (nonlinear_arith)
            requires
                perf.chunk_size > 0,
                bytes@.len() > 0,
                n == div_ceil(bytes@.len() as int, perf.chunk_size as int),
        ;
        assert(n >= 1) by (nonlinear_arith)
            requires
                perf.chunk_size > 0,
                bytes@.len() > 0,
                n == div_ceil(bytes@.len() as int, perf.chunk_size as int),
        ;
        let num_chunks = total_chunks as usize;
        let room = usize::MAX - bytes.len();
        if room <= num_chunks || room - num_chunks <= 1 {
            return false;
        }
        true
    }

    /// Creates a `TallyMap` from the bytes of a memory view and `Options`.
    ///
    /// The streaming I/O modes read through a buffered reader, not a memory view, and are
    /// refused with a configuration error.
    pub fn from_mapped(view: &[u8], options: &Options) -> (result: Result<Self, WordTallyError>)
        requires
            !(options.spec_io() is Stream || options.spec_io() is ParallelStream) ==> can_count_in_memory(
                view@,
                options.spec_performance(),
            ),
        ensures
            (options.spec_io() is Stream || options.spec_io() is ParallelStream) ==> (result matches Err(e)
                && is_stream_mode_error(e)),
            !(options.spec_io() is Stream || options.spec_io() is ParallelStream) && valid_utf8(view@)
                ==> is_tally_of(
                result,
                in_memory_words(view@, options.spec_performance(), options.spec_case()),
            ),
            !(options.spec_io() is Stream || options.spec_io() is ParallelStream) && !valid_utf8(view@)
                ==> (result matches Err(e) && is_utf8_error(e)),
    {
        match options.io() {
            Io::Stream | Io::ParallelStream => Err(
                WordTallyError::Config("stream mode requires a Buffered, not a Mapped".to_owned()),
            ),
            Io::ParallelInMemory | Io::ParallelBytes | Io::ParallelMmap => Self::par_memory_count(view, options),
        }
    }

    /// Creates a `TallyMap` from bytes and `Options`.
    pub fn from_bytes(bytes: Vec<u8>, options: &Options) -> (result: Result<Self, WordTallyError>)
        requires
            !(options.spec_io() is Stream || options.spec_io() is ParallelStream) ==> can_count_in_memory(
                bytes@,
                options.spec_performance(),
            ),
        ensures
            (options.spec_io() is Stream || options.spec_io() is ParallelStream) ==> (result matches Err(e)
                && is_stream_mode_error(e)),
            !(options.spec_io() is Stream || options.spec_io() is ParallelStream) && valid_utf8(bytes@)
                ==> is_tally_of(
                result,
                in_memory_words(bytes@, options.spec_performance(), options.spec_case()),
            ),
            !(options.spec_io() is Stream || options.spec_io() is ParallelStream) && !valid_utf8(bytes@)
                ==> (result matches Err(e) && is_utf8_error(e)),
    {
        Self::from_mapped(bytes.as_slice(), options)
    }
}

} // verus!
