//! Word encoding strategies for text processing and validation.
use vstd::prelude::*;
use vstd::string::{StrSliceExecFns, StringSliceAdditionalSpecFns};
use vstd::utf8::*;

use crate::error::WordTallyError;
use crate::options::case::{normalize_ascii_spec, normalize_unicode_spec, Case};

verus! {

broadcast use vstd::utf8::group_utf8_lib;

// ---------------------------------------------------------------------------
// Unicode word boundaries, from the `icu_segmenter` crate.
// ---------------------------------------------------------------------------

/// The word breakpoints that ICU4X's dictionary word segmenter finds in a text: the byte
/// offset of each boundary, with whether the segment that ends there is word-like.
pub uninterp spec fn icu_word_breaks(text: Seq<char>) -> Seq<(usize, bool)>;

/// Runs `icu_segmenter::WordSegmenter::new_dictionary(..).segment_str(content)` and lists each
/// boundary with `WordType::is_word_like` of the segment before it.
///
/// Besides naming the result, the contract states what the segmenter documents of its
/// boundaries: they are byte offsets into `content`, in increasing order, each at a character
/// boundary.
#[verifier::external_body]
fn word_breaks(content: &str) -> (breaks: Vec<(usize, bool)>)
    ensures
        breaks@ == icu_word_breaks(content@),
        forall|i: int|
            0 <= i < breaks@.len() ==> #[trigger] breaks@[i].0 <= content.spec_bytes().len()
                && is_char_boundary(content.spec_bytes(), breaks@[i].0 as int),
        forall|i: int, j: int|
            0 <= i < j < breaks@.len() ==> #[trigger] breaks@[i].0 < #[trigger] breaks@[j].0,
{
    let segmenter = icu_segmenter::WordSegmenter::new_dictionary(
        icu_segmenter::options::WordBreakInvariantOptions::default(),
    );
    segmenter.segment_str(content).iter_with_word_type().map(
        |(boundary, word_type)| (boundary, word_type.is_word_like()),
    ).collect()
}

/// The start of the segment that ends at breakpoint `i`: the previous breakpoint, or 0.
pub open spec fn segment_start(breaks: Seq<(usize, bool)>, i: int) -> int {
    if i == 0 {
        0
    } else {
        breaks[i - 1].0 as int
    }
}

/// The word-like segments of `bytes` between consecutive breakpoints, decoded.
pub open spec fn break_words(bytes: Seq<u8>, breaks: Seq<(usize, bool)>) -> Seq<Seq<char>>
    decreases breaks.len(),
{
    if breaks.len() == 0 {
        seq![]
    } else {
        let i = breaks.len() - 1;
        let rest = break_words(bytes, breaks.drop_last());
        if breaks[i].1 {
            rest.push(decode_utf8(bytes.subrange(segment_start(breaks, i), breaks[i].0 as int)))
        } else {
            rest
        }
    }
}

/// The words of a text, as the Unicode word segmenter finds them.
pub open spec fn unicode_words(text: Seq<char>) -> Seq<Seq<char>> {
    break_words(encode_utf8(text), icu_word_breaks(text))
}

/// Each word normalized with `Case::normalize_unicode`.
pub open spec fn normalized_unicode(words: Seq<Seq<char>>, case: Case) -> Seq<Seq<char>> {
    words.map_values(|w: Seq<char>| normalize_unicode_spec(case, w))
}

/// Each word normalized with `Case::normalize_ascii`.
pub open spec fn normalized_ascii(words: Seq<Seq<char>>, case: Case) -> Seq<Seq<char>> {
    words.map_values(|w: Seq<char>| normalize_ascii_spec(case, w))
}

/// The characters of each string.
pub open spec fn string_views(strings: Seq<String>) -> Seq<Seq<char>> {
    strings.map_values(|s: String| s@)
}

/// The substring of `s` between two byte offsets that fall on character boundaries.
pub fn str_slice(s: &str, start: usize, end: usize) -> (piece: &str)
    requires
        start <= end <= s.spec_bytes().len(),
        is_char_boundary(s.spec_bytes(), start as int),
        is_char_boundary(s.spec_bytes(), end as int),
    ensures
        piece.spec_bytes() == s.spec_bytes().subrange(start as int, end as int),
        piece@ == decode_utf8(s.spec_bytes().subrange(start as int, end as int)),
{
    let ghost bytes = s.spec_bytes();
    let (_, tail) = s.split_at(start);
    let ghost tail_bytes = tail.spec_bytes();
    proof {
        assert(valid_utf8(bytes));
        valid_utf8_split(bytes, start as int);
        assert(valid_utf8(tail_bytes));
        if end < bytes.len() {
            assert(tail_bytes[end - start] == bytes[end as int]);
            is_char_boundary_iff_is_leading_byte(bytes, end as int);
            is_char_boundary_iff_is_leading_byte(tail_bytes, end - start);
            assert(is_char_boundary(tail_bytes, end - start));
        } else {
            assert(tail_bytes.len() == end - start);
            is_char_boundary_start_end_of_seq(tail_bytes);
        }
    }
    let (piece, _) = tail.split_at(end - start);
    proof {
        assert(piece.spec_bytes() =~= bytes.subrange(start as int, end as int));
        assert(decode_utf8(encode_utf8(piece@)) == piece@);
    }
    piece
}

/// The normalized Unicode words of `content`, in order.
pub fn unicode_word_list(content: &str, case: Case) -> (words: Vec<String>)
    ensures
        string_views(words@) == normalized_unicode(unicode_words(content@), case),
        words@.len() <= content.spec_bytes().len() + 1,
{
    let breaks = word_breaks(content);
    let ghost bytes = content.spec_bytes();
    let mut words: Vec<String> = Vec::new();
    let mut last: usize = 0;
    let mut i: usize = 0;
    while i < breaks.len()
        invariant
            bytes == content.spec_bytes(),
            breaks@ == icu_word_breaks(content@),
            forall|k: int|
                0 <= k < breaks@.len() ==> #[trigger] breaks@[k].0 <= bytes.len()
                    && is_char_boundary(bytes, breaks@[k].0 as int),
            forall|k: int, j: int|
                0 <= k < j < breaks@.len() ==> #[trigger] breaks@[k].0 < #[trigger] breaks@[j].0,
            0 <= i <= breaks.len(),
            words@.len() <= i,
            i > 0 ==> breaks@[i - 1].0 >= i - 1,
            last == segment_start(breaks@, i as int),
            string_views(words@) == normalized_unicode(
                break_words(bytes, breaks@.take(i as int)),
                case,
            ),
        decreases breaks.len() - i,
    {
        let (boundary, word_like) = breaks[i];
        proof {
            lemma_break_words_step(bytes, breaks@, i as int);
            assert(valid_utf8(bytes));
            assert(is_char_boundary(bytes, 0));
        }
        if word_like {
            let piece = str_slice(content, last, boundary);
            let word = case.normalize_unicode(piece);
            let ghost before = words@;
            let ghost prior = break_words(bytes, breaks@.take(i as int));
            words.push(word);
            proof {
                assert(string_views(words@) =~= string_views(before).push(word@));
                assert(normalized_unicode(prior.push(piece@), case) =~= normalized_unicode(
                    prior,
                    case,
                ).push(normalize_unicode_spec(case, piece@)));
            }
        }
        last = boundary;
        i = i + 1;
    }
    proof {
        assert(breaks@.take(breaks@.len() as int) =~= breaks@);
    }
    words
}

/// Unfolds `break_words` by one breakpoint.
pub proof fn lemma_break_words_step(bytes: Seq<u8>, breaks: Seq<(usize, bool)>, i: int)
    requires
        0 <= i < breaks.len(),
    ensures
        break_words(bytes, breaks.take(i + 1)) == (if breaks[i].1 {
            break_words(bytes, breaks.take(i)).push(
                decode_utf8(bytes.subrange(segment_start(breaks, i), breaks[i].0 as int)),
            )
        } else {
            break_words(bytes, breaks.take(i))
        }),
{
    let t = breaks.take(i + 1);
    assert(t.drop_last() =~= breaks.take(i));
    assert(t[i] == breaks[i]);
    assert(segment_start(t, i) == segment_start(breaks, i));
}

// ---------------------------------------------------------------------------
// ASCII word boundaries.
// ---------------------------------------------------------------------------

/// An ASCII digit or letter.
pub open spec fn is_alnum(c: char) -> bool {
    ('0' <= c && c <= '9') || ('a' <= c && c <= 'z') || ('A' <= c && c <= 'Z')
}

/// A character that can continue an ASCII word: a digit, a letter or an apostrophe.
pub open spec fn is_word_char(c: char) -> bool {
    is_alnum(c) || c == '\''
}

/// The end of the word that starts at `i`: the first position from `i` on that holds no word
/// character.
pub open spec fn word_end(s: Seq<char>, i: int) -> int
    decreases s.len() - i,
{
    if i < 0 || i >= s.len() {
        s.len() as int
    } else if is_word_char(s[i]) {
        word_end(s, i + 1)
    } else {
        i
    }
}

/// The ASCII words of `s` from position `i` on: maximal runs that start with a digit or a
/// letter and go on with digits, letters and apostrophes.
pub open spec fn ascii_words_from(s: Seq<char>, i: int) -> Seq<Seq<char>>
    decreases s.len() - i,
{
    if i < 0 || i >= s.len() {
        seq![]
    } else if !is_alnum(s[i]) {
        ascii_words_from(s, i + 1)
    } else {
        let end = word_end(s, i);
        if i < end <= s.len() {
            seq![s.subrange(i, end)] + ascii_words_from(s, end)
        } else {
            seq![]
        }
    }
}

/// The ASCII words of a text.
pub open spec fn ascii_words(s: Seq<char>) -> Seq<Seq<char>> {
    ascii_words_from(s, 0)
}

/// The position of the first byte that is not ASCII, from `i` on, or the length if none is.
pub open spec fn first_non_ascii_from(bytes: Seq<u8>, i: int) -> int
    decreases bytes.len() - i,
{
    if i < 0 || i >= bytes.len() {
        bytes.len() as int
    } else if bytes[i] >= 128 {
        i
    } else {
        first_non_ascii_from(bytes, i + 1)
    }
}

/// The position of the first byte that is not ASCII, or the length if all are.
pub open spec fn first_non_ascii(bytes: Seq<u8>) -> int {
    first_non_ascii_from(bytes, 0)
}

/// A word starting with a letter or digit ends after it, and within the text.
proof fn lemma_word_end_bounds(s: Seq<char>, i: int)
    requires
        0 <= i <= s.len(),
    ensures
        i <= word_end(s, i) <= s.len(),
        forall|k: int| i <= k < word_end(s, i) ==> is_word_char(#[trigger] s[k]),
        word_end(s, i) < s.len() ==> !is_word_char(s[word_end(s, i)]),
    decreases s.len() - i,
{
    if i < s.len() && is_word_char(s[i]) {
        lemma_word_end_bounds(s, i + 1);
    }
}

/// `w` is a nonempty piece of `s` starting at `start`, beginning with a digit or letter, made
/// only of digits, letters and apostrophes, and followed by the end of the text or by a
/// character that is none of these.
pub open spec fn ascii_word_piece_at(s: Seq<char>, start: int, w: Seq<char>) -> bool {
    let end = start + w.len();
    &&& w.len() > 0
    &&& 0 <= start
    &&& end <= s.len()
    &&& s.subrange(start, end) == w
    &&& (('0' <= w[0] <= '9') || ('a' <= w[0] <= 'z') || ('A' <= w[0] <= 'Z'))
    &&& forall|j: int|
        0 <= j < w.len() ==> ('0' <= #[trigger] w[j] <= '9') || ('a' <= w[j] <= 'z') || ('A' <= w[j] <= 'Z')
            || w[j] == '\''
    &&& (end == s.len() || !(('0' <= s[end] <= '9') || ('a' <= s[end] <= 'z') || ('A' <= s[end] <= 'Z')
        || s[end] == '\''))
}

/// `w` is such a piece of `s` starting at or after `lo`.
pub open spec fn ascii_word_piece_from(s: Seq<char>, lo: int, w: Seq<char>) -> bool {
    exists|start: int| lo <= start && #[trigger] ascii_word_piece_at(s, start, w)
}

/// Each ASCII word found from position `i` on is a maximal run of the text, at or after `i`,
/// that starts with a digit or letter and holds only digits, letters and apostrophes.
pub proof fn lemma_ascii_words_from_shape(s: Seq<char>, i: int)
    ensures
        forall|k: int|
            0 <= k < ascii_words_from(s, i).len() ==> ascii_word_piece_from(s, i, #[trigger] ascii_words_from(s, i)[k]),
    decreases s.len() - i,
{
    if i < 0 || i >= s.len() {
        assert(ascii_words_from(s, i).len() == 0);
    } else if !is_alnum(s[i]) {
        lemma_ascii_words_from_shape(s, i + 1);
        assert(ascii_words_from(s, i) == ascii_words_from(s, i + 1));
        assert forall|k: int| 0 <= k < ascii_words_from(s, i).len() implies ascii_word_piece_from(
            s,
            i,
            #[trigger] ascii_words_from(s, i)[k],
        ) by {
            let w = ascii_words_from(s, i + 1)[k];
            assert(ascii_word_piece_from(s, i + 1, w));
            let start = choose|start: int| i + 1 <= start && #[trigger] ascii_word_piece_at(s, start, w);
            assert(ascii_word_piece_at(s, start, w));
        }
    } else {
        let end = word_end(s, i);
        lemma_word_end_bounds(s, i);
        if i < end <= s.len() {
            lemma_ascii_words_from_shape(s, end);
            let first = s.subrange(i, end);
            let rest = ascii_words_from(s, end);
            assert(ascii_words_from(s, i) == seq![first] + rest);
            assert forall|k: int| 0 <= k < ascii_words_from(s, i).len() implies ascii_word_piece_from(
                s,
                i,
                #[trigger] ascii_words_from(s, i)[k],
            ) by {
                let w = ascii_words_from(s, i)[k];
                if k == 0 {
                    assert(w == first);
                    assert forall|j: int| 0 <= j < w.len() implies ('0' <= #[trigger] w[j] <= '9') || ('a' <= w[j]
                        <= 'z') || ('A' <= w[j] <= 'Z') || w[j] == '\'' by {
                        assert(w[j] == s[i + j]);
                        assert(is_word_char(s[i + j]));
                    }
                    assert(ascii_word_piece_at(s, i, w));
                } else {
                    assert(w == rest[k - 1]);
                    assert(ascii_word_piece_from(s, end, rest[k - 1]));
                    let start = choose|start: int| end <= start && #[trigger] ascii_word_piece_at(s, start, w);
                    assert(ascii_word_piece_at(s, start, w));
                }
            }
        } else {
            assert(ascii_words_from(s, i).len() == 0);
        }
    }
}

/// The word at position `k` of the words found from `i` on covers position `p` of `s`.
pub open spec fn ascii_word_covers(s: Seq<char>, i: int, k: int, p: int) -> bool {
    0 <= k < ascii_words_from(s, i).len() && exists|start: int|
        i <= start <= p < start + ascii_words_from(s, i)[k].len() && #[trigger] ascii_word_piece_at(
            s,
            start,
            ascii_words_from(s, i)[k],
        )
}

/// A digit or letter at or after `i` lies in one of the words found from `i` on.
proof fn lemma_ascii_word_covering(s: Seq<char>, i: int, p: int)
    requires
        0 <= i <= p < s.len(),
        is_alnum(s[p]),
    ensures
        exists|k: int| #[trigger] ascii_word_covers(s, i, k, p),
    decreases s.len() - i,
{
    if !is_alnum(s[i]) {
        lemma_ascii_word_covering(s, i + 1, p);
        assert(ascii_words_from(s, i) == ascii_words_from(s, i + 1));
        let k = choose|k: int| #[trigger] ascii_word_covers(s, i + 1, k, p);
        let start = choose|start: int|
            i + 1 <= start <= p < start + ascii_words_from(s, i + 1)[k].len() && #[trigger] ascii_word_piece_at(
                s,
                start,
                ascii_words_from(s, i + 1)[k],
            );
        assert(ascii_word_piece_at(s, start, ascii_words_from(s, i)[k]));
        assert(ascii_word_covers(s, i, k, p));
    } else {
        let end = word_end(s, i);
        lemma_word_end_bounds(s, i);
        let first = s.subrange(i, end);
        let rest = ascii_words_from(s, end);
        assert(ascii_words_from(s, i) == seq![first] + rest);
        if p < end {
            assert forall|j: int| 0 <= j < first.len() implies ('0' <= #[trigger] first[j] <= '9') || ('a' <= first[j]
                <= 'z') || ('A' <= first[j] <= 'Z') || first[j] == '\'' by {
                assert(first[j] == s[i + j]);
                assert(is_word_char(s[i + j]));
            }
            assert(ascii_word_piece_at(s, i, ascii_words_from(s, i)[0]));
            assert(ascii_word_covers(s, i, 0, p));
        } else {
            lemma_ascii_word_covering(s, end, p);
            let k = choose|k: int| #[trigger] ascii_word_covers(s, end, k, p);
            let start = choose|start: int|
                end <= start <= p < start + ascii_words_from(s, end)[k].len() && #[trigger] ascii_word_piece_at(
                    s,
                    start,
                    ascii_words_from(s, end)[k],
                );
            assert(ascii_words_from(s, i)[k + 1] == ascii_words_from(s, end)[k]);
            assert(ascii_word_piece_at(s, start, ascii_words_from(s, i)[k + 1]));
            assert(ascii_word_covers(s, i, k + 1, p));
        }
    }
}

/// The ASCII words of a text: every word is a nonempty maximal run of the text that starts
/// with a digit or letter and holds only digits, letters and apostrophes, and every digit or
/// letter of the text lies in one of the words.
pub proof fn lemma_ascii_words_shape(s: Seq<char>)
    ensures
        forall|k: int|
            0 <= k < ascii_words(s).len() ==> ascii_word_piece_from(s, 0, #[trigger] ascii_words(s)[k]),
        forall|p: int|
            #![trigger s[p]]
            0 <= p < s.len() && (('0' <= s[p] <= '9') || ('a' <= s[p] <= 'z') || ('A' <= s[p] <= 'Z'))
                ==> exists|k: int| #[trigger] ascii_word_covers(s, 0, k, p),
{
    lemma_ascii_words_from_shape(s, 0);
    assert forall|p: int|
        #![trigger s[p]]
        0 <= p < s.len() && (('0' <= s[p] <= '9') || ('a' <= s[p] <= 'z') || ('A' <= s[p] <= 'Z'))
            implies exists|k: int| #[trigger] ascii_word_covers(s, 0, k, p) by {
        lemma_ascii_word_covering(s, 0, p);
    }
}

/// `first_non_ascii_from` finds the first non-ASCII byte.
proof fn lemma_first_non_ascii(bytes: Seq<u8>, i: int)
    requires
        0 <= i <= bytes.len(),
    ensures
        i <= first_non_ascii_from(bytes, i) <= bytes.len(),
        forall|k: int| i <= k < first_non_ascii_from(bytes, i) ==> #[trigger] bytes[k] < 128,
        first_non_ascii_from(bytes, i) < bytes.len() ==> bytes[first_non_ascii_from(bytes, i)]
            >= 128,
    decreases bytes.len() - i,
{
    if i < bytes.len() && bytes[i] < 128 {
        lemma_first_non_ascii(bytes, i + 1);
    }
}

/// A text whose UTF-8 bytes are all below 128 is made of ASCII characters.
proof fn lemma_ascii_bytes(chars: Seq<char>)
    requires
        forall|i: int| 0 <= i < encode_utf8(chars).len() ==> #[trigger] encode_utf8(chars)[i] < 128,
    ensures
        is_ascii_chars(chars),
    decreases chars.len(),
{
    if chars.len() > 0 {
        let c = chars[0] as u32;
        let head = encode_scalar(c);
        let rest = chars.drop_first();
        assert(encode_utf8(chars) == head + encode_utf8(rest));
        assert(head.len() >= 1);
        assert(encode_utf8(chars)[0] == head[0]);
        assert(encode_utf8(chars)[0] < 128);
        char_is_scalar(chars[0]);
        assert(is_scalar(c));
        if has_width_1_encoding(c) {
        } else if has_width_2_encoding(c) {
            assert(leading_byte_width_2(c) >= 128) by (bit_vector);
            assert(head[0] == leading_byte_width_2(c));
        } else if has_width_3_encoding(c) {
            assert(leading_byte_width_3(c) >= 128) by (bit_vector);
            assert(head[0] == leading_byte_width_3(c));
        } else {
            assert(leading_byte_width_4(c) >= 128) by (bit_vector);
            assert(head[0] == leading_byte_width_4(c));
        }
        assert(has_width_1_encoding(c));
        assert(chars[0] as u32 <= 0x7f);
        lemma_char_below_128(chars[0]);
        assert forall|i: int| 0 <= i < encode_utf8(rest).len() implies #[trigger] encode_utf8(
            rest,
        )[i] < 128 by {
            assert(encode_utf8(rest)[i] == encode_utf8(chars)[head.len() + i]);
        }
        lemma_ascii_bytes(rest);
        assert forall|i: int| 0 <= i < chars.len() implies '\0' <= #[trigger] chars[i] <= '\u{7f}' by {
            if i > 0 {
                assert(chars[i] == rest[i - 1]);
            }
        }
    }
}

/// A character whose code point is below 128 is ASCII.
proof fn lemma_char_below_128(c: char)
    requires
        (c as u32) <= 0x7f,
    ensures
        '\0' <= c <= '\u{7f}',
{
}

/// The words of an ASCII text, each normalized with `Case::normalize_ascii`.
fn ascii_word_list(content: &str, case: Case) -> (words: Vec<String>)
    requires
        is_ascii_chars(content@),
    ensures
        string_views(words@) == normalized_ascii(ascii_words(content@), case),
{
    let bytes = content.as_bytes();
    let ghost s = content@;
    proof {
        is_ascii_chars_encode_utf8(s);
    }
    let len = bytes.len();
    let mut words: Vec<String> = Vec::new();
    let mut pos: usize = 0;
    while pos < len
        invariant
            s == content@,
            is_ascii_chars(s),
            bytes@ == encode_utf8(s),
            len == bytes@.len(),
            len == s.len(),
            forall|k: int| 0 <= k < s.len() ==> s[k] as u8 == #[trigger] bytes@[k],
            0 <= pos <= len,
            normalized_ascii(ascii_words(s), case) == string_views(words@) + normalized_ascii(
                ascii_words_from(s, pos as int),
                case,
            ),
        decreases len - pos,
    {
        let ghost start_pos = pos;
        // Skip non-word characters.
        while pos < len && !is_alnum_byte(bytes[pos])
            invariant
                start_pos <= pos,
                s == content@,
                is_ascii_chars(s),
                len == bytes@.len(),
                len == s.len(),
                forall|k: int| 0 <= k < s.len() ==> s[k] as u8 == #[trigger] bytes@[k],
                0 <= pos <= len,
                normalized_ascii(ascii_words(s), case) == string_views(words@) + normalized_ascii(
                    ascii_words_from(s, pos as int),
                    case,
                ),
            decreases len - pos,
        {
            proof {
                lemma_byte_class(s[pos as int], bytes@[pos as int]);
            }
            pos = pos + 1;
        }
        if pos < len {
        proof {
            lemma_byte_class(s[pos as int], bytes@[pos as int]);
        }
        let word_start = pos;
        // Find the end of the word (alphanumeric or apostrophe).
        while pos < len && (is_alnum_byte(bytes[pos]) || bytes[pos] == 39u8)
            invariant
                s == content@,
                is_ascii_chars(s),
                len == bytes@.len(),
                len == s.len(),
                forall|k: int| 0 <= k < s.len() ==> s[k] as u8 == #[trigger] bytes@[k],
                word_start <= pos <= len,
                word_start < len,
                is_alnum(s[word_start as int]),
                word_end(s, word_start as int) == word_end(s, pos as int),
            decreases len - pos,
        {
            proof {
                lemma_byte_class(s[pos as int], bytes@[pos as int]);
            }
            pos = pos + 1;
        }
        proof {
            if pos < len {
                lemma_byte_class(s[pos as int], bytes@[pos as int]);
            }
            lemma_word_end_bounds(s, word_start as int);
            assert(word_end(s, pos as int) == pos);
            assert(pos > word_start);
        }
        let piece = content.substring_ascii(word_start, pos);
        let word = case.normalize_ascii(piece);
        words.push(word);
        proof {
            assert(ascii_words_from(s, word_start as int) == seq![s.subrange(
                word_start as int,
                pos as int,
            )] + ascii_words_from(s, pos as int));
            assert(normalized_ascii(ascii_words(s), case) =~= string_views(words@)
                + normalized_ascii(ascii_words_from(s, pos as int), case));
        }
        }
    }
    proof {
        assert(ascii_words_from(s, pos as int) =~= Seq::<Seq<char>>::empty());
        assert(normalized_ascii(ascii_words(s), case) =~= string_views(words@));
    }
    words
}

/// An ASCII digit or letter, as a byte.
fn is_alnum_byte(b: u8) -> (alnum: bool)
    ensures
        alnum == ((48 <= b && b <= 57) || (97 <= b && b <= 122) || (65 <= b && b <= 90)),
{
    (48 <= b && b <= 57) || (97 <= b && b <= 122) || (65 <= b && b <= 90)
}

/// For an ASCII character and its byte, the character classes agree.
proof fn lemma_byte_class(c: char, b: u8)
    requires
        '\0' <= c <= '\u{7f}',
        c as u8 == b,
    ensures
        is_alnum(c) == ((48 <= b && b <= 57) || (97 <= b && b <= 122) || (65 <= b && b <= 90)),
        (c == '\'') == (b == 39),
{
}

/// Determines how word boundaries are detected.
#[derive(Clone, Copy, Debug, PartialEq, Eq, Hash)]
pub enum Encoding {
    /// Unicode text encoding - accepts any UTF-8 text (default).
    Unicode,
    /// ASCII-only encoding - validates and rejects non-ASCII bytes.
    Ascii,
}

impl Default for Encoding {
    fn default() -> (encoding: Self)
        ensures
            encoding == Encoding::Unicode,
    {
        Encoding::Unicode
    }
}

impl Encoding {
    /// The name of the encoding, as the command line spells it.
    pub fn to_string(&self) -> (name: String)
        ensures
            name@ == (match *self {
                Encoding::Unicode => "unicode"@,
                Encoding::Ascii => "ascii"@,
            }),
    {
        match self {
            Encoding::Unicode => "unicode".to_owned(),
            Encoding::Ascii => "ascii".to_owned(),
        }
    }

    /// Segments text into words based on this encoding, each word normalized with `case`.
    ///
    /// For `Ascii`, fails with `WordTallyError::NonAsciiInAsciiMode` at the first non-ASCII byte.
    pub fn segment_words(self, content: &str, case: Case) -> (result: Result<Vec<String>, WordTallyError>)
        ensures
            self == Encoding::Unicode ==> (result matches Ok(words) && string_views(words@)
                == normalized_unicode(unicode_words(content@), case)),
            self == Encoding::Ascii && first_non_ascii(content.spec_bytes())
                == content.spec_bytes().len() ==> (result matches Ok(words) && string_views(
                words@,
            ) == normalized_ascii(ascii_words(content@), case)),
            self == Encoding::Ascii && first_non_ascii(content.spec_bytes())
                < content.spec_bytes().len() ==> result == Err::<Vec<String>, WordTallyError>(
                WordTallyError::NonAsciiInAsciiMode {
                    byte: content.spec_bytes()[first_non_ascii(content.spec_bytes())],
                    position: first_non_ascii(content.spec_bytes()) as usize,
                },
            ),
    {
        match self {
            Encoding::Unicode => Ok(unicode_word_list(content, case)),
            Encoding::Ascii => {
                let bytes = content.as_bytes();
                let mut position: usize = 0;
                while position < bytes.len() && bytes[position] < 128
                    invariant
                        bytes@ == content.spec_bytes(),
                        0 <= position <= bytes@.len(),
                        first_non_ascii_from(bytes@, 0) == first_non_ascii_from(
                            bytes@,
                            position as int,
                        ),
                    decreases bytes.len() - position,
                {
                    position = position + 1;
                }
                proof {
                    lemma_first_non_ascii(bytes@, 0);
                }
                if position < bytes.len() {
                    return Err(WordTallyError::NonAsciiInAsciiMode { byte: bytes[position], position });
                }
                proof {
                    lemma_ascii_bytes(content@);
                }
                Ok(ascii_word_list(content, case))
            },
        }
    }
}

} // verus!
