use word_tally::options::encoding::Encoding;
use word_tally::tally_map::TallyMap;
use word_tally::{Case, Filters, Io, Options, Performance, Sort, WordTally, WordTallyError};

fn tally_of(text: &str, case: Case) -> TallyMap {
    let mut tally = TallyMap::new();
    tally.add_words(text, case);
    tally
}

fn sorted_entries(tally: TallyMap) -> Vec<(String, usize)> {
    let mut entries = tally.into_entries();
    entries.sort();
    entries
}

#[test]
fn add_words_counts_each_word() {
    let tally = tally_of("fe fi fi fo fo fo", Case::Original);
    assert_eq!(tally.len(), 3);
    assert_eq!(tally.get("fo"), Some(3));
    assert_eq!(tally.get("fi"), Some(2));
    assert_eq!(tally.get("fe"), Some(1));
    assert_eq!(tally.get("fum"), None);
}

#[test]
fn add_words_lowercases() {
    let tally = tally_of("Hello hello HELLO", Case::Lower);
    assert_eq!(tally.len(), 1);
    assert_eq!(tally.get("hello"), Some(3));
}

#[test]
fn add_words_uppercases() {
    let tally = tally_of("Hello hello", Case::Upper);
    assert_eq!(tally.get("HELLO"), Some(2));
}

#[test]
fn add_words_skips_punctuation_and_spaces() {
    let tally = tally_of("Hello, world! Hello.", Case::Original);
    assert_eq!(sorted_entries(tally), vec![("Hello".to_string(), 2), ("world".to_string(), 1)]);
}

#[test]
fn empty_tally_is_empty() {
    let tally = TallyMap::new();
    assert!(tally.is_empty());
    assert_eq!(tally.len(), 0);
}

#[test]
fn merge_adds_counts() {
    let merged = tally_of("a b", Case::Original).merge(tally_of("b c c", Case::Original));
    assert_eq!(
        sorted_entries(merged),
        vec![("a".to_string(), 1), ("b".to_string(), 2), ("c".to_string(), 2)]
    );
}

#[test]
fn merge_is_commutative() {
    let left = tally_of("one two two", Case::Original).merge(tally_of("two three", Case::Original));
    let right = tally_of("two three", Case::Original).merge(tally_of("one two two", Case::Original));
    assert_eq!(sorted_entries(left), sorted_entries(right));
}

#[test]
fn merge_with_empty_changes_nothing() {
    let merged = tally_of("x y y", Case::Original).merge(TallyMap::new());
    assert_eq!(sorted_entries(merged), sorted_entries(tally_of("x y y", Case::Original)));
}

#[test]
fn tallying_pieces_and_merging_tallies_the_whole() {
    let whole = tally_of("red green blue green", Case::Original);
    let pieces = tally_of("red green ", Case::Original).merge(tally_of("blue green", Case::Original));
    assert_eq!(sorted_entries(whole), sorted_entries(pieces));
}

#[test]
fn extend_adds_entries() {
    let mut tally = tally_of("a", Case::Original);
    tally.extend(&vec![("a".to_string(), 2), ("b".to_string(), 5)]);
    assert_eq!(sorted_entries(tally), vec![("a".to_string(), 3), ("b".to_string(), 5)]);
}

#[test]
fn word_tally_sorts_descending_by_default() {
    let options = Options::default();
    let word_tally = WordTally::from_tally_map(tally_of("fe fi fi fo fo fo", Case::Original), &options);
    assert_eq!(word_tally.count(), 6);
    assert_eq!(word_tally.uniq_count(), 3);
    assert_eq!(
        word_tally.tally(),
        &[("fo".to_string(), 3), ("fi".to_string(), 2), ("fe".to_string(), 1)][..]
    );
}

#[test]
fn word_tally_sorts_ascending() {
    let options = Options::default().with_sort(Sort::Asc).with_io(Io::Stream);
    let word_tally = WordTally::from_tally_map(tally_of("fe fi fi fo fo fo", Case::Original), &options);
    assert_eq!(
        word_tally.into_tally(),
        vec![("fe".to_string(), 1), ("fi".to_string(), 2), ("fo".to_string(), 3)]
    );
}

#[test]
fn word_tally_unsorted_keeps_all_words() {
    let options = Options::default().with_sort(Sort::Unsorted);
    let word_tally = WordTally::from_tally_map(tally_of("a b b", Case::Original), &options);
    let mut entries = word_tally.into_tally();
    entries.sort();
    assert_eq!(entries, vec![("a".to_string(), 1), ("b".to_string(), 2)]);
}

#[test]
fn word_tally_applies_min_count() {
    let options = Options::default().with_filters(Filters::default().with_min_count(2));
    let word_tally = WordTally::from_tally_map(tally_of("fe fi fi fo fo fo", Case::Original), &options);
    assert_eq!(word_tally.count(), 5);
    assert_eq!(word_tally.uniq_count(), 2);
    assert_eq!(
        word_tally.tally(),
        &[("fo".to_string(), 3), ("fi".to_string(), 2)][..]
    );
}

#[test]
fn word_tally_applies_exclude_words() {
    let options =
        Options::default().with_filters(Filters::default().with_exclude_words(vec!["fo".to_string()]));
    let word_tally = WordTally::from_tally_map(tally_of("fe fi fi fo fo fo", Case::Original), &options);
    assert_eq!(word_tally.count(), 3);
    assert_eq!(
        word_tally.tally(),
        &[("fi".to_string(), 2), ("fe".to_string(), 1)][..]
    );
}

#[test]
fn word_tally_applies_min_chars() {
    let options = Options::default().with_filters(Filters::default().with_min_chars(3));
    let word_tally = WordTally::from_tally_map(tally_of("a bb ccc dddd", Case::Original), &options);
    let mut entries = word_tally.into_tally();
    entries.sort();
    assert_eq!(entries, vec![("ccc".to_string(), 1), ("dddd".to_string(), 1)]);
}

#[test]
fn word_tally_applies_exclude_patterns() {
    let filters = Filters::default()
        .with_exclude_patterns(&vec!["^f".to_string()])
        .expect("pattern compiles");
    let options = Options::default().with_filters(filters);
    let word_tally = WordTally::from_tally_map(tally_of("fe fi go", Case::Original), &options);
    assert_eq!(word_tally.tally(), &[("go".to_string(), 1)][..]);
}

#[test]
fn word_tally_applies_include_patterns() {
    let filters = Filters::default()
        .with_include_patterns(&vec!["o$".to_string()])
        .expect("pattern compiles");
    let options = Options::default().with_filters(filters);
    let word_tally = WordTally::from_tally_map(tally_of("fe go no", Case::Original), &options);
    let mut entries = word_tally.into_tally();
    entries.sort();
    assert_eq!(entries, vec![("go".to_string(), 1), ("no".to_string(), 1)]);
}

#[test]
fn invalid_exclude_pattern_is_a_pattern_error() {
    let result = Filters::default().with_exclude_patterns(&vec!["(".to_string()]);
    assert!(matches!(
        result,
        Err(WordTallyError::Pattern { ref kind, .. }) if kind == "exclude"
    ));
}

#[test]
fn invalid_include_pattern_is_a_pattern_error() {
    let result = Filters::default().with_include_patterns(&vec!["[".to_string()]);
    assert!(matches!(
        result,
        Err(WordTallyError::Pattern { ref kind, .. }) if kind == "include"
    ));
}

#[test]
fn from_bytes_tallies_in_memory() {
    let options = Options::default().with_io(Io::ParallelInMemory);
    let tally = TallyMap::from_bytes(b"a b a".to_vec(), &options).expect("valid input");
    assert_eq!(sorted_entries(tally), vec![("a".to_string(), 2), ("b".to_string(), 1)]);
}

#[test]
fn from_bytes_in_small_chunks_tallies_every_word() {
    let performance = Performance::default().with_chunk_size(12);
    let options = Options::default()
        .with_io(Io::ParallelBytes)
        .with_performance(performance);
    let text = "alpha beta gamma delta alpha beta alpha";
    let tally = TallyMap::from_bytes(text.as_bytes().to_vec(), &options).expect("valid input");
    assert_eq!(sorted_entries(tally), sorted_entries(tally_of(text, Case::Original)));
}

#[test]
fn from_bytes_never_splits_a_word() {
    let performance = Performance::default().with_chunk_size(4);
    let options = Options::default()
        .with_io(Io::ParallelBytes)
        .with_performance(performance);
    let tally = TallyMap::from_bytes(b"alpha beta".to_vec(), &options).expect("valid input");
    assert_eq!(sorted_entries(tally), vec![("alpha".to_string(), 1), ("beta".to_string(), 1)]);
}

#[test]
fn from_bytes_refuses_invalid_utf8() {
    let options = Options::default().with_io(Io::ParallelMmap);
    let result = TallyMap::from_bytes(vec![b'a', 0xff, b'b'], &options);
    assert!(matches!(
        result,
        Err(WordTallyError::Utf8 { byte: 0, ref message }) if message == "invalid UTF-8 sequence"
    ));
}

#[test]
fn from_bytes_refuses_stream_modes() {
    for io in [Io::Stream, Io::ParallelStream] {
        let options = Options::default().with_io(io);
        let result = TallyMap::from_bytes(b"a".to_vec(), &options);
        assert!(matches!(
            result,
            Err(WordTallyError::Config(ref message))
                if message == "stream mode requires a Buffered, not a Mapped"
        ));
    }
}

#[test]
fn process_stream_buffer_waits_for_whitespace() {
    let performance = Performance::default();
    let result = TallyMap::process_stream_buffer(b"abc", 10, false, Case::Original, &performance);
    assert!(matches!(result, Ok(None)));
}

#[test]
fn process_stream_buffer_tallies_chunks() {
    let performance = Performance::default();
    let result = TallyMap::process_stream_buffer(b"one two three", 4, true, Case::Original, &performance);
    let (tally, processed) = result.expect("valid input").expect("a batch");
    assert_eq!(processed, 13);
    assert_eq!(
        sorted_entries(tally),
        vec![("one".to_string(), 1), ("three".to_string(), 1), ("two".to_string(), 1)]
    );
}

#[test]
fn process_stream_buffer_stops_at_last_boundary_before_eof() {
    let performance = Performance::default();
    let result = TallyMap::process_stream_buffer(b"one two thr", 4, false, Case::Original, &performance);
    let (tally, processed) = result.expect("valid input").expect("a batch");
    assert_eq!(processed, 8);
    assert_eq!(
        sorted_entries(tally),
        vec![("one".to_string(), 1), ("two".to_string(), 1)]
    );
}

#[test]
fn process_stream_buffer_final_chunk_without_whitespace() {
    let performance = Performance::default();
    let result = TallyMap::process_stream_buffer(b"last", 1000, true, Case::Lower, &performance);
    let (tally, processed) = result.expect("valid input").expect("a batch");
    assert_eq!(processed, 4);
    assert_eq!(tally.get("last"), Some(1));
}

#[test]
fn process_stream_buffer_refuses_invalid_utf8() {
    let performance = Performance::default();
    let result = TallyMap::process_stream_buffer(&[0xff, b' ', b'a'], 4, true, Case::Original, &performance);
    assert!(matches!(result, Err(WordTallyError::Utf8 { byte: 0, .. })));
}

#[test]
fn stream_step_tallies_up_to_last_whitespace() {
    let mut tally = TallyMap::new();
    let mut buffer = b"fe fi fi".to_vec();
    let mut remainder = Vec::new();
    tally
        .stream_count_step(&mut buffer, &mut remainder, false, Case::Original)
        .expect("valid input");
    assert_eq!(buffer, b"fi".to_vec());
    assert!(remainder.is_empty());
    assert_eq!(tally.get("fi"), Some(1));
    assert_eq!(tally.get("fe"), Some(1));
    tally
        .stream_count_step(&mut buffer, &mut remainder, true, Case::Original)
        .expect("valid input");
    assert!(buffer.is_empty());
    assert_eq!(tally.get("fi"), Some(2));
}

#[test]
fn stream_step_keeps_a_word_cut_by_a_read() {
    let mut tally = TallyMap::new();
    let mut remainder = Vec::new();
    let mut buffer = " ".repeat(65534).into_bytes();
    buffer.extend_from_slice(b"ab");
    tally
        .stream_count_step(&mut buffer, &mut remainder, false, Case::Original)
        .expect("valid input");
    assert_eq!(buffer, b"ab".to_vec());
    buffer.extend_from_slice(b"cd\n");
    tally
        .stream_count_step(&mut buffer, &mut remainder, true, Case::Original)
        .expect("valid input");
    assert!(buffer.is_empty());
    assert_eq!(sorted_entries(tally), vec![("abcd".to_string(), 1)]);
}

#[test]
fn stream_step_without_whitespace_waits() {
    let mut tally = TallyMap::new();
    let mut remainder = Vec::new();
    let mut buffer = b"caf\xc3".to_vec();
    assert_eq!(TallyMap::stream_process_until(&buffer, false), 0);
    tally
        .stream_count_step(&mut buffer, &mut remainder, false, Case::Original)
        .expect("nothing to check yet");
    assert_eq!(buffer, b"caf\xc3".to_vec());
    assert!(tally.is_empty());
    assert_eq!(TallyMap::next_batch_target(4, buffer.len(), false), Some(8));
    assert_eq!(TallyMap::next_batch_target(8, buffer.len(), false), Some(8));
    assert_eq!(TallyMap::next_batch_target(4, buffer.len(), true), Some(4));
}

#[test]
fn stream_step_keeps_invalid_bytes_for_next_read() {
    let mut tally = TallyMap::new();
    let mut remainder = Vec::new();
    let mut buffer = b"a\xff b".to_vec();
    tally
        .stream_count_step(&mut buffer, &mut remainder, false, Case::Original)
        .expect("valid prefix");
    assert_eq!(tally.get("a"), Some(1));
    assert_eq!(remainder, b"\xff ".to_vec());
    assert_eq!(buffer, b"b".to_vec());
}

#[test]
fn par_stream_buffer_waits_for_a_long_word() {
    let performance = Performance::default();
    let buffer = "x".repeat(70000).into_bytes();
    let waiting = TallyMap::process_stream_buffer(&buffer, 65536, false, Case::Original, &performance);
    assert!(matches!(waiting, Ok(None)));
    let (tally, processed) = TallyMap::process_stream_buffer(&buffer, 65536, true, Case::Original, &performance)
        .expect("valid input")
        .expect("a batch");
    assert_eq!(processed, 70000);
    assert_eq!(tally.get(&"x".repeat(70000)), Some(1));
}

#[test]
fn stream_finish_tallies_and_refuses() {
    let mut tally = TallyMap::new();
    assert_eq!(tally.stream_count_finish(b"end", Case::Original), Ok(()));
    assert_eq!(tally.get("end"), Some(1));
    assert_eq!(tally.stream_count_finish(&[0xc3], Case::Original), Err(()));
    assert_eq!(tally.stream_count_finish(&[], Case::Original), Ok(()));
}

#[test]
fn batch_sizes_are_at_least_one_chunk() {
    let performance = Performance::default();
    let (batch, target) =
        TallyMap::calculate_batch_sizes_from_size(Some(1_000_000), &performance).expect("fits");
    assert!(batch >= 4 * 65536);
    assert!(target >= 65536);
    let (_, unknown) = TallyMap::calculate_batch_sizes_from_size(None, &performance).expect("fits");
    assert_eq!(unknown, 65536);
}

#[test]
fn ascii_encoding_refuses_non_ascii() {
    let result = Encoding::Ascii.segment_words("café", Case::Original);
    assert!(matches!(
        result,
        Err(WordTallyError::NonAsciiInAsciiMode { byte: 0xc3, position: 3 })
    ));
}

#[test]
fn ascii_encoding_keeps_apostrophes() {
    let words = Encoding::Ascii
        .segment_words("It's a TEST, it's", Case::Lower)
        .expect("ascii input");
    assert_eq!(words, vec!["it's", "a", "test", "it's"]);
}

#[test]
fn unicode_encoding_segments_words() {
    let words = Encoding::Unicode
        .segment_words("café naïve", Case::Upper)
        .expect("unicode input");
    assert_eq!(words, vec!["CAFÉ", "NAÏVE"]);
}

#[test]
fn total_count_sums_every_count() {
    let tally = tally_of("fe fi fi fo fo fo", Case::Original);
    assert_eq!(tally.total_count(), Some(6));
    assert_eq!(TallyMap::new().total_count(), Some(0));
}

#[test]
fn total_count_reports_overflow() {
    let tally = TallyMap::from_entries(vec![("a".to_string(), usize::MAX), ("b".to_string(), 1)]);
    assert_eq!(tally.total_count(), None);
}

#[test]
fn entries_lists_each_word_once() {
    let tally = tally_of("b a b", Case::Original);
    let mut entries = tally.entries();
    entries.sort();
    assert_eq!(entries, vec![("a".to_string(), 1), ("b".to_string(), 2)]);
    assert_eq!(tally.len(), 2);
}

#[test]
fn unicode_case_maps_title_case_letters() {
    assert_eq!(Case::Lower.normalize_unicode("ǅ"), "ǆ");
    assert_eq!(Case::Upper.normalize_unicode("ǅ"), "Ǆ");
    assert_eq!(Case::Original.normalize_unicode("ǅ"), "ǅ");
}

#[test]
fn word_tally_unsorted_lists_words_in_first_seen_order() {
    let options = Options::default().with_sort(Sort::Unsorted);
    let word_tally = WordTally::from_tally_map(tally_of("pear apple pear fig apple kiwi", Case::Original), &options);
    assert_eq!(
        word_tally.into_tally(),
        vec![
            ("pear".to_string(), 2),
            ("apple".to_string(), 2),
            ("fig".to_string(), 1),
            ("kiwi".to_string(), 1)
        ]
    );
}

#[test]
fn unsorted_order_survives_filters_and_merges() {
    let merged = tally_of("c a", Case::Original).merge(tally_of("b a d", Case::Original));
    assert_eq!(
        merged.entries(),
        vec![
            ("c".to_string(), 1),
            ("a".to_string(), 2),
            ("b".to_string(), 1),
            ("d".to_string(), 1)
        ]
    );
    let options = Options::default()
        .with_sort(Sort::Unsorted)
        .with_filters(Filters::default().with_min_count(1).with_exclude_words(vec!["b".to_string()]));
    let word_tally = WordTally::from_tally_map(merged, &options);
    let words: Vec<String> = word_tally.into_tally().into_iter().map(|(w, _)| w).collect();
    assert_eq!(words, vec!["c", "a", "d"]);
}

#[test]
fn in_memory_unsorted_keeps_text_order() {
    let performance = Performance::default().with_chunk_size(6);
    let options = Options::default()
        .with_io(Io::ParallelBytes)
        .with_performance(performance);
    let tally = TallyMap::from_bytes(b"zeta alpha zeta beta gamma alpha".to_vec(), &options).expect("valid input");
    let words: Vec<String> = tally.entries().into_iter().map(|(w, _)| w).collect();
    assert_eq!(words, vec!["zeta", "alpha", "beta", "gamma"]);
}
