use word_tally::config::Config;
use word_tally::options::performance::parse_unsigned;
use word_tally::options::sort::count_key;
use word_tally::output::{decimal_string, format_tally};
use word_tally::performance::{
    Io as TuningIo, Performance as Tuning, PerformanceConfig, PerformanceEnv, Processing as TuningProcessing,
    Threads as TuningThreads,
};
use word_tally::tally_map::TallyMap;
use word_tally::verbose::{verbose_fields, verbose_text};
use word_tally::{Case, Filters, Options, Performance, Serialization, WordTally};

#[test]
fn verbose_details_of_a_tally() {
    let mut tally = TallyMap::new();
    tally.add_words("fe fi fi fo fo fo", Case::Original);
    let options = Options::default();
    let word_tally = WordTally::from_tally_map(tally, &options);
    let fields = verbose_fields(&word_tally, "-");
    let text = verbose_text(&fields, " ", "\n", word_tally.count());
    assert_eq!(
        text,
        "source -\ntotal-words 6\nunique-words 3\ndelimiter \" \"\nentry-delimiter \"\\n\"\n\
         case original\norder desc\nio parallel-stream\nencoding unicode\nmin-chars none\n\
         min-count none\nexclude-words none\nexclude-patterns none\ninclude-patterns none\n\n"
    );
    assert_eq!(format_tally(&word_tally).unwrap(), "fo 3\nfi 2\nfe 1\n");
}

#[test]
fn verbose_details_show_filters() {
    let filters = Filters::default()
        .with_min_chars(2)
        .with_min_count(3)
        .with_exclude_words(vec!["a".to_string(), "the".to_string()])
        .with_exclude_patterns(&vec!["^x".to_string(), "y$".to_string()])
        .expect("patterns compile");
    let options = Options::default().with_filters(filters).with_serialization(Serialization::Json);
    let word_tally = WordTally::from_tally_map(TallyMap::new(), &options);
    let fields = verbose_fields(&word_tally, "a.txt");
    let text = verbose_text(&fields, ": ", ";", word_tally.count());
    assert_eq!(
        text,
        "source: a.txt;total-words: 0;unique-words: 0;delimiter: n/a;entry-delimiter: n/a;\
         case: original;order: desc;io: parallel-stream;encoding: unicode;min-chars: 2;\
         min-count: 3;exclude-words: a,the;exclude-patterns: ^x,y$;include-patterns: none;"
    );
}

#[test]
fn word_tally_into_owned_keeps_everything() {
    let mut tally = TallyMap::new();
    tally.add_words("b a b", Case::Original);
    let options = Options::default();
    let word_tally = WordTally::from_tally_map(tally, &options).into_owned();
    assert_eq!(word_tally.count(), 3);
    assert_eq!(word_tally.uniq_count(), 2);
    assert_eq!(word_tally.tally()[0], ("b".to_string(), 2));
}

#[test]
fn tally_from_entries_adds_repeats() {
    let tally = TallyMap::from_entries(vec![("a".to_string(), 2), ("b".to_string(), 1), ("a".to_string(), 3)]);
    assert_eq!(tally.get("a"), Some(5));
    assert_eq!(tally.get("b"), Some(1));
    assert_eq!(TallyMap::default().len(), 0);
}

#[test]
fn in_memory_counting_needs_content_and_chunk_size() {
    let perf = Performance::default();
    assert!(TallyMap::can_count_in_memory(b"some words", &perf));
    assert!(!TallyMap::can_count_in_memory(b"", &perf));
    assert!(!TallyMap::can_count_in_memory(b"words", &Performance::default().with_chunk_size(0)));
    let tiny = Performance::default().with_chunk_size(1);
    assert!(TallyMap::can_count_in_memory("éééé".as_bytes(), &tiny));
    assert!(TallyMap::can_count_in_memory(&[0xff, 0xfe], &tiny));
}

#[test]
fn decimal_text_parses_back() {
    for n in [0u64, 9, 10, 65535, 4_000_000_000, u64::MAX] {
        assert_eq!(parse_unsigned(&decimal_string(n), u64::MAX), Some(n));
    }
    assert_eq!(parse_unsigned("65536", u16::MAX as u64), None);
    assert_eq!(parse_unsigned("+12", 100), Some(12));
    assert_eq!(parse_unsigned("1 2", 100), None);
    assert_eq!(parse_unsigned("", 100), None);
}

#[test]
fn count_keys_order_counts() {
    assert_eq!(count_key(5, false), 5);
    assert_eq!(count_key(5, true), -5);
    assert!(count_key(7, true) < count_key(3, true));
}

#[test]
fn config_from_env_values() {
    let config = Config::from_env(Some("2048"), Some("300"), None, Some("abc"));
    assert_eq!(config.default_capacity(), 2048);
    assert_eq!(config.uniqueness_ratio(), 10);
    assert_eq!(config.unique_word_density(), 15);
    assert_eq!(config.chunk_size(), 16384);
}

#[test]
fn tuning_from_env_values() {
    let env = PerformanceEnv {
        default_capacity: Some("10".to_string()),
        uniqueness_ratio: Some("20".to_string()),
        word_density: Some("x".to_string()),
        chunk_size: Some("4096".to_string()),
        reserve_threshold: None,
        threads: Some("6".to_string()),
        io: Some("MMAP".to_string()),
        processing: Some("Parallel".to_string()),
        verbose: Some("yes".to_string()),
    };
    let tuning = Tuning::from_env(&env);
    assert_eq!(tuning.default_capacity(), 10);
    assert_eq!(tuning.uniqueness_ratio(), 20);
    assert_eq!(tuning.unique_word_density(), 15);
    assert_eq!(tuning.chunk_size(), 4096);
    assert_eq!(tuning.reserve_threshold(), 1000);
    assert_eq!(tuning.threads(), TuningThreads::Count(6));
    assert_eq!(tuning.io(), TuningIo::MemoryMapped);
    assert_eq!(tuning.processing(), TuningProcessing::Parallel);
    assert!(tuning.verbose());
    let unset = PerformanceEnv {
        default_capacity: None,
        uniqueness_ratio: None,
        word_density: None,
        chunk_size: None,
        reserve_threshold: None,
        threads: Some("ALL".to_string()),
        io: Some("buffered".to_string()),
        processing: None,
        verbose: Some("TRUE".to_string()),
    };
    let tuning = Tuning::from_env(&unset);
    assert_eq!(tuning.threads(), TuningThreads::All);
    assert_eq!(tuning.io(), TuningIo::Buffered);
    assert_eq!(tuning.processing(), TuningProcessing::Sequential);
    assert!(!tuning.verbose());
}

#[test]
fn thread_pool_left_alone_when_not_needed() {
    let all = Tuning::from_config(PerformanceConfig::default()).with_verbose(true);
    assert_eq!(all.init_thread_pool(8), None);
    let many = all.with_threads(TuningThreads::Count(16));
    assert_eq!(many.init_thread_pool(8), None);
}

#[test]
fn settings_as_text() {
    let serialization = Serialization::default();
    assert_eq!(serialization.to_string(), "text[field=\" \", entry=\"\\n\"]");
    assert_eq!(Serialization::Csv.to_string(), "csv");
    let perf = Performance::default().with_threads(word_tally::Threads::Count(2));
    assert_eq!(
        perf.to_string(),
        "Performance { tally_capacity: 1024, uniqueness: 32, words/kb: 128, chunk: 65536, stdin_size: 262144, threads: 2 }"
    );
}

#[test]
fn verbose_thread_pool_setup_reports_a_message() {
    let tuning = Tuning::from_config(PerformanceConfig::default())
        .with_verbose(true)
        .with_threads(TuningThreads::Count(2));
    let message = tuning.init_thread_pool(8).expect("a message in verbose mode");
    assert!(
        message == "Thread pool configured with 2 threads"
            || message.starts_with("Warning: Failed to configure thread pool with 2 threads (")
    );
}

#[test]
fn pool_setup_result_follows_what_rayon_answered() {
    assert!(word_tally::Threads::pool_setup_result(4, Ok(())).is_ok());
    match word_tally::Threads::pool_setup_result(4, Err("already initialized".to_string())) {
        Err(word_tally::WordTallyError::Config(message)) => {
            assert_eq!(message, "failed to configure thread pool with 4 threads")
        }
        other => panic!("unexpected {other:?}"),
    }
}

#[test]
fn verbose_csv_has_a_header_and_a_value_record() {
    let mut tally = TallyMap::new();
    tally.add_words("fe fi fi", Case::Original);
    let options = Options::default().with_serialization(Serialization::Csv);
    let word_tally = WordTally::from_tally_map(tally, &options);
    let text = word_tally::verbose::verbose_csv(&word_tally, "-").expect("csv");
    let lines: Vec<&str> = text.lines().collect();
    assert_eq!(lines.len(), 3);
    assert_eq!(lines[2], "");
    assert!(lines[0].starts_with("source,total-words,unique-words"));
    assert!(lines[1].starts_with("-,3,2"));
    assert!(text.ends_with("\n\n"));
}
