use word_tally::case::Case as WordCase;
use word_tally::config::Config;
use word_tally::formatting::{Format, Formatting, Sort as FormattingSort};
use word_tally::performance::{
    Io as TuningIo, Performance as Tuning, PerformanceConfig, Processing as TuningProcessing, SizeHint,
    Threads as TuningThreads,
};

#[test]
fn case_normalize_examples() {
    let hello = "Hello";
    assert_eq!(WordCase::Lower.normalize(hello), "hello");
    assert_eq!(WordCase::Upper.normalize(hello), "HELLO");
    assert_eq!(WordCase::Original.normalize(hello), hello);
    assert_eq!(WordCase::default(), WordCase::Lower);
    assert_eq!(WordCase::Upper.to_string(), "upper");
}

#[test]
fn config_estimates() {
    let config = Config::default();
    assert_eq!(config.default_capacity(), 1024);
    assert_eq!(config.uniqueness_ratio(), 10);
    assert_eq!(config.unique_word_density(), 15);
    assert_eq!(config.chunk_size(), 16384);
    assert_eq!(config.estimate_capacity(None), 1024);
    assert_eq!(config.estimate_capacity(Some(1000)), 100);
    assert_eq!(config.estimate_chunk_capacity(10), 150);
    let custom = Config::new(1, 2, 3, 4)
        .with_capacity(8)
        .with_uniqueness_ratio(4)
        .with_word_density(2)
        .with_chunk_size(64);
    assert_eq!(custom, Config::new(8, 4, 2, 64));
}

#[test]
fn formatting_settings() {
    let formatting = Formatting::default();
    assert_eq!(formatting.to_string(), "Formatting { case: lower, sort: desc, format: text }");
    let custom = Formatting::with_format(Format::Json)
        .with_case_setting(WordCase::Upper)
        .with_sort_setting(FormattingSort::Unsorted);
    assert_eq!(custom.case(), WordCase::Upper);
    assert_eq!(custom.sort(), FormattingSort::Unsorted);
    assert_eq!(custom.format(), Format::Json);
    assert_eq!(Formatting::with_sort(FormattingSort::Asc).sort(), FormattingSort::Asc);
    assert_eq!(Formatting::with_case(WordCase::Original).case(), WordCase::Original);
    assert_eq!(
        Formatting::new(WordCase::Original, FormattingSort::Desc, Format::Csv).to_string(),
        "Formatting { case: original, sort: desc, format: csv }"
    );
}

#[test]
fn formatting_sort_is_stable_when_sequential() {
    let mut tally = vec![("a".to_string(), 1), ("b".to_string(), 2), ("c".to_string(), 1)];
    FormattingSort::Asc.apply(&mut tally, TuningProcessing::Sequential);
    assert_eq!(
        tally,
        vec![("a".to_string(), 1), ("c".to_string(), 1), ("b".to_string(), 2)]
    );
    FormattingSort::Desc.apply(&mut tally, TuningProcessing::Sequential);
    assert_eq!(
        tally,
        vec![("b".to_string(), 2), ("a".to_string(), 1), ("c".to_string(), 1)]
    );
    FormattingSort::Desc.apply(&mut tally, TuningProcessing::Parallel);
    assert_eq!(tally[0], ("b".to_string(), 2));
}

#[test]
fn tuning_defaults_and_estimates() {
    let tuning = Tuning::new();
    assert_eq!(tuning.default_capacity(), 1024);
    assert_eq!(tuning.chunk_size(), 65536);
    assert_eq!(tuning.io(), TuningIo::Streamed);
    assert_eq!(tuning.processing(), TuningProcessing::Sequential);
    assert_eq!(tuning.size_hint(), SizeHint::Unknown);
    assert_eq!(tuning.threads(), TuningThreads::All);
    assert!(!tuning.verbose());
    assert_eq!(tuning.reserve_threshold(), 1000);
    assert_eq!(tuning.estimate_capacity(), 1024);
    assert_eq!(tuning.calc_reserve_threshold(), 1000);
    assert_eq!(tuning.estimate_chunk_capacity(100), 160);

    let sized = tuning.with_size_hint(SizeHint::Bytes(1_000_000));
    assert_eq!(sized.estimate_capacity(), 100_000);
    assert_eq!(sized.calc_reserve_threshold(), 10_000);
    let threaded = sized.with_threads(TuningThreads::Count(4));
    assert_eq!(threaded.estimate_thread_local_capacity(), 25_000);
    let zero = sized.with_threads(TuningThreads::Count(0));
    assert_eq!(zero.estimate_thread_local_capacity(), 100_000);
}

#[test]
fn tuning_builders() {
    let tuning = Tuning::from_config(PerformanceConfig::default())
        .with_capacity(10)
        .with_uniqueness_ratio(5)
        .with_word_density(20)
        .with_chunk_size(128)
        .with_io(TuningIo::MemoryMapped)
        .with_processing(TuningProcessing::Parallel)
        .with_verbose(true)
        .with_reserve_threshold(7);
    assert_eq!(tuning.default_capacity(), 10);
    assert_eq!(tuning.uniqueness_ratio(), 5);
    assert_eq!(tuning.unique_word_density(), 20);
    assert_eq!(tuning.chunk_size(), 128);
    assert_eq!(tuning.io().to_string(), "memory-mapped");
    assert_eq!(tuning.processing().to_string(), "parallel");
    assert!(tuning.verbose());
    assert_eq!(tuning.reserve_threshold(), 7);
}

#[test]
fn size_hints() {
    assert_eq!(SizeHint::from_option(Some(5)), SizeHint::Bytes(5));
    assert_eq!(SizeHint::from_option(None), SizeHint::Unknown);
    assert_eq!(SizeHint::Bytes(9).to_option(), Some(9));
    assert_eq!(SizeHint::Bytes(42).to_string(), "42 bytes");
    assert_eq!(SizeHint::Unknown.to_string(), "none");
    assert_eq!(TuningThreads::All.to_string(), "all");
    assert_eq!(TuningThreads::from_count(6).to_string(), "6");
}
