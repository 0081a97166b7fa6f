use word_tally::args::Args;
use word_tally::options::delimiter::Delimiter;
use word_tally::options::delimiters::Delimiters;
use word_tally::options::encoding::Encoding;
use word_tally::options::processing::Processing;
use word_tally::output::{decimal_string, format_csv, format_json, format_tally, format_text};
use word_tally::tally_map::TallyMap;
use word_tally::{
    Case, ExitCode, IoErrorKind, Io, Options, Performance, Serialization, SliceReader, Sort, Threads,
    WordTally, WordTallyError,
};

fn fe_fi_fo() -> Vec<(String, usize)> {
    vec![("fo".to_string(), 3), ("fi".to_string(), 2), ("fe".to_string(), 1)]
}

#[test]
fn text_format_uses_delimiters() {
    assert_eq!(format_text(&fe_fi_fo(), " ", "\n"), "fo 3\nfi 2\nfe 1\n");
    assert_eq!(format_text(&fe_fi_fo(), ": ", ", "), "fo: 3, fi: 2, fe: 1, ");
    assert_eq!(format_text(&[], " ", "\n"), "");
}

#[test]
fn json_format_is_an_array_of_pairs() {
    assert_eq!(format_json(&fe_fi_fo()).unwrap(), "[[\"fo\",3],[\"fi\",2],[\"fe\",1]]\n");
    assert_eq!(format_json(&[("say \"hi\"".to_string(), 1)]).unwrap(), "[[\"say \\\"hi\\\"\",1]]\n");
}

#[test]
fn format_tally_follows_serialization() {
    let mut tally = TallyMap::new();
    tally.add_words("fe fi fi fo fo fo", Case::Original);
    let text_options = Options::default();
    let word_tally = WordTally::from_tally_map(tally, &text_options);
    assert_eq!(format_tally(&word_tally).unwrap(), "fo 3\nfi 2\nfe 1\n");

    let mut tally = TallyMap::new();
    tally.add_words("fe fi fi", Case::Original);
    let json_options = Options::default().with_serialization(Serialization::Json);
    let word_tally = WordTally::from_tally_map(tally, &json_options);
    assert_eq!(format_tally(&word_tally).unwrap(), "[[\"fi\",2],[\"fe\",1]]\n");

    let mut tally = TallyMap::new();
    tally.add_words("fe fi fi", Case::Original);
    let csv_options = Options::default().with_serialization(Serialization::Csv);
    let word_tally = WordTally::from_tally_map(tally, &csv_options);
    assert_eq!(format_tally(&word_tally).unwrap(), "word,count\nfi,2\nfe,1\n");
}

#[test]
fn csv_quotes_fields_that_need_it() {
    let tally = vec![("a,b".to_string(), 2), ("say \"hi\"".to_string(), 1)];
    assert_eq!(
        format_csv(&tally).unwrap(),
        "word,count\n\"a,b\",2\n\"say \"\"hi\"\"\",1\n"
    );
    let empty: Vec<(String, usize)> = Vec::new();
    assert_eq!(format_csv(&empty).unwrap(), "word,count\n");
}

#[test]
fn decimal_strings() {
    assert_eq!(decimal_string(0), "0");
    assert_eq!(decimal_string(7), "7");
    assert_eq!(decimal_string(10), "10");
    assert_eq!(decimal_string(1234567890), "1234567890");
    assert_eq!(decimal_string(u64::MAX), u64::MAX.to_string());
}

#[test]
fn exit_codes_follow_sysexits() {
    assert_eq!(ExitCode::Success.code(), 0);
    assert_eq!(ExitCode::Failure.code(), 1);
    assert_eq!(ExitCode::from_error(&WordTallyError::Config("x".to_string())).code(), 64);
    assert_eq!(ExitCode::from_error(&WordTallyError::Usage("x".to_string())).code(), 64);
    assert_eq!(ExitCode::from_error(&WordTallyError::MmapStdin).code(), 64);
    assert_eq!(
        ExitCode::from_error(&WordTallyError::Utf8 { byte: 1, message: "m".to_string() }).code(),
        65
    );
    assert_eq!(ExitCode::from_error(&WordTallyError::ChunkCountExceeded { chunks: 1 }).code(), 65);
    assert_eq!(ExitCode::from_error(&WordTallyError::MutexPoisoned).code(), 70);
    let missing = WordTallyError::Io {
        path: "p".to_string(),
        message: "m".to_string(),
        kind: IoErrorKind::NotFound,
    };
    assert_eq!(ExitCode::from_error(&missing), ExitCode::NoInput);
    assert_eq!(ExitCode::from_io_kind(IoErrorKind::PermissionDenied).code(), 77);
    let creating = WordTallyError::OutputCreation {
        path: "out.txt".to_string(),
        message: "failed to create output file".to_string(),
    };
    assert_eq!(ExitCode::from_error(&creating).code(), 73);
    assert_eq!(ExitCode::from_io_kind(IoErrorKind::Other).code(), 74);
    assert_eq!(ExitCode::from_io_kind(IoErrorKind::NotFound).code(), 66);
    assert_eq!(ExitCode::from_command_line(true), ExitCode::Success);
    assert_eq!(ExitCode::from_command_line(false).code(), 64);
}

#[test]
fn slice_reader_hands_out_windows() {
    let mut reader = SliceReader::new(vec![7u8; 10000]);
    assert_eq!(reader.remaining(), 10000);
    assert!(!reader.is_exhausted());
    assert_eq!(reader.fill_buf().len(), 8192);
    reader.consume(8192);
    assert_eq!(reader.remaining(), 1808);
    assert_eq!(reader.fill_buf().len(), 1808);
    let mut buf = [0u8; 5];
    assert_eq!(reader.read(&mut buf), 5);
    assert_eq!(buf, [7u8; 5]);
    reader.consume(5000);
    assert!(reader.is_exhausted());
    assert_eq!(reader.remaining(), 0);
    assert!(reader.fill_buf().is_empty());
    assert_eq!(reader.read(&mut buf), 0);
}

#[test]
fn slice_reader_reads_in_order() {
    let mut reader = SliceReader::new(b"hello world".to_vec());
    let mut first = [0u8; 6];
    assert_eq!(reader.read(&mut first), 6);
    assert_eq!(&first, b"hello ");
    let mut rest = [0u8; 10];
    assert_eq!(reader.read(&mut rest), 5);
    assert_eq!(&rest[..5], b"world");
    assert_eq!(rest[5..], [0u8; 5]);
}

#[test]
fn performance_from_env_values() {
    let perf = Performance::from_env(Some("1024"), Some("+4096"), Some("abc"), Some("1000"), Some("ALL"));
    assert_eq!(perf.base_stdin_size, 1024);
    assert_eq!(perf.chunk_size, 4096);
    assert_eq!(perf.uniqueness_ratio, 32);
    assert_eq!(perf.words_per_kb, 512);
    assert_eq!(perf.threads, Threads::All);
    let perf = Performance::from_env(None, Some(""), Some("70000"), Some("64"), Some("8"));
    assert_eq!(perf.base_stdin_size, 262144);
    assert_eq!(perf.chunk_size, 65536);
    assert_eq!(perf.uniqueness_ratio, 32);
    assert_eq!(perf.words_per_kb, 64);
    assert_eq!(perf.threads, Threads::Count(8));
    let perf = Performance::from_env(Some("-1"), None, Some("+"), None, Some("70000"));
    assert_eq!(perf.base_stdin_size, 262144);
    assert_eq!(perf.uniqueness_ratio, 32);
    assert_eq!(perf.threads, Threads::All);
}

#[test]
fn performance_capacities() {
    let perf = Performance::default();
    assert_eq!(perf.chunk_capacity(1024 * 1024), 4096);
    assert_eq!(perf.capacity(None), 1024);
    assert_eq!(Performance::base_stdin_tally_capacity(), 1024);
    assert_eq!(perf.total_chunks(0), 0);
    assert_eq!(perf.total_chunks(65536), 1);
    assert_eq!(perf.total_chunks(65537), 2);
    assert_eq!(Performance::chunk_boundary_capacity(3), 4);
    assert_eq!(Performance::stream_chunk_size(100), 25);
    assert_eq!(Performance::default().with_words_per_kb(600).words_per_kb, 512);
}

#[test]
fn delimiters_unescape() {
    assert_eq!(Delimiter::from_escaped("\\t").as_str(), "\t");
    assert_eq!(Delimiter::from_escaped("a\\nb").as_str(), "a\nb");
    assert_eq!(Delimiter::from_literal("\\t").as_str(), "\\t");
    let delimiters = Delimiters::default();
    assert_eq!(delimiters.field(), " ");
    assert_eq!(delimiters.entry(), "\n");
    assert_eq!(delimiters.field_display(), "\" \"");
    assert_eq!(delimiters.entry_display(), "\"\\n\"");
}

#[test]
fn io_names_parse() {
    assert_eq!(Io::from_str_value(Some("stream")), Io::Stream);
    assert_eq!(Io::from_str_value(Some("PARALLEL-MMAP")), Io::ParallelMmap);
    assert_eq!(Io::from_str_value(Some("nonsense")), Io::ParallelStream);
    assert_eq!(Io::from_str_value(None), Io::ParallelStream);
    assert_eq!(Io::ParallelInMemory.to_string(), "parallel-in-memory");
}

#[test]
fn processing_defaults_to_parallel() {
    assert_eq!(Processing::default(), Processing::Parallel);
    assert_eq!(Processing::Parallel.to_string(), "parallel");
    assert_eq!(Processing::from_parallel(false), Processing::Sequential);
    assert!(Processing::Sequential.initialize(&Performance::default()).is_ok());
}

#[test]
fn names_of_settings() {
    assert_eq!(Case::Lower.to_string(), "lower");
    assert_eq!(Sort::Unsorted.to_string(), "unsorted");
    assert_eq!(Encoding::Ascii.to_string(), "ascii");
    assert_eq!(Threads::Count(3).to_string(), "3");
    assert_eq!(Serialization::Json.field_delimiter_display(), "n/a");
}

#[test]
fn stream_mode_needs_no_thread_pool() {
    let options = Options::default().with_io(Io::Stream);
    assert!(options.init_thread_pool_if_parallel().is_ok());
    assert!(Threads::All.init_pool().is_ok());
}

fn args(format: &str) -> Args {
    Args {
        sources: vec!["-".to_string()],
        io: Io::Stream,
        encoding: Encoding::Unicode,
        case: Case::Lower,
        sort: Sort::Asc,
        min_chars: Some(2),
        min_count: None,
        exclude_words: Some(vec!["the".to_string()]),
        include_patterns: None,
        exclude_patterns: None,
        format: format.to_string(),
        field_delimiter: ": ".to_string(),
        entry_delimiter: ";".to_string(),
        output: None,
        verbose: true,
    }
}

#[test]
fn args_make_options() {
    let options = args("text").to_options(Performance::default()).expect("valid settings");
    assert_eq!(options.case(), Case::Lower);
    assert_eq!(options.sort(), Sort::Asc);
    assert_eq!(options.io(), Io::Stream);
    assert_eq!(options.filters().min_chars(), Some(2));
    match options.serialization() {
        Serialization::Text(delimiters) => {
            assert_eq!(delimiters.field(), ": ");
            assert_eq!(delimiters.entry(), ";");
        }
        _ => panic!("text serialization expected"),
    }
    let json = args("json").to_options(Performance::default()).expect("valid settings");
    assert!(matches!(json.serialization(), Serialization::Json));
    let csv = args("csv").to_options(Performance::default()).expect("valid settings");
    assert!(matches!(csv.serialization(), Serialization::Csv));
}

#[test]
fn args_report_pattern_errors() {
    let mut bad = args("text");
    bad.exclude_patterns = Some(vec!["(".to_string()]);
    assert!(matches!(
        bad.to_options(Performance::default()),
        Err(WordTallyError::Pattern { ref kind, .. }) if kind == "exclude"
    ));
    let mut bad = args("text");
    bad.include_patterns = Some(vec!["(".to_string()]);
    assert!(matches!(
        bad.build_filters(),
        Err(WordTallyError::Pattern { ref kind, .. }) if kind == "include"
    ));
    assert!(args("text").verbose());
    assert_eq!(args("text").sources(), &["-".to_string()][..]);
    assert!(args("text").output().is_none());
}

#[test]
fn thread_pool_setup_is_attempted_once() {
    let mut attempted = true;
    assert!(Threads::Count(3).init_pool_once(&mut attempted).is_ok());
    assert!(attempted);
    let mut attempted = false;
    assert!(Threads::All.init_pool_once(&mut attempted).is_ok());
    assert!(attempted);
    assert_eq!(Threads::Count(5).pool_request(), Some(5));
    assert_eq!(Threads::All.pool_request(), None);
}
