//! The command-line settings, as plain values, and the options they make.
use vstd::prelude::*;

use crate::error::WordTallyError;
use crate::options::case::Case;
use crate::options::delimiters::Delimiters;
use crate::options::encoding::{string_views, Encoding};
use crate::options::filters::{patterns_setting, Filters};
use crate::options::io::Io;
use crate::options::patterns::regex_patterns_compile;
use crate::options::performance::Performance;
use crate::options::serialization::Serialization;
use crate::options::sort::Sort;
use crate::options::Options;
use crate::Count;

verus! {

/// The settings given on the command line.
pub struct Args {
    /// File paths to use as input ("-" for stdin).
    pub sources: Vec<String>,
    /// I/O strategy.
    pub io: Io,
    /// Text encoding mode for validation and word boundary detection.
    pub encoding: Encoding,
    /// Case normalization.
    pub case: Case,
    /// Sort order.
    pub sort: Sort,
    /// Exclude words containing fewer than min chars.
    pub min_chars: Option<Count>,
    /// Exclude words appearing fewer than min times.
    pub min_count: Option<Count>,
    /// Exclude words from a list.
    pub exclude_words: Option<Vec<String>>,
    /// Include only words matching a regex pattern.
    pub include_patterns: Option<Vec<String>>,
    /// Exclude words matching a regex pattern.
    pub exclude_patterns: Option<Vec<String>>,
    /// Output format: "text", "json" or "csv".
    pub format: String,
    /// Delimiter between field and value.
    pub field_delimiter: String,
    /// Delimiter between entries.
    pub entry_delimiter: String,
    /// Write output to this file rather than stdout.
    pub output: Option<String>,
    /// Print verbose details.
    pub verbose: bool,
}

/// The patterns of an optional list, none when the list is absent.
pub open spec fn pattern_views(patterns: Option<Vec<String>>) -> Seq<Seq<char>> {
    match patterns {
        Some(list) => string_views(list@),
        None => seq![],
    }
}

/// The patterns compile, or there are none.
pub open spec fn patterns_ok(patterns: Option<Vec<String>>) -> bool {
    pattern_views(patterns).len() == 0 || regex_patterns_compile(pattern_views(patterns))
}

/// The filters that the command-line settings ask for.
pub open spec fn filters_match(args: Args, filters: Filters) -> bool {
    &&& filters.spec_min_chars() == args.min_chars
    &&& filters.spec_min_count() == args.min_count
    &&& filters.spec_exclude_words() == (match args.exclude_words {
        Some(words) => Some(string_views(words@)),
        None => None,
    })
    &&& filters.spec_exclude_patterns() == (match args.exclude_patterns {
        Some(list) => patterns_setting(string_views(list@)),
        None => None,
    })
    &&& filters.spec_include_patterns() == (match args.include_patterns {
        Some(list) => patterns_setting(string_views(list@)),
        None => None,
    })
}

impl Args {
    /// Get the input file paths.
    pub fn sources(&self) -> (sources: &[String])
        ensures
            sources@ == self.sources@,
    {
        self.sources.as_slice()
    }

    /// Get the output file path.
    pub fn output(&self) -> (output: Option<&String>)
        ensures
            output == (match self.output {
                Some(path) => Some(&path),
                None => None,
            }),
    {
        match &self.output {
            Some(path) => Some(path),
            None => None,
        }
    }

    /// Get the verbose flag.
    pub fn verbose(&self) -> (verbose: bool)
        ensures
            verbose == self.verbose,
    {
        self.verbose
    }

    /// A pattern compilation error of the given kind ("include" or "exclude").
    pub fn pattern_error(kind: &str, message: String) -> (error: WordTallyError)
        ensures
            error matches WordTallyError::Pattern { kind: k, message: m } && k@ == kind@ && m@ == message@,
    {
        WordTallyError::Pattern { kind: kind.to_owned(), message }
    }

    /// The filters that the settings ask for; a pattern error when exclude or include
    /// patterns do not compile, the exclude patterns checked first.
    pub fn build_filters(&self) -> (result: Result<Filters, WordTallyError>)
        ensures
            result is Ok <==> patterns_ok(self.exclude_patterns) && patterns_ok(self.include_patterns),
            result matches Ok(filters) ==> filters_match(*self, filters),
            !patterns_ok(self.exclude_patterns) ==> (result matches Err(WordTallyError::Pattern { kind, .. }) && kind@
                == "exclude"@),
            patterns_ok(self.exclude_patterns) && !patterns_ok(self.include_patterns) ==> (result matches Err(
                WordTallyError::Pattern { kind, .. },
            ) && kind@ == "include"@),
    {
        let mut filters = Filters::default();
        if let Some(min) = self.min_chars {
            filters = filters.with_min_chars(min);
        }
        if let Some(min) = self.min_count {
            filters = filters.with_min_count(min);
        }
        if let Some(words) = &self.exclude_words {
            filters = filters.with_exclude_words(words.clone());
            proof {
                assert(string_views(words@) =~= string_views(self.exclude_words.unwrap()@));
            }
        }
        if let Some(patterns) = &self.exclude_patterns {
            filters = match filters.with_exclude_patterns(patterns) {
                Ok(f) => f,
                Err(WordTallyError::Pattern { message, .. }) => {
                    return Err(Self::pattern_error("exclude", message));
                },
                Err(e) => {
                    return Err(e);
                },
            };
        }
        if let Some(patterns) = &self.include_patterns {
            filters = match filters.with_include_patterns(patterns) {
                Ok(f) => f,
                Err(WordTallyError::Pattern { message, .. }) => {
                    return Err(Self::pattern_error("include", message));
                },
                Err(e) => {
                    return Err(e);
                },
            };
        }
        Ok(filters)
    }

    /// Converts the settings to `Options`, with the performance settings given.
    pub fn to_options(&self, performance: Performance) -> (result: Result<Options, WordTallyError>)
        requires
            self.format@ == "text"@ || self.format@ == "json"@ || self.format@ == "csv"@,
        ensures
            result is Ok <==> patterns_ok(self.exclude_patterns) && patterns_ok(self.include_patterns),
            result matches Err(e) ==> e is Pattern,
            result matches Ok(options) ==> {
                &&& options.spec_case() == self.case
                &&& options.spec_sort() == self.sort
                &&& options.spec_io() == self.io
                &&& options.spec_encoding() == self.encoding
                &&& options.spec_performance() == performance
                &&& filters_match(*self, options.spec_filters())
                &&& (self.format@ == "text"@ ==> (options.spec_serialization() matches Serialization::Text(d)
                    && d.spec_field() == self.field_delimiter@ && d.spec_entry() == self.entry_delimiter@))
                &&& (self.format@ == "json"@ ==> options.spec_serialization() is Json)
                &&& (self.format@ == "csv"@ ==> options.spec_serialization() is Csv)
            },
    {
        proof {
            reveal_strlit("text");
            reveal_strlit("json");
            reveal_strlit("csv");
            assert("json"@[0] != "text"@[0]);
            assert("csv"@[0] != "text"@[0]);
            assert("csv"@[0] != "json"@[0]);
        }
        let text = "text".to_owned();
        let json = "json".to_owned();
        let serialization = if self.format == text {
            Serialization::Text(Delimiters::new(self.field_delimiter.as_str(), self.entry_delimiter.as_str()))
        } else if self.format == json {
            Serialization::Json
        } else {
            Serialization::Csv
        };
        let filters = match self.build_filters() {
            Ok(f) => f,
            Err(e) => return Err(e),
        };
        let options = Options::new(self.case, self.sort, serialization, filters, self.io, performance).with_encoding(
            self.encoding,
        );
        Ok(options)
    }
}

} // verus!
