//! The details that verbose output shows of a tally: its source, totals and settings.
use vstd::prelude::*;

use crate::options::case::Case;
use crate::options::delimiter::debug_quoted;
use crate::options::encoding::Encoding;
use crate::options::filters::join_with_commas;
use crate::options::io::io_name;
use crate::options::serialization::Serialization;
use crate::options::sort::Sort;
use crate::error::WordTallyError;
use crate::options::encoding::string_views;
use crate::output::{csv_table, csv_text, decimal, decimal_string, same_width};
use crate::WordTally;

verus! {

/// The name of a case setting.
pub open spec fn case_name(case: Case) -> Seq<char> {
    match case {
        Case::Lower => "lower"@,
        Case::Upper => "upper"@,
        Case::Original => "original"@,
    }
}

/// The name of a sort order.
pub open spec fn sort_name(sort: Sort) -> Seq<char> {
    match sort {
        Sort::Desc => "desc"@,
        Sort::Asc => "asc"@,
        Sort::Unsorted => "unsorted"@,
    }
}

/// The name of an encoding.
pub open spec fn encoding_name(encoding: Encoding) -> Seq<char> {
    match encoding {
        Encoding::Unicode => "unicode"@,
        Encoding::Ascii => "ascii"@,
    }
}

/// A delimiter of text output, quoted; "n/a" for other formats.
pub open spec fn delimiter_shown(serialization: Serialization, field: bool) -> Seq<char> {
    match serialization {
        Serialization::Text(d) => debug_quoted(if field { d.spec_field() } else { d.spec_entry() }),
        _ => "n/a"@,
    }
}

/// A numeric setting in decimal, or "none".
pub open spec fn number_or_none(value: Option<usize>) -> Seq<char> {
    match value {
        Some(v) => decimal(v as nat),
        None => "none"@,
    }
}

/// A list setting joined by commas, or "none".
pub open spec fn list_or_none(value: Option<Seq<Seq<char>>>) -> Seq<char> {
    match value {
        Some(items) => join_with_commas(items),
        None => "none"@,
    }
}

/// The name and value of each detail that verbose output shows.
pub open spec fn verbose_pairs(word_tally: WordTally, source: Seq<char>) -> Seq<(Seq<char>, Seq<char>)> {
    let options = word_tally.spec_options();
    let filters = options.spec_filters();
    seq![
        ("source"@, source),
        ("total-words"@, decimal(word_tally.spec_count() as nat)),
        ("unique-words"@, decimal(word_tally.spec_uniq_count() as nat)),
        ("delimiter"@, delimiter_shown(options.spec_serialization(), true)),
        ("entry-delimiter"@, delimiter_shown(options.spec_serialization(), false)),
        ("case"@, case_name(options.spec_case())),
        ("order"@, sort_name(options.spec_sort())),
        ("io"@, io_name(options.spec_io())),
        ("encoding"@, encoding_name(options.spec_encoding())),
        ("min-chars"@, number_or_none(filters.spec_min_chars())),
        ("min-count"@, number_or_none(filters.spec_min_count())),
        ("exclude-words"@, list_or_none(filters.spec_exclude_words())),
        ("exclude-patterns"@, list_or_none(filters.spec_exclude_patterns())),
        ("include-patterns"@, list_or_none(filters.spec_include_patterns())),
    ]
}

/// The characters of each pair of strings.
pub open spec fn pair_strings(pairs: Seq<(String, String)>) -> Seq<(Seq<char>, Seq<char>)> {
    pairs.map_values(|pair: (String, String)| (pair.0@, pair.1@))
}

/// The lines of verbose text output: each name, the delimiter, the value and the entry
/// delimiter.
pub open spec fn verbose_lines(pairs: Seq<(Seq<char>, Seq<char>)>, delimiter: Seq<char>, entry: Seq<char>) -> Seq<char>
    decreases pairs.len(),
{
    if pairs.len() == 0 {
        seq![]
    } else {
        verbose_lines(pairs.drop_last(), delimiter, entry) + pairs.last().0 + delimiter + pairs.last().1 + entry
    }
}

/// A numeric setting in decimal, or "none".
fn number_or_none_string(value: Option<usize>) -> (text: String)
    ensures
        text@ == number_or_none(value),
{
    match value {
        Some(v) => decimal_string(v as u64),
        None => "none".to_owned(),
    }
}

/// The name and value of each detail of a tally that verbose output shows.
pub fn verbose_fields(word_tally: &WordTally, source: &str) -> (fields: Vec<(String, String)>)
    ensures
        pair_strings(fields@) == verbose_pairs(*word_tally, source@),
{
    let options = word_tally.options();
    let filters = options.filters();
    let serialization = options.serialization();
    let exclude_words = match filters.exclude_words() {
        Some(words) => words.to_string(),
        None => "none".to_owned(),
    };
    let exclude_patterns = match filters.exclude_patterns() {
        Some(patterns) => patterns.to_string(),
        None => "none".to_owned(),
    };
    let include_patterns = match filters.include_patterns() {
        Some(patterns) => patterns.to_string(),
        None => "none".to_owned(),
    };
    let fields = vec![
        ("source".to_owned(), source.to_owned()),
        ("total-words".to_owned(), decimal_string(word_tally.count() as u64)),
        ("unique-words".to_owned(), decimal_string(word_tally.uniq_count() as u64)),
        ("delimiter".to_owned(), serialization.field_delimiter_display()),
        ("entry-delimiter".to_owned(), serialization.entry_delimiter_display()),
        ("case".to_owned(), options.case().to_string()),
        ("order".to_owned(), options.sort().to_string()),
        ("io".to_owned(), options.io().to_string()),
        ("encoding".to_owned(), options.encoding().to_string()),
        ("min-chars".to_owned(), number_or_none_string(filters.min_chars())),
        ("min-count".to_owned(), number_or_none_string(filters.min_count())),
        ("exclude-words".to_owned(), exclude_words),
        ("exclude-patterns".to_owned(), exclude_patterns),
        ("include-patterns".to_owned(), include_patterns),
    ];
    proof {
        assert(pair_strings(fields@) =~= verbose_pairs(*word_tally, source@));
    }
    fields
}

/// Verbose details as text: a line for each detail, then an empty line when words were
/// tallied.
pub fn verbose_text(fields: &[(String, String)], delimiter: &str, entry_delimiter: &str, total_words: usize) -> (text: String)
    ensures
        text@ == verbose_lines(pair_strings(fields@), delimiter@, entry_delimiter@) + (if total_words > 0 {
            seq!['\n']
        } else {
            seq![]
        }),
{
    let mut text = String::new();
    let mut i: usize = 0;
    while i < fields.len()
        invariant
            0 <= i <= fields@.len(),
            text@ == verbose_lines(pair_strings(fields@.take(i as int)), delimiter@, entry_delimiter@),
        decreases fields@.len() - i,
    {
        proof {
            assert(pair_strings(fields@.take(i + 1)).drop_last() =~= pair_strings(fields@.take(i as int)));
        }
        let (name, value) = &fields[i];
        text.append(name.as_str());
        text.append(delimiter);
        text.append(value.as_str());
        text.append(entry_delimiter);
        i = i + 1;
    }
    proof {
        assert(fields@.take(fields@.len() as int) =~= fields@);
    }
    if total_words > 0 {
        crate::options::delimiter::push_char(&mut text, '\n');
    }
    text
}

/// The verbose details in CSV: a record of the names, then a record of the values.
pub open spec fn verbose_records(pairs: Seq<(Seq<char>, Seq<char>)>) -> Seq<Seq<Seq<char>>> {
    seq![
        pairs.map_values(|pair: (Seq<char>, Seq<char>)| pair.0),
        pairs.map_values(|pair: (Seq<char>, Seq<char>)| pair.1),
    ]
}

/// The verbose details of a tally in CSV, with a trailing newline: a header record of the
/// field names and a record of their values.
pub fn verbose_csv(word_tally: &WordTally, source: &str) -> (result: Result<String, WordTallyError>)
    ensures
        result matches Ok(text) && text@ == csv_table(verbose_records(verbose_pairs(*word_tally, source@)))
            + seq!['\n'],
{
    let fields = verbose_fields(word_tally, source);
    let ghost pairs = pair_strings(fields@);
    let mut names: Vec<String> = Vec::new();
    let mut values: Vec<String> = Vec::new();
    let mut i: usize = 0;
    while i < fields.len()
        invariant
            0 <= i <= fields@.len(),
            pairs == pair_strings(fields@),
            string_views(names@) =~= pairs.take(i as int).map_values(|pair: (Seq<char>, Seq<char>)| pair.0),
            string_views(values@) =~= pairs.take(i as int).map_values(|pair: (Seq<char>, Seq<char>)| pair.1),
        decreases fields@.len() - i,
    {
        let ghost names_before = names@;
        let ghost values_before = values@;
        let name = fields[i].0.clone();
        let value = fields[i].1.clone();
        names.push(name);
        values.push(value);
        proof {
            assert(pairs[i as int] == (fields@[i as int].0@, fields@[i as int].1@));
            assert(pairs.take(i + 1) =~= pairs.take(i as int).push(pairs[i as int]));
            assert(string_views(names@) =~= string_views(names_before).push(name@));
            assert(string_views(values@) =~= string_views(values_before).push(value@));
        }
        i = i + 1;
    }
    proof {
        assert(pairs.take(fields@.len() as int) =~= pairs);
    }
    let mut records: Vec<Vec<String>> = Vec::new();
    records.push(names);
    records.push(values);
    proof {
        assert(records@.map_values(|r: Vec<String>| string_views(r@)) =~= verbose_records(pairs));
        assert(names@.len() == values@.len());
        assert(same_width(records@));
    }
    match csv_text(&records) {
        Ok(text) => {
            let mut text = text;
            crate::options::delimiter::push_char(&mut text, '\n');
            Ok(text)
        },
        Err(error) => Err(error),
    }
}

} // verus!
