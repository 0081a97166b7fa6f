//! The text of a tally in each serialization format.
use vstd::prelude::*;

use vstd::string::StringSliceAdditionalSpecFns;
use vstd::utf8::*;

use crate::error::WordTallyError;
use crate::options::encoding::string_views;
use crate::options::performance::{lemma_decimal_digits, lemma_decimal_parses_back, parsed_unsigned};
use crate::options::serialization::Serialization;
use crate::tally_map::stream::std_utf8_text;
use crate::{Count, Word, WordTally};

verus! {

/// The decimal digit for a number below ten.
pub open spec fn digit_char(d: nat) -> char {
    (48 + d) as char
}

/// The decimal representation of `n`, without leading zeros.
pub open spec fn decimal(n: nat) -> Seq<char>
    decreases n,
{
    if n < 10 {
        seq![digit_char(n)]
    } else {
        decimal(n / 10).push(digit_char(n % 10))
    }
}

/// The text serialization of a tally: each word, the field delimiter, the count in decimal
/// and the entry delimiter, entry after entry.
pub open spec fn text_serialization(tally: Seq<(Word, Count)>, field: Seq<char>, entry: Seq<char>) -> Seq<char>
    decreases tally.len(),
{
    if tally.len() == 0 {
        seq![]
    } else {
        text_serialization(tally.drop_last(), field, entry) + tally.last().0@ + field + decimal(
            tally.last().1 as nat,
        ) + entry
    }
}

/// What `serde_json::to_string` makes of a list of word-count pairs: a JSON array of
/// two-element arrays.
pub uninterp spec fn serde_json_pairs(pairs: Seq<(Seq<char>, usize)>) -> Seq<char>;

/// The characters and count of each pair.
pub open spec fn pair_views(tally: Seq<(Word, Count)>) -> Seq<(Seq<char>, usize)> {
    tally.map_values(|pair: (Word, Count)| (pair.0@, pair.1))
}

/// `serde_json::to_string` of the pairs. Its documentation says that it fails only when a
/// `Serialize` implementation fails or a map has keys that are not strings; pairs of a
/// `String` and a `usize` have neither, so it succeeds.
#[verifier::external_body]
fn json_pairs(tally: &[(Word, Count)]) -> (json: Result<String, String>)
    ensures
        json is Ok,
        json matches Ok(text) ==> text@ == serde_json_pairs(pair_views(tally@)),
{
    serde_json::to_string(tally).map_err(|error| error.to_string())
}

/// A `csv::Writer` over a byte vector. `csv::Writer` cannot be declared as an outside type (its
/// parameter is bound by `std::io::Write`, a trait the proofs cannot name), so the writer is
/// held here, opaque to the proofs; they know of it only the text it holds (`csv_written`) and
/// the number of fields of its first record (`csv_record_width`).
#[verifier::external_body]
pub struct CsvBuffer {
    writer: csv::Writer<Vec<u8>>,
}

/// The text that a CSV writer over a byte vector holds so far, flushed or buffered.
pub uninterp spec fn csv_written(writer: CsvBuffer) -> Seq<char>;

/// The number of fields in the first record that a CSV writer wrote, if it wrote one; every
/// later record has to have as many (the writer is not `flexible`).
pub uninterp spec fn csv_record_width(writer: CsvBuffer) -> Option<nat>;

/// The text of one CSV record with these fields, as `csv::Writer::write_record` writes it with
/// the default settings: the fields separated by commas, each quoted where it needs it, and a
/// newline.
pub uninterp spec fn csv_record(fields: Seq<Seq<char>>) -> Seq<char>;

/// `csv::Writer::from_writer` over an empty byte vector: a writer that holds nothing yet.
#[verifier::external_body]
fn csv_writer_new() -> (writer: CsvBuffer)
    ensures
        csv_written(writer) == Seq::<char>::empty(),
        csv_record_width(writer) is None,
{
    CsvBuffer { writer: csv::Writer::from_writer(Vec::new()) }
}

/// `csv::Writer::write_record`: on success the writer holds one more record; the error's
/// message otherwise. Into a byte vector no write fails, so the one error left is a record
/// whose number of fields differs from the first record's: a record as wide as the first one
/// (or the first record itself) is written.
#[verifier::external_body]
fn csv_write_record(writer: &mut CsvBuffer, fields: &Vec<String>) -> (written: Result<(), String>)
    ensures
        (csv_record_width(*old(writer)) is None || csv_record_width(*old(writer)) == Some(fields@.len()))
            ==> written is Ok,
        written is Ok ==> csv_written(*final(writer)) == csv_written(*old(writer)) + csv_record(
            string_views(fields@),
        ),
        written is Ok ==> csv_record_width(*final(writer)) == Some(fields@.len()),
{
    writer.writer.write_record(fields).map_err(|error| error.to_string())
}

/// `csv::Writer::into_inner`: flushes the writer and gives back its bytes, the UTF-8 encoding of
/// the text it holds. It fails only when the flush fails, and flushing into a byte vector
/// does not fail.
#[verifier::external_body]
fn csv_into_bytes(writer: CsvBuffer) -> (bytes: Result<Vec<u8>, String>)
    ensures
        bytes is Ok,
        bytes matches Ok(b) ==> b@ == encode_utf8(csv_written(writer)),
{
    writer.writer.into_inner().map_err(|error| error.to_string())
}

/// The CSV text of a list of records: each record's text, in order.
pub open spec fn csv_table(records: Seq<Seq<Seq<char>>>) -> Seq<char>
    decreases records.len(),
{
    if records.len() == 0 {
        seq![]
    } else {
        csv_table(records.drop_last()) + csv_record(records.last())
    }
}

/// The records of a tally in CSV: a `word,count` header, then each word with its count in
/// decimal.
pub open spec fn tally_records(tally: Seq<(Word, Count)>) -> Seq<Seq<Seq<char>>> {
    seq![seq!["word"@, "count"@]] + tally.map_values(|pair: (Word, Count)| seq![pair.0@, decimal(pair.1 as nat)])
}

/// Whether every record has as many fields as the first one.
pub open spec fn same_width(records: Seq<Vec<String>>) -> bool {
    forall|i: int| 0 <= i < records.len() ==> #[trigger] records[i]@.len() == records[0]@.len()
}

/// Writes the records into a fresh CSV writer and gives back its text, which it always does
/// when every record has as many fields as the first one.
pub(crate) fn csv_text(records: &Vec<Vec<String>>) -> (result: Result<String, WordTallyError>)
    ensures
        same_width(records@) ==> result is Ok,
        result matches Ok(text) ==> text@ == csv_table(records@.map_values(|r: Vec<String>| string_views(r@))),
        result matches Err(e) ==> e is CsvSerialization,
{
    let ghost views = records@.map_values(|r: Vec<String>| string_views(r@));
    let mut writer = csv_writer_new();
    let mut i: usize = 0;
    while i < records.len()
        invariant
            0 <= i <= records@.len(),
            views == records@.map_values(|r: Vec<String>| string_views(r@)),
            csv_written(writer) == csv_table(views.take(i as int)),
            i == 0 ==> csv_record_width(writer) is None,
            i > 0 ==> csv_record_width(writer) == Some(records@[i - 1]@.len()),
            i > 0 && same_width(records@) ==> records@[i - 1]@.len() == records@[0]@.len(),
        decreases records@.len() - i,
    {
        proof {
            if same_width(records@) {
                assert(records@[i as int]@.len() == records@[0]@.len());
            }
        }
        match csv_write_record(&mut writer, &records[i]) {
            Ok(()) => {},
            Err(message) => return Err(WordTallyError::CsvSerialization(message)),
        }
        proof {
            assert(views.take(i + 1).drop_last() =~= views.take(i as int));
        }
        i = i + 1;
    }
    proof {
        assert(views.take(records@.len() as int) =~= views);
    }
    let bytes = match csv_into_bytes(writer) {
        Ok(bytes) => bytes,
        Err(message) => return Err(WordTallyError::CsvSerialization(message)),
    };
    proof {
        encode_utf8_valid_utf8(csv_written(writer));
    }
    match std_utf8_text(bytes.as_slice()) {
        Some(text) => {
            proof {
                encode_utf8_decode_utf8(text@);
                encode_utf8_decode_utf8(csv_written(writer));
            }
            Ok(text.to_owned())
        },
        None => Err(WordTallyError::CsvSerialization("CSV output is not valid UTF-8".to_owned())),
    }
}

/// The CSV serialization of a tally: a `word,count` header, then a record for each pair.
pub fn format_csv(tally: &[(Word, Count)]) -> (result: Result<String, WordTallyError>)
    ensures
        result matches Ok(text) && text@ == csv_table(tally_records(tally@)),
{
    let mut records: Vec<Vec<String>> = Vec::new();
    let mut header: Vec<String> = Vec::new();
    header.push("word".to_owned());
    header.push("count".to_owned());
    records.push(header);
    proof {
        assert(string_views(header@) =~= seq!["word"@, "count"@]);
        assert(records@.map_values(|r: Vec<String>| string_views(r@)) =~= tally_records(tally@.take(0)));
    }
    let mut i: usize = 0;
    while i < tally.len()
        invariant
            0 <= i <= tally@.len(),
            records@.len() == i + 1,
            records@.map_values(|r: Vec<String>| string_views(r@)) =~= tally_records(tally@.take(i as int)),
            forall|j: int| 0 <= j < records@.len() ==> #[trigger] records@[j]@.len() == 2,
        decreases tally@.len() - i,
    {
        let (word, count) = &tally[i];
        let mut record: Vec<String> = Vec::new();
        record.push(word.clone());
        record.push(decimal_string(*count as u64));
        let ghost before = records@;
        records.push(record);
        proof {
            assert(string_views(record@) =~= seq![word@, decimal(*count as nat)]);
            assert(tally@.take(i + 1) =~= tally@.take(i as int).push(tally@[i as int]));
            assert(records@ =~= before.push(record));
            assert(records@.map_values(|r: Vec<String>| string_views(r@)) =~= before.map_values(
                |r: Vec<String>| string_views(r@),
            ).push(string_views(record@)));
            assert(tally_records(tally@.take(i + 1)) =~= tally_records(tally@.take(i as int)).push(
                seq![tally@[i as int].0@, decimal(tally@[i as int].1 as nat)],
            ));
            assert(records@.map_values(|r: Vec<String>| string_views(r@)) =~= tally_records(tally@.take(i + 1)));
        }
        i = i + 1;
    }
    proof {
        assert(tally@.take(tally@.len() as int) =~= tally@);
        assert(same_width(records@));
    }
    csv_text(&records)
}

/// Text output reads back: the text of a tally with one more entry is the text of the tally,
/// then the entry's word, the field delimiter, a run of decimal digits that parses back to
/// exactly the entry's count, and the entry delimiter.
pub proof fn lemma_text_serialization_reads_back(
    tally: Seq<(Word, Count)>,
    entry: (Word, Count),
    field: Seq<char>,
    entry_delimiter: Seq<char>,
)
    ensures
        ({
            let digits = decimal(entry.1 as nat);
            &&& text_serialization(tally.push(entry), field, entry_delimiter) == text_serialization(
                tally,
                field,
                entry_delimiter,
            ) + entry.0@ + field + digits + entry_delimiter
            &&& digits.len() > 0
            &&& forall|i: int| 0 <= i < digits.len() ==> '0' <= #[trigger] digits[i] <= '9'
            &&& parsed_unsigned(digits, usize::MAX as nat) == Some(entry.1 as nat)
        }),
{
    assert(tally.push(entry).drop_last() =~= tally);
    lemma_decimal_parses_back(entry.1 as nat, usize::MAX as nat);
    lemma_decimal_digits(entry.1 as nat);
}

/// CSV output reads back: a `word,count` header first, then one record per entry, in order,
/// whose first field is the entry's word and whose second field is a run of decimal digits
/// that parses back to exactly the entry's count.
pub proof fn lemma_tally_records_read_back(tally: Seq<(Word, Count)>)
    ensures
        tally_records(tally).len() == tally.len() + 1,
        tally_records(tally)[0] == seq!["word"@, "count"@],
        forall|i: int|
            0 <= i < tally.len() ==> (#[trigger] tally_records(tally)[i + 1]).len() == 2 && tally_records(tally)[i
                + 1][0] == tally[i].0@ && parsed_unsigned(tally_records(tally)[i + 1][1], usize::MAX as nat) == Some(
                tally[i].1 as nat,
            ) && (forall|j: int|
                0 <= j < tally_records(tally)[i + 1][1].len() ==> '0' <= #[trigger] tally_records(tally)[i
                    + 1][1][j] <= '9'),
{
    assert forall|i: int| 0 <= i < tally.len() implies (#[trigger] tally_records(tally)[i + 1]).len() == 2
        && tally_records(tally)[i + 1][0] == tally[i].0@ && parsed_unsigned(
        tally_records(tally)[i + 1][1],
        usize::MAX as nat,
    ) == Some(tally[i].1 as nat) && (forall|j: int|
        0 <= j < tally_records(tally)[i + 1][1].len() ==> '0' <= #[trigger] tally_records(tally)[i + 1][1][j]
            <= '9') by {
        assert(tally_records(tally)[i + 1] == seq![tally[i].0@, decimal(tally[i].1 as nat)]);
        lemma_decimal_parses_back(tally[i].1 as nat, usize::MAX as nat);
        lemma_decimal_digits(tally[i].1 as nat);
    }
}

/// The decimal representation of a count.
pub fn decimal_string(n: u64) -> (text: String)
    ensures
        text@ == decimal(n as nat),
{
    let mut digits: Vec<char> = Vec::new();
    let mut rest = n;
    loop
        invariant_except_break
            decimal(n as nat) == decimal(rest as nat) + digits@.reverse(),
        ensures
            decimal(n as nat) == digits@.reverse(),
        decreases rest,
    {
        let d = (rest % 10) as u8;
        let c = (48u8 + d) as char;
        assert(c == digit_char(d as nat));
        if rest < 10 {
            proof {
                assert(digits@.push(c).reverse() =~= seq![c] + digits@.reverse());
            }
            digits.push(c);
            break;
        }
        proof {
            assert(decimal(rest as nat) == decimal((rest / 10) as nat).push(c));
            assert(digits@.push(c).reverse() =~= seq![c] + digits@.reverse());
            assert(decimal((rest / 10) as nat).push(c) + digits@.reverse() =~= decimal((rest / 10) as nat)
                + digits@.push(c).reverse());
        }
        digits.push(c);
        rest = rest / 10;
    }
    let mut text = String::new();
    let mut i = digits.len();
    while i > 0
        invariant
            0 <= i <= digits@.len(),
            text@ == digits@.skip(i as int).reverse(),
        decreases i,
    {
        i = i - 1;
        proof {
            assert(digits@.skip(i as int).reverse() =~= digits@.skip(i + 1).reverse().push(digits@[i as int]));
        }
        crate::options::delimiter::push_char(&mut text, digits[i]);
    }
    proof {
        assert(digits@.skip(0) =~= digits@);
    }
    text
}

/// The text serialization of a tally: `{word}{field}{count}{entry}` for each pair.
pub fn format_text(tally: &[(Word, Count)], field_delimiter: &str, entry_delimiter: &str) -> (text: String)
    ensures
        text@ == text_serialization(tally@, field_delimiter@, entry_delimiter@),
{
    let mut text = String::new();
    let mut i: usize = 0;
    while i < tally.len()
        invariant
            0 <= i <= tally@.len(),
            text@ == text_serialization(tally@.take(i as int), field_delimiter@, entry_delimiter@),
        decreases tally@.len() - i,
    {
        proof {
            assert(tally@.take(i + 1).drop_last() =~= tally@.take(i as int));
        }
        let (word, count) = &tally[i];
        text.append(word.as_str());
        text.append(field_delimiter);
        let digits = decimal_string(*count as u64);
        text.append(digits.as_str());
        text.append(entry_delimiter);
        i = i + 1;
    }
    proof {
        assert(tally@.take(tally@.len() as int) =~= tally@);
    }
    text
}

/// The JSON serialization of a tally, with a trailing newline.
pub fn format_json(tally: &[(Word, Count)]) -> (result: Result<String, WordTallyError>)
    ensures
        result matches Ok(text) && text@ == serde_json_pairs(pair_views(tally@)) + seq!['\n'],
{
    match json_pairs(tally) {
        Ok(json) => {
            let mut text = json;
            crate::options::delimiter::push_char(&mut text, '\n');
            Ok(text)
        },
        Err(message) => Err(WordTallyError::JsonSerialization(message)),
    }
}

/// The text, JSON or CSV serialization of a tally, as its options ask.
pub fn format_tally(word_tally: &WordTally) -> (result: Result<String, WordTallyError>)
    ensures
        match word_tally.spec_options().spec_serialization() {
            Serialization::Text(delimiters) => result matches Ok(text) && text@ == text_serialization(
                word_tally.spec_tally(),
                delimiters.spec_field(),
                delimiters.spec_entry(),
            ),
            Serialization::Json => result matches Ok(text) && text@ == serde_json_pairs(
                pair_views(word_tally.spec_tally()),
            ) + seq!['\n'],
            Serialization::Csv => result matches Ok(text) && text@ == csv_table(
                tally_records(word_tally.spec_tally()),
            ),
        },
{
    let tally = word_tally.tally();
    match word_tally.options().serialization() {
        Serialization::Text(delimiters) => Ok(format_text(tally, delimiters.field(), delimiters.entry())),
        Serialization::Json => format_json(tally),
        Serialization::Csv => format_csv(tally),
    }
}

} // verus!
