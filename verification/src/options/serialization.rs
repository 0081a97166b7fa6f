//! Serialization format options and settings.
use vstd::prelude::*;

use crate::options::delimiter::debug_quoted;
use crate::options::delimiters::Delimiters;

verus! {

/// Serialization format options.
#[derive(Clone, Debug, PartialEq, Eq, Hash)]
pub enum Serialization {
    /// Plain text output with configurable delimiters.
    Text(Delimiters),
    /// JSON output.
    Json,
    /// CSV output.
    Csv,
}

impl Default for Serialization {
    fn default() -> (s: Self)
        ensures
            s matches Serialization::Text(d) && d.spec_field() == " "@ && d.spec_entry() == "\n"@,
    {
        Serialization::Text(Delimiters::default())
    }
}

impl Serialization {
    /// Text output with the default delimiters.
    pub fn text() -> (s: Self)
        ensures
            s matches Serialization::Text(d) && d.spec_field() == " "@ && d.spec_entry() == "\n"@,
    {
        Serialization::Text(Delimiters::default())
    }

    /// Get the field delimiter formatted for display, or "n/a" if not text format.
    pub fn field_delimiter_display(&self) -> (shown: String)
        ensures
            shown@ == (match *self {
                Serialization::Text(d) => debug_quoted(d.spec_field()),
                _ => "n/a"@,
            }),
    {
        match self {
            Serialization::Text(delimiters) => delimiters.field_display(),
            _ => "n/a".to_owned(),
        }
    }

    /// Get the entry delimiter formatted for display, or "n/a" if not text format.
    pub fn entry_delimiter_display(&self) -> (shown: String)
        ensures
            shown@ == (match *self {
                Serialization::Text(d) => debug_quoted(d.spec_entry()),
                _ => "n/a"@,
            }),
    {
        match self {
            Serialization::Text(delimiters) => delimiters.entry_display(),
            _ => "n/a".to_owned(),
        }
    }

    /// The serialization as settings show it: `text[..]` with its delimiters, `json` or `csv`.
    pub fn to_string(&self) -> (text: String)
        ensures
            text@ == (match *self {
                Serialization::Text(d) => "text["@ + ("field="@ + debug_quoted(d.spec_field()) + ", entry="@
                    + debug_quoted(d.spec_entry())) + "]"@,
                Serialization::Json => "json"@,
                Serialization::Csv => "csv"@,
            }),
    {
        match self {
            Serialization::Text(delimiters) => {
                let mut text = "text[".to_owned();
                let shown = delimiters.to_string();
                text.append(shown.as_str());
                text.append("]");
                text
            },
            Serialization::Json => "json".to_owned(),
            Serialization::Csv => "csv".to_owned(),
        }
    }

    /// The name of the format.
    pub fn format_name(&self) -> (name: String)
        ensures
            name@ == (match *self {
                Serialization::Text(_) => "text"@,
                Serialization::Json => "json"@,
                Serialization::Csv => "csv"@,
            }),
    {
        match self {
            Serialization::Text(_) => "text".to_owned(),
            Serialization::Json => "json".to_owned(),
            Serialization::Csv => "csv".to_owned(),
        }
    }

    /// A copy of the settings.
    pub fn copy(&self) -> (s: Self)
        ensures
            match (*self, s) {
                (Serialization::Text(a), Serialization::Text(b)) => a.spec_field() == b.spec_field()
                    && a.spec_entry() == b.spec_entry(),
                (Serialization::Json, Serialization::Json) => true,
                (Serialization::Csv, Serialization::Csv) => true,
                _ => false,
            },
    {
        match self {
            Serialization::Text(d) => Serialization::Text(d.copy()),
            Serialization::Json => Serialization::Json,
            Serialization::Csv => Serialization::Csv,
        }
    }
}

} // verus!
