//! Delimiters for text serialization.
use vstd::prelude::*;

use crate::options::delimiter::{debug_quoted, format_debug};

verus! {

/// Delimiters for text format serialization.
#[derive(Clone, Debug, PartialEq, Eq, Hash)]
pub struct Delimiters {
    field: String,
    entry: String,
}

impl Delimiters {
    /// Default delimiter between field and value.
    pub const DEFAULT_FIELD: &'static str = " ";
    /// Default delimiter between entries.
    pub const DEFAULT_ENTRY: &'static str = "\n";

    /// The delimiter between a word and its count.
    pub closed spec fn spec_field(&self) -> Seq<char> {
        self.field@
    }

    /// The delimiter between entries.
    pub closed spec fn spec_entry(&self) -> Seq<char> {
        self.entry@
    }

    /// Create delimiters with specified field and entry separators.
    pub fn new(field: &str, entry: &str) -> (d: Self)
        ensures
            d.spec_field() == field@,
            d.spec_entry() == entry@,
    {
        Delimiters { field: field.to_owned(), entry: entry.to_owned() }
    }

    /// Set the field delimiter.
    pub fn with_field_delimiter(self, delimiter: &str) -> (d: Self)
        ensures
            d.spec_field() == delimiter@,
            d.spec_entry() == self.spec_entry(),
    {
        Delimiters { field: delimiter.to_owned(), entry: self.entry }
    }

    /// Set the entry delimiter.
    pub fn with_entry_delimiter(self, delimiter: &str) -> (d: Self)
        ensures
            d.spec_field() == self.spec_field(),
            d.spec_entry() == delimiter@,
    {
        Delimiters { field: self.field, entry: delimiter.to_owned() }
    }

    /// The delimiters as settings show them: `field=` and `entry=` with each quoted.
    pub fn to_string(&self) -> (text: String)
        ensures
            text@ == "field="@ + debug_quoted(self.spec_field()) + ", entry="@ + debug_quoted(self.spec_entry()),
    {
        let mut text = "field=".to_owned();
        let field = self.field_display();
        text.append(field.as_str());
        text.append(", entry=");
        let entry = self.entry_display();
        text.append(entry.as_str());
        text
    }

    /// Get the field delimiter.
    pub fn field(&self) -> (field: &str)
        ensures
            field@ == self.spec_field(),
    {
        self.field.as_str()
    }

    /// Get the entry delimiter.
    pub fn entry(&self) -> (entry: &str)
        ensures
            entry@ == self.spec_entry(),
    {
        self.entry.as_str()
    }

    /// Get the field delimiter formatted for display.
    pub fn field_display(&self) -> (shown: String)
        ensures
            shown@ == debug_quoted(self.spec_field()),
    {
        format_debug(self.field.as_str())
    }

    /// Get the entry delimiter formatted for display.
    pub fn entry_display(&self) -> (shown: String)
        ensures
            shown@ == debug_quoted(self.spec_entry()),
    {
        format_debug(self.entry.as_str())
    }

    /// A copy of the delimiters.
    pub fn copy(&self) -> (d: Self)
        ensures
            d.spec_field() == self.spec_field(),
            d.spec_entry() == self.spec_entry(),
    {
        Delimiters { field: self.field.clone(), entry: self.entry.clone() }
    }
}

impl Default for Delimiters {
    fn default() -> (d: Self)
        ensures
            d.spec_field() == " "@,
            d.spec_entry() == "\n"@,
    {
        Delimiters::new(Self::DEFAULT_FIELD, Self::DEFAULT_ENTRY)
    }
}

} // verus!
