//! Word case normalization options.
use vstd::prelude::*;

use crate::options::case::{to_lowercase, to_uppercase, unicode_lowercase, unicode_uppercase};
use crate::Word;

verus! {

/// Word case normalization options.
#[derive(Clone, Copy, Debug, PartialEq, Eq, PartialOrd, Ord, Hash)]
pub enum Case {
    /// Keep the original case.
    Original,
    /// Convert to uppercase.
    Upper,
    /// Convert to lowercase.
    Lower,
}

impl Default for Case {
    fn default() -> (case: Self)
        ensures
            case == Case::Lower,
    {
        Case::Lower
    }
}

impl Case {
    /// The name of the case setting.
    pub fn to_string(&self) -> (name: String)
        ensures
            name@ == (match *self {
                Case::Lower => "lower"@,
                Case::Upper => "upper"@,
                Case::Original => "original"@,
            }),
    {
        match self {
            Case::Lower => "lower".to_owned(),
            Case::Upper => "upper".to_owned(),
            Case::Original => "original".to_owned(),
        }
    }

    /// Normalizes word case if a `Case` other than `Case::Original` is provided.
    pub fn normalize(&self, word: &str) -> (normalized: Word)
        ensures
            normalized@ == (match *self {
                Case::Lower => unicode_lowercase(word@),
                Case::Upper => unicode_uppercase(word@),
                Case::Original => word@,
            }),
    {
        match self {
            Case::Lower => to_lowercase(word),
            Case::Upper => to_uppercase(word),
            Case::Original => word.to_owned(),
        }
    }
}

} // verus!
