//! Word case normalization options.
use vstd::prelude::*;

verus! {

/// The Unicode lowercase mapping of a text (what `str::to_lowercase` returns).
pub uninterp spec fn unicode_lowercase(text: Seq<char>) -> Seq<char>;

/// The Unicode uppercase mapping of a text (what `str::to_uppercase` returns).
pub uninterp spec fn unicode_uppercase(text: Seq<char>) -> Seq<char>;

/// `str::to_lowercase`, whose result is named `unicode_lowercase`.
#[verifier::external_body]
pub(crate) fn to_lowercase(text: &str) -> (lowered: String)
    ensures
        lowered@ == unicode_lowercase(text@),
{
    text.to_lowercase()
}

/// `str::to_uppercase`, whose result is named `unicode_uppercase`.
#[verifier::external_body]
pub(crate) fn to_uppercase(text: &str) -> (raised: String)
    ensures
        raised@ == unicode_uppercase(text@),
{
    text.to_uppercase()
}

/// Whether `c` is one of the ASCII letters `A` to `Z`.
pub open spec fn is_ascii_upper(c: char) -> bool {
    'A' <= c && c <= 'Z'
}

/// Whether `c` is one of the ASCII letters `a` to `z`.
pub open spec fn is_ascii_lower(c: char) -> bool {
    'a' <= c && c <= 'z'
}

/// The ASCII lowercase of a character: `A` to `Z` become `a` to `z`, all else is unchanged.
pub open spec fn ascii_lower_char(c: char) -> char {
    if is_ascii_upper(c) {
        ((c as u32) + 32) as char
    } else {
        c
    }
}

/// The ASCII uppercase of a character: `a` to `z` become `A` to `Z`, all else is unchanged.
pub open spec fn ascii_upper_char(c: char) -> char {
    if is_ascii_lower(c) {
        ((c as u32) - 32) as char
    } else {
        c
    }
}

/// A text with each character mapped to its ASCII lowercase.
pub open spec fn ascii_lowercase(text: Seq<char>) -> Seq<char> {
    text.map_values(|c: char| ascii_lower_char(c))
}

/// A text with each character mapped to its ASCII uppercase.
pub open spec fn ascii_uppercase(text: Seq<char>) -> Seq<char> {
    text.map_values(|c: char| ascii_upper_char(c))
}

/// `str::to_ascii_lowercase`: each character is mapped to its ASCII lowercase.
#[verifier::external_body]
fn to_ascii_lowercase(text: &str) -> (lowered: String)
    ensures
        lowered@ == ascii_lowercase(text@),
{
    text.to_ascii_lowercase()
}

/// `str::to_ascii_uppercase`: each character is mapped to its ASCII uppercase.
#[verifier::external_body]
fn to_ascii_uppercase(text: &str) -> (raised: String)
    ensures
        raised@ == ascii_uppercase(text@),
{
    text.to_ascii_uppercase()
}

/// Word case normalization options.
#[derive(Clone, Copy, Debug, PartialEq, Eq, Hash)]
pub enum Case {
    /// Keep original case.
    Original,
    /// Convert to uppercase.
    Upper,
    /// Convert to lowercase.
    Lower,
}

impl Default for Case {
    fn default() -> (case: Self)
        ensures
            case == Case::Original,
    {
        Case::Original
    }
}

/// What `Case::normalize_unicode` makes of `text`.
pub open spec fn normalize_unicode_spec(case: Case, text: Seq<char>) -> Seq<char> {
    match case {
        Case::Lower => unicode_lowercase(text),
        Case::Upper => unicode_uppercase(text),
        Case::Original => text,
    }
}

/// What `Case::normalize_ascii` makes of `text`.
pub open spec fn normalize_ascii_spec(case: Case, text: Seq<char>) -> Seq<char> {
    match case {
        Case::Lower => ascii_lowercase(text),
        Case::Upper => ascii_uppercase(text),
        Case::Original => text,
    }
}

/// ASCII case normalization works character by character: lowercasing turns each of `A` to
/// `Z` into the letter 32 code points later and keeps every other character; uppercasing turns
/// each of `a` to `z` into the letter 32 code points earlier and keeps every other character.
/// So no uppercase ASCII letter is left after lowercasing, and no lowercase one after
/// uppercasing.
pub proof fn lemma_normalize_ascii_letters(text: Seq<char>)
    ensures
        normalize_ascii_spec(Case::Lower, text).len() == text.len(),
        normalize_ascii_spec(Case::Upper, text).len() == text.len(),
        normalize_ascii_spec(Case::Original, text) == text,
        forall|i: int| 0 <= i < text.len() ==> #[trigger] normalize_ascii_spec(Case::Lower, text)[i] == (if 'A'
            <= text[i] <= 'Z' {
            ((text[i] as u32) + 32) as char
        } else {
            text[i]
        }),
        forall|i: int| 0 <= i < text.len() ==> #[trigger] normalize_ascii_spec(Case::Upper, text)[i] == (if 'a'
            <= text[i] <= 'z' {
            ((text[i] as u32) - 32) as char
        } else {
            text[i]
        }),
        forall|i: int| 0 <= i < text.len() ==> !('A' <= #[trigger] normalize_ascii_spec(Case::Lower, text)[i] <= 'Z'),
        forall|i: int| 0 <= i < text.len() ==> !('a' <= #[trigger] normalize_ascii_spec(Case::Upper, text)[i] <= 'z'),
{
    assert forall|i: int| 0 <= i < text.len() implies !('A' <= #[trigger] normalize_ascii_spec(Case::Lower, text)[i]
        <= 'Z') by {
        let c = text[i];
        if 'A' <= c <= 'Z' {
            assert(((c as u32) + 32) as char == normalize_ascii_spec(Case::Lower, text)[i]);
        }
    }
    assert forall|i: int| 0 <= i < text.len() implies !('a' <= #[trigger] normalize_ascii_spec(Case::Upper, text)[i]
        <= 'z') by {
        let c = text[i];
        if 'a' <= c <= 'z' {
            assert(((c as u32) - 32) as char == normalize_ascii_spec(Case::Upper, text)[i]);
        }
    }
}

/// Normalizing ASCII case twice is normalizing it once.
pub proof fn lemma_normalize_ascii_idempotent(case: Case, text: Seq<char>)
    ensures
        normalize_ascii_spec(case, normalize_ascii_spec(case, text)) == normalize_ascii_spec(case, text),
{
    match case {
        Case::Lower => {
            assert(ascii_lowercase(ascii_lowercase(text)) =~= ascii_lowercase(text));
        },
        Case::Upper => {
            assert(ascii_uppercase(ascii_uppercase(text)) =~= ascii_uppercase(text));
        },
        Case::Original => {},
    }
}

/// ASCII case normalization keeps the length of a text.
pub proof fn lemma_normalize_ascii_length(case: Case, text: Seq<char>)
    ensures
        normalize_ascii_spec(case, text).len() == text.len(),
{
}

impl Case {
    /// The name of the case setting, as the command line spells it.
    pub fn to_string(&self) -> (name: String)
        ensures
            name@ == (match *self {
                Case::Lower => "lower"@,
                Case::Upper => "upper"@,
                Case::Original => "original"@,
            }),
    {
        match self {
            Case::Lower => "lower".to_owned(),
            Case::Upper => "upper".to_owned(),
            Case::Original => "original".to_owned(),
        }
    }

    /// Normalize text using Unicode case conversion: the full Unicode lowercase or uppercase
    /// mapping of the text (title-case letters included), or the text itself for `Original`.
    pub fn normalize_unicode(&self, content: &str) -> (normalized: String)
        ensures
            normalized@ == normalize_unicode_spec(*self, content@),
    {
        match self {
            Case::Lower => to_lowercase(content),
            Case::Upper => to_uppercase(content),
            Case::Original => content.to_owned(),
        }
    }

    /// ASCII-specific normalization: only the letters `A` to `Z` and `a` to `z` change.
    pub fn normalize_ascii(&self, content: &str) -> (normalized: String)
        ensures
            normalized@ == normalize_ascii_spec(*self, content@),
    {
        match self {
            Case::Lower => {
                if no_ascii_where(content, true) {
                    proof {
                        assert(ascii_lowercase(content@) =~= content@);
                    }
                    content.to_owned()
                } else {
                    to_ascii_lowercase(content)
                }
            },
            Case::Upper => {
                if no_ascii_where(content, false) {
                    proof {
                        assert(ascii_uppercase(content@) =~= content@);
                    }
                    content.to_owned()
                } else {
                    to_ascii_uppercase(content)
                }
            },
            Case::Original => content.to_owned(),
        }
    }
}

/// Whether no character of `content` is an ASCII uppercase (`upper`) or lowercase (`!upper`) letter.
fn no_ascii_where(content: &str, upper: bool) -> (none: bool)
    ensures
        none == (forall|i: int|
            0 <= i < content@.len() ==> !(if upper {
                is_ascii_upper(#[trigger] content@[i])
            } else {
                is_ascii_lower(content@[i])
            })),
{
    let mut none = true;
    for c in it: content.chars()
        invariant
            it.seq() == content@,
            none == (forall|j: int|
                0 <= j < it.index() ==> !(if upper {
                    is_ascii_upper(#[trigger] content@[j])
                } else {
                    is_ascii_lower(content@[j])
                })),
    {
        let hit = if upper {
            'A' <= c && c <= 'Z'
        } else {
            'a' <= c && c <= 'z'
        };
        if hit {
            none = false;
        }
    }
    none
}

} // verus!
