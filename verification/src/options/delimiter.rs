//! Delimiters for text serialization.
use vstd::prelude::*;

verus! {

/// How `{:?}` shows a string: quoted, with quotes, backslashes and non-printable characters
/// escaped (what `<str as Debug>::fmt` writes).
pub uninterp spec fn debug_quoted(text: Seq<char>) -> Seq<char>;

/// `format!("{:?}", text)`, whose result is named `debug_quoted`.
#[verifier::external_body]
pub(crate) fn format_debug(text: &str) -> (quoted: String)
    ensures
        quoted@ == debug_quoted(text@),
{
    format!("{:?}", text)
}

/// `String::push`: appends one character.
#[verifier::external_body]
pub(crate) fn push_char(s: &mut String, c: char)
    ensures
        final(s)@ == old(s)@.push(c),
{
    s.push(c);
}

/// The character that an escape code after a backslash stands for.
pub open spec fn escaped(code: char) -> char {
    if code == '0' {
        '\0'
    } else if code == 'n' {
        '\n'
    } else if code == 'r' {
        '\r'
    } else if code == 't' {
        '\t'
    } else {
        code
    }
}

/// A text with its escape sequences (`\0`, `\n`, `\r`, `\t`, `\\`, `\"`) replaced by the
/// characters they stand for; a backslash before any other character is dropped, and a
/// trailing backslash is kept.
pub open spec fn unescaped(s: Seq<char>) -> Seq<char>
    decreases s.len(),
{
    if s.len() == 0 {
        seq![]
    } else if s[0] == '\\' {
        if s.len() == 1 {
            seq!['\\']
        } else {
            seq![escaped(s[1])] + unescaped(s.subrange(2, s.len() as int))
        }
    } else {
        seq![s[0]] + unescaped(s.drop_first())
    }
}

/// Each escape sequence at the front of a text becomes its own character, and the rest of the
/// text is unescaped on its own: `\0` is NUL (U+0000), `\n` a line feed (U+000A), `\r` a
/// carriage return (U+000D), `\t` a tab (U+0009), `\\` a backslash and `\"` a double quote.
pub proof fn lemma_unescaped_escapes(rest: Seq<char>)
    ensures
        unescaped(seq!['\\', '0'] + rest) == seq!['\u{0}'] + unescaped(rest),
        unescaped(seq!['\\', 'n'] + rest) == seq!['\u{a}'] + unescaped(rest),
        unescaped(seq!['\\', 'r'] + rest) == seq!['\u{d}'] + unescaped(rest),
        unescaped(seq!['\\', 't'] + rest) == seq!['\u{9}'] + unescaped(rest),
        unescaped(seq!['\\', '\\'] + rest) == seq!['\\'] + unescaped(rest),
        unescaped(seq!['\\', '"'] + rest) == seq!['"'] + unescaped(rest),
{
    assert((seq!['\\', '0'] + rest).subrange(2, rest.len() + 2int) =~= rest);
    assert((seq!['\\', 'n'] + rest).subrange(2, rest.len() + 2int) =~= rest);
    assert((seq!['\\', 'r'] + rest).subrange(2, rest.len() + 2int) =~= rest);
    assert((seq!['\\', 't'] + rest).subrange(2, rest.len() + 2int) =~= rest);
    assert((seq!['\\', '\\'] + rest).subrange(2, rest.len() + 2int) =~= rest);
    assert((seq!['\\', '"'] + rest).subrange(2, rest.len() + 2int) =~= rest);
}

/// Any other character at the front of a text is kept, and the rest is unescaped on its own.
pub proof fn lemma_unescaped_plain_front(c: char, rest: Seq<char>)
    requires
        c != '\\',
    ensures
        unescaped(seq![c] + rest) == seq![c] + unescaped(rest),
{
    assert((seq![c] + rest).drop_first() =~= rest);
}

/// A text without backslashes has nothing to unescape: it is its own unescaped form.
pub proof fn lemma_unescaped_plain(s: Seq<char>)
    requires
        forall|i: int| 0 <= i < s.len() ==> s[i] != '\\',
    ensures
        unescaped(s) == s,
    decreases s.len(),
{
    if s.len() > 0 {
        lemma_unescaped_plain(s.drop_first());
        assert(seq![s[0]] + s.drop_first() =~= s);
    }
}

/// A delimiter separates text serialization words/counts or entries.
#[derive(Clone, Debug, PartialEq, Eq, Hash)]
pub struct Delimiter(String);

impl View for Delimiter {
    type V = Seq<char>;

    closed spec fn view(&self) -> Seq<char> {
        self.0@
    }
}

/// The characters of a text, in order.
fn chars_of(s: &str) -> (chars: Vec<char>)
    ensures
        chars@ == s@,
{
    let mut chars: Vec<char> = Vec::new();
    for c in it: s.chars()
        invariant
            it.seq() == s@,
            chars@ == s@.take(it.index() as int),
    {
        proof {
            assert(s@.take(it.index() + 1) =~= chars@.push(c));
        }
        chars.push(c);
    }
    proof {
        assert(s@.take(s@.len() as int) =~= s@);
    }
    chars
}

impl Delimiter {
    /// Default delimiter between field and value.
    pub const DEFAULT_FIELD: &'static str = " ";
    /// Default delimiter between entries.
    pub const DEFAULT_ENTRY: &'static str = "\n";

    /// Create from a literal (already-unescaped) string.
    pub fn from_literal(s: &str) -> (d: Self)
        ensures
            d@ == s@,
    {
        Delimiter(s.to_owned())
    }

    /// Create from an escaped string, replacing its escape sequences.
    pub fn from_escaped(s: &str) -> (d: Self)
        ensures
            d@ == unescaped(s@),
    {
        Delimiter(Self::unescape(s))
    }

    /// Create from an owned string, taken as it is.
    pub fn from_string(s: String) -> (d: Self)
        ensures
            d@ == s@,
    {
        Delimiter(s)
    }

    /// Get the unescaped delimiter for use in output.
    pub fn as_str(&self) -> (s: &str)
        ensures
            s@ == self@,
    {
        self.0.as_str()
    }

    /// Get a quoted representation suitable for verbose output, so that every delimiter is
    /// visible, spaces included.
    pub fn display_quoted(&self) -> (quoted: String)
        ensures
            quoted@ == debug_quoted(self@),
    {
        format_debug(self.0.as_str())
    }

    /// Unescape common escape sequences in a string.
    fn unescape(s: &str) -> (result: String)
        ensures
            result@ == unescaped(s@),
    {
        let chars = chars_of(s);
        let n = chars.len();
        let mut result = String::new();
        let mut i: usize = 0;
        proof {
            assert(s@.subrange(0, n as int) =~= s@);
            assert(result@ + unescaped(s@) =~= unescaped(s@));
        }
        while i < n
            invariant
                n == chars@.len(),
                chars@ == s@,
                0 <= i <= n,
                unescaped(s@) == result@ + unescaped(s@.subrange(i as int, n as int)),
            decreases n - i,
        {
            let ghost rest = s@.subrange(i as int, n as int);
            let ch = chars[i];
            if ch == '\\' {
                if i + 1 < n {
                    let code = chars[i + 1];
                    let c = if code == '0' {
                        '\0'
                    } else if code == 'n' {
                        '\n'
                    } else if code == 'r' {
                        '\r'
                    } else if code == 't' {
                        '\t'
                    } else {
                        code
                    };
                    proof {
                        assert(rest.subrange(2, rest.len() as int) =~= s@.subrange(
                            i + 2,
                            n as int,
                        ));
                    }
                    push_char(&mut result, c);
                    i = i + 2;
                } else {
                    push_char(&mut result, '\\');
                    i = i + 1;
                }
            } else {
                proof {
                    assert(rest.drop_first() =~= s@.subrange(i + 1, n as int));
                }
                push_char(&mut result, ch);
                i = i + 1;
            }
        }
        result
    }
}

impl Default for Delimiter {
    fn default() -> (d: Self)
        ensures
            d@ == " "@,
    {
        Self::from_literal(Self::DEFAULT_FIELD)
    }
}

} // verus!
