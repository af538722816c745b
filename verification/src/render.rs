//! Debug rendering of text, as `{:?}` shows a string.
use vstd::prelude::*;

verus! {

/// The text `<str as Debug>::fmt` writes for a string of the characters
/// `s`: the string between double quotes, each character escaped as
/// `char::escape_debug` does.
pub uninterp spec fn str_debug(s: Seq<char>) -> Seq<char>;

/// Whether `c` is printable ASCII that the debug rendering of a string
/// leaves as it is (neither a quote nor a backslash).
pub open spec fn plain_debug_char(c: char) -> bool {
    ' ' <= c <= '~' && c != '"' && c != '\\' && c != '\''
}

/// Renders `s` with `format!("{:?}", s)`.
///
/// Trusted: the result is the named `str_debug` of the text, and a text of
/// printable ASCII without quotes or backslashes comes out between double
/// quotes unchanged, as the std documentation of `char::escape_debug` and
/// `char::escape_default` gives. How other characters are escaped is left
/// to the name.
#[verifier::external_body]
pub(crate) fn debug_quoted(s: &str) -> (text: String)
    ensures
        text@ == str_debug(s@),
        (forall|i: int| 0 <= i < s@.len() ==> plain_debug_char(#[trigger] s@[i])) ==> text@
            == seq!['"'] + s@ + seq!['"'],
{
    format!("{:?}", s)
}

} // verus!
