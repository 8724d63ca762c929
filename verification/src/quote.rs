//! Text and characters in the quoted form that diagnostics show them in.

use vstd::prelude::*;

verus! {

/// `s` in the form that `{:?}` gives a `str`: in double quotes, with escapes.
pub uninterp spec fn quoted_str(s: Seq<char>) -> Seq<char>;

/// `s` in the form that `{:?}` gives a path or another operating-system string:
/// in double quotes, with escapes.
pub uninterp spec fn quoted_os_str(s: Seq<char>) -> Seq<char>;

/// `c` in the form that `{:?}` gives a `char`: in single quotes, with escapes.
pub uninterp spec fn quoted_char(c: char) -> Seq<char>;

/// Calls `<str as Debug>::fmt` through `format!`. Claims only that the result is a
/// function of the characters of `s`; which characters are escaped, and how, is
/// left unsaid.
#[verifier::external_body]
pub(crate) fn quote_str(s: &str) -> (r: String)
    ensures
        r@ == quoted_str(s@),
{
    format!("{:?}", s)
}

/// Calls `<Path as Debug>::fmt`, which is that of the operating-system string
/// inside, through `format!`. Claims only that the result is a function of the
/// characters of `s`; which characters are escaped, and how, is left unsaid.
#[verifier::external_body]
pub(crate) fn quote_os_str(s: &str) -> (r: String)
    ensures
        r@ == quoted_os_str(s@),
{
    format!("{:?}", std::path::Path::new(s))
}

/// Calls `<char as Debug>::fmt` through `format!`. Claims only that the result is a
/// function of `c`; which characters are escaped, and how, is left unsaid.
#[verifier::external_body]
pub(crate) fn quote_char(c: char) -> (r: String)
    ensures
        r@ == quoted_char(c),
{
    format!("{:?}", c)
}

} // verus!
