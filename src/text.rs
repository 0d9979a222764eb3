//! Named results of the std and regex text operations that the file rules
//! use. Each is a function of its arguments alone.

use vstd::prelude::*;

verus! {

/// `s` with every occurrence of `from` replaced by `to`, as `str::replace`
/// computes it.
pub uninterp spec fn replaced(s: Seq<char>, from: Seq<char>, to: Seq<char>) -> Seq<char>;

/// `s` without leading and trailing whitespace, as `str::trim` computes it.
pub uninterp spec fn trimmed(s: Seq<char>) -> Seq<char>;

/// The pieces of `s` between occurrences of `sep`, as `str::split` yields
/// them.
pub uninterp spec fn pieces(s: Seq<char>, sep: Seq<char>) -> Seq<Seq<char>>;

/// The lines of `s`, as `str::lines` yields them.
pub uninterp spec fn lines_of(s: Seq<char>) -> Seq<Seq<char>>;

/// The first capture group of the first match of regular expression
/// `pattern` in `s`, if there is one.
pub uninterp spec fn regex_capture(pattern: Seq<char>, s: Seq<char>) -> Option<Seq<char>>;

/// `s` with every match of `pattern` replaced by `rep` (with `$name` group
/// references expanded), as the regex crate's `replace_all` computes it.
pub uninterp spec fn regex_replaced(pattern: Seq<char>, s: Seq<char>, rep: Seq<char>) -> Seq<char>;

/// Relies on `str::replace`.
#[verifier::external_body]
pub(crate) fn replace(s: &str, from: &str, to: &str) -> (r: String)
    ensures
        r@ == replaced(s@, from@, to@),
{
    s.replace(from, to)
}

/// Relies on `str::trim`.
#[verifier::external_body]
pub(crate) fn trim(s: &str) -> (r: String)
    ensures
        r@ == trimmed(s@),
{
    s.trim().to_string()
}

/// Relies on `str::split`.
#[verifier::external_body]
pub(crate) fn split(s: &str, sep: &str) -> (r: Vec<String>)
    ensures
        r.deep_view() == pieces(s@, sep@),
{
    s.split(sep).map(str::to_string).collect()
}

/// Relies on `str::lines`.
#[verifier::external_body]
pub(crate) fn lines(s: &str) -> (r: Vec<String>)
    ensures
        r.deep_view() == lines_of(s@),
{
    s.lines().map(str::to_string).collect()
}

/// Relies on the regex crate: `Regex::new(pattern)`, then `captures` and its
/// group 1. A pattern that does not compile captures nothing.
#[verifier::external_body]
pub(crate) fn capture(pattern: &str, s: &str) -> (r: Option<String>)
    ensures
        r.deep_view() == regex_capture(pattern@, s@),
{
    let re = regex::Regex::new(pattern).ok()?;
    re.captures(s)?.get(1).map(|m| m.as_str().to_string())
}

/// Relies on the regex crate: `Regex::new(pattern)`, then `replace_all`. A
/// pattern that does not compile leaves the text as it is.
#[verifier::external_body]
pub(crate) fn replace_all(pattern: &str, s: &str, rep: &str) -> (r: String)
    ensures
        r@ == regex_replaced(pattern@, s@, rep@),
{
    match regex::Regex::new(pattern) {
        Ok(re) => re.replace_all(s, rep).into_owned(),
        Err(_) => s.to_string(),
    }
}

} // verus!
