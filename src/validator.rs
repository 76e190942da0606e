//! URL syntax validation.
use vstd::prelude::*;

verus! {

/// Whether `regex::Regex::new` accepts a pattern.
pub uninterp spec fn regex_compiles(pattern: Seq<char>) -> bool;

/// What `regex::Regex::is_match` answers for a compiled pattern and a text.
pub uninterp spec fn regex_matches(pattern: Seq<char>, text: Seq<char>) -> bool;

/// Relies on regex::Regex::new (the pattern compiles or not, depending on the
/// pattern alone) and regex::Regex::is_match (whether the text matches).
#[verifier::external_body]
fn regex_match(pattern: &str, text: &str) -> (r: Option<bool>)
    ensures
        r is Some <==> regex_compiles(pattern@),
        r matches Some(b) ==> b == regex_matches(pattern@, text@),
{
    match regex::Regex::new(pattern) {
        Ok(re) => Some(re.is_match(text)),
        Err(_) => None,
    }
}

/// http, https or ftp; a dotted host; an optional port; an optional path.
pub const URL_PATTERN: &'static str = r"^(https?|ftp)://[\w\-]+(\.[\w\-]+)+(:\d+)?(/[\w\-./?%&=]*)?$";

/// Whether `url` is a well-formed http, https or ftp URL.
pub fn is_valid_url(url: &str) -> (r: bool)
    ensures
        r == (regex_compiles(URL_PATTERN@) && regex_matches(URL_PATTERN@, url@)),
{
    match regex_match(URL_PATTERN, url) {
        Some(b) => b,
        None => false,
    }
}

} // verus!
