//! Trusted declarations around the `regex` crate. A compiled regex is
//! opaque; its behaviour is named: what a pattern matches, and which named
//! groups it captures, are functions of the pattern and the haystack alone.

use vstd::prelude::*;

verus! {

#[verifier::external_type_specification]
#[verifier::external_body]
pub struct ExRegex(regex::Regex);

/// The pattern a compiled regex holds, the one `Regex::as_str` returns.
/// Every regex of this crate comes from `regex_new`, so it was built with
/// the default configuration and its pattern determines its behaviour.
pub uninterp spec fn regex_pattern(re: regex::Regex) -> Seq<char>;

/// Whether the default regex builder accepts a pattern: with the default
/// configuration, compilation success is a function of the pattern alone.
pub uninterp spec fn pattern_compiles(p: Seq<char>) -> bool;

/// Whether the regex compiled from `pattern` matches somewhere in `text`.
pub uninterp spec fn regex_match(pattern: Seq<char>, text: Seq<char>) -> bool;

/// The named capture groups of the first match of `pattern` in `text`, as
/// (group name, matched text) pairs in group order.
pub uninterp spec fn regex_caps(pattern: Seq<char>, text: Seq<char>) -> Seq<
    (Seq<char>, Seq<char>),
>;

/// Relies on `regex::Regex::new`: whether a pattern compiles is decided
/// by the pattern alone, and a successfully compiled regex keeps the
/// pattern string it was built from.
#[verifier::external_body]
pub fn regex_new(pattern: &str) -> (r: Result<regex::Regex, String>)
    ensures
        r is Ok <==> pattern_compiles(pattern@),
        r matches Ok(re) ==> regex_pattern(re) == pattern@,
{
    regex::Regex::new(pattern).map_err(|e| e.to_string())
}

/// Relies on `regex::Regex::is_match`: the result depends on the pattern
/// and the haystack alone.
#[verifier::external_body]
pub fn regex_is_match(re: &regex::Regex, text: &str) -> (r: bool)
    ensures
        r == regex_match(regex_pattern(*re), text@),
{
    re.is_match(text)
}

/// Relies on `regex::Regex::captures` and `Captures::name`: capture
/// information exists exactly when the regex matches, and the named groups
/// of the first match depend on the pattern and the haystack alone.
#[verifier::external_body]
pub fn regex_captures(re: &regex::Regex, text: &str) -> (r: Option<Vec<(String, String)>>)
    ensures
        r is Some <==> regex_match(regex_pattern(*re), text@),
        r matches Some(v) ==> crate::strutil::pairs_view(v@) == regex_caps(
            regex_pattern(*re),
            text@,
        ),
{
    let caps = re.captures(text)?;
    let mut out = Vec::new();
    for name in re.capture_names().flatten() {
        if let Some(m) = caps.name(name) {
            out.push((name.to_string(), m.as_str().to_string()));
        }
    }
    Some(out)
}

} // verus!
