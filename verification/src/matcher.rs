//! The regular-expression capability, consumed from the `regex` crate.
//!
//! This library decides how patterns are built and composed but does not
//! implement a matching engine: compiled matchers are `regex::Regex` values,
//! and what a pattern matches is named, not written out. `re_match` and
//! `re_count` name the results of `is_match` and `find_iter` as functions of
//! the pattern, the case mode and the text; `re_valid` names whether a
//! pattern compiles under the builder's default configuration.

use vstd::prelude::*;

verus! {

#[verifier::external_type_specification]
#[verifier::external_body]
pub struct ExRegex(regex::Regex);

/// The pattern a compiled matcher was built from.
pub uninterp spec fn re_pattern(re: regex::Regex) -> Seq<char>;

/// The case mode a compiled matcher was built with.
pub uninterp spec fn re_ci(re: regex::Regex) -> bool;

/// Whether `regex::RegexBuilder::build` accepts the pattern (with the given
/// case mode) under its default configuration.
pub uninterp spec fn re_valid(pattern: Seq<char>, case_insensitive: bool) -> bool;

/// What `regex::Regex::is_match` returns: whether the pattern, compiled with
/// the given case mode, matches anywhere in the text.
pub uninterp spec fn re_match(pattern: Seq<char>, case_insensitive: bool, text: Seq<char>) -> bool;

/// What `regex::Regex::find_iter` yields: the number of successive
/// non-overlapping matches of the pattern in the text.
pub uninterp spec fn re_count(pattern: Seq<char>, case_insensitive: bool, text: Seq<char>) -> usize;

/// Relies on `regex::RegexBuilder` (`new`, `case_insensitive`, `build`):
/// building returns `Ok` exactly when the pattern is a valid regular
/// expression within the default size limit, and the returned matcher
/// carries the pattern and case mode it was built from.
#[verifier::external_body]
pub fn re_build(pattern: &str, case_insensitive: bool) -> (r: Option<regex::Regex>)
    ensures
        r is Some <==> re_valid(pattern@, case_insensitive),
        r matches Some(re) ==> re_pattern(re) == pattern@ && re_ci(re) == case_insensitive,
{
    regex::RegexBuilder::new(pattern).case_insensitive(case_insensitive).build().ok()
}

/// Relies on `regex::Regex::is_match`: true if and only if there is a match
/// for the pattern anywhere in the text.
#[verifier::external_body]
pub fn re_is_match(re: &regex::Regex, text: &str) -> (r: bool)
    ensures
        r == re_match(re_pattern(*re), re_ci(*re), text@),
{
    re.is_match(text)
}

/// Relies on `regex::Regex::find_iter`: counts its successive
/// non-overlapping matches in the text.
#[verifier::external_body]
pub fn re_match_count(re: &regex::Regex, text: &str) -> (r: usize)
    ensures
        r == re_count(re_pattern(*re), re_ci(*re), text@),
{
    re.find_iter(text).count()
}

} // verus!
