//! Verse text filters: case-sensitive substring tests, compiled regular
//! expressions, and word-boundary patterns built from raw words.
//!
//! A verse is admitted by three independent predicate groups: any-match
//! (admit if the group is empty or any predicate matches), must-match
//! (every predicate must match) and exclude (no predicate may match).

use crate::chars::{push_char, str_chars};
use crate::matcher::{re_build, re_ci, re_is_match, re_match, re_pattern, re_valid};
use vstd::prelude::*;
use vstd::string::StringExecFns;

verus! {

/// One verse text predicate: a literal case-sensitive substring test, or a
/// compiled regular expression.
pub enum TextFilter {
    Phrase(String),
    Pattern(regex::Regex),
}

/// Whether `t` holds `p` as a contiguous substring.
pub open spec fn contains_sub(t: Seq<char>, p: Seq<char>) -> bool {
    exists|i: int| 0 <= i && i + p.len() <= t.len() && #[trigger] t.subrange(i, i + p.len()) == p
}

/// What one text filter decides on a verse text.
pub open spec fn tf_matches(f: TextFilter, text: Seq<char>) -> bool {
    match f {
        TextFilter::Phrase(p) => contains_sub(text, p@),
        TextFilter::Pattern(re) => re_match(re_pattern(re), re_ci(re), text),
    }
}

/// A filter that admits a verse when it holds `phrase` as a substring.
pub fn match_phrase(phrase: String) -> (r: TextFilter)
    ensures
        r == TextFilter::Phrase(phrase),
        forall|t: Seq<char>| tf_matches(r, t) == contains_sub(t, phrase@),
{
    TextFilter::Phrase(phrase)
}

/// A filter that admits a verse when the compiled pattern matches it.
pub fn match_regex(re: regex::Regex) -> (r: TextFilter)
    ensures
        forall|t: Seq<char>|
            tf_matches(r, t) == re_match(re_pattern(re), re_ci(re), t),
        r == TextFilter::Pattern(re),
{
    TextFilter::Pattern(re)
}

/// Substring test on character vectors: whether `p` occurs in `t`.
pub fn chars_contain(t: &Vec<char>, p: &Vec<char>) -> (r: bool)
    ensures
        r == contains_sub(t@, p@),
{
    let n = t.len();
    let m = p.len();
    if m > n {
        return false;
    }
    let mut i: usize = 0;
    while i <= n - m
        invariant
            m <= n,
            n == t@.len(),
            m == p@.len(),
            i <= n - m + 1,
            forall|k: int| 0 <= k < i ==> #[trigger] t@.subrange(k, k + p@.len()) != p@,
        decreases n + 1 - m - i,
    {
        let mut j: usize = 0;
        let mut hit = true;
        while j < m
            invariant
                m <= n,
                n == t@.len(),
                m == p@.len(),
                i + m <= n,
                j <= m,
                hit || j == m,
                hit == (forall|l: int| 0 <= l < j ==> t@[i + l] == p@[l]),
            decreases m - j,
        {
            if t[i + j] != p[j] {
                hit = false;
                proof {
                    assert(!(forall|l: int| 0 <= l < j + 1 ==> t@[i + l] == p@[l])) by {
                        assert(t@[i + j as int] != p@[j as int]);
                    }
                }
                j = m;
            } else {
                proof {
                    assert(forall|l: int| 0 <= l < j ==> t@[i + l] == p@[l]);
                    assert(t@[i + j as int] == p@[j as int]);
                }
                j = j + 1;
            }
        }
        if hit {
            proof {
                assert(t@.subrange(i as int, i + p@.len()) =~= p@);
            }
            return true;
        }
        proof {
            assert(t@.subrange(i as int, i + p@.len()) != p@);
        }
        i = i + 1;
    }
    proof {
        assert(forall|k: int| 0 <= k && k + p@.len() <= t@.len() ==> #[trigger] t@.subrange(
            k,
            k + p@.len(),
        ) != p@);
    }
    false
}

/// Substring test on string slices.
pub fn str_contains(text: &str, phrase: &str) -> (r: bool)
    ensures
        r == contains_sub(text@, phrase@),
{
    let t = str_chars(text);
    let p = str_chars(phrase);
    chars_contain(&t, &p)
}

/// A character kept by the word sanitizer: ASCII alphanumerics and spaces.
pub open spec fn keep_word_char(c: char) -> bool {
    ||| 48 <= c as u32 <= 57
    ||| 65 <= c as u32 <= 90
    ||| 97 <= c as u32 <= 122
    ||| c == ' '
}

/// A raw word with everything but ASCII alphanumerics and spaces removed.
pub open spec fn sanitize(s: Seq<char>) -> Seq<char>
    decreases s.len(),
{
    if s.len() == 0 {
        Seq::empty()
    } else if keep_word_char(s.last()) {
        sanitize(s.drop_last()).push(s.last())
    } else {
        sanitize(s.drop_last())
    }
}

/// No upper-case ASCII letter: such a word compiles case-insensitively,
/// while mixed or upper case forces a case-sensitive match.
pub open spec fn all_lower(s: Seq<char>) -> bool {
    forall|i: int| 0 <= i < s.len() ==> !(65 <= #[trigger] (s[i] as u32) <= 90)
}

/// The word-boundary pattern built from a raw word: the sanitized word
/// wrapped in `\b` anchors.
pub open spec fn word_pattern(w: Seq<char>) -> Seq<char> {
    seq!['\\', 'b'] + sanitize(w) + seq!['\\', 'b']
}

/// The case mode a word compiles with: insensitive exactly when the
/// sanitized word is entirely lower-case.
pub open spec fn word_ci(w: Seq<char>) -> bool {
    all_lower(sanitize(w))
}

/// Keep the ASCII alphanumerics and spaces of `w`, in order.
fn sanitize_word(w: &str) -> (r: String)
    ensures
        r@ == sanitize(w@),
{
    let chars = str_chars(w);
    let mut r = String::new();
    let mut i: usize = 0;
    while i < chars.len()
        invariant
            chars@.len() == w@.len(),
            chars@ == w@,
            i <= chars@.len(),
            r@ == sanitize(w@.take(i as int)),
        decreases chars@.len() - i,
    {
        let c = chars[i];
        let u = c as u32;
        proof {
            assert(w@.take(i + 1).drop_last() =~= w@.take(i as int));
            assert(w@.take(i + 1).last() == w@[i as int]);
        }
        if (48 <= u && u <= 57) || (65 <= u && u <= 90) || (97 <= u && u <= 122) || c == ' ' {
            push_char(&mut r, c);
        }
        i = i + 1;
    }
    proof {
        assert(w@.take(w@.len() as int) =~= w@);
    }
    r
}

/// Whether `s` holds no upper-case ASCII letter.
fn is_all_lower(s: &str) -> (r: bool)
    ensures
        r == all_lower(s@),
{
    let chars = str_chars(s);
    let mut i: usize = 0;
    while i < chars.len()
        invariant
            chars@ == s@,
            i <= chars@.len(),
            forall|j: int| 0 <= j < i ==> !(65 <= #[trigger] (s@[j] as u32) <= 90),
        decreases chars@.len() - i,
    {
        let u = chars[i] as u32;
        if 65 <= u && u <= 90 {
            return false;
        }
        i = i + 1;
    }
    true
}

/// Compile the word-boundary pattern of a raw word: the sanitized word
/// wrapped in `\b` anchors, case-insensitive exactly when the sanitized
/// word is entirely lower-case. Fails when the pattern does not compile.
pub fn build_word_regex(word: &str) -> (r: Option<regex::Regex>)
    ensures
        r is Some <==> re_valid(word_pattern(word@), word_ci(word@)),
        r matches Some(re) ==> re_pattern(re) == word_pattern(word@) && re_ci(re) == word_ci(
            word@,
        ),
{
    let safe = sanitize_word(word);
    let ci = is_all_lower(safe.as_str());
    let mut pat = String::new();
    pat.append("\\b");
    pat.append(safe.as_str());
    pat.append("\\b");
    proof {
        reveal_strlit("\\b");
        assert(pat@ =~= word_pattern(word@));
    }
    re_build(pat.as_str(), ci)
}

/// A filter that admits a verse when the word-boundary pattern of the raw
/// word matches it. Fails when the pattern does not compile.
pub fn match_word(word: &str) -> (r: Option<TextFilter>)
    ensures
        r is Some <==> re_valid(word_pattern(word@), word_ci(word@)),
        r matches Some(f) ==> f matches TextFilter::Pattern(re) && re_pattern(re) == word_pattern(
            word@,
        ) && re_ci(re) == word_ci(word@),
{
    match build_word_regex(word) {
        Some(re) => Some(match_regex(re)),
        None => None,
    }
}

/// Final admission of a verse text by the three predicate groups: any-match
/// (vacuously admitted when empty), must-match (all), exclude (none).
pub open spec fn groups_admit(
    any: Seq<TextFilter>,
    must: Seq<TextFilter>,
    excl: Seq<TextFilter>,
    text: Seq<char>,
) -> bool {
    &&& any.len() == 0 || exists|i: int| 0 <= i < any.len() && tf_matches(any[i], text)
    &&& forall|i: int| 0 <= i < must.len() ==> tf_matches(must[i], text)
    &&& !exists|i: int| 0 <= i < excl.len() && tf_matches(excl[i], text)
}

/// Evaluate one filter on a verse text.
pub fn tf_eval(f: &TextFilter, text: &str) -> (r: bool)
    ensures
        r == tf_matches(*f, text@),
{
    match f {
        TextFilter::Phrase(p) => str_contains(text, p.as_str()),
        TextFilter::Pattern(re) => re_is_match(re, text),
    }
}

/// Whether any filter of the group matches the verse text.
fn any_matches(group: &Vec<TextFilter>, text: &str) -> (r: bool)
    ensures
        r == exists|i: int| 0 <= i < group@.len() && tf_matches(group@[i], text@),
{
    let mut i: usize = 0;
    while i < group.len()
        invariant
            i <= group@.len(),
            forall|j: int| 0 <= j < i ==> !tf_matches(group@[j], text@),
        decreases group@.len() - i,
    {
        if tf_eval(&group[i], text) {
            return true;
        }
        i = i + 1;
    }
    false
}

/// Final admission of a verse text by the three groups.
pub fn filters_admit(
    any: &Vec<TextFilter>,
    must: &Vec<TextFilter>,
    excl: &Vec<TextFilter>,
    text: &str,
) -> (r: bool)
    ensures
        r == groups_admit(any@, must@, excl@, text@),
{
    let any_ok = if any.len() == 0 {
        true
    } else {
        any_matches(any, text)
    };
    if !any_ok {
        return false;
    }
    let mut i: usize = 0;
    while i < must.len()
        invariant
            i <= must@.len(),
            forall|j: int| 0 <= j < i ==> tf_matches(must@[j], text@),
        decreases must@.len() - i,
    {
        if !tf_eval(&must[i], text) {
            return false;
        }
        i = i + 1;
    }
    !any_matches(excl, text)
}

/// With no any-match and no must-match predicates, a set of exclude filters
/// admits exactly the verses that none of them matches.
pub proof fn lemma_exclude_only(excl: Seq<TextFilter>, text: Seq<char>)
    ensures
        groups_admit(Seq::empty(), Seq::empty(), excl, text) <==> (forall|i: int|
            0 <= i < excl.len() ==> !tf_matches(excl[i], text)),
{
}

} // verus!
