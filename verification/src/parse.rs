//! The reference parser: classifies one scope token into a normalized book
//! range, single book, or chapter reference.
//!
//! A token optionally starts with `!` (exclude; the default is an
//! inclusion). The remainder is `OT` (books 1..=39), `NT` (books 40..=66),
//! `"<abbrev>..<abbrev>"` (inclusive book range), a bare abbreviation, or
//! `"<abbrev> <n>"` (one chapter of a book). All failures are
//! construction-time: they abort the whole search before any scanning.

use crate::chars::{str_chars, vec_slice};
use crate::corpus::{abbrev_lookup, parse_book_abbrev, Book};
use vstd::prelude::*;

verus! {

/// A construction-time failure: a malformed scope token, an abbreviation
/// that resolves to no book, a range whose end precedes its start, or a
/// match pattern that does not compile.
#[derive(Clone, Copy, Debug, PartialEq, Eq, Structural)]
pub enum SearchError {
    InvalidReference,
    UnknownBook,
    RangeOrderError,
    InvalidPattern,
}

/// A normalized scope target: an inclusive range of book ordinals, a single
/// book ordinal, or one chapter of a book.
#[derive(Clone, Copy, Debug, PartialEq, Eq, Structural)]
pub enum ScopeTarget {
    Range(u32, u32),
    Single(u32),
    Chapter(u32, u32),
}

/// A parsed scope token: whether it excludes, and what it names.
#[derive(Clone, Copy, Debug, PartialEq, Eq, Structural)]
pub struct ScopeToken {
    pub exclude: bool,
    pub target: ScopeTarget,
}

/// The first position of `c` in `s` at or after `from`.
pub open spec fn find_char_from(s: Seq<char>, c: char, from: int) -> Option<int>
    decreases s.len() - from,
{
    if from < 0 || from >= s.len() {
        None
    } else if s[from] == c {
        Some(from)
    } else {
        find_char_from(s, c, from + 1)
    }
}

/// The first position of `c` in `s`.
pub open spec fn find_char(s: Seq<char>, c: char) -> Option<int> {
    find_char_from(s, c, 0)
}

/// The first position at or after `from` where `".."` starts in `s`.
pub open spec fn find_dotdot_from(s: Seq<char>, from: int) -> Option<int>
    decreases s.len() - from,
{
    if from < 0 || from + 2 > s.len() {
        None
    } else if s[from] == '.' && s[from + 1] == '.' {
        Some(from)
    } else {
        find_dotdot_from(s, from + 1)
    }
}

/// The first position where `".."` starts in `s`.
pub open spec fn find_dotdot(s: Seq<char>) -> Option<int> {
    find_dotdot_from(s, 0)
}

/// A decimal digit.
pub open spec fn is_digit(c: char) -> bool {
    48 <= c as u32 <= 57
}

/// Every character of `s` is a decimal digit.
pub open spec fn all_digits(s: Seq<char>) -> bool {
    forall|i: int| 0 <= i < s.len() ==> #[trigger] is_digit(s[i])
}

/// The numeric value of one digit character (zero for anything else).
pub open spec fn digit_val(c: char) -> nat {
    if is_digit(c) {
        (c as u32 - 48) as nat
    } else {
        0
    }
}

/// The value of `s` read as a decimal numeral.
pub open spec fn dec_value(s: Seq<char>) -> nat
    decreases s.len(),
{
    if s.len() == 0 {
        0
    } else {
        dec_value(s.drop_last()) * 10 + digit_val(s.last())
    }
}

/// A longer prefix of a numeral never has a smaller value.
proof fn lemma_dec_value_prefix_mono(s: Seq<char>, i: int, j: int)
    requires
        0 <= i <= j <= s.len(),
    ensures
        dec_value(s.take(i)) <= dec_value(s.take(j)),
    decreases j - i,
{
    if i < j {
        lemma_dec_value_prefix_mono(s, i, j - 1);
        assert(s.take(j).drop_last() =~= s.take(j - 1));
    }
}

/// Find the first position of `c` in `v`.
pub fn vec_find_char(v: &Vec<char>, c: char) -> (r: Option<usize>)
    ensures
        r matches Some(i) ==> find_char(v@, c) == Some(i as int) && i < v@.len(),
        r is None ==> find_char(v@, c) is None,
{
    let mut i: usize = 0;
    while i < v.len()
        invariant
            i <= v@.len(),
            find_char(v@, c) == find_char_from(v@, c, i as int),
        decreases v@.len() - i,
    {
        if v[i] == c {
            return Some(i);
        }
        i = i + 1;
    }
    None
}

/// Find the first position where `".."` starts in `v`.
pub fn vec_find_dotdot(v: &Vec<char>) -> (r: Option<usize>)
    ensures
        r matches Some(i) ==> find_dotdot(v@) == Some(i as int) && i + 2 <= v@.len(),
        r is None ==> find_dotdot(v@) is None,
{
    if v.len() < 2 {
        return None;
    }
    let mut i: usize = 0;
    while i <= v.len() - 2
        invariant
            2 <= v@.len(),
            i <= v@.len() - 1,
            find_dotdot(v@) == find_dotdot_from(v@, i as int),
        decreases v@.len() - i,
    {
        if v[i] == '.' && v[i + 1] == '.' {
            return Some(i);
        }
        i = i + 1;
    }
    None
}

/// Read `v` as a decimal `u32`: fails on an empty numeral, a non-digit, or
/// a value above `u32::MAX`.
pub fn parse_u32(v: &Vec<char>) -> (r: Option<u32>)
    ensures
        r is Some <==> v@.len() > 0 && all_digits(v@) && dec_value(v@) <= u32::MAX,
        r matches Some(n) ==> n == dec_value(v@),
{
    if v.len() == 0 {
        return None;
    }
    let mut acc: u64 = 0;
    let mut i: usize = 0;
    while i < v.len()
        invariant
            v@.len() > 0,
            i <= v@.len(),
            all_digits(v@.take(i as int)),
            acc == dec_value(v@.take(i as int)),
            acc <= u32::MAX,
        decreases v@.len() - i,
    {
        let u = v[i] as u32;
        proof {
            assert(v@.take(i + 1).drop_last() =~= v@.take(i as int));
            assert(v@.take(i + 1).last() == v@[i as int]);
        }
        if !(48 <= u && u <= 57) {
            proof {
                assert(!is_digit(v@[i as int]));
            }
            return None;
        }
        let d = (u - 48) as u64;
        acc = acc * 10 + d;
        i = i + 1;
        if acc > u32::MAX as u64 {
            proof {
                lemma_dec_value_prefix_mono(v@, i as int, v@.len() as int);
                assert(v@.take(v@.len() as int) =~= v@);
            }
            return None;
        }
    }
    proof {
        assert(v@.take(v@.len() as int) =~= v@);
    }
    Some(acc as u32)
}

/// What one scope token names, before the `!` prefix is accounted for.
pub open spec fn spec_parse_target(books: Seq<Book>, s: Seq<char>) -> Result<
    ScopeTarget,
    SearchError,
> {
    if s == seq!['O', 'T'] {
        Ok(ScopeTarget::Range(1, 39))
    } else if s == seq!['N', 'T'] {
        Ok(ScopeTarget::Range(40, 66))
    } else if find_dotdot(s) is Some && find_char(s, ' ') is None {
        spec_parse_range(books, s)
    } else if find_char(s, ' ') is Some {
        spec_parse_chapter(books, s)
    } else {
        match abbrev_lookup(books, s) {
            Some(i) => Ok(ScopeTarget::Single((i + 1) as u32)),
            None => Err(SearchError::UnknownBook),
        }
    }
}

/// An `"<abbrev>..<abbrev>"` token: both ends must resolve, and the end may
/// not precede the start.
pub open spec fn spec_parse_range(books: Seq<Book>, s: Seq<char>) -> Result<
    ScopeTarget,
    SearchError,
> {
    let k = find_dotdot(s)->Some_0;
    let left = s.take(k);
    let right = s.subrange(k + 2, s.len() as int);
    if find_dotdot(right) is Some {
        Err(SearchError::InvalidReference)
    } else {
        match (abbrev_lookup(books, left), abbrev_lookup(books, right)) {
            (Some(a), Some(b)) => if b < a {
                Err(SearchError::RangeOrderError)
            } else {
                Ok(ScopeTarget::Range((a + 1) as u32, (b + 1) as u32))
            },
            _ => Err(SearchError::UnknownBook),
        }
    }
}

/// An `"<abbrev> <n>"` token: one chapter of one book.
pub open spec fn spec_parse_chapter(books: Seq<Book>, s: Seq<char>) -> Result<
    ScopeTarget,
    SearchError,
> {
    let k = find_char(s, ' ')->Some_0;
    let left = s.take(k);
    let right = s.subrange(k + 1, s.len() as int);
    if find_char(right, ' ') is Some {
        Err(SearchError::InvalidReference)
    } else {
        match abbrev_lookup(books, left) {
            None => Err(SearchError::UnknownBook),
            Some(b) => if right.len() > 0 && all_digits(right) && dec_value(right) <= u32::MAX {
                Ok(ScopeTarget::Chapter((b + 1) as u32, dec_value(right) as u32))
            } else {
                Err(SearchError::InvalidReference)
            },
        }
    }
}

/// What one whole scope token means: a leading `!` flips it to an
/// exclusion, the remainder names the target.
pub open spec fn spec_parse_scope(books: Seq<Book>, tok: Seq<char>) -> Result<
    ScopeToken,
    SearchError,
> {
    let excl = tok.len() > 0 && tok[0] == '!';
    let s = if excl {
        tok.subrange(1, tok.len() as int)
    } else {
        tok
    };
    match spec_parse_target(books, s) {
        Ok(t) => Ok(ScopeToken { exclude: excl, target: t }),
        Err(e) => Err(e),
    }
}

/// Parse one scope token against the corpus's book abbreviations.
pub fn parse_scope_token(books: &Vec<Book>, tok: &str) -> (r: Result<ScopeToken, SearchError>)
    requires
        books@.len() < u32::MAX,
    ensures
        r == spec_parse_scope(books@, tok@),
        r matches Ok(t) ==> (match t.target {
            ScopeTarget::Chapter(b, _c) => 0 < b <= books@.len(),
            _ => true,
        }),
{
    let chars = str_chars(tok);
    let excl = chars.len() > 0 && chars[0] == '!';
    let s: Vec<char> = if excl {
        vec_slice(&chars, 1, chars.len())
    } else {
        vec_slice(&chars, 0, chars.len())
    };
    proof {
        if !excl {
            assert(s@ =~= tok@);
        }
    }
    let target = parse_target(books, &s);
    match target {
        Ok(t) => Ok(ScopeToken { exclude: excl, target: t }),
        Err(e) => Err(e),
    }
}

/// Classify the body of a scope token.
fn parse_target(books: &Vec<Book>, s: &Vec<char>) -> (r: Result<ScopeTarget, SearchError>)
    requires
        books@.len() < u32::MAX,
    ensures
        r == spec_parse_target(books@, s@),
        r matches Ok(t) ==> (match t {
            ScopeTarget::Chapter(b, _c) => 0 < b <= books@.len(),
            _ => true,
        }),
{
    if s.len() == 2 && s[0] == 'O' && s[1] == 'T' {
        proof {
            assert(s@ =~= seq!['O', 'T']);
        }
        return Ok(ScopeTarget::Range(1, 39));
    }
    proof {
        assert(s@ != seq!['O', 'T']);
    }
    if s.len() == 2 && s[0] == 'N' && s[1] == 'T' {
        proof {
            assert(s@ =~= seq!['N', 'T']);
        }
        return Ok(ScopeTarget::Range(40, 66));
    }
    proof {
        assert(s@ != seq!['N', 'T']);
    }
    let dotdot = vec_find_dotdot(s);
    let space = vec_find_char(s, ' ');
    if dotdot.is_some() && space.is_none() {
        let k = dotdot.unwrap();
        let left = vec_slice(s, 0, k);
        let right = vec_slice(s, k + 2, s.len());
        proof {
            assert(left@ =~= s@.take(k as int));
        }
        if vec_find_dotdot(&right).is_some() {
            return Err(SearchError::InvalidReference);
        }
        let a = parse_book_abbrev(books, &left);
        let b = parse_book_abbrev(books, &right);
        match (a, b) {
            (Some(a), Some(b)) => {
                if b < a {
                    Err(SearchError::RangeOrderError)
                } else {
                    Ok(ScopeTarget::Range((a + 1) as u32, (b + 1) as u32))
                }
            },
            _ => Err(SearchError::UnknownBook),
        }
    } else if space.is_some() {
        let k = space.unwrap();
        let left = vec_slice(s, 0, k);
        let right = vec_slice(s, k + 1, s.len());
        proof {
            assert(left@ =~= s@.take(k as int));
        }
        if vec_find_char(&right, ' ').is_some() {
            return Err(SearchError::InvalidReference);
        }
        match parse_book_abbrev(books, &left) {
            None => Err(SearchError::UnknownBook),
            Some(b) => {
                match parse_u32(&right) {
                    Some(n) => Ok(ScopeTarget::Chapter((b + 1) as u32, n)),
                    None => Err(SearchError::InvalidReference),
                }
            },
        }
    } else {
        match parse_book_abbrev(books, s) {
            Some(i) => Ok(ScopeTarget::Single((i + 1) as u32)),
            None => Err(SearchError::UnknownBook),
        }
    }
}

} // verus!
