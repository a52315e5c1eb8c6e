//! The corpus model: a read-only ordered sequence of books, each with an
//! ordinal, a display abbreviation and a sequence of optional chapter slots
//! (a missing slot means the data is not present, not an error).
//!
//! The archive that stores and decompresses the text is a collaborator
//! outside this library; whoever opens it hands the text over as plain
//! values of these types.

use crate::chars::{seq_eq_ci, str_chars, vec_eq_ci};
use vstd::prelude::*;

verus! {

/// One chapter: the ordinal of the owning book and its own self-reported
/// ordinal (back-references kept as data; the scan trusts a chapter's
/// position in its book's slot sequence over the self-report), and the
/// verse texts in 1-based order.
pub struct Chapter {
    pub book_number: u32,
    pub number: u32,
    pub verses: Vec<String>,
}

/// One book: 1-based ordinal, display abbreviation (used both to resolve
/// scope tokens and to label output lines), declared chapter count, and
/// the ordered chapter slots.
pub struct Book {
    pub number: u32,
    pub name: String,
    pub chapter_count: u32,
    pub chapters: Vec<Option<Chapter>>,
}

/// The whole corpus, books in canonical order of ascending ordinal.
pub struct Corpus {
    pub books: Vec<Book>,
}

/// The canonical corpus shape: exactly 66 books whose 1-based ordinals are
/// contiguous, so the book at position `i` carries ordinal `i + 1`.
pub open spec fn corpus_wf(c: Corpus) -> bool {
    &&& c.books@.len() == 66
    &&& forall|i: int| 0 <= i < c.books@.len() ==> c.books@[i].number == i + 1
}

/// The zero-based position of the first book whose display abbreviation
/// equals `s` up to ASCII case, searching from position `from` on.
pub open spec fn abbrev_lookup_from(books: Seq<Book>, s: Seq<char>, from: int) -> Option<int>
    decreases books.len() - from,
{
    if from < 0 || from >= books.len() {
        None
    } else if seq_eq_ci(books[from].name@, s) {
        Some(from)
    } else {
        abbrev_lookup_from(books, s, from + 1)
    }
}

/// The zero-based position of the first book whose display abbreviation
/// equals `s` up to ASCII case.
pub open spec fn abbrev_lookup(books: Seq<Book>, s: Seq<char>) -> Option<int> {
    abbrev_lookup_from(books, s, 0)
}

/// Resolve a book abbreviation, case-insensitively, to the book's zero-based
/// position in the corpus.
pub fn parse_book_abbrev(books: &Vec<Book>, s: &Vec<char>) -> (r: Option<usize>)
    ensures
        r matches Some(i) ==> abbrev_lookup(books@, s@) == Some(i as int) && i < books@.len(),
        r is None ==> abbrev_lookup(books@, s@) is None,
{
    let mut i: usize = 0;
    while i < books.len()
        invariant
            i <= books@.len(),
            abbrev_lookup(books@, s@) == abbrev_lookup_from(books@, s@, i as int),
        decreases books@.len() - i,
    {
        let name = str_chars(books[i].name.as_str());
        if vec_eq_ci(&name, s) {
            return Some(i);
        }
        i = i + 1;
    }
    None
}

} // verus!
