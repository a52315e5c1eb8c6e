//! Fetching verses by reference: parse `"<abbrev> <chapter>:<verse>"`
//! tokens and look the verses up in the corpus, skipping tokens that do not
//! parse or name text that is not present.

use crate::chars::{push_char, str_chars, vec_slice};
use crate::corpus::{abbrev_lookup, parse_book_abbrev, Book, Corpus};
use crate::parse::{
    all_digits, dec_value, find_char, parse_u32, vec_find_char, SearchError,
};
use vstd::prelude::*;
use vstd::string::StringExecFns;

verus! {

/// A fully resolved verse reference: 1-based book, chapter and verse
/// ordinals.
#[derive(Clone, Copy, Debug, PartialEq, Eq, Structural)]
pub struct VerseRef {
    pub book: u32,
    pub chapter: u32,
    pub verse: u32,
}

/// Whether `s` is a decimal numeral whose value fits `u32`.
pub open spec fn numeral_fits(s: Seq<char>) -> bool {
    s.len() > 0 && all_digits(s) && dec_value(s) <= u32::MAX
}

/// What a verse-reference token resolves to: the abbreviation before the
/// single space, then `<chapter>:<verse>` with one colon and two numerals.
pub open spec fn spec_parse_verse_ref(books: Seq<Book>, tok: Seq<char>) -> Result<
    VerseRef,
    SearchError,
> {
    match find_char(tok, ' ') {
        None => Err(SearchError::InvalidReference),
        Some(k) => {
            let left = tok.take(k);
            let right = tok.subrange(k + 1, tok.len() as int);
            if find_char(right, ' ') is Some {
                Err(SearchError::InvalidReference)
            } else {
                match abbrev_lookup(books, left) {
                    None => Err(SearchError::UnknownBook),
                    Some(i) => match find_char(right, ':') {
                        None => Err(SearchError::InvalidReference),
                        Some(j) => {
                            let cpart = right.take(j);
                            let vpart = right.subrange(j + 1, right.len() as int);
                            if find_char(vpart, ':') is Some || !numeral_fits(cpart)
                                || !numeral_fits(vpart) {
                                Err(SearchError::InvalidReference)
                            } else {
                                Ok(
                                    VerseRef {
                                        book: (i + 1) as u32,
                                        chapter: dec_value(cpart) as u32,
                                        verse: dec_value(vpart) as u32,
                                    },
                                )
                            }
                        },
                    },
                }
            }
        },
    }
}

/// Parse one verse-reference token against the corpus's abbreviations.
pub fn parse_verse_ref(books: &Vec<Book>, tok: &str) -> (r: Result<VerseRef, SearchError>)
    requires
        books@.len() < u32::MAX,
    ensures
        r == spec_parse_verse_ref(books@, tok@),
{
    let chars = str_chars(tok);
    let n = chars.len();
    let k = match vec_find_char(&chars, ' ') {
        None => {
            return Err(SearchError::InvalidReference);
        },
        Some(k) => k,
    };
    let left = vec_slice(&chars, 0, k);
    let right = vec_slice(&chars, k + 1, n);
    proof {
        assert(left@ =~= tok@.take(k as int));
    }
    if vec_find_char(&right, ' ').is_some() {
        return Err(SearchError::InvalidReference);
    }
    let i = match parse_book_abbrev(books, &left) {
        None => {
            return Err(SearchError::UnknownBook);
        },
        Some(i) => i,
    };
    let j = match vec_find_char(&right, ':') {
        None => {
            return Err(SearchError::InvalidReference);
        },
        Some(j) => j,
    };
    let cpart = vec_slice(&right, 0, j);
    let vpart = vec_slice(&right, j + 1, right.len());
    proof {
        assert(cpart@ =~= right@.take(j as int));
    }
    if vec_find_char(&vpart, ':').is_some() {
        return Err(SearchError::InvalidReference);
    }
    let chapter = match parse_u32(&cpart) {
        None => {
            return Err(SearchError::InvalidReference);
        },
        Some(n) => n,
    };
    let verse_number = match parse_u32(&vpart) {
        None => {
            return Err(SearchError::InvalidReference);
        },
        Some(n) => n,
    };
    Ok(VerseRef { book: (i + 1) as u32, chapter, verse: verse_number })
}

/// The text a reference names, if the book position, chapter slot and verse
/// position are all present in the corpus.
pub open spec fn spec_verse_text(corpus: Corpus, r: VerseRef) -> Option<Seq<char>> {
    if 1 <= r.book <= corpus.books@.len() {
        let book = corpus.books@[r.book - 1];
        if 1 <= r.chapter <= book.chapters@.len() {
            match book.chapters@[r.chapter - 1] {
                None => None,
                Some(ch) => if 1 <= r.verse <= ch.verses@.len() {
                    Some(ch.verses@[r.verse - 1]@)
                } else {
                    None
                },
            }
        } else {
            None
        }
    } else {
        None
    }
}

/// Look one reference up in the corpus.
pub fn verse_text<'a>(corpus: &'a Corpus, r: &VerseRef) -> (t: Option<&'a String>)
    ensures
        match t {
            Some(s) => spec_verse_text(*corpus, *r) == Some(s@),
            None => spec_verse_text(*corpus, *r) is None,
        },
{
    if r.book == 0 || (r.book as usize) > corpus.books.len() {
        return None;
    }
    let book = &corpus.books[(r.book - 1) as usize];
    if r.chapter == 0 || (r.chapter as usize) > book.chapters.len() {
        return None;
    }
    match &book.chapters[(r.chapter - 1) as usize] {
        None => None,
        Some(ch) => {
            if r.verse == 0 || (r.verse as usize) > ch.verses.len() {
                None
            } else {
                Some(&ch.verses[(r.verse - 1) as usize])
            }
        },
    }
}

/// The output lines of the first `n` verse tokens: one `"<token> <text>"`
/// line for each token that parses and names present text.
pub open spec fn spec_verse_lines(corpus: Corpus, toks: Seq<String>, n: int) -> Seq<Seq<char>>
    decreases n,
{
    if n <= 0 {
        Seq::empty()
    } else {
        spec_verse_lines(corpus, toks, n - 1) + (match spec_parse_verse_ref(
            corpus.books@,
            toks[n - 1]@,
        ) {
            Err(_) => Seq::empty(),
            Ok(r) => match spec_verse_text(corpus, r) {
                None => Seq::empty(),
                Some(text) => seq![toks[n - 1]@ + seq![' '] + text],
            },
        })
    }
}

/// Fetch the verses the tokens name, in token order: each line carries the
/// token and the verse text. Tokens that do not parse, or name text the
/// corpus does not hold, produce no line.
pub fn verse(corpus: &Corpus, verses: &Vec<String>) -> (out: Vec<String>)
    requires
        corpus.books@.len() < u32::MAX,
    ensures
        out.deep_view() == spec_verse_lines(*corpus, verses@, verses@.len() as int),
{
    let mut out: Vec<String> = Vec::new();
    let mut i: usize = 0;
    while i < verses.len()
        invariant
            corpus.books@.len() < u32::MAX,
            i <= verses@.len(),
            out.deep_view() == spec_verse_lines(*corpus, verses@, i as int),
        decreases verses@.len() - i,
    {
        let tok = &verses[i];
        match parse_verse_ref(&corpus.books, tok.as_str()) {
            Err(_) => {},
            Ok(r) => {
                match verse_text(corpus, &r) {
                    None => {},
                    Some(text) => {
                        let mut line = String::new();
                        line.append(tok.as_str());
                        push_char(&mut line, ' ');
                        line.append(text.as_str());
                        let ghost dv0 = out.deep_view();
                        out.push(line);
                        proof {
                            assert(line@ =~= tok@ + seq![' '] + spec_verse_text(
                                *corpus,
                                r,
                            )->Some_0);
                            assert(out.deep_view() =~= dv0.push(line@));
                        }
                    },
                }
            },
        }
        proof {
            assert(out.deep_view() =~= spec_verse_lines(*corpus, verses@, i + 1));
        }
        i = i + 1;
    }
    out
}

} // verus!
