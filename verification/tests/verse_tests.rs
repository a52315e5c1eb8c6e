//! Tests of verse-reference parsing and direct lookup.

use biblearchive_utils::corpus::{Book, Chapter, Corpus};
use biblearchive_utils::parse::SearchError;
use biblearchive_utils::verse::{parse_verse_ref, verse, verse_text, VerseRef};

fn corpus() -> Corpus {
    let books = vec![
        Book {
            number: 1,
            name: "Ge".to_string(),
            chapter_count: 2,
            chapters: vec![
                Some(Chapter {
                    book_number: 1,
                    number: 1,
                    verses: vec!["in the beginning".to_string(), "and the earth".to_string()],
                }),
                None,
            ],
        },
        Book {
            number: 2,
            name: "Ps".to_string(),
            chapter_count: 1,
            chapters: vec![Some(Chapter {
                book_number: 2,
                number: 1,
                verses: vec!["praise him".to_string()],
            })],
        },
    ];
    Corpus { books }
}

#[test]
fn verse_refs_parse() {
    let c = corpus();
    assert_eq!(
        parse_verse_ref(&c.books, "Ge 1:2"),
        Ok(VerseRef { book: 1, chapter: 1, verse: 2 })
    );
    assert_eq!(
        parse_verse_ref(&c.books, "ps 1:1"),
        Ok(VerseRef { book: 2, chapter: 1, verse: 1 })
    );
    assert_eq!(parse_verse_ref(&c.books, "Ge"), Err(SearchError::InvalidReference));
    assert_eq!(parse_verse_ref(&c.books, "Ge 1"), Err(SearchError::InvalidReference));
    assert_eq!(parse_verse_ref(&c.books, "Ge 1:2:3"), Err(SearchError::InvalidReference));
    assert_eq!(parse_verse_ref(&c.books, "Ge x:1"), Err(SearchError::InvalidReference));
    assert_eq!(parse_verse_ref(&c.books, "Zz 1:1"), Err(SearchError::UnknownBook));
}

#[test]
fn lookup_finds_present_text_only() {
    let c = corpus();
    assert_eq!(
        verse_text(&c, &VerseRef { book: 1, chapter: 1, verse: 1 }),
        Some(&"in the beginning".to_string())
    );
    // Missing chapter slot, out-of-range verse, out-of-range book.
    assert_eq!(verse_text(&c, &VerseRef { book: 1, chapter: 2, verse: 1 }), None);
    assert_eq!(verse_text(&c, &VerseRef { book: 1, chapter: 1, verse: 3 }), None);
    assert_eq!(verse_text(&c, &VerseRef { book: 3, chapter: 1, verse: 1 }), None);
    assert_eq!(verse_text(&c, &VerseRef { book: 0, chapter: 1, verse: 1 }), None);
}

#[test]
fn verse_command_lists_resolvable_tokens_in_order() {
    let c = corpus();
    let toks = vec![
        "Ge 1:2".to_string(),
        "nonsense".to_string(),
        "Ps 1:1".to_string(),
        "Ge 9:9".to_string(),
    ];
    let out = verse(&c, &toks);
    assert_eq!(
        out,
        vec!["Ge 1:2 and the earth".to_string(), "Ps 1:1 praise him".to_string()]
    );
}
