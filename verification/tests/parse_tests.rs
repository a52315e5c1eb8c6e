//! Unit tests of the reference parser.

use biblearchive_utils::corpus::{Book, Chapter, Corpus};
use biblearchive_utils::parse::{parse_scope_token, ScopeTarget, ScopeToken, SearchError};

fn books3() -> Vec<Book> {
    let mk = |n: u32, name: &str| Book {
        number: n,
        name: name.to_string(),
        chapter_count: 1,
        chapters: vec![Some(Chapter {
            book_number: n,
            number: 1,
            verses: vec!["text".to_string()],
        })],
    };
    vec![mk(1, "Ge"), mk(2, "Ps"), mk(3, "Mt")]
}

fn target(tok: &str) -> Result<ScopeToken, SearchError> {
    let books = books3();
    parse_scope_token(&books, tok)
}

#[test]
fn ot_and_nt_are_fixed_ordinal_ranges() {
    assert_eq!(
        target("OT"),
        Ok(ScopeToken { exclude: false, target: ScopeTarget::Range(1, 39) })
    );
    assert_eq!(
        target("NT"),
        Ok(ScopeToken { exclude: false, target: ScopeTarget::Range(40, 66) })
    );
    assert_eq!(
        target("!NT"),
        Ok(ScopeToken { exclude: true, target: ScopeTarget::Range(40, 66) })
    );
}

#[test]
fn bare_abbreviation_is_a_single_book() {
    assert_eq!(
        target("Ps"),
        Ok(ScopeToken { exclude: false, target: ScopeTarget::Single(2) })
    );
    assert_eq!(
        target("!mt"),
        Ok(ScopeToken { exclude: true, target: ScopeTarget::Single(3) })
    );
}

#[test]
fn abbreviation_range_is_inclusive() {
    assert_eq!(
        target("Ge..Mt"),
        Ok(ScopeToken { exclude: false, target: ScopeTarget::Range(1, 3) })
    );
    assert_eq!(
        target("Ps..Ps"),
        Ok(ScopeToken { exclude: false, target: ScopeTarget::Range(2, 2) })
    );
}

#[test]
fn range_end_before_start_is_an_order_error() {
    assert_eq!(target("Mt..Ge"), Err(SearchError::RangeOrderError));
}

#[test]
fn unknown_abbreviations_fail() {
    assert_eq!(target("Zz"), Err(SearchError::UnknownBook));
    assert_eq!(target("Ge..Zz"), Err(SearchError::UnknownBook));
    assert_eq!(target("Zz 3"), Err(SearchError::UnknownBook));
    assert_eq!(target("!"), Err(SearchError::UnknownBook));
}

#[test]
fn chapter_reference_names_book_and_chapter() {
    assert_eq!(
        target("Ps 119"),
        Ok(ScopeToken { exclude: false, target: ScopeTarget::Chapter(2, 119) })
    );
    assert_eq!(
        target("!Ps 3"),
        Ok(ScopeToken { exclude: true, target: ScopeTarget::Chapter(2, 3) })
    );
}

#[test]
fn malformed_shapes_are_invalid_references() {
    assert_eq!(target("Ge 1 2"), Err(SearchError::InvalidReference));
    assert_eq!(target("Ge x"), Err(SearchError::InvalidReference));
    assert_eq!(target("Ge "), Err(SearchError::InvalidReference));
    assert_eq!(target("Ge..Ps..Mt"), Err(SearchError::InvalidReference));
    assert_eq!(target("Ge 99999999999"), Err(SearchError::InvalidReference));
}

#[test]
fn corpus_type_round_trips_its_fields() {
    let books = books3();
    let c = Corpus { books };
    assert_eq!(c.books.len(), 3);
    assert_eq!(c.books[1].name, "Ps");
    assert_eq!(c.books[1].number, 2);
    assert_eq!(c.books[0].chapter_count, 1);
}
