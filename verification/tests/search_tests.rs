//! Behavioural tests of the search driver on small synthetic corpora.

use biblearchive_utils::corpus::{Book, Chapter, Corpus};
use biblearchive_utils::parse::SearchError;
use biblearchive_utils::search::search;
use biblearchive_utils::SearchArgs;

fn chapter(book_number: u32, number: u32, verses: &[&str]) -> Chapter {
    Chapter {
        book_number,
        number,
        verses: verses.iter().map(|s| s.to_string()).collect(),
    }
}

fn book(number: u32, name: &str, chapters: Vec<Option<Chapter>>) -> Book {
    Book {
        number,
        name: name.to_string(),
        chapter_count: chapters.len() as u32,
        chapters,
    }
}

/// A 66-book corpus: every book has one chapter with one verse `"v<n>"`.
/// Book 1 is named `Ge`, book 19 `Ps`, book 39 `Mal`, book 40 `Mt`,
/// book 66 `Rev`; the rest are `B<n>`.
fn corpus66() -> Corpus {
    let mut books = Vec::new();
    for n in 1..=66u32 {
        let name = match n {
            1 => "Ge".to_string(),
            19 => "Ps".to_string(),
            39 => "Mal".to_string(),
            40 => "Mt".to_string(),
            66 => "Rev".to_string(),
            _ => format!("B{}", n),
        };
        let text = format!("v{}", n);
        let ch = chapter(n, 1, &[text.as_str()]);
        books.push(book(n, &name, vec![Some(ch)]));
    }
    Corpus { books }
}

fn args(scopes: &[&str], matching: &[&str], word: &[&str]) -> SearchArgs {
    SearchArgs {
        matching: matching.iter().map(|s| s.to_string()).collect(),
        word: word.iter().map(|s| s.to_string()).collect(),
        scopes: scopes.iter().map(|s| s.to_string()).collect(),
        count: false,
        threshold: None,
    }
}

#[test]
fn no_tokens_lists_every_verse_once_in_order() {
    let c = corpus66();
    let out = search(&c, &args(&[], &[], &[])).unwrap();
    assert_eq!(out.len(), 66);
    assert_eq!(out[0], "Ge 1:1 v1");
    assert_eq!(out[18], "Ps 1:1 v19");
    assert_eq!(out[65], "Rev 1:1 v66");
    for n in 1..=66u32 {
        let line = &out[(n - 1) as usize];
        assert!(line.ends_with(&format!(" v{}", n)));
    }
}

#[test]
fn ot_is_books_1_to_39() {
    let c = corpus66();
    let out = search(&c, &args(&["OT"], &[], &[])).unwrap();
    assert_eq!(out.len(), 39);
    assert_eq!(out[0], "Ge 1:1 v1");
    assert_eq!(out[38], "Mal 1:1 v39");
}

#[test]
fn nt_is_books_40_to_66() {
    let c = corpus66();
    let out = search(&c, &args(&["NT"], &[], &[])).unwrap();
    assert_eq!(out.len(), 27);
    assert_eq!(out[0], "Mt 1:1 v40");
    assert_eq!(out[26], "Rev 1:1 v66");
}

#[test]
fn ot_equals_explicit_abbreviation_range() {
    let c = corpus66();
    let ot = search(&c, &args(&["OT"], &[], &[])).unwrap();
    let explicit = search(&c, &args(&["Ge..Mal"], &[], &[])).unwrap();
    assert_eq!(ot, explicit);
}

#[test]
fn ot_and_nt_partition_the_corpus() {
    let c = corpus66();
    let ot = search(&c, &args(&["OT"], &[], &[])).unwrap();
    let nt = search(&c, &args(&["NT"], &[], &[])).unwrap();
    let all = search(&c, &args(&[], &[], &[])).unwrap();
    assert!(ot.iter().all(|l| !nt.contains(l)));
    let mut union: Vec<String> = ot.clone();
    union.extend(nt.iter().cloned());
    assert_eq!(union.len(), all.len());
    for line in &all {
        assert!(union.contains(line));
    }
}

#[test]
fn later_rule_for_a_book_wins() {
    let c = corpus66();
    // "!Ge" then "Ge": Genesis is re-admitted (and nothing was globally denied).
    let out = search(&c, &args(&["!Ge", "Ge"], &[], &[])).unwrap();
    assert!(out.contains(&"Ge 1:1 v1".to_string()));
    assert_eq!(out.len(), 66);
    // "Ge" then "!Ge": Genesis is re-excluded; the initial inclusion had
    // flipped the default to deny-all, so nothing at all is admitted.
    let out = search(&c, &args(&["Ge", "!Ge"], &[], &[])).unwrap();
    assert!(out.is_empty());
}

#[test]
fn exclusion_only_keeps_the_rest() {
    let c = corpus66();
    let out = search(&c, &args(&["!Ge"], &[], &[])).unwrap();
    assert_eq!(out.len(), 65);
    assert!(!out.iter().any(|l| l.starts_with("Ge ")));
}

/// A corpus where Ps has three chapters (the second slot missing) so
/// chapter scoping is observable.
fn corpus_with_chapters() -> Corpus {
    let books = vec![
        book(1, "Ge", vec![Some(chapter(1, 1, &["in the beginning", "the earth"]))]),
        book(
            2,
            "Ps",
            vec![
                Some(chapter(2, 1, &["praise one", "nothing here"])),
                None,
                Some(chapter(2, 3, &["praise three", "the law", "praise the word"])),
            ],
        ),
        book(3, "Mt", vec![Some(chapter(3, 1, &["the gospel"]))]),
    ];
    Corpus { books }
}

#[test]
fn chapter_include_pulls_its_book_into_scope() {
    let c = corpus_with_chapters();
    // "Ps 3" alone: only Psalms is admitted, and only its chapter 3.
    let out = search(&c, &args(&["Ps 3"], &[], &[])).unwrap();
    assert_eq!(
        out,
        vec![
            "Ps 3:1 praise three".to_string(),
            "Ps 3:2 the law".to_string(),
            "Ps 3:3 praise the word".to_string(),
        ]
    );
    // "Mt" then "Ps 3": exactly Mt and Ps become admitted, Ps only at ch. 3.
    let out = search(&c, &args(&["Mt", "Ps 3"], &[], &[])).unwrap();
    assert_eq!(
        out,
        vec![
            "Ps 3:1 praise three".to_string(),
            "Ps 3:2 the law".to_string(),
            "Ps 3:3 praise the word".to_string(),
            "Mt 1:1 the gospel".to_string(),
        ]
    );
}

#[test]
fn chapter_exclude_on_unadmitted_book_is_a_no_op() {
    let c = corpus_with_chapters();
    let out = search(&c, &args(&["Mt", "!Ps 3"], &[], &[])).unwrap();
    assert_eq!(out, vec!["Mt 1:1 the gospel".to_string()]);
}

#[test]
fn chapter_exclude_removes_only_that_chapter() {
    let c = corpus_with_chapters();
    let out = search(&c, &args(&["!Ps 3"], &[], &[])).unwrap();
    assert!(out.contains(&"Ps 1:1 praise one".to_string()));
    assert!(!out.iter().any(|l| l.starts_with("Ps 3:")));
    assert!(out.contains(&"Ge 1:1 in the beginning".to_string()));
}

#[test]
fn regex_match_restricted_to_one_chapter() {
    let c = corpus_with_chapters();
    let out = search(&c, &args(&["Ps 3"], &["/praise/"], &[])).unwrap();
    assert_eq!(
        out,
        vec![
            "Ps 3:1 praise three".to_string(),
            "Ps 3:3 praise the word".to_string(),
        ]
    );
}

#[test]
fn regex_is_case_sensitive_without_flag() {
    let c = corpus_with_chapters();
    let out = search(&c, &args(&[], &["/PRAISE/"], &[])).unwrap();
    assert!(out.is_empty());
    let out = search(&c, &args(&[], &["/PRAISE/i"], &[])).unwrap();
    assert_eq!(out.len(), 3);
}

#[test]
fn phrase_is_a_case_sensitive_substring_test() {
    let c = corpus_with_chapters();
    let out = search(&c, &args(&[], &["the la"], &[])).unwrap();
    assert_eq!(out, vec!["Ps 3:2 the law".to_string()]);
    assert!(search(&c, &args(&[], &["The la"], &[])).unwrap().is_empty());
}

#[test]
fn exclude_words_keep_exactly_the_rest() {
    let c = corpus_with_chapters();
    // Restricted to Ps: drop every verse holding "praise" or "law".
    let out = search(&c, &args(&["Ps"], &[], &["!praise", "!law"])).unwrap();
    assert_eq!(out, vec!["Ps 1:2 nothing here".to_string()]);
}

#[test]
fn must_match_requires_every_predicate() {
    let c = corpus_with_chapters();
    let out = search(&c, &args(&[], &["+praise", "+word"], &[])).unwrap();
    assert_eq!(out, vec!["Ps 3:3 praise the word".to_string()]);
}

#[test]
fn any_match_group_is_an_or() {
    let c = corpus_with_chapters();
    let out = search(&c, &args(&[], &["gospel", "earth"], &[])).unwrap();
    assert_eq!(
        out,
        vec!["Ge 1:2 the earth".to_string(), "Mt 1:1 the gospel".to_string()]
    );
}

#[test]
fn word_search_is_whole_word_and_case_insensitive() {
    let books = vec![book(
        1,
        "Rev",
        vec![Some(chapter(
            1,
            1,
            &["Seven seals", "seventeen things", "the seven, the sevens"],
        ))],
    )];
    let c = Corpus { books };
    let out = search(&c, &args(&[], &[], &["seven"])).unwrap();
    assert_eq!(
        out,
        vec![
            "Rev 1:1 Seven seals".to_string(),
            "Rev 1:3 the seven, the sevens".to_string(),
        ]
    );
}

#[test]
fn uppercase_word_forces_case_sensitivity() {
    let books = vec![book(
        1,
        "Ge",
        vec![Some(chapter(1, 1, &["Lord of all", "lord of none"]))],
    )];
    let c = Corpus { books };
    let out = search(&c, &args(&[], &[], &["Lord"])).unwrap();
    assert_eq!(out, vec!["Ge 1:1 Lord of all".to_string()]);
    let out = search(&c, &args(&[], &[], &["lord"])).unwrap();
    assert_eq!(out.len(), 2);
}

#[test]
fn word_sanitizer_strips_punctuation() {
    let books = vec![book(1, "Ge", vec![Some(chapter(1, 1, &["seven seals"]))])];
    let c = Corpus { books };
    let out = search(&c, &args(&[], &[], &["s.e+v(e)n!"])).unwrap();
    assert_eq!(out, vec!["Ge 1:1 seven seals".to_string()]);
}

fn count_args(scopes: &[&str], matching: &[&str], word: &[&str], threshold: Option<u32>) -> SearchArgs {
    let mut a = args(scopes, matching, word);
    a.count = true;
    a.threshold = threshold;
    a
}

#[test]
fn counting_mode_reports_per_chapter_and_total() {
    let c = corpus_with_chapters();
    let out = search(&c, &count_args(&[], &["praise"], &[], None)).unwrap();
    assert_eq!(
        out,
        vec![
            "Ps 1: 1".to_string(),
            "Ps 3: 2".to_string(),
            "Total: 3".to_string(),
        ]
    );
}

#[test]
fn counting_mode_threshold_suppresses_chapters_not_the_total() {
    let c = corpus_with_chapters();
    let out = search(&c, &count_args(&[], &["praise"], &[], Some(2))).unwrap();
    assert_eq!(out, vec!["Ps 3: 2".to_string(), "Total: 3".to_string()]);
}

#[test]
fn word_count_submode_counts_occurrences() {
    let books = vec![book(
        1,
        "Rev",
        vec![
            Some(chapter(1, 1, &["seven seven seven", "no match"])),
            Some(chapter(1, 2, &["a seven", "seven and seven"])),
        ],
    )];
    let c = Corpus { books };
    let out = search(&c, &count_args(&[], &[], &["seven"], None)).unwrap();
    assert_eq!(
        out,
        vec![
            "Rev 1: 1 (word count: 3)".to_string(),
            "Rev 2: 2 (word count: 3)".to_string(),
            "Total: 3 (word count: 6)".to_string(),
        ]
    );
}

#[test]
fn threshold_gauges_either_metric_in_submode() {
    let books = vec![book(
        1,
        "Rev",
        vec![
            // One admitted verse, but many word occurrences.
            Some(chapter(1, 1, &["seven seven seven seven"])),
            // Chapter with one occurrence only.
            Some(chapter(1, 2, &["a seven"])),
        ],
    )];
    let c = Corpus { books };
    let out = search(&c, &count_args(&[], &[], &["seven"], Some(4))).unwrap();
    assert_eq!(
        out,
        vec![
            "Rev 1: 1 (word count: 4)".to_string(),
            "Total: 2 (word count: 5)".to_string(),
        ]
    );
}

#[test]
fn submode_needs_exactly_one_word_and_no_match_tokens() {
    let books = vec![book(1, "Rev", vec![Some(chapter(1, 1, &["seven seven"]))])];
    let c = Corpus { books };
    let out = search(&c, &count_args(&[], &["seven"], &[], None)).unwrap();
    assert_eq!(out, vec!["Rev 1: 1".to_string(), "Total: 1".to_string()]);
}

#[test]
fn counting_empty_result_still_reports_total() {
    let c = corpus_with_chapters();
    let out = search(&c, &count_args(&[], &["absent phrase"], &[], None)).unwrap();
    assert_eq!(out, vec!["Total: 0".to_string()]);
}

#[test]
fn construction_errors_abort_the_search() {
    let c = corpus_with_chapters();
    assert_eq!(
        search(&c, &args(&["Xx"], &[], &[])),
        Err(SearchError::UnknownBook)
    );
    assert_eq!(
        search(&c, &args(&["Ge..Xx"], &[], &[])),
        Err(SearchError::UnknownBook)
    );
    assert_eq!(
        search(&c, &args(&["Mt..Ge"], &[], &[])),
        Err(SearchError::RangeOrderError)
    );
    assert_eq!(
        search(&c, &args(&["Ge 1 2"], &[], &[])),
        Err(SearchError::InvalidReference)
    );
    assert_eq!(
        search(&c, &args(&["Ge x"], &[], &[])),
        Err(SearchError::InvalidReference)
    );
    assert_eq!(
        search(&c, &args(&[], &["/(/"], &[])),
        Err(SearchError::InvalidPattern)
    );
}

#[test]
fn abbreviations_resolve_case_insensitively() {
    let c = corpus_with_chapters();
    let out = search(&c, &args(&["ps 3"], &[], &[])).unwrap();
    assert_eq!(out.len(), 3);
    assert!(out[0].starts_with("Ps 3:1"));
}

#[test]
fn missing_chapter_slots_are_skipped_silently() {
    let c = corpus_with_chapters();
    let out = search(&c, &args(&["Ps"], &[], &[])).unwrap();
    assert!(!out.iter().any(|l| l.starts_with("Ps 2:")));
    assert_eq!(out.len(), 5);
}

#[test]
fn sparse_chapter_slots_keep_positional_ordinals() {
    // One book whose only present chapter sits in slot 119, as a corpus
    // with only that chapter's data would supply it.
    let mut chapters: Vec<Option<Chapter>> = Vec::new();
    for _ in 0..118 {
        chapters.push(None);
    }
    let verses: Vec<String> =
        (1..=12).map(|i| if i == 7 || i == 10 { "praise him".to_string() } else { format!("verse {}", i) }).collect();
    let verse_refs: Vec<&str> = verses.iter().map(|s| s.as_str()).collect();
    chapters.push(Some(chapter(1, 119, &verse_refs)));
    let c = Corpus { books: vec![book(1, "Ps", chapters)] };
    let out = search(&c, &args(&["Ps 119"], &["/praise/"], &[])).unwrap();
    assert_eq!(
        out,
        vec!["Ps 119:7 praise him".to_string(), "Ps 119:10 praise him".to_string()]
    );
}

#[test]
fn lone_slash_is_a_substring_test_not_a_pattern() {
    let books = vec![book(1, "Ge", vec![Some(chapter(1, 1, &["a/b", "ab"]))])];
    let c = Corpus { books };
    let out = search(&c, &args(&[], &["/"], &[])).unwrap();
    assert_eq!(out, vec!["Ge 1:1 a/b".to_string()]);
}

#[test]
fn empty_delimited_pattern_matches_everything() {
    let books = vec![book(1, "Ge", vec![Some(chapter(1, 1, &["x", "y"]))])];
    let c = Corpus { books };
    let out = search(&c, &args(&[], &["//"], &[])).unwrap();
    assert_eq!(out.len(), 2);
}
