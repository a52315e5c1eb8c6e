//! The search driver: builds the filters from the parameters, walks the
//! corpus in canonical order (ascending book ordinal, then chapter position,
//! then verse position), applies the scope chains and the text filter
//! groups, and renders either a listing of matching verses or a per-chapter
//! count report with an optional threshold.

use crate::corpus::{Book, Corpus};
use crate::filters::{
    build_groups, build_scope_chains, cc_correspond, fm_matches, group_models, groups_empty,
    lemma_models_match, model_chapter_admits, scope_build, spec_groups, spec_word_tok, tok_body,
    Groups, GroupsModel, ScopeChains, ScopeModel,
};
use crate::matcher::{re_ci, re_count, re_match_count, re_pattern};
use crate::parse::{spec_parse_scope, ScopeTarget, ScopeToken, SearchError};
use crate::render::{spec_count_line, spec_total_line, spec_verse_line, count_line, total_line, verse_line};
use crate::scope::{chain_admits, eval_chain, rule_eval, ScopeRule};
use crate::text::{filters_admit, groups_admit, tf_matches, word_ci, word_pattern, TextFilter};
use crate::SearchArgs;
use vstd::prelude::*;

verus! {

/// Final admission of a verse text by the modelled groups: any-match
/// (vacuously admitted when empty), must-match (all), exclude (none).
pub open spec fn model_admits(g: GroupsModel, text: Seq<char>) -> bool {
    &&& g.any.len() == 0 || exists|i: int|
        0 <= i < g.any.len() && fm_matches(#[trigger] g.any[i], text)
    &&& forall|i: int| 0 <= i < g.must.len() ==> fm_matches(#[trigger] g.must[i], text)
    &&& !exists|i: int| 0 <= i < g.excl.len() && fm_matches(#[trigger] g.excl[i], text)
}

/// Compiled groups that agree with their models admit the same verses.
pub proof fn lemma_groups_admit_model(
    any: Seq<TextFilter>,
    must: Seq<TextFilter>,
    excl: Seq<TextFilter>,
    g: GroupsModel,
    text: Seq<char>,
)
    requires
        group_models(any, g.any),
        group_models(must, g.must),
        group_models(excl, g.excl),
    ensures
        groups_admit(any, must, excl, text) == model_admits(g, text),
{
    if exists|i: int| 0 <= i < any.len() && tf_matches(any[i], text) {
        let i = choose|i: int| 0 <= i < any.len() && tf_matches(any[i], text);
        lemma_models_match(any[i], g.any[i], text);
        assert(fm_matches(g.any[i], text));
    }
    if exists|i: int| 0 <= i < g.any.len() && fm_matches(#[trigger] g.any[i], text) {
        let i = choose|i: int| 0 <= i < g.any.len() && fm_matches(#[trigger] g.any[i], text);
        lemma_models_match(any[i], g.any[i], text);
        assert(tf_matches(any[i], text));
    }
    if exists|i: int| 0 <= i < excl.len() && tf_matches(excl[i], text) {
        let i = choose|i: int| 0 <= i < excl.len() && tf_matches(excl[i], text);
        lemma_models_match(excl[i], g.excl[i], text);
        assert(fm_matches(g.excl[i], text));
    }
    if exists|i: int| 0 <= i < g.excl.len() && fm_matches(#[trigger] g.excl[i], text) {
        let i = choose|i: int| 0 <= i < g.excl.len() && fm_matches(#[trigger] g.excl[i], text);
        lemma_models_match(excl[i], g.excl[i], text);
        assert(tf_matches(excl[i], text));
    }
    if forall|i: int| 0 <= i < must.len() ==> tf_matches(must[i], text) {
        assert forall|i: int| 0 <= i < g.must.len() implies fm_matches(
            #[trigger] g.must[i],
            text,
        ) by {
            lemma_models_match(must[i], g.must[i], text);
            assert(tf_matches(must[i], text));
        }
    }
    if forall|i: int| 0 <= i < g.must.len() ==> fm_matches(#[trigger] g.must[i], text) {
        assert forall|i: int| 0 <= i < must.len() implies tf_matches(must[i], text) by {
            lemma_models_match(must[i], g.must[i], text);
            assert(fm_matches(g.must[i], text));
        }
    }
}

/// The listing lines of the first `n` verses of one chapter: one line per
/// admitted verse, in verse order.
pub open spec fn verse_block(
    name: Seq<char>,
    cpos: int,
    g: GroupsModel,
    verses: Seq<String>,
    n: int,
) -> Seq<Seq<char>>
    decreases n,
{
    if n <= 0 {
        Seq::empty()
    } else {
        verse_block(name, cpos, g, verses, n - 1) + (if model_admits(g, verses[n - 1]@) {
            seq![spec_verse_line(name, cpos as nat, n as nat, verses[n - 1]@)]
        } else {
            Seq::empty()
        })
    }
}

/// The listing lines of chapter slot `ci` of a book: nothing for a missing
/// slot or a chapter its chain denies. The chapter ordinal is the slot's
/// position, `ci + 1`.
pub open spec fn chapter_block(
    book: Book,
    m: Map<u32, Seq<ScopeRule>>,
    g: GroupsModel,
    ci: int,
) -> Seq<Seq<char>> {
    match book.chapters@[ci] {
        None => Seq::empty(),
        Some(ch) => if model_chapter_admits(m, book.number, (ci + 1) as u32) {
            verse_block(book.name@, ci + 1, g, ch.verses@, ch.verses@.len() as int)
        } else {
            Seq::empty()
        },
    }
}

/// The listing lines of the first `n` chapter slots of one book.
pub open spec fn book_lines(book: Book, m: Map<u32, Seq<ScopeRule>>, g: GroupsModel, n: int) -> Seq<
    Seq<char>,
>
    decreases n,
{
    if n <= 0 {
        Seq::empty()
    } else {
        book_lines(book, m, g, n - 1) + chapter_block(book, m, g, n - 1)
    }
}

/// The listing lines of one book: nothing when the global chain denies it.
pub open spec fn book_block(
    book: Book,
    bc: Seq<ScopeRule>,
    m: Map<u32, Seq<ScopeRule>>,
    g: GroupsModel,
) -> Seq<Seq<char>> {
    if chain_admits(bc, book.number) {
        book_lines(book, m, g, book.chapters@.len() as int)
    } else {
        Seq::empty()
    }
}

/// The listing lines of the first `n` books of the corpus.
pub open spec fn corpus_lines(
    books: Seq<Book>,
    bc: Seq<ScopeRule>,
    m: Map<u32, Seq<ScopeRule>>,
    g: GroupsModel,
    n: int,
) -> Seq<Seq<char>>
    decreases n,
{
    if n <= 0 {
        Seq::empty()
    } else {
        corpus_lines(books, bc, m, g, n - 1) + book_block(books[n - 1], bc, m, g)
    }
}

/// Whether the chapter chains admit chapter `c` of book `b`.
fn eval_chapter_chain(
    cc: &Vec<Option<Vec<ScopeRule>>>,
    Ghost(m): Ghost<Map<u32, Seq<ScopeRule>>>,
    b: u32,
    c: u32,
) -> (r: bool)
    requires
        cc_correspond(cc@, m),
    ensures
        r == model_chapter_admits(m, b, c),
{
    if (b as usize) < cc.len() {
        match &cc[b as usize] {
            Some(chain) => eval_chain(chain, c),
            None => {
                proof {
                    if m.contains_key(b) {
                        assert(cc@[b as int] is Some);
                    }
                }
                true
            },
        }
    } else {
        proof {
            if m.contains_key(b) {
                assert(b < cc@.len());
            }
        }
        true
    }
}

/// Walk the corpus in canonical order and list every admitted verse of
/// every admitted chapter of every admitted book.
fn scan_list(
    corpus: &Corpus,
    sc: &ScopeChains,
    groups: &Groups,
    Ghost(sm): Ghost<ScopeModel>,
    Ghost(gm): Ghost<GroupsModel>,
) -> (out: Vec<String>)
    requires
        sc.book_chain@ == sm.book_chain,
        cc_correspond(sc.chapter_chains@, sm.chapter_chains),
        group_models(groups.any@, gm.any),
        group_models(groups.must@, gm.must),
        group_models(groups.excl@, gm.excl),
    ensures
        out.deep_view() == corpus_lines(
            corpus.books@,
            sm.book_chain,
            sm.chapter_chains,
            gm,
            corpus.books@.len() as int,
        ),
{
    let mut out: Vec<String> = Vec::new();
    let nb = corpus.books.len();
    let mut bi: usize = 0;
    while bi < nb
        invariant
            nb == corpus.books@.len(),
            bi <= nb,
            sc.book_chain@ == sm.book_chain,
            cc_correspond(sc.chapter_chains@, sm.chapter_chains),
            group_models(groups.any@, gm.any),
            group_models(groups.must@, gm.must),
            group_models(groups.excl@, gm.excl),
            out.deep_view() == corpus_lines(
                corpus.books@,
                sm.book_chain,
                sm.chapter_chains,
                gm,
                bi as int,
            ),
        decreases nb - bi,
    {
        let book = &corpus.books[bi];
        let admitted = eval_chain(&sc.book_chain, book.number);
        if admitted {
            let nc = book.chapters.len();
            let mut ci: usize = 0;
            while ci < nc
                invariant
                    nb == corpus.books@.len(),
                    bi < nb,
                    nc == book.chapters@.len(),
                    ci <= nc,
                    book == corpus.books@[bi as int],
                    chain_admits(sm.book_chain, book.number),
                    sc.book_chain@ == sm.book_chain,
                    cc_correspond(sc.chapter_chains@, sm.chapter_chains),
                    group_models(groups.any@, gm.any),
                    group_models(groups.must@, gm.must),
                    group_models(groups.excl@, gm.excl),
                    out.deep_view() == corpus_lines(
                        corpus.books@,
                        sm.book_chain,
                        sm.chapter_chains,
                        gm,
                        bi as int,
                    ) + book_lines(*book, sm.chapter_chains, gm, ci as int),
                decreases nc - ci,
            {
                match &book.chapters[ci] {
                    None => {
                        proof {
                            assert(out.deep_view() =~= corpus_lines(
                                corpus.books@,
                                sm.book_chain,
                                sm.chapter_chains,
                                gm,
                                bi as int,
                            ) + book_lines(*book, sm.chapter_chains, gm, ci + 1));
                        }
                    },
                    Some(ch) => {
                        let cnum = #[verifier::truncate] ((ci + 1) as u32);
                        let cadmit = eval_chapter_chain(
                            &sc.chapter_chains,
                            Ghost(sm.chapter_chains),
                            book.number,
                            cnum,
                        );
                        if cadmit {
                            let nv = ch.verses.len();
                            let mut vi: usize = 0;
                            while vi < nv
                                invariant
                                    ci < nc <= usize::MAX,
                                    nv == ch.verses@.len(),
                                    vi <= nv,
                                    group_models(groups.any@, gm.any),
                                    group_models(groups.must@, gm.must),
                                    group_models(groups.excl@, gm.excl),
                                    out.deep_view() == corpus_lines(
                                        corpus.books@,
                                        sm.book_chain,
                                        sm.chapter_chains,
                                        gm,
                                        bi as int,
                                    ) + book_lines(*book, sm.chapter_chains, gm, ci as int)
                                        + verse_block(
                                        book.name@,
                                        ci + 1,
                                        gm,
                                        ch.verses@,
                                        vi as int,
                                    ),
                                decreases nv - vi,
                            {
                                let text = &ch.verses[vi];
                                let ok = filters_admit(
                                    &groups.any,
                                    &groups.must,
                                    &groups.excl,
                                    text.as_str(),
                                );
                                proof {
                                    lemma_groups_admit_model(
                                        groups.any@,
                                        groups.must@,
                                        groups.excl@,
                                        gm,
                                        text@,
                                    );
                                }
                                if ok {
                                    let line = verse_line(
                                        book.name.as_str(),
                                        (ci + 1) as u64,
                                        (vi + 1) as u64,
                                        text.as_str(),
                                    );
                                    let ghost dv0 = out.deep_view();
                                    out.push(line);
                                    proof {
                                        assert(out.deep_view() =~= dv0.push(line@));
                                    }
                                }
                                proof {
                                    assert(out.deep_view() =~= corpus_lines(
                                        corpus.books@,
                                        sm.book_chain,
                                        sm.chapter_chains,
                                        gm,
                                        bi as int,
                                    ) + book_lines(*book, sm.chapter_chains, gm, ci as int)
                                        + verse_block(book.name@, ci + 1, gm, ch.verses@, vi + 1));
                                }
                                vi = vi + 1;
                            }
                        }
                        proof {
                            assert(out.deep_view() =~= corpus_lines(
                                corpus.books@,
                                sm.book_chain,
                                sm.chapter_chains,
                                gm,
                                bi as int,
                            ) + book_lines(*book, sm.chapter_chains, gm, ci + 1));
                        }
                    },
                }
                ci = ci + 1;
            }
            proof {
                assert(out.deep_view() =~= corpus_lines(
                    corpus.books@,
                    sm.book_chain,
                    sm.chapter_chains,
                    gm,
                    bi + 1,
                ));
            }
        } else {
            proof {
                assert(out.deep_view() =~= corpus_lines(
                    corpus.books@,
                    sm.book_chain,
                    sm.chapter_chains,
                    gm,
                    bi + 1,
                ));
            }
        }
        bi = bi + 1;
    }
    out
}

/// Saturating 64-bit addition: counters cap at `u64::MAX` instead of
/// wrapping.
pub open spec fn add64(a: u64, b: u64) -> u64 {
    if a + b > u64::MAX {
        u64::MAX
    } else {
        (a + b) as u64
    }
}

/// The number of admitted verses among the first `n` of a chapter.
pub open spec fn verse_count(g: GroupsModel, verses: Seq<String>, n: int) -> nat
    decreases n,
{
    if n <= 0 {
        0
    } else {
        verse_count(g, verses, n - 1) + (if model_admits(g, verses[n - 1]@) {
            1nat
        } else {
            0
        })
    }
}

/// The word occurrences of the submode pattern summed over the admitted
/// ones of the first `n` verses of a chapter.
pub open spec fn word_count(
    g: GroupsModel,
    p: Seq<char>,
    pci: bool,
    verses: Seq<String>,
    n: int,
) -> u64
    decreases n,
{
    if n <= 0 {
        0
    } else {
        add64(
            word_count(g, p, pci, verses, n - 1),
            if model_admits(g, verses[n - 1]@) {
                re_count(p, pci, verses[n - 1]@) as u64
            } else {
                0
            },
        )
    }
}

/// The admitted-verse count of chapter slot `ci` of a book (zero for a
/// missing slot or a denied chapter).
pub open spec fn chapter_vc(book: Book, m: Map<u32, Seq<ScopeRule>>, g: GroupsModel, ci: int) -> nat {
    match book.chapters@[ci] {
        None => 0,
        Some(ch) => if model_chapter_admits(m, book.number, (ci + 1) as u32) {
            verse_count(g, ch.verses@, ch.verses@.len() as int)
        } else {
            0
        },
    }
}

/// The word count of chapter slot `ci` of a book.
pub open spec fn chapter_wc(
    book: Book,
    m: Map<u32, Seq<ScopeRule>>,
    g: GroupsModel,
    p: Seq<char>,
    pci: bool,
    ci: int,
) -> u64 {
    match book.chapters@[ci] {
        None => 0,
        Some(ch) => if model_chapter_admits(m, book.number, (ci + 1) as u32) {
            word_count(g, p, pci, ch.verses@, ch.verses@.len() as int)
        } else {
            0
        },
    }
}

/// Whether a chapter's counts clear the reporting threshold: no threshold
/// reports everything; the same value gauges the verse count and, in the
/// word-count submode, the word count — either clearing the bar reports
/// the chapter.
pub open spec fn threshold_passes(th: Option<u32>, vc: nat, wc: u64, submode: bool) -> bool {
    match th {
        None => true,
        Some(t) => vc >= t || (submode && wc >= t),
    }
}

/// The report line of chapter slot `ci`, if its verse count is positive and
/// clears the threshold.
pub open spec fn chapter_count_block(
    book: Book,
    m: Map<u32, Seq<ScopeRule>>,
    g: GroupsModel,
    p: Seq<char>,
    pci: bool,
    th: Option<u32>,
    submode: bool,
    ci: int,
) -> Seq<Seq<char>> {
    let vc = chapter_vc(book, m, g, ci);
    let wc = chapter_wc(book, m, g, p, pci, ci);
    if book.chapters@[ci] is Some && model_chapter_admits(m, book.number, (ci + 1) as u32) && vc
        > 0 && threshold_passes(th, vc, wc, submode) {
        seq![
            spec_count_line(
                book.name@,
                (ci + 1) as nat,
                vc,
                if submode {
                    Some(wc as nat)
                } else {
                    None
                },
            ),
        ]
    } else {
        Seq::empty()
    }
}

/// The report lines of the first `n` chapter slots of one book.
pub open spec fn book_count_lines(
    book: Book,
    m: Map<u32, Seq<ScopeRule>>,
    g: GroupsModel,
    p: Seq<char>,
    pci: bool,
    th: Option<u32>,
    submode: bool,
    n: int,
) -> Seq<Seq<char>>
    decreases n,
{
    if n <= 0 {
        Seq::empty()
    } else {
        book_count_lines(book, m, g, p, pci, th, submode, n - 1) + chapter_count_block(
            book,
            m,
            g,
            p,
            pci,
            th,
            submode,
            n - 1,
        )
    }
}

/// The verse total of the first `n` chapter slots of one book.
pub open spec fn book_vc(book: Book, m: Map<u32, Seq<ScopeRule>>, g: GroupsModel, n: int) -> u64
    decreases n,
{
    if n <= 0 {
        0
    } else {
        add64(book_vc(book, m, g, n - 1), chapter_vc(book, m, g, n - 1) as u64)
    }
}

/// The word total of the first `n` chapter slots of one book.
pub open spec fn book_wc(
    book: Book,
    m: Map<u32, Seq<ScopeRule>>,
    g: GroupsModel,
    p: Seq<char>,
    pci: bool,
    n: int,
) -> u64
    decreases n,
{
    if n <= 0 {
        0
    } else {
        add64(book_wc(book, m, g, p, pci, n - 1), chapter_wc(book, m, g, p, pci, n - 1))
    }
}

/// The report lines of the first `n` books (without the total line).
pub open spec fn corpus_count_lines(
    books: Seq<Book>,
    bc: Seq<ScopeRule>,
    m: Map<u32, Seq<ScopeRule>>,
    g: GroupsModel,
    p: Seq<char>,
    pci: bool,
    th: Option<u32>,
    submode: bool,
    n: int,
) -> Seq<Seq<char>>
    decreases n,
{
    if n <= 0 {
        Seq::empty()
    } else {
        corpus_count_lines(books, bc, m, g, p, pci, th, submode, n - 1) + (if chain_admits(
            bc,
            books[n - 1].number,
        ) {
            book_count_lines(
                books[n - 1],
                m,
                g,
                p,
                pci,
                th,
                submode,
                books[n - 1].chapters@.len() as int,
            )
        } else {
            Seq::empty()
        })
    }
}

/// The verse total of the first `n` books.
pub open spec fn corpus_vc(
    books: Seq<Book>,
    bc: Seq<ScopeRule>,
    m: Map<u32, Seq<ScopeRule>>,
    g: GroupsModel,
    n: int,
) -> u64
    decreases n,
{
    if n <= 0 {
        0
    } else {
        add64(
            corpus_vc(books, bc, m, g, n - 1),
            if chain_admits(bc, books[n - 1].number) {
                book_vc(books[n - 1], m, g, books[n - 1].chapters@.len() as int)
            } else {
                0
            },
        )
    }
}

/// The word total of the first `n` books.
pub open spec fn corpus_wc(
    books: Seq<Book>,
    bc: Seq<ScopeRule>,
    m: Map<u32, Seq<ScopeRule>>,
    g: GroupsModel,
    p: Seq<char>,
    pci: bool,
    n: int,
) -> u64
    decreases n,
{
    if n <= 0 {
        0
    } else {
        add64(
            corpus_wc(books, bc, m, g, p, pci, n - 1),
            if chain_admits(bc, books[n - 1].number) {
                book_wc(books[n - 1], m, g, p, pci, books[n - 1].chapters@.len() as int)
            } else {
                0
            },
        )
    }
}

/// The whole count report: the per-chapter lines that clear the threshold,
/// then the total line.
pub open spec fn spec_report(
    corpus: Corpus,
    bc: Seq<ScopeRule>,
    m: Map<u32, Seq<ScopeRule>>,
    g: GroupsModel,
    p: Seq<char>,
    pci: bool,
    th: Option<u32>,
    submode: bool,
) -> Seq<Seq<char>> {
    let n = corpus.books@.len() as int;
    corpus_count_lines(corpus.books@, bc, m, g, p, pci, th, submode, n) + seq![
        spec_total_line(
            corpus_vc(corpus.books@, bc, m, g, n) as nat,
            if submode {
                Some(corpus_wc(corpus.books@, bc, m, g, p, pci, n) as nat)
            } else {
                None
            },
        ),
    ]
}

/// Walk the corpus in canonical order, count the admitted verses (and, in
/// the word-count submode, the word occurrences) per chapter, and render
/// the report.
fn scan_count(
    corpus: &Corpus,
    sc: &ScopeChains,
    groups: &Groups,
    word_re: &Option<regex::Regex>,
    threshold: Option<u32>,
    Ghost(sm): Ghost<ScopeModel>,
    Ghost(gm): Ghost<GroupsModel>,
    Ghost(p): Ghost<Seq<char>>,
    Ghost(pci): Ghost<bool>,
) -> (out: Vec<String>)
    requires
        sc.book_chain@ == sm.book_chain,
        cc_correspond(sc.chapter_chains@, sm.chapter_chains),
        group_models(groups.any@, gm.any),
        group_models(groups.must@, gm.must),
        group_models(groups.excl@, gm.excl),
        (*word_re) matches Some(re) ==> re_pattern(re) == p && re_ci(re) == pci,
    ensures
        out.deep_view() == spec_report(
            *corpus,
            sm.book_chain,
            sm.chapter_chains,
            gm,
            p,
            pci,
            threshold,
            (*word_re) is Some,
        ),
{
    let ghost books = corpus.books@;
    let ghost bc = sm.book_chain;
    let ghost m = sm.chapter_chains;
    let ghost submode = (*word_re) is Some;
    let mut out: Vec<String> = Vec::new();
    let mut total_vc: u64 = 0;
    let mut total_wc: u64 = 0;
    let nb = corpus.books.len();
    let mut bi: usize = 0;
    while bi < nb
        invariant
            nb == books.len(),
            books == corpus.books@,
            bi <= nb,
            sc.book_chain@ == bc,
            cc_correspond(sc.chapter_chains@, m),
            group_models(groups.any@, gm.any),
            group_models(groups.must@, gm.must),
            group_models(groups.excl@, gm.excl),
            (*word_re) matches Some(re) ==> re_pattern(re) == p && re_ci(re) == pci,
            submode == (*word_re) is Some,
            out.deep_view() == corpus_count_lines(
                books,
                bc,
                m,
                gm,
                p,
                pci,
                threshold,
                submode,
                bi as int,
            ),
            total_vc == corpus_vc(books, bc, m, gm, bi as int),
            submode ==> total_wc == corpus_wc(books, bc, m, gm, p, pci, bi as int),
        decreases nb - bi,
    {
        let book = &corpus.books[bi];
        let admitted = eval_chain(&sc.book_chain, book.number);
        if admitted {
            let nc = book.chapters.len();
            let mut bvc: u64 = 0;
            let mut bwc: u64 = 0;
            let mut ci: usize = 0;
            while ci < nc
                invariant
                    nb == books.len(),
                    books == corpus.books@,
                    bi < nb,
                    nc == book.chapters@.len(),
                    ci <= nc,
                    book == corpus.books@[bi as int],
                    chain_admits(bc, book.number),
                    sc.book_chain@ == bc,
                    cc_correspond(sc.chapter_chains@, m),
                    group_models(groups.any@, gm.any),
                    group_models(groups.must@, gm.must),
                    group_models(groups.excl@, gm.excl),
                    (*word_re) matches Some(re) ==> re_pattern(re) == p && re_ci(re) == pci,
                    submode == (*word_re) is Some,
                    out.deep_view() == corpus_count_lines(
                        books,
                        bc,
                        m,
                        gm,
                        p,
                        pci,
                        threshold,
                        submode,
                        bi as int,
                    ) + book_count_lines(*book, m, gm, p, pci, threshold, submode, ci as int),
                    bvc == book_vc(*book, m, gm, ci as int),
                    submode ==> bwc == book_wc(*book, m, gm, p, pci, ci as int),
                decreases nc - ci,
            {
                match &book.chapters[ci] {
                    None => {
                        proof {
                            assert(out.deep_view() =~= corpus_count_lines(
                                books,
                                bc,
                                m,
                                gm,
                                p,
                                pci,
                                threshold,
                                submode,
                                bi as int,
                            ) + book_count_lines(*book, m, gm, p, pci, threshold, submode, ci + 1));
                        }
                    },
                    Some(ch) => {
                        let cnum = #[verifier::truncate] ((ci + 1) as u32);
                        let cadmit = eval_chapter_chain(
                            &sc.chapter_chains,
                            Ghost(m),
                            book.number,
                            cnum,
                        );
                        if cadmit {
                            let nv = ch.verses.len();
                            let mut vc: usize = 0;
                            let mut wc: u64 = 0;
                            let mut vi: usize = 0;
                            while vi < nv
                                invariant
                                    nv == ch.verses@.len(),
                                    vi <= nv,
                                    vc <= vi,
                                    group_models(groups.any@, gm.any),
                                    group_models(groups.must@, gm.must),
                                    group_models(groups.excl@, gm.excl),
                                    (*word_re) matches Some(re) ==> re_pattern(re) == p && re_ci(re)
                                        == pci,
                                    vc == verse_count(gm, ch.verses@, vi as int),
                                    (*word_re) is Some ==> wc == word_count(
                                        gm,
                                        p,
                                        pci,
                                        ch.verses@,
                                        vi as int,
                                    ),
                                decreases nv - vi,
                            {
                                let text = &ch.verses[vi];
                                let ok = filters_admit(
                                    &groups.any,
                                    &groups.must,
                                    &groups.excl,
                                    text.as_str(),
                                );
                                proof {
                                    lemma_groups_admit_model(
                                        groups.any@,
                                        groups.must@,
                                        groups.excl@,
                                        gm,
                                        text@,
                                    );
                                }
                                if ok {
                                    vc = vc + 1;
                                    match word_re {
                                        Some(re) => {
                                            let c = re_match_count(re, text.as_str());
                                            wc = wc.saturating_add(c as u64);
                                        },
                                        None => {},
                                    }
                                }
                                vi = vi + 1;
                            }
                            let passes = match threshold {
                                None => true,
                                Some(t) => vc >= t as usize || (word_re.is_some() && wc
                                    >= t as u64),
                            };
                            if vc > 0 && passes {
                                let line = count_line(
                                    book.name.as_str(),
                                    (ci + 1) as u64,
                                    vc as u64,
                                    if word_re.is_some() {
                                        Some(wc)
                                    } else {
                                        None
                                    },
                                );
                                let ghost dv0 = out.deep_view();
                                out.push(line);
                                proof {
                                    assert(out.deep_view() =~= dv0.push(line@));
                                }
                            }
                            bvc = bvc.saturating_add(vc as u64);
                            bwc = bwc.saturating_add(wc);
                        }
                        proof {
                            assert(out.deep_view() =~= corpus_count_lines(
                                books,
                                bc,
                                m,
                                gm,
                                p,
                                pci,
                                threshold,
                                submode,
                                bi as int,
                            ) + book_count_lines(*book, m, gm, p, pci, threshold, submode, ci + 1));
                        }
                    },
                }
                ci = ci + 1;
            }
            total_vc = total_vc.saturating_add(bvc);
            total_wc = total_wc.saturating_add(bwc);
            proof {
                assert(out.deep_view() =~= corpus_count_lines(
                    books,
                    bc,
                    m,
                    gm,
                    p,
                    pci,
                    threshold,
                    submode,
                    bi + 1,
                ));
            }
        } else {
            proof {
                assert(out.deep_view() =~= corpus_count_lines(
                    books,
                    bc,
                    m,
                    gm,
                    p,
                    pci,
                    threshold,
                    submode,
                    bi + 1,
                ));
            }
        }
        bi = bi + 1;
    }
    let line = total_line(
        total_vc,
        if word_re.is_some() {
            Some(total_wc)
        } else {
            None
        },
    );
    let ghost dv0 = out.deep_view();
    out.push(line);
    proof {
        assert(out.deep_view() =~= dv0.push(line@));
        assert(out.deep_view() =~= spec_report(
            *corpus,
            sm.book_chain,
            sm.chapter_chains,
            gm,
            p,
            pci,
            threshold,
            (*word_re) is Some,
        ));
    }
    out
}

/// The word-count submode: exactly one word token and no match tokens.
pub open spec fn spec_submode(params: SearchArgs) -> bool {
    params.matching@.len() == 0 && params.word@.len() == 1
}

/// What a whole search invocation returns: the first construction error
/// among the scope tokens, then the match tokens, then the word tokens;
/// otherwise the listing lines, or in counting mode the report lines.
pub open spec fn spec_search(corpus: Corpus, params: SearchArgs) -> Result<
    Seq<Seq<char>>,
    SearchError,
> {
    match scope_build(corpus.books@, params.scopes@, params.scopes@.len() as int) {
        Err(e) => Err(e),
        Ok(sm) => match spec_groups(params.matching@, params.word@) {
            Err(e) => Err(e),
            Ok(g) => {
                let submode = spec_submode(params);
                let p = if submode {
                    word_pattern(tok_body(params.word@[0]@))
                } else {
                    Seq::empty()
                };
                let pci = if submode {
                    word_ci(tok_body(params.word@[0]@))
                } else {
                    false
                };
                if params.count {
                    Ok(
                        spec_report(
                            corpus,
                            sm.book_chain,
                            sm.chapter_chains,
                            g,
                            p,
                            pci,
                            params.threshold,
                            submode,
                        ),
                    )
                } else {
                    Ok(
                        corpus_lines(
                            corpus.books@,
                            sm.book_chain,
                            sm.chapter_chains,
                            g,
                            corpus.books@.len() as int,
                        ),
                    )
                }
            },
        },
    }
}

/// A text token with its group prefix stripped.
fn word_body(tok: &str) -> (r: &str)
    ensures
        r@ == tok_body(tok@),
{
    let n = tok.unicode_len();
    if n > 0 {
        let c = tok.get_char(0);
        if c == '!' || c == '+' {
            let b = tok.substring_char(1, n);
            proof {
                assert(b@ =~= tok_body(tok@));
            }
            return b;
        }
    }
    tok
}

/// Perform a search over the corpus: build the scope chains and text filter
/// groups from the parameters, abort on the first construction error, and
/// otherwise scan and render the output lines.
pub fn search(corpus: &Corpus, params: &SearchArgs) -> (r: Result<Vec<String>, SearchError>)
    requires
        corpus.books@.len() < u32::MAX,
    ensures
        r matches Ok(lines) ==> spec_search(*corpus, *params) == Ok::<
            Seq<Seq<char>>,
            SearchError,
        >(lines.deep_view()),
        r matches Err(e) ==> spec_search(*corpus, *params) == Err::<Seq<Seq<char>>, SearchError>(
            e,
        ),
{
    let sc = match build_scope_chains(&corpus.books, &params.scopes) {
        Ok(sc) => sc,
        Err(e) => {
            return Err(e);
        },
    };
    let ghost sm = scope_build(corpus.books@, params.scopes@, params.scopes@.len() as int)->Ok_0;
    let groups = match build_groups(&params.matching, &params.word) {
        Ok(g) => g,
        Err(e) => {
            return Err(e);
        },
    };
    let ghost gm = spec_groups(params.matching@, params.word@)->Ok_0;
    let submode = params.matching.len() == 0 && params.word.len() == 1;
    let word_re: Option<regex::Regex> = if submode {
        let body = word_body(params.word[0].as_str());
        match crate::text::build_word_regex(body) {
            Some(re) => Some(re),
            None => {
                proof {
                    assert(spec_word_tok(params.word@[0]@) is Ok);
                    assert(false);
                }
                return Err(SearchError::InvalidPattern);
            },
        }
    } else {
        None
    };
    let ghost p = if spec_submode(*params) {
        word_pattern(tok_body(params.word@[0]@))
    } else {
        Seq::empty()
    };
    let ghost pci = if spec_submode(*params) {
        word_ci(tok_body(params.word@[0]@))
    } else {
        false
    };
    if params.count {
        Ok(
            scan_count(
                corpus,
                &sc,
                &groups,
                &word_re,
                params.threshold,
                Ghost(sm),
                Ghost(gm),
                Ghost(p),
                Ghost(pci),
            ),
        )
    } else {
        Ok(scan_list(corpus, &sc, &groups, Ghost(sm), Ghost(gm)))
    }
}

/// The canonical listing of every one of the first `n` verses of a chapter,
/// unfiltered, in verse order.
pub open spec fn plain_verse_lines(
    name: Seq<char>,
    cpos: int,
    verses: Seq<String>,
    n: int,
) -> Seq<Seq<char>>
    decreases n,
{
    if n <= 0 {
        Seq::empty()
    } else {
        plain_verse_lines(name, cpos, verses, n - 1).push(
            spec_verse_line(name, cpos as nat, n as nat, verses[n - 1]@),
        )
    }
}

/// The canonical listing of every present verse of the first `n` chapter
/// slots of a book.
pub open spec fn plain_book_lines(book: Book, n: int) -> Seq<Seq<char>>
    decreases n,
{
    if n <= 0 {
        Seq::empty()
    } else {
        plain_book_lines(book, n - 1) + (match book.chapters@[n - 1] {
            None => Seq::empty(),
            Some(ch) => plain_verse_lines(book.name@, n, ch.verses@, ch.verses@.len() as int),
        })
    }
}

/// The canonical listing of every present verse of the first `n` books:
/// books in ascending position, then chapter slots in order, then verses in
/// order — each present verse exactly once.
pub open spec fn plain_corpus_lines(books: Seq<Book>, n: int) -> Seq<Seq<char>>
    decreases n,
{
    if n <= 0 {
        Seq::empty()
    } else {
        plain_corpus_lines(books, n - 1) + plain_book_lines(
            books[n - 1],
            books[n - 1].chapters@.len() as int,
        )
    }
}

proof fn lemma_verse_block_plain(name: Seq<char>, cpos: int, verses: Seq<String>, n: int)
    ensures
        verse_block(name, cpos, groups_empty(), verses, n) == plain_verse_lines(
            name,
            cpos,
            verses,
            n,
        ),
    decreases n,
{
    if n > 0 {
        lemma_verse_block_plain(name, cpos, verses, n - 1);
        assert(model_admits(groups_empty(), verses[n - 1]@));
        assert(verse_block(name, cpos, groups_empty(), verses, n) =~= plain_verse_lines(
            name,
            cpos,
            verses,
            n,
        ));
    }
}

proof fn lemma_book_lines_plain(book: Book, n: int)
    ensures
        book_lines(book, Map::empty(), groups_empty(), n) == plain_book_lines(book, n),
    decreases n,
{
    if n > 0 {
        lemma_book_lines_plain(book, n - 1);
        match book.chapters@[n - 1] {
            None => {},
            Some(ch) => {
                lemma_verse_block_plain(book.name@, n, ch.verses@, ch.verses@.len() as int);
            },
        }
    }
}

proof fn lemma_corpus_lines_plain(books: Seq<Book>, n: int)
    ensures
        corpus_lines(books, Seq::empty(), Map::empty(), groups_empty(), n) == plain_corpus_lines(
            books,
            n,
        ),
    decreases n,
{
    if n > 0 {
        lemma_corpus_lines_plain(books, n - 1);
        lemma_book_lines_plain(books[n - 1], books[n - 1].chapters@.len() as int);
    }
}

/// With no scope tokens and no text tokens, in listing mode, the search
/// lists every present verse of the corpus exactly once, in canonical
/// order: ascending book position, then chapter slot, then verse position.
pub proof fn lemma_no_tokens_lists_all(corpus: Corpus, params: SearchArgs)
    requires
        params.scopes@.len() == 0,
        params.matching@.len() == 0,
        params.word@.len() == 0,
        !params.count,
    ensures
        spec_search(corpus, params) == Ok::<Seq<Seq<char>>, SearchError>(
            plain_corpus_lines(corpus.books@, corpus.books@.len() as int),
        ),
{
    lemma_corpus_lines_plain(corpus.books@, corpus.books@.len() as int);
}

/// A chain of the implicit exclude-all rule followed by one more rule
/// decides an ordinal by that rule alone, over a denied accumulator.
proof fn lemma_default_then(rule: ScopeRule, id: u32)
    ensures
        chain_admits(seq![ScopeRule::ExcludeAll].push(rule), id) == rule_eval(rule, false, id),
{
    let base = seq![ScopeRule::ExcludeAll];
    let chain = base.push(rule);
    assert(chain.drop_last() =~= base);
    assert(chain.last() == rule);
    assert(base.drop_last() =~= Seq::<ScopeRule>::empty());
    assert(base.last() == ScopeRule::ExcludeAll);
    assert(chain_admits(Seq::<ScopeRule>::empty(), id));
    assert(!chain_admits(base, id));
    assert(chain_admits(chain, id) == rule_eval(rule, false, id));
}

/// The scope `OT` admits exactly the books of the inclusive ordinal range
/// 1..=39, and `NT` exactly 40..=66.
pub proof fn lemma_ot_nt_ranges(books: Seq<Book>, ot: Seq<String>, nt: Seq<String>, id: u32)
    requires
        ot.len() == 1,
        ot[0]@ == "OT"@,
        nt.len() == 1,
        nt[0]@ == "NT"@,
    ensures
        scope_build(books, ot, 1) matches Ok(o) && (chain_admits(o.book_chain, id) <==> 1 <= id
            <= 39),
        scope_build(books, nt, 1) matches Ok(n) && (chain_admits(n.book_chain, id) <==> 40 <= id
            <= 66),
{
    reveal_strlit("OT");
    reveal_strlit("NT");
    assert(ot[0]@ =~= seq!['O', 'T']);
    assert(nt[0]@ =~= seq!['N', 'T']);
    lemma_default_then(ScopeRule::IncludeRange(1, 39), id);
    lemma_default_then(ScopeRule::IncludeRange(40, 66), id);
    assert(spec_parse_scope(books, ot[0]@) == Ok::<ScopeToken, SearchError>(
        ScopeToken { exclude: false, target: ScopeTarget::Range(1, 39) },
    ));
    assert(spec_parse_scope(books, nt[0]@) == Ok::<ScopeToken, SearchError>(
        ScopeToken { exclude: false, target: ScopeTarget::Range(40, 66) },
    ));
    assert(scope_build(books, ot, 0) == Ok::<ScopeModel, SearchError>(
        ScopeModel { book_chain: Seq::empty(), chapter_chains: Map::empty() },
    ));
    assert(scope_build(books, nt, 0) == Ok::<ScopeModel, SearchError>(
        ScopeModel { book_chain: Seq::empty(), chapter_chains: Map::empty() },
    ));
    assert(scope_build(books, ot, 1) matches Ok(o) && o.book_chain == seq![
        ScopeRule::ExcludeAll,
    ].push(ScopeRule::IncludeRange(1, 39)));
    assert(scope_build(books, nt, 1) matches Ok(n) && n.book_chain == seq![
        ScopeRule::ExcludeAll,
    ].push(ScopeRule::IncludeRange(40, 66)));
}

/// The books admitted by the scope `{"OT"}` and those admitted by `{"NT"}`
/// partition the 66 canonical ordinals: every ordinal 1..=66 is admitted by
/// exactly one of the two.
pub proof fn lemma_ot_nt_partition(books: Seq<Book>, ot: Seq<String>, nt: Seq<String>, id: u32)
    requires
        ot.len() == 1,
        ot[0]@ == "OT"@,
        nt.len() == 1,
        nt[0]@ == "NT"@,
        1 <= id <= 66,
    ensures
        scope_build(books, ot, 1) matches Ok(o) && scope_build(books, nt, 1) matches Ok(n)
            && (chain_admits(o.book_chain, id) <==> !chain_admits(n.book_chain, id)),
{
    lemma_ot_nt_ranges(books, ot, nt, id);
}

} // verus!
