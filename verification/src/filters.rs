//! Building the per-invocation filters from the operator's tokens: the
//! global book chain, one lazily created chapter chain per book, and the
//! three text predicate groups.
//!
//! Scope tokens are processed left to right. An inclusion whose target
//! chain is empty first pushes an exclude-all rule, flipping that chain's
//! default from admit-all to deny-all. A chapter-scoped inclusion whose
//! book the global chain does not admit pushes a global inclusion rule for
//! that book; a chapter-scoped exclusion for a book not admitted is a no-op.

use crate::corpus::Book;
use crate::matcher::{re_build, re_ci, re_match, re_pattern, re_valid};
use crate::parse::{parse_scope_token, spec_parse_scope, ScopeTarget, ScopeToken, SearchError};
use crate::scope::{chain_admits, eval_chain, ScopeRule};
use crate::text::{contains_sub, match_word, tf_matches, word_ci, word_pattern, TextFilter};
use vstd::pervasive::VecAdditionalExecFns;
use vstd::prelude::*;
use vstd::string::StrSliceExecFns;

verus! {

/// The mathematical model of the scope state: the global book chain and the
/// chapter chains of the books that received chapter-scoped tokens.
pub struct ScopeModel {
    pub book_chain: Seq<ScopeRule>,
    pub chapter_chains: Map<u32, Seq<ScopeRule>>,
}

/// The chain a rule is about to join, with the implicit exclude-all rule
/// prefixed when an inclusion joins an otherwise-empty chain.
pub open spec fn with_default(chain: Seq<ScopeRule>, exclude: bool) -> Seq<ScopeRule> {
    if !exclude && chain.len() == 0 {
        seq![ScopeRule::ExcludeAll]
    } else {
        chain
    }
}

/// The single-ordinal rule of a token.
pub open spec fn one_rule(exclude: bool, id: u32) -> ScopeRule {
    if exclude {
        ScopeRule::ExcludeOne(id)
    } else {
        ScopeRule::IncludeOne(id)
    }
}

/// The range rule of a token.
pub open spec fn range_rule(exclude: bool, lo: u32, hi: u32) -> ScopeRule {
    if exclude {
        ScopeRule::ExcludeRange(lo, hi)
    } else {
        ScopeRule::IncludeRange(lo, hi)
    }
}

/// The chapter chain of book `b`, or the empty chain if none was created.
pub open spec fn chapter_chain_of(m: Map<u32, Seq<ScopeRule>>, b: u32) -> Seq<ScopeRule> {
    if m.contains_key(b) {
        m[b]
    } else {
        Seq::empty()
    }
}

/// Whether the chapter chains admit chapter `c` of book `b`: a book with no
/// chapter chain admits every chapter.
pub open spec fn model_chapter_admits(m: Map<u32, Seq<ScopeRule>>, b: u32, c: u32) -> bool {
    if m.contains_key(b) {
        chain_admits(m[b], c)
    } else {
        true
    }
}

/// How one parsed scope token transforms the scope state.
pub open spec fn scope_step(st: ScopeModel, t: ScopeToken) -> ScopeModel {
    match t.target {
        ScopeTarget::Range(lo, hi) => ScopeModel {
            book_chain: with_default(st.book_chain, t.exclude).push(range_rule(t.exclude, lo, hi)),
            chapter_chains: st.chapter_chains,
        },
        ScopeTarget::Single(b) => ScopeModel {
            book_chain: with_default(st.book_chain, t.exclude).push(one_rule(t.exclude, b)),
            chapter_chains: st.chapter_chains,
        },
        ScopeTarget::Chapter(b, c) => {
            if t.exclude {
                if !chain_admits(st.book_chain, b) {
                    st
                } else {
                    ScopeModel {
                        book_chain: st.book_chain,
                        chapter_chains: st.chapter_chains.insert(
                            b,
                            chapter_chain_of(st.chapter_chains, b).push(ScopeRule::ExcludeOne(c)),
                        ),
                    }
                }
            } else {
                let bc = with_default(st.book_chain, false);
                let bc2 = if !chain_admits(bc, b) {
                    bc.push(ScopeRule::IncludeOne(b))
                } else {
                    bc
                };
                ScopeModel {
                    book_chain: bc2,
                    chapter_chains: st.chapter_chains.insert(
                        b,
                        with_default(chapter_chain_of(st.chapter_chains, b), false).push(
                            ScopeRule::IncludeOne(c),
                        ),
                    ),
                }
            }
        },
    }
}

/// The scope state after the first `n` scope tokens, or the first
/// construction error among them.
pub open spec fn scope_build(books: Seq<Book>, toks: Seq<String>, n: int) -> Result<
    ScopeModel,
    SearchError,
>
    decreases n,
{
    if n <= 0 {
        Ok(ScopeModel { book_chain: Seq::empty(), chapter_chains: Map::empty() })
    } else {
        match scope_build(books, toks, n - 1) {
            Err(e) => Err(e),
            Ok(st) => match spec_parse_scope(books, toks[n - 1]@) {
                Err(e) => Err(e),
                Ok(t) => Ok(scope_step(st, t)),
            },
        }
    }
}

/// Once a prefix of the scope tokens fails, the whole list fails the same way.
pub proof fn lemma_scope_build_err(books: Seq<Book>, toks: Seq<String>, i: int, j: int)
    requires
        0 <= i <= j <= toks.len(),
        scope_build(books, toks, i) is Err,
    ensures
        scope_build(books, toks, j) == scope_build(books, toks, i),
    decreases j - i,
{
    if i < j {
        lemma_scope_build_err(books, toks, i, j - 1);
    }
}

/// The exec chapter-chain table mirrors the model: slot `b` is occupied
/// exactly when book `b` has a chapter chain, and then holds it.
pub open spec fn cc_correspond(
    cc: Seq<Option<Vec<ScopeRule>>>,
    m: Map<u32, Seq<ScopeRule>>,
) -> bool {
    &&& forall|b: u32|
        b < cc.len() && (#[trigger] cc[b as int]) is Some ==> m.contains_key(b) && m[b]
            == cc[b as int]->Some_0@
    &&& forall|b: u32|
        #[trigger] m.contains_key(b) ==> b < cc.len() && cc[b as int] is Some
            && cc[b as int]->Some_0@ == m[b]
}

/// Copy a rule chain.
fn copy_rules(v: &Vec<ScopeRule>) -> (r: Vec<ScopeRule>)
    ensures
        r@ == v@,
{
    let mut r: Vec<ScopeRule> = Vec::new();
    let mut i: usize = 0;
    while i < v.len()
        invariant
            i <= v@.len(),
            r@ == v@.take(i as int),
        decreases v@.len() - i,
    {
        r.push(v[i]);
        proof {
            assert(v@.take(i + 1) =~= v@.take(i as int).push(v@[i as int]));
        }
        i = i + 1;
    }
    proof {
        assert(v@.take(v@.len() as int) =~= v@);
    }
    r
}

/// The exec scope state: the global book chain and the chapter-chain table,
/// indexed by book ordinal.
pub struct ScopeChains {
    pub book_chain: Vec<ScopeRule>,
    pub chapter_chains: Vec<Option<Vec<ScopeRule>>>,
}

/// Process the scope tokens left to right into the book chain and the
/// per-book chapter chains.
pub fn build_scope_chains(books: &Vec<Book>, scopes: &Vec<String>) -> (r: Result<
    ScopeChains,
    SearchError,
>)
    requires
        books@.len() < u32::MAX,
    ensures
        ({
            let sb = scope_build(books@, scopes@, scopes@.len() as int);
            match r {
                Err(e) => sb == Err::<ScopeModel, SearchError>(e),
                Ok(sc) => sb matches Ok(st) && sc.book_chain@ == st.book_chain && cc_correspond(
                    sc.chapter_chains@,
                    st.chapter_chains,
                ),
            }
        }),
{
    let mut book_chain: Vec<ScopeRule> = Vec::new();
    let mut cc: Vec<Option<Vec<ScopeRule>>> = Vec::new();
    let mut i: usize = 0;
    while i < books.len() + 1
        invariant
            books@.len() < u32::MAX,
            i <= books@.len() + 1,
            cc@.len() == i,
            forall|k: int| 0 <= k < i ==> cc@[k] is None,
        decreases books@.len() + 1 - i,
    {
        cc.push(None);
        i = i + 1;
    }
    let ghost m0 = Map::<u32, Seq<ScopeRule>>::empty();
    proof {
        assert(cc_correspond(cc@, m0));
    }
    let mut t: usize = 0;
    while t < scopes.len()
        invariant
            books@.len() < u32::MAX,
            t <= scopes@.len(),
            cc@.len() == books@.len() + 1,
            scope_build(books@, scopes@, t as int) matches Ok(st) && book_chain@ == st.book_chain
                && cc_correspond(cc@, st.chapter_chains),
        decreases scopes@.len() - t,
    {
        let ghost st = scope_build(books@, scopes@, t as int)->Ok_0;
        let tok = parse_scope_token(books, scopes[t].as_str());
        match tok {
            Err(e) => {
                proof {
                    lemma_scope_build_err(books@, scopes@, t + 1, scopes@.len() as int);
                }
                return Err(e);
            },
            Ok(pt) => {
                match pt.target {
                    ScopeTarget::Range(lo, hi) => {
                        if !pt.exclude && book_chain.len() == 0 {
                            book_chain.push(ScopeRule::ExcludeAll);
                        }
                        book_chain.push(
                            if pt.exclude {
                                ScopeRule::ExcludeRange(lo, hi)
                            } else {
                                ScopeRule::IncludeRange(lo, hi)
                            },
                        );
                    },
                    ScopeTarget::Single(b) => {
                        if !pt.exclude && book_chain.len() == 0 {
                            book_chain.push(ScopeRule::ExcludeAll);
                        }
                        book_chain.push(
                            if pt.exclude {
                                ScopeRule::ExcludeOne(b)
                            } else {
                                ScopeRule::IncludeOne(b)
                            },
                        );
                    },
                    ScopeTarget::Chapter(b, c) => {
                        let ghost mold = st.chapter_chains;
                        if pt.exclude {
                            let admitted = eval_chain(&book_chain, b);
                            if admitted {
                                let idx = b as usize;
                                let chain = match &cc[idx] {
                                    Some(old_chain) => {
                                        proof {
                                            assert(cc@[b as int] is Some);
                                            assert(mold.contains_key(b) && mold[b]
                                                == old_chain@);
                                        }
                                        let mut chain = copy_rules(old_chain);
                                        chain.push(ScopeRule::ExcludeOne(c));
                                        chain
                                    },
                                    None => {
                                        proof {
                                            assert(!mold.contains_key(b));
                                        }
                                        let mut chain: Vec<ScopeRule> = Vec::new();
                                        chain.push(ScopeRule::ExcludeOne(c));
                                        proof {
                                            assert(chain@ =~= chapter_chain_of(mold, b).push(
                                                ScopeRule::ExcludeOne(c),
                                            ));
                                        }
                                        chain
                                    },
                                };
                                proof {
                                    assert(chain@ == chapter_chain_of(mold, b).push(
                                        ScopeRule::ExcludeOne(c),
                                    ));
                                }
                                cc.set(idx, Some(chain));
                            }
                        } else {
                            if book_chain.len() == 0 {
                                book_chain.push(ScopeRule::ExcludeAll);
                                proof {
                                    assert(book_chain@ =~= with_default(st.book_chain, false));
                                }
                            }
                            let admitted = eval_chain(&book_chain, b);
                            if !admitted {
                                book_chain.push(ScopeRule::IncludeOne(b));
                            }
                            let idx = b as usize;
                            let chain = match &cc[idx] {
                                Some(old_chain) => {
                                    proof {
                                        assert(cc@[b as int] is Some);
                                        assert(mold.contains_key(b) && mold[b] == old_chain@);
                                    }
                                    let mut chain = copy_rules(old_chain);
                                    if chain.len() == 0 {
                                        chain.push(ScopeRule::ExcludeAll);
                                        proof {
                                            assert(chain@ =~= with_default(
                                                chapter_chain_of(mold, b),
                                                false,
                                            ));
                                        }
                                    }
                                    chain.push(ScopeRule::IncludeOne(c));
                                    chain
                                },
                                None => {
                                    proof {
                                        assert(!mold.contains_key(b));
                                    }
                                    let mut chain: Vec<ScopeRule> = Vec::new();
                                    chain.push(ScopeRule::ExcludeAll);
                                    proof {
                                        assert(chain@ =~= with_default(
                                            chapter_chain_of(mold, b),
                                            false,
                                        ));
                                    }
                                    chain.push(ScopeRule::IncludeOne(c));
                                    chain
                                },
                            };
                            proof {
                                assert(chain@ == with_default(chapter_chain_of(mold, b),
                                    false).push(ScopeRule::IncludeOne(c)));
                            }
                            cc.set(idx, Some(chain));
                        }
                    },
                }
                proof {
                    let st2 = scope_step(st, pt);
                    assert(scope_build(books@, scopes@, t + 1) == Ok::<ScopeModel, SearchError>(
                        st2,
                    ));
                    assert(book_chain@ == st2.book_chain);
                    assert(cc_correspond(cc@, st2.chapter_chains));
                }
            },
        }
        t = t + 1;
    }
    Ok(ScopeChains { book_chain, chapter_chains: cc })
}

/// The mathematical model of one text predicate: a phrase, or a pattern
/// with its case mode.
pub enum FilterModel {
    Phrase(Seq<char>),
    Re(Seq<char>, bool),
}

/// What a modelled predicate decides on a verse text.
pub open spec fn fm_matches(f: FilterModel, text: Seq<char>) -> bool {
    match f {
        FilterModel::Phrase(p) => contains_sub(text, p),
        FilterModel::Re(p, ci) => re_match(p, ci, text),
    }
}

/// A compiled filter agrees with its model.
pub open spec fn models(f: TextFilter, m: FilterModel) -> bool {
    match (f, m) {
        (TextFilter::Phrase(s), FilterModel::Phrase(p)) => s@ == p,
        (TextFilter::Pattern(re), FilterModel::Re(p, ci)) => re_pattern(re) == p && re_ci(re)
            == ci,
        _ => false,
    }
}

/// A compiled group agrees with its model, predicate by predicate.
pub open spec fn group_models(fs: Seq<TextFilter>, ms: Seq<FilterModel>) -> bool {
    fs.len() == ms.len() && forall|i: int| 0 <= i < fs.len() ==> models(#[trigger] fs[i], ms[i])
}

/// A filter agreeing with its model decides every verse the same way.
pub proof fn lemma_models_match(f: TextFilter, m: FilterModel, text: Seq<char>)
    requires
        models(f, m),
    ensures
        tf_matches(f, text) == fm_matches(m, text),
{
}

/// The group prefix of a token: `!` routes to the exclude group, `+` to the
/// must-match group, anything else to the any-match group.
pub open spec fn tok_is_excl(t: Seq<char>) -> bool {
    t.len() > 0 && t[0] == '!'
}

/// Whether the token carries the must-match prefix.
pub open spec fn tok_is_must(t: Seq<char>) -> bool {
    t.len() > 0 && t[0] == '+' && !tok_is_excl(t)
}

/// The token with its group prefix stripped.
pub open spec fn tok_body(t: Seq<char>) -> Seq<char> {
    if t.len() > 0 && (t[0] == '!' || t[0] == '+') {
        t.subrange(1, t.len() as int)
    } else {
        t
    }
}

/// A `/…/i` shape: slash-delimited with a trailing case-insensitivity flag.
pub open spec fn regex_ci_shaped(s: Seq<char>) -> bool {
    s.len() >= 3 && s[0] == '/' && s[s.len() - 2] == '/' && s.last() == 'i'
}

/// A `/…/` shape: slash-delimited, case-sensitive.
pub open spec fn regex_shaped(s: Seq<char>) -> bool {
    s.len() >= 2 && s[0] == '/' && s.last() == '/'
}

/// What one match token compiles to: a slash-delimited body is a regular
/// expression (failing with `InvalidPattern` when it does not compile), any
/// other text a literal case-sensitive substring test.
pub open spec fn spec_match_tok(t: Seq<char>) -> Result<FilterModel, SearchError> {
    let b = tok_body(t);
    if regex_ci_shaped(b) {
        let p = b.subrange(1, b.len() - 2);
        if re_valid(p, true) {
            Ok(FilterModel::Re(p, true))
        } else {
            Err(SearchError::InvalidPattern)
        }
    } else if regex_shaped(b) {
        let p = b.subrange(1, b.len() - 1);
        if re_valid(p, false) {
            Ok(FilterModel::Re(p, false))
        } else {
            Err(SearchError::InvalidPattern)
        }
    } else {
        Ok(FilterModel::Phrase(b))
    }
}

/// What one word token compiles to: its word-boundary pattern.
pub open spec fn spec_word_tok(t: Seq<char>) -> Result<FilterModel, SearchError> {
    let b = tok_body(t);
    if re_valid(word_pattern(b), word_ci(b)) {
        Ok(FilterModel::Re(word_pattern(b), word_ci(b)))
    } else {
        Err(SearchError::InvalidPattern)
    }
}

/// The three modelled predicate groups.
pub struct GroupsModel {
    pub any: Seq<FilterModel>,
    pub must: Seq<FilterModel>,
    pub excl: Seq<FilterModel>,
}

/// Route one compiled predicate into its group.
pub open spec fn groups_add(g: GroupsModel, t: Seq<char>, fm: FilterModel) -> GroupsModel {
    if tok_is_excl(t) {
        GroupsModel { excl: g.excl.push(fm), ..g }
    } else if tok_is_must(t) {
        GroupsModel { must: g.must.push(fm), ..g }
    } else {
        GroupsModel { any: g.any.push(fm), ..g }
    }
}

/// The groups after the first `n` match tokens.
pub open spec fn groups_from_matching(g: GroupsModel, toks: Seq<String>, n: int) -> Result<
    GroupsModel,
    SearchError,
>
    decreases n,
{
    if n <= 0 {
        Ok(g)
    } else {
        match groups_from_matching(g, toks, n - 1) {
            Err(e) => Err(e),
            Ok(g2) => match spec_match_tok(toks[n - 1]@) {
                Err(e) => Err(e),
                Ok(fm) => Ok(groups_add(g2, toks[n - 1]@, fm)),
            },
        }
    }
}

/// The groups after the first `n` word tokens.
pub open spec fn groups_from_words(g: GroupsModel, toks: Seq<String>, n: int) -> Result<
    GroupsModel,
    SearchError,
>
    decreases n,
{
    if n <= 0 {
        Ok(g)
    } else {
        match groups_from_words(g, toks, n - 1) {
            Err(e) => Err(e),
            Ok(g2) => match spec_word_tok(toks[n - 1]@) {
                Err(e) => Err(e),
                Ok(fm) => Ok(groups_add(g2, toks[n - 1]@, fm)),
            },
        }
    }
}

/// Once a prefix of the match tokens fails, the whole list fails the same way.
pub proof fn lemma_groups_matching_err(g: GroupsModel, toks: Seq<String>, i: int, j: int)
    requires
        0 <= i <= j <= toks.len(),
        groups_from_matching(g, toks, i) is Err,
    ensures
        groups_from_matching(g, toks, j) == groups_from_matching(g, toks, i),
    decreases j - i,
{
    if i < j {
        lemma_groups_matching_err(g, toks, i, j - 1);
    }
}

/// Once a prefix of the word tokens fails, the whole list fails the same way.
pub proof fn lemma_groups_words_err(g: GroupsModel, toks: Seq<String>, i: int, j: int)
    requires
        0 <= i <= j <= toks.len(),
        groups_from_words(g, toks, i) is Err,
    ensures
        groups_from_words(g, toks, j) == groups_from_words(g, toks, i),
    decreases j - i,
{
    if i < j {
        lemma_groups_words_err(g, toks, i, j - 1);
    }
}

/// The empty groups.
pub open spec fn groups_empty() -> GroupsModel {
    GroupsModel { any: Seq::empty(), must: Seq::empty(), excl: Seq::empty() }
}

/// The modelled groups of a whole invocation: all match tokens, then all
/// word tokens.
pub open spec fn spec_groups(matching: Seq<String>, words: Seq<String>) -> Result<
    GroupsModel,
    SearchError,
> {
    match groups_from_matching(groups_empty(), matching, matching.len() as int) {
        Err(e) => Err(e),
        Ok(g) => groups_from_words(g, words, words.len() as int),
    }
}

/// The compiled predicate groups.
pub struct Groups {
    pub any: Vec<TextFilter>,
    pub must: Vec<TextFilter>,
    pub excl: Vec<TextFilter>,
}

/// Compile all match and word tokens into the three groups.
pub fn build_groups(matching: &Vec<String>, words: &Vec<String>) -> (r: Result<
    Groups,
    SearchError,
>)
    ensures
        ({
            let sg = spec_groups(matching@, words@);
            match r {
                Err(e) => sg == Err::<GroupsModel, SearchError>(e),
                Ok(g) => sg matches Ok(gm) && group_models(g.any@, gm.any) && group_models(
                    g.must@,
                    gm.must,
                ) && group_models(g.excl@, gm.excl),
            }
        }),
{
    let mut any: Vec<TextFilter> = Vec::new();
    let mut must: Vec<TextFilter> = Vec::new();
    let mut excl: Vec<TextFilter> = Vec::new();
    let mut i: usize = 0;
    while i < matching.len()
        invariant
            i <= matching@.len(),
            groups_from_matching(groups_empty(), matching@, i as int) matches Ok(gm)
                && group_models(any@, gm.any) && group_models(must@, gm.must) && group_models(
                excl@,
                gm.excl,
            ),
        decreases matching@.len() - i,
    {
        let ghost gm = groups_from_matching(groups_empty(), matching@, i as int)->Ok_0;
        let tok: &str = matching[i].as_str();
        let n = tok.unicode_len();
        let is_excl = n > 0 && tok.get_char(0) == '!';
        let is_must = !is_excl && n > 0 && tok.get_char(0) == '+';
        let off: usize = if is_excl || is_must {
            1
        } else {
            0
        };
        let bn = n - off;
        let ghost body = tok_body(tok@);
        proof {
            assert(body =~= tok@.subrange(off as int, n as int));
        }
        let f: TextFilter;
        if bn >= 3 && tok.get_char(off) == '/' && tok.get_char(off + bn - 2) == '/' && tok.get_char(
            off + bn - 1,
        ) == 'i' {
            proof {
                assert(regex_ci_shaped(body));
            }
            let pat = tok.substring_char(off + 1, off + bn - 2);
            proof {
                assert(pat@ =~= body.subrange(1, body.len() - 2));
            }
            match re_build(pat, true) {
                Some(re) => {
                    f = TextFilter::Pattern(re);
                },
                None => {
                    proof {
                        lemma_groups_matching_err(
                            groups_empty(),
                            matching@,
                            i + 1,
                            matching@.len() as int,
                        );
                    }
                    return Err(SearchError::InvalidPattern);
                },
            }
        } else if bn >= 2 && tok.get_char(off) == '/' && tok.get_char(off + bn - 1) == '/' {
            proof {
                assert(!regex_ci_shaped(body));
                assert(regex_shaped(body));
            }
            let pat = tok.substring_char(off + 1, off + bn - 1);
            proof {
                assert(pat@ =~= body.subrange(1, body.len() - 1));
            }
            match re_build(pat, false) {
                Some(re) => {
                    f = TextFilter::Pattern(re);
                },
                None => {
                    proof {
                        lemma_groups_matching_err(
                            groups_empty(),
                            matching@,
                            i + 1,
                            matching@.len() as int,
                        );
                    }
                    return Err(SearchError::InvalidPattern);
                },
            }
        } else {
            proof {
                assert(!regex_ci_shaped(body));
                assert(!regex_shaped(body));
            }
            let phrase = tok.substring_char(off, n).to_owned();
            f = TextFilter::Phrase(phrase);
        }
        if is_excl {
            excl.push(f);
        } else if is_must {
            must.push(f);
        } else {
            any.push(f);
        }
        i = i + 1;
    }
    let ghost gm0 = groups_from_matching(groups_empty(), matching@, matching@.len() as int)->Ok_0;
    let mut w: usize = 0;
    while w < words.len()
        invariant
            w <= words@.len(),
            groups_from_matching(groups_empty(), matching@, matching@.len() as int) == Ok::<
                GroupsModel,
                SearchError,
            >(gm0),
            groups_from_words(gm0, words@, w as int) matches Ok(gm) && group_models(any@, gm.any)
                && group_models(must@, gm.must) && group_models(excl@, gm.excl),
        decreases words@.len() - w,
    {
        let tok: &str = words[w].as_str();
        let n = tok.unicode_len();
        let is_excl = n > 0 && tok.get_char(0) == '!';
        let is_must = !is_excl && n > 0 && tok.get_char(0) == '+';
        let off: usize = if is_excl || is_must {
            1
        } else {
            0
        };
        let body = tok.substring_char(off, n);
        proof {
            assert(body@ =~= tok_body(tok@));
        }
        match match_word(body) {
            Some(f) => {
                if is_excl {
                    excl.push(f);
                } else if is_must {
                    must.push(f);
                } else {
                    any.push(f);
                }
            },
            None => {
                proof {
                    lemma_groups_words_err(gm0, words@, w + 1, words@.len() as int);
                }
                return Err(SearchError::InvalidPattern);
            },
        }
        w = w + 1;
    }
    Ok(Groups { any, must, excl })
}

/// Order sensitivity: a single-book token decides that book's membership by
/// itself — after it, the book is admitted exactly when the token was an
/// inclusion, whatever the earlier rules said — and leaves every other
/// ordinal's answer as the chain (with its implicit default) gave it.
pub proof fn lemma_single_token_decides(st: ScopeModel, t: ScopeToken, b: u32)
    requires
        t.target == ScopeTarget::Single(b),
    ensures
        chain_admits(scope_step(st, t).book_chain, b) == !t.exclude,
        forall|id: u32|
            id != b ==> chain_admits(scope_step(st, t).book_chain, id) == chain_admits(
                with_default(st.book_chain, t.exclude),
                id,
            ),
{
    let base = with_default(st.book_chain, t.exclude);
    let chain = scope_step(st, t).book_chain;
    assert(chain == base.push(one_rule(t.exclude, b)));
    if t.exclude {
        crate::scope::lemma_last_exclude_wins(base, b);
    } else {
        crate::scope::lemma_last_include_wins(base, b);
    }
    assert forall|id: u32| id != b implies chain_admits(chain, id) == chain_admits(base, id) by {
        crate::scope::lemma_other_rule_keeps(base, one_rule(t.exclude, b), id);
    }
}

/// A chapter-scoped inclusion for a book the global chain does not admit
/// makes exactly that book admitted at book level — every other ordinal's
/// answer is unchanged — and, when the book had no chapter chain yet,
/// leaves it a chapter chain that admits exactly the referenced chapter.
pub proof fn lemma_chapter_pull_in(st: ScopeModel, t: ScopeToken, b: u32, c: u32)
    requires
        t.exclude == false,
        t.target == ScopeTarget::Chapter(b, c),
        !chain_admits(st.book_chain, b),
        !st.chapter_chains.contains_key(b),
    ensures
        chain_admits(scope_step(st, t).book_chain, b),
        forall|id: u32|
            id != b ==> chain_admits(scope_step(st, t).book_chain, id) == chain_admits(
                st.book_chain,
                id,
            ),
        forall|cn: u32|
            model_chapter_admits(scope_step(st, t).chapter_chains, b, cn) <==> cn == c,
        forall|b2: u32, cn: u32|
            b2 != b ==> model_chapter_admits(scope_step(st, t).chapter_chains, b2, cn)
                == model_chapter_admits(st.chapter_chains, b2, cn),
{
    let st2 = scope_step(st, t);
    assert(st.book_chain.len() > 0);
    assert(st2.book_chain == st.book_chain.push(ScopeRule::IncludeOne(b)));
    crate::scope::lemma_last_include_wins(st.book_chain, b);
    assert forall|id: u32|
        id != b implies chain_admits(st2.book_chain, id) == chain_admits(st.book_chain, id) by {
        crate::scope::lemma_other_rule_keeps(st.book_chain, ScopeRule::IncludeOne(b), id);
    }
    let ch = seq![ScopeRule::ExcludeAll].push(ScopeRule::IncludeOne(c));
    assert(st2.chapter_chains == st.chapter_chains.insert(b, ch));
    assert forall|cn: u32| model_chapter_admits(st2.chapter_chains, b, cn) <==> cn == c by {
        assert(ch.drop_last() =~= seq![ScopeRule::ExcludeAll]);
        assert(seq![ScopeRule::ExcludeAll].drop_last() =~= Seq::<ScopeRule>::empty());
        assert(!chain_admits(seq![ScopeRule::ExcludeAll], cn));
        assert(chain_admits(ch, cn) == (cn == c));
    }
}

} // verus!
