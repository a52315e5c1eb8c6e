//! Scope rules and filter chains.
//!
//! A `ScopeRule` is a tagged decision primitive over an accumulated boolean
//! and a candidate ordinal; an ordered chain of rules is evaluated as a left
//! fold seeded with `true`, so a chain with no rules admits everything and
//! the later rules for a given ordinal override the earlier ones.

use vstd::prelude::*;

verus! {

/// One rule of a filter chain, interpreted by [`rule_eval`].
#[derive(Clone, Copy, Debug, PartialEq, Eq, Structural)]
pub enum ScopeRule {
    /// Admit every ordinal from here on.
    IncludeAll,
    /// Deny every ordinal from here on.
    ExcludeAll,
    /// Admit this ordinal, keep the accumulated answer for the others.
    IncludeOne(u32),
    /// Deny this ordinal, keep the accumulated answer for the others.
    ExcludeOne(u32),
    /// Admit every ordinal of the inclusive range.
    IncludeRange(u32, u32),
    /// Deny every ordinal of the inclusive range.
    ExcludeRange(u32, u32),
}

/// What one rule decides, given the accumulated answer `acc` for ordinal `id`:
/// inclusion rules may only turn `false` into `true` for their own ordinals,
/// exclude rules may only turn `true` into `false`.
pub open spec fn rule_eval(rule: ScopeRule, acc: bool, id: u32) -> bool {
    match rule {
        ScopeRule::IncludeAll => true,
        ScopeRule::ExcludeAll => false,
        ScopeRule::IncludeOne(n) => acc || id == n,
        ScopeRule::ExcludeOne(n) => acc && id != n,
        ScopeRule::IncludeRange(lo, hi) => acc || (lo <= id && id <= hi),
        ScopeRule::ExcludeRange(lo, hi) => acc && !(lo <= id && id <= hi),
    }
}

/// Whether a chain admits ordinal `id`: the left fold of [`rule_eval`] over
/// the chain, seeded with `true`.
pub open spec fn chain_admits(chain: Seq<ScopeRule>, id: u32) -> bool
    decreases chain.len(),
{
    if chain.len() == 0 {
        true
    } else {
        rule_eval(chain.last(), chain_admits(chain.drop_last(), id), id)
    }
}

/// A rule that denies every ordinal.
pub fn exclude_all() -> (r: ScopeRule)
    ensures
        r == ScopeRule::ExcludeAll,
{
    ScopeRule::ExcludeAll
}

/// A rule that denies `book_number` and keeps the accumulated answer otherwise.
pub fn exclude_item(book_number: u32) -> (r: ScopeRule)
    ensures
        r == ScopeRule::ExcludeOne(book_number),
{
    ScopeRule::ExcludeOne(book_number)
}

/// A rule that denies the inclusive range `lo..=hi`.
pub fn exclude_item_range(lo: u32, hi: u32) -> (r: ScopeRule)
    ensures
        r == ScopeRule::ExcludeRange(lo, hi),
{
    ScopeRule::ExcludeRange(lo, hi)
}

/// A rule that admits `book_number` and keeps the accumulated answer otherwise.
pub fn include_item(book_number: u32) -> (r: ScopeRule)
    ensures
        r == ScopeRule::IncludeOne(book_number),
{
    ScopeRule::IncludeOne(book_number)
}

/// A rule that admits the inclusive range `lo..=hi`.
pub fn include_item_range(lo: u32, hi: u32) -> (r: ScopeRule)
    ensures
        r == ScopeRule::IncludeRange(lo, hi),
{
    ScopeRule::IncludeRange(lo, hi)
}

/// Evaluate one rule.
pub fn apply_rule(rule: &ScopeRule, acc: bool, id: u32) -> (r: bool)
    ensures
        r == rule_eval(*rule, acc, id),
{
    match rule {
        ScopeRule::IncludeAll => true,
        ScopeRule::ExcludeAll => false,
        ScopeRule::IncludeOne(n) => acc || id == *n,
        ScopeRule::ExcludeOne(n) => acc && id != *n,
        ScopeRule::IncludeRange(lo, hi) => acc || (*lo <= id && id <= *hi),
        ScopeRule::ExcludeRange(lo, hi) => acc && !(*lo <= id && id <= *hi),
    }
}

/// Evaluate a whole chain on ordinal `id`.
pub fn eval_chain(chain: &Vec<ScopeRule>, id: u32) -> (r: bool)
    ensures
        r == chain_admits(chain@, id),
{
    let mut acc = true;
    let mut i: usize = 0;
    while i < chain.len()
        invariant
            i <= chain@.len(),
            acc == chain_admits(chain@.take(i as int), id),
        decreases chain@.len() - i,
    {
        proof {
            assert(chain@.take(i + 1).drop_last() =~= chain@.take(i as int));
            assert(chain@.take(i + 1).last() == chain@[i as int]);
        }
        acc = apply_rule(&chain[i], acc, id);
        i = i + 1;
    }
    proof {
        assert(chain@.take(chain@.len() as int) =~= chain@);
    }
    acc
}

/// The later rule for an ordinal determines its membership: a chain extended
/// with an inclusion rule for `id` admits `id`, whatever came before.
pub proof fn lemma_last_include_wins(chain: Seq<ScopeRule>, id: u32)
    ensures
        chain_admits(chain.push(ScopeRule::IncludeOne(id)), id),
{
    assert(chain.push(ScopeRule::IncludeOne(id)).last() == ScopeRule::IncludeOne(id));
}

/// The later rule for an ordinal determines its membership: a chain extended
/// with an exclude rule for `id` denies `id`, whatever came before.
pub proof fn lemma_last_exclude_wins(chain: Seq<ScopeRule>, id: u32)
    ensures
        !chain_admits(chain.push(ScopeRule::ExcludeOne(id)), id),
{
    assert(chain.push(ScopeRule::ExcludeOne(id)).last() == ScopeRule::ExcludeOne(id));
}

/// An exclude rule may only turn an accumulated `true` into `false`, never
/// the reverse: whatever it admits was admitted before it.
pub proof fn lemma_exclude_rules_only_deny(rule: ScopeRule, acc: bool, id: u32)
    requires
        rule is ExcludeAll || rule is ExcludeOne || rule is ExcludeRange,
    ensures
        rule_eval(rule, acc, id) ==> acc,
{
}

/// An inclusion rule may only turn an accumulated `false` into `true`,
/// never retract an admission.
pub proof fn lemma_include_rules_only_admit(rule: ScopeRule, acc: bool, id: u32)
    requires
        rule is IncludeAll || rule is IncludeOne || rule is IncludeRange,
    ensures
        acc ==> rule_eval(rule, acc, id),
{
}

/// Appending a rule that does not name ordinal `id` leaves the chain's answer
/// for `id` unchanged.
pub proof fn lemma_other_rule_keeps(chain: Seq<ScopeRule>, rule: ScopeRule, id: u32)
    requires
        match rule {
            ScopeRule::IncludeOne(n) => n != id,
            ScopeRule::ExcludeOne(n) => n != id,
            _ => false,
        },
    ensures
        chain_admits(chain.push(rule), id) == chain_admits(chain, id),
{
    assert(chain.push(rule).drop_last() =~= chain);
}

} // verus!
