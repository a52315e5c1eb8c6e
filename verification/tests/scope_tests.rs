//! Unit tests of the scope rules and the left-fold chain evaluation.

use biblearchive_utils::scope::{
    apply_rule, eval_chain, exclude_all, exclude_item, exclude_item_range, include_item,
    include_item_range, ScopeRule,
};

#[test]
fn rules_evaluate_as_documented() {
    assert!(!apply_rule(&exclude_all(), true, 7));
    assert!(!apply_rule(&exclude_item(3), true, 3));
    assert!(apply_rule(&exclude_item(3), true, 4));
    assert!(!apply_rule(&exclude_item(3), false, 4));
    assert!(apply_rule(&include_item(3), false, 3));
    assert!(!apply_rule(&include_item(3), false, 4));
    assert!(apply_rule(&include_item(3), true, 4));
    assert!(apply_rule(&include_item_range(2, 5), false, 5));
    assert!(!apply_rule(&include_item_range(2, 5), false, 6));
    assert!(!apply_rule(&exclude_item_range(2, 5), true, 2));
    assert!(apply_rule(&exclude_item_range(2, 5), true, 1));
}

#[test]
fn empty_chain_admits_everything() {
    let chain: Vec<ScopeRule> = Vec::new();
    assert!(eval_chain(&chain, 1));
    assert!(eval_chain(&chain, 66));
}

#[test]
fn chain_is_a_left_fold_seeded_with_true() {
    // Deny-all default, then admit 2..=4, then deny 3.
    let chain = vec![exclude_all(), include_item_range(2, 4), exclude_item(3)];
    assert!(!eval_chain(&chain, 1));
    assert!(eval_chain(&chain, 2));
    assert!(!eval_chain(&chain, 3));
    assert!(eval_chain(&chain, 4));
    assert!(!eval_chain(&chain, 5));
}

#[test]
fn later_rule_for_an_ordinal_wins() {
    let chain = vec![exclude_item(9), include_item(9)];
    assert!(eval_chain(&chain, 9));
    let chain = vec![exclude_all(), include_item(9), exclude_item(9)];
    assert!(!eval_chain(&chain, 9));
}

#[test]
fn include_rules_never_retract_an_admission() {
    let chain = vec![include_item(5)];
    // No preceding exclude-all was pushed here, so everything stays admitted.
    assert!(eval_chain(&chain, 5));
    assert!(eval_chain(&chain, 6));
}
