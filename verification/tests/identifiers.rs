use lasso_zen_bre::ident::{valid_decision_id, valid_id_segment};

#[test]
fn decision_ids_are_bounded_and_path_safe() {
    assert!(valid_decision_id("pricing/v1.standard"));
    assert!(valid_decision_id("customer_eligibility"));
    assert!(!valid_decision_id("../secret"));
    assert!(!valid_decision_id("pricing//secret"));
    assert!(!valid_decision_id("pricing/%2e%2e/secret"));
    assert!(!valid_decision_id("pricing\\secret"));
}

#[test]
fn empty_identifiers_and_segments_are_refused() {
    assert!(!valid_decision_id(""));
    assert!(!valid_decision_id("/"));
    assert!(!valid_decision_id("pricing/"));
    assert!(!valid_decision_id("/pricing"));
    assert!(!valid_id_segment(""));
}

#[test]
fn dot_segments_are_refused() {
    assert!(!valid_id_segment("."));
    assert!(!valid_id_segment(".."));
    assert!(!valid_id_segment("a..b"));
    assert!(valid_id_segment(".hidden"));
    assert!(valid_id_segment("v1.2"));
    assert!(!valid_decision_id("pricing/./v1"));
}

#[test]
fn segments_allow_only_ascii_alphanumerics_dash_underscore_and_dot() {
    assert!(valid_id_segment("Pricing-Rules_2024.v1"));
    assert!(!valid_id_segment("pricing rules"));
    assert!(!valid_id_segment("prix\u{e9}"));
    assert!(!valid_id_segment("a/b"));
    assert!(!valid_id_segment("a%2fb"));
    assert!(valid_decision_id("a/b/c"));
}
