use lasso_zen_bre::index::{compare_text, DecisionIndex, TextOrder};
use lasso_zen_bre::order::{compare_bytes, compare_components, path_sorts_before};
use lasso_zen_bre::paths::PathComponent;

fn normal(s: &str) -> PathComponent {
    PathComponent::Normal(s.to_string())
}

#[test]
fn texts_compare_in_code_point_order() {
    assert!(matches!(compare_text("a", "b"), TextOrder::Before));
    assert!(matches!(compare_text("ab", "a"), TextOrder::After));
    assert!(matches!(compare_text("", ""), TextOrder::Same));
    assert!(matches!(compare_text("Z", "a"), TextOrder::Before));
    assert!(matches!(compare_text("z", "\u{e9}"), TextOrder::Before));
}

#[test]
fn bytes_compare_lexicographically() {
    assert!(matches!(compare_bytes(b"abc", b"abd"), TextOrder::Before));
    assert!(matches!(compare_bytes(b"ab", b"abc"), TextOrder::Before));
    assert!(matches!(compare_bytes(b"b", b"abc"), TextOrder::After));
    assert!(matches!(compare_bytes(b"", b""), TextOrder::Same));
}

#[test]
fn path_components_order_by_kind_then_name() {
    assert!(matches!(compare_components(&PathComponent::RootDir, &normal("a")), TextOrder::Before));
    assert!(matches!(compare_components(&PathComponent::ParentDir, &PathComponent::CurDir), TextOrder::After));
    assert!(matches!(compare_components(&normal("a"), &PathComponent::NonUnicode(vec![0x61])), TextOrder::Same));
}

#[test]
fn paths_order_component_by_component() {
    let a = vec![normal("rules"), normal("a.json")];
    let b = vec![normal("rules-x.json")];
    assert!(path_sorts_before(&a, &b));
    assert!(!path_sorts_before(&b, &a));
    let shorter = vec![normal("rules")];
    assert!(path_sorts_before(&shorter, &a));
    assert!(!path_sorts_before(&a, &a));
}

#[test]
fn the_index_keeps_identifiers_sorted() {
    let mut index = DecisionIndex::new();
    index.insert("pricing".to_string(), "pricing.json".to_string());
    index.insert("eligibility".to_string(), "eligibility.json".to_string());
    index.insert("pricing".to_string(), "pricing/v2.json".to_string());
    assert_eq!(index.len(), 2);
    assert_eq!(index.ids(), vec!["eligibility".to_string(), "pricing".to_string()]);
    assert_eq!(index.get("pricing"), Some("pricing/v2.json".to_string()));
    assert_eq!(index.get("missing"), None);
    assert!(index.contains_id("eligibility"));
    assert_eq!(index.id_for_key("eligibility.json"), Some("eligibility".to_string()));
    assert_eq!(index.id_for_key("pricing.json"), None);
}
