use lasso_zen_bre::paths::{decision_identity, PathComponent};

fn normal(s: &str) -> PathComponent {
    PathComponent::Normal(s.to_string())
}

fn root() -> Vec<PathComponent> {
    vec![PathComponent::RootDir, normal("srv"), normal("decisions")]
}

fn under_root(rest: Vec<PathComponent>) -> Vec<PathComponent> {
    let mut p = root();
    p.extend(rest);
    p
}

#[test]
fn nested_model_gets_identifier_without_extension_and_key_with_it() {
    let path = under_root(vec![normal("commercial"), normal("pricing.json")]);
    assert_eq!(
        decision_identity(&root(), &path),
        Ok(("commercial/pricing".to_string(), "commercial/pricing.json".to_string()))
    );
}

#[test]
fn top_level_model_identity() {
    let path = under_root(vec![normal("expression.json")]);
    assert_eq!(
        decision_identity(&root(), &path),
        Ok(("expression".to_string(), "expression.json".to_string()))
    );
}

#[test]
fn path_outside_root_is_refused() {
    let path = vec![PathComponent::RootDir, normal("srv"), normal("other"), normal("a.json")];
    assert_eq!(decision_identity(&root(), &path), Err("path_outside_decisions_root"));
}

#[test]
fn parent_or_non_unicode_components_are_invalid_paths() {
    let path = under_root(vec![PathComponent::ParentDir, normal("a.json")]);
    assert_eq!(decision_identity(&root(), &path), Err("invalid_decision_path"));
    let path = under_root(vec![PathComponent::NonUnicode(vec![0xff, 0xfe]), normal("a.json")]);
    assert_eq!(decision_identity(&root(), &path), Err("invalid_decision_path"));
}

#[test]
fn file_without_json_extension_is_unsupported() {
    let path = under_root(vec![normal("pricing.yaml")]);
    assert_eq!(decision_identity(&root(), &path), Err("unsupported_file_type"));
}

#[test]
fn invalid_segments_are_invalid_identifiers() {
    let path = under_root(vec![normal("bad dir"), normal("a.json")]);
    assert_eq!(decision_identity(&root(), &path), Err("invalid_decision_id"));
    let path = under_root(vec![normal(".json")]);
    assert_eq!(decision_identity(&root(), &path), Err("invalid_decision_id"));
}

#[test]
fn the_root_itself_has_no_identity() {
    assert_eq!(decision_identity(&root(), &root()), Err("invalid_decision_id"));
}

#[test]
fn first_refused_component_decides_the_code() {
    let path = under_root(vec![normal("a..b"), PathComponent::ParentDir, normal("x.txt")]);
    assert_eq!(decision_identity(&root(), &path), Err("invalid_decision_id"));
}

#[test]
fn every_identity_has_a_valid_identifier_and_a_json_key() {
    let path = under_root(vec![normal("a-b"), normal("c_d"), normal("v1.2.json")]);
    let (id, key) = decision_identity(&root(), &path).expect("identity");
    assert!(lasso_zen_bre::ident::valid_decision_id(&id));
    assert_eq!(key, format!("{id}.json"));
}

#[test]
fn identity_does_not_depend_on_where_the_workspace_lies() {
    let other_root = vec![PathComponent::RootDir, normal("home"), normal("ops"), normal("zen")];
    let rel = vec![normal("commercial"), normal("pricing.json")];
    let mut other_path = other_root.clone();
    other_path.extend(rel.clone());
    assert_eq!(
        decision_identity(&root(), &under_root(rel)),
        decision_identity(&other_root, &other_path)
    );
    let bad = vec![normal("x.txt")];
    let mut other_bad = other_root.clone();
    other_bad.extend(bad.clone());
    assert_eq!(
        decision_identity(&root(), &under_root(bad)),
        decision_identity(&other_root, &other_bad)
    );
}

#[test]
fn the_key_leads_back_to_the_model_file() {
    let path = under_root(vec![normal("commercial"), normal("v1.2"), normal("pricing.json")]);
    let (_, key) = decision_identity(&root(), &path).expect("identity");
    let mut rebuilt = root();
    rebuilt.extend(key.split('/').map(normal));
    assert_eq!(rebuilt, path);
}
