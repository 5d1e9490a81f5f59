use lasso_zen_bre::api::{
    plan_evaluation, readiness, settle_reload, ApiError, Readiness, ReloadAnswer, ReloadAttempt,
    RequestBody,
};
use lasso_zen_bre::diagnostics::{Diagnostic, RegistryLoadError};
use lasso_zen_bre::paths::PathComponent;
use lasso_zen_bre::registry::{Registry, RegistryLoad};
use std::sync::Arc;

const PASS_THROUGH: &str = r#"{"nodes":[{"id":"in","type":"inputNode","name":"Request"},{"id":"out","type":"outputNode","name":"Response"}],"edges":[{"id":"e1","sourceId":"in","type":"edge","targetId":"out"}]}"#;

const TWO_INPUTS: &str = r#"{"nodes":[{"id":"a","type":"inputNode","name":"A"},{"id":"b","type":"inputNode","name":"B"},{"id":"out","type":"outputNode","name":"Response"}],"edges":[]}"#;

fn normal(s: &str) -> PathComponent {
    PathComponent::Normal(s.to_string())
}

fn root() -> Vec<PathComponent> {
    vec![PathComponent::RootDir, normal("ws"), normal("decisions")]
}

fn file(rest: &[&str]) -> Vec<PathComponent> {
    let mut p = root();
    for s in rest {
        p.push(normal(s));
    }
    p
}

fn take_in(load: &mut RegistryLoad, rest: &[&str], bytes: Option<&str>) {
    let (id, key) = load.accept_path(&root(), &file(rest)).expect("path must be admitted");
    load.add_model(id, key, bytes.map(|b| b.as_bytes().to_vec()));
}

fn loaded(files: &[(&[&str], &str)], generation: u64) -> Registry {
    let mut load = RegistryLoad::new();
    for (rest, bytes) in files {
        take_in(&mut load, rest, Some(bytes));
    }
    match load.finish(generation) {
        Ok(r) => r,
        Err(e) => panic!("load refused: {:?}", e.diagnostics),
    }
}

fn refused(load: RegistryLoad) -> Vec<Diagnostic> {
    match load.finish(1) {
        Ok(_) => panic!("load must be refused"),
        Err(e) => e.diagnostics,
    }
}

fn diag(id: Option<&str>, code: &str) -> Diagnostic {
    Diagnostic { decision_id: id.map(|s| s.to_string()), code: code.to_string() }
}

#[test]
fn valid_models_make_a_ready_registry() {
    let reg = loaded(&[(&["pricing", "standard.json"], PASS_THROUGH), (&["expression.json"], PASS_THROUGH)], 3);
    assert!(reg.is_ready());
    assert_eq!(reg.decision_count(), 2);
    assert_eq!(reg.generation(), 3);
    assert_eq!(reg.decision_ids(), vec!["expression".to_string(), "pricing/standard".to_string()]);
    assert_eq!(reg.key_for("pricing/standard"), Some("pricing/standard.json".to_string()));
    assert_eq!(reg.key_for("pricing"), None);
    assert!(reg.diagnostics().is_empty());
    assert!(reg.loader().is_some());
}

#[test]
fn a_file_that_is_not_a_model_refuses_the_load() {
    let mut load = RegistryLoad::new();
    take_in(&mut load, &["expression.json"], Some(PASS_THROUGH));
    take_in(&mut load, &["broken.json"], Some("{not-json"));
    assert_eq!(refused(load), vec![diag(Some("broken"), "invalid_jdm")]);
}

#[test]
fn refusals_carry_no_model_content() {
    let sentinel = "DO_NOT_LEAK_DECISION_SOURCE_OR_INPUT";
    let mut load = RegistryLoad::new();
    take_in(&mut load, &["broken.json"], Some(&format!("{{{sentinel}")));
    let diagnostics = refused(load);
    assert_eq!(diagnostics, vec![diag(Some("broken"), "invalid_jdm")]);
    for d in &diagnostics {
        assert!(!d.code.contains(sentinel));
        assert!(!d.decision_id.clone().unwrap_or_default().contains(sentinel));
    }
}

#[test]
fn an_unreadable_model_refuses_the_load() {
    let mut load = RegistryLoad::new();
    take_in(&mut load, &["a.json"], None);
    assert_eq!(refused(load), vec![diag(Some("a"), "model_read_failed")]);
}

#[test]
fn a_duplicate_identifier_is_refused() {
    let mut load = RegistryLoad::new();
    take_in(&mut load, &["a.json"], Some(PASS_THROUGH));
    assert!(load.accept_path(&root(), &file(&["a.json"])).is_none());
    assert_eq!(refused(load), vec![diag(Some("a"), "duplicate_decision_id")]);
}

#[test]
fn an_invalid_path_is_refused_without_identifier() {
    let mut load = RegistryLoad::new();
    assert!(load.accept_path(&root(), &file(&["notes.txt"])).is_none());
    assert!(load.accept_path(&root(), &file(&["bad id.json"])).is_none());
    assert_eq!(
        refused(load),
        vec![diag(None, "unsupported_file_type"), diag(None, "invalid_decision_id")]
    );
}

#[test]
fn a_graph_that_does_not_compile_names_its_decision() {
    let mut load = RegistryLoad::new();
    take_in(&mut load, &["good.json"], Some(PASS_THROUGH));
    take_in(&mut load, &["rules", "twice.json"], Some(TWO_INPUTS));
    assert_eq!(refused(load), vec![diag(Some("rules/twice"), "compile_failed")]);
}

#[test]
fn an_empty_workspace_loads_ready_with_no_decisions() {
    let reg = loaded(&[], 1);
    assert!(reg.is_ready());
    assert_eq!(reg.decision_count(), 0);
}

#[test]
fn an_invalid_registry_is_never_ready() {
    let reg = Registry::invalid(RegistryLoadError::one("decisions_directory_unreadable"));
    assert!(!reg.is_ready());
    assert_eq!(reg.generation(), 0);
    assert_eq!(reg.decision_count(), 0);
    let report = readiness(&reg);
    assert_eq!(report.status(), 503);
    match report {
        Readiness::NotReady { diagnostics } => {
            assert_eq!(diagnostics, vec![diag(None, "decisions_directory_unreadable")])
        }
        Readiness::Ready { .. } => panic!("an invalid registry must not be ready"),
    }
}

#[test]
fn a_loaded_registry_reports_ready() {
    let reg = loaded(&[(&["a.json"], PASS_THROUGH)], 4);
    let report = readiness(&reg);
    assert_eq!(report.status(), 200);
    assert!(matches!(report, Readiness::Ready { decision_count: 1, generation: 4, .. }));
}

#[test]
fn invalid_reload_preserves_the_last_compiled_registry_and_redacts_source() {
    let live = Arc::new(loaded(&[(&["expression.json"], PASS_THROUGH)], 1));
    let sentinel = "DO_NOT_LEAK_DECISION_SOURCE_OR_INPUT";
    let mut load = RegistryLoad::new();
    take_in(&mut load, &["expression.json"], Some(PASS_THROUGH));
    take_in(&mut load, &["broken.json"], Some(&format!("{{{sentinel}")));
    let error = match load.finish(2) {
        Err(e) => e,
        Ok(_) => panic!("load must be refused"),
    };
    let (after, answer) = settle_reload(live.clone(), ReloadAttempt::Refused(error));
    assert!(Arc::ptr_eq(&after, &live));
    assert!(after.is_ready());
    assert_eq!(after.generation(), 1);
    assert_eq!(answer.status(), 422);
    match answer {
        ReloadAnswer::Rejected { diagnostics } => {
            assert_eq!(diagnostics, vec![diag(Some("broken"), "invalid_jdm")]);
            assert!(!format!("{diagnostics:?}").contains(sentinel));
            assert!(!format!("{diagnostics:?}").contains("ws"));
        }
        _ => panic!("expected a rejection"),
    }
    let target = plan_evaluation("expression/evaluate", RequestBody::Json { depth: 1 }, 64, &after);
    assert!(target.is_ok());
}

#[test]
fn a_successful_reload_replaces_the_live_registry() {
    let live = Arc::new(loaded(&[(&["a.json"], PASS_THROUGH)], 1));
    let next = loaded(&[(&["a.json"], PASS_THROUGH), (&["b.json"], PASS_THROUGH)], 2);
    let (after, answer) = settle_reload(live, ReloadAttempt::Loaded(next));
    assert_eq!(after.generation(), 2);
    assert_eq!(after.decision_count(), 2);
    assert_eq!(answer.status(), 200);
    assert!(matches!(answer, ReloadAnswer::Reloaded { decision_count: 2, generation: 2 }));
}

#[test]
fn a_failed_reload_task_answers_internal_error() {
    let live = Arc::new(loaded(&[(&["a.json"], PASS_THROUGH)], 1));
    let (after, answer) = settle_reload(live, ReloadAttempt::TaskFailed);
    assert_eq!(after.generation(), 1);
    assert_eq!(answer.status(), 500);
    match answer {
        ReloadAnswer::Failed(e) => {
            assert!(matches!(e, ApiError::ReloadTaskFailed));
            assert_eq!(e.code(), "internal_error");
            assert_eq!(e.message(), "The registry could not be reloaded.");
        }
        _ => panic!("expected a failure"),
    }
}

fn plan_error(path: &str, body: RequestBody, registry: &Registry) -> ApiError {
    match plan_evaluation(path, body, 4, registry) {
        Err(e) => e,
        Ok(_) => panic!("expected the request to be refused"),
    }
}

#[test]
fn evaluation_requests_are_checked_in_order() {
    let reg = loaded(&[(&["pricing", "standard.json"], PASS_THROUGH)], 1);
    let json = || RequestBody::Json { depth: 2 };

    let e = plan_error("pricing/standard", json(), &reg);
    assert!(matches!(e, ApiError::NotFound));
    assert_eq!((e.status(), e.code()), (404, "not_found"));

    let e = plan_error("../secret/evaluate", RequestBody::Rejected { status: 413 }, &reg);
    assert!(matches!(e, ApiError::InvalidDecisionId));
    assert_eq!((e.status(), e.code()), (400, "invalid_decision_id"));

    let e = plan_error("pricing/standard/evaluate", RequestBody::Rejected { status: 413 }, &reg);
    assert_eq!((e.status(), e.code()), (413, "request_too_large"));

    let e = plan_error("pricing/standard/evaluate", RequestBody::Rejected { status: 415 }, &reg);
    assert_eq!((e.status(), e.code()), (415, "invalid_json"));
    assert_eq!(e.message(), "The JSON request body is invalid.");

    let e = plan_error("pricing/standard/evaluate", RequestBody::Json { depth: 5 }, &reg);
    assert_eq!((e.status(), e.code()), (400, "context_too_deep"));

    let e = plan_error("pricing/other/evaluate", json(), &reg);
    assert_eq!((e.status(), e.code()), (404, "decision_not_found"));

    let invalid = Registry::invalid(RegistryLoadError::one("compile_failed"));
    let e = plan_error("pricing/standard/evaluate", json(), &invalid);
    assert_eq!((e.status(), e.code()), (503, "registry_not_ready"));

    let target = plan_evaluation("pricing/standard/evaluate", RequestBody::Json { depth: 4 }, 4, &reg)
        .ok()
        .expect("a valid request is planned");
    assert_eq!(target.decision_id, "pricing/standard");
    assert_eq!(target.key, "pricing/standard.json");
}

#[test]
fn every_listed_decision_can_be_evaluated() {
    let reg = loaded(
        &[(&["a.json"], PASS_THROUGH), (&["rules", "v1.2.json"], PASS_THROUGH), (&["z-z.json"], PASS_THROUGH)],
        1,
    );
    let ids = reg.decision_ids();
    assert_eq!(ids.len(), 3);
    for id in ids {
        assert!(lasso_zen_bre::ident::valid_decision_id(&id));
        let target = plan_evaluation(&format!("{id}/evaluate"), RequestBody::Json { depth: 64 }, 64, &reg)
            .ok()
            .expect("a listed decision is planned");
        assert_eq!(target.decision_id, id);
        assert_eq!(Some(target.key), reg.key_for(&id));
    }
}

#[test]
fn invalid_startup_registry_keeps_readiness_unhealthy() {
    let mut load = RegistryLoad::new();
    take_in(&mut load, &["broken.json"], Some("{not-json"));
    let registry = match load.finish(1) {
        Ok(_) => panic!("the workspace must be refused"),
        Err(e) => Registry::invalid(e),
    };
    let report = readiness(&registry);
    assert_eq!(report.status(), 503);
    assert!(matches!(report, Readiness::NotReady { .. }));
}

#[test]
fn every_graph_is_validated_before_a_registry_is_made() {
    let mut load = RegistryLoad::new();
    take_in(&mut load, &["a.json"], Some(TWO_INPUTS));
    take_in(&mut load, &["b.json"], Some(PASS_THROUGH));
    take_in(&mut load, &["c.json"], Some(TWO_INPUTS));
    assert_eq!(
        refused(load),
        vec![diag(Some("a"), "compile_failed"), diag(Some("c"), "compile_failed")]
    );
}
