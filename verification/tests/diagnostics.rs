use lasso_zen_bre::diagnostics::{push_diagnostic, Diagnostic, RegistryLoadError, MAX_DIAGNOSTICS};

#[test]
fn a_pushed_diagnostic_is_appended() {
    let mut d: Vec<Diagnostic> = Vec::new();
    push_diagnostic(&mut d, Some("pricing".to_string()), "invalid_jdm");
    push_diagnostic(&mut d, None, "symlink_not_allowed");
    assert_eq!(
        d,
        vec![
            Diagnostic { decision_id: Some("pricing".to_string()), code: "invalid_jdm".to_string() },
            Diagnostic { decision_id: None, code: "symlink_not_allowed".to_string() },
        ]
    );
}

#[test]
fn diagnostics_stop_at_the_maximum() {
    let mut d: Vec<Diagnostic> = Vec::new();
    for i in 0..40 {
        push_diagnostic(&mut d, Some(format!("d{i}")), "model_too_large");
    }
    assert_eq!(MAX_DIAGNOSTICS, 32);
    assert_eq!(d.len(), 32);
    assert_eq!(d[31].decision_id, Some("d31".to_string()));
    for (i, item) in d.iter().enumerate() {
        assert_eq!(item.decision_id, Some(format!("d{i}")));
    }
}

#[test]
fn a_single_refusal_has_one_diagnostic_without_decision() {
    let e = RegistryLoadError::one("decisions_directory_unreadable");
    assert_eq!(
        e.diagnostics,
        vec![Diagnostic { decision_id: None, code: "decisions_directory_unreadable".to_string() }]
    );
}
