use lasso_zen_bre::api::{correlation_id, evaluation_error, ApiError, EvaluationFailure, EvaluationOutcome};
use lasso_zen_bre::json::{json_depth, JsonShape};

#[test]
fn correlation_ids_are_sixteen_lowercase_hex_digits() {
    assert_eq!(correlation_id(1), "zbre-0000000000000001");
    assert_eq!(correlation_id(0), "zbre-0000000000000000");
    assert_eq!(correlation_id(0xdead_beef), "zbre-00000000deadbeef");
    assert_eq!(correlation_id(u64::MAX), "zbre-ffffffffffffffff");
    assert_eq!(correlation_id(0x0123_4567_89ab_cdef), "zbre-0123456789abcdef");
}

#[test]
fn evaluation_outcomes_map_to_errors() {
    assert!(evaluation_error(EvaluationOutcome::Completed).is_none());
    let e = evaluation_error(EvaluationOutcome::Failed(EvaluationFailure::EvaluationFailed)).unwrap();
    assert_eq!((e.status(), e.code()), (422, "evaluation_failed"));
    assert_eq!(e.message(), "The decision could not be evaluated.");
    let e = evaluation_error(EvaluationOutcome::Failed(EvaluationFailure::RuntimeFailed)).unwrap();
    assert_eq!((e.status(), e.code()), (422, "runtime_failed"));
    let e = evaluation_error(EvaluationOutcome::TaskFailed).unwrap();
    assert_eq!((e.status(), e.code()), (500, "internal_error"));
    assert_eq!(e.message(), "The decision could not be evaluated.");
    let e = evaluation_error(EvaluationOutcome::TimedOut).unwrap();
    assert_eq!((e.status(), e.code()), (504, "evaluation_timeout"));
    assert_eq!(e.message(), "The decision exceeded the evaluation time limit.");
}

#[test]
fn every_error_has_a_fixed_status_code_and_message() {
    let cases = vec![
        (ApiError::NotFound, 404, "not_found", "The requested endpoint does not exist."),
        (ApiError::InvalidDecisionId, 400, "invalid_decision_id", "The decision identifier is invalid."),
        (ApiError::RequestTooLarge, 413, "request_too_large", "The JSON request body is invalid."),
        (ApiError::InvalidJson { status: 422 }, 422, "invalid_json", "The JSON request body is invalid."),
        (
            ApiError::ContextTooDeep,
            400,
            "context_too_deep",
            "The JSON context exceeds the configured nesting limit.",
        ),
        (ApiError::RegistryNotReady, 503, "registry_not_ready", "The decision registry is not ready."),
        (ApiError::DecisionNotFound, 404, "decision_not_found", "The requested decision does not exist."),
        (
            ApiError::ConcurrencyLimit,
            429,
            "concurrency_limit",
            "The evaluation concurrency limit has been reached.",
        ),
        (
            ApiError::ReloadInProgress,
            409,
            "reload_in_progress",
            "A registry reload is already in progress.",
        ),
        (ApiError::ReloadTaskFailed, 500, "internal_error", "The registry could not be reloaded."),
    ];
    for (e, status, code, message) in cases {
        assert_eq!(e.status(), status);
        assert_eq!(e.code(), code);
        assert_eq!(e.message(), message);
    }
}

#[test]
fn json_depth_counts_nesting() {
    assert_eq!(json_depth(&JsonShape::Scalar), 1);
    assert_eq!(json_depth(&JsonShape::Array(vec![])), 1);
    assert_eq!(json_depth(&JsonShape::Object(vec![])), 1);
    assert_eq!(json_depth(&JsonShape::Array(vec![JsonShape::Scalar, JsonShape::Scalar])), 2);
    let nested = JsonShape::Object(vec![
        JsonShape::Scalar,
        JsonShape::Array(vec![JsonShape::Object(vec![JsonShape::Scalar])]),
        JsonShape::Array(vec![]),
    ]);
    assert_eq!(json_depth(&nested), 4);
}

#[test]
fn deep_contexts_are_measured_exactly() {
    let mut v = JsonShape::Scalar;
    for _ in 0..99 {
        v = JsonShape::Array(vec![v]);
    }
    assert_eq!(json_depth(&v), 100);
}

#[test]
fn correlation_ids_of_distinct_requests_differ() {
    let ids: std::collections::BTreeSet<String> = (0u64..2000).map(correlation_id).collect();
    assert_eq!(ids.len(), 2000);
    assert_ne!(correlation_id(1 << 60), correlation_id(1));
}
