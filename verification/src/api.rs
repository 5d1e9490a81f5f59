//! The HTTP decision rules: which error envelope a request earns, what an
//! evaluation or a reload answers, and how the live registry moves.

use std::sync::Arc;
use vstd::prelude::*;
use vstd::string::*;
use zen_engine::loader::MemoryLoader;
use crate::diagnostics::{Diagnostic, RegistryLoadError};
use crate::ident::valid_decision_id;
use crate::registry::Registry;

verus! {

/// Why an evaluation that ran did not produce a result.
pub enum EvaluationFailure {
    /// The evaluation runtime could not be started.
    RuntimeFailed,
    /// The engine refused or failed the evaluation.
    EvaluationFailed,
}

/// A stable, redacted error envelope: a status, a code and a fixed message,
/// never a model, a host path or a value.
pub enum ApiError {
    NotFound,
    InvalidDecisionId,
    RequestTooLarge,
    InvalidJson { status: u16 },
    ContextTooDeep,
    RegistryNotReady,
    DecisionNotFound,
    ConcurrencyLimit,
    Evaluation(EvaluationFailure),
    EvaluationTaskFailed,
    EvaluationTimeout,
    ReloadInProgress,
    ReloadTaskFailed,
}

/// The HTTP status of an error.
pub open spec fn spec_error_status(e: ApiError) -> u16 {
    match e {
        ApiError::NotFound => 404,
        ApiError::InvalidDecisionId => 400,
        ApiError::RequestTooLarge => 413,
        ApiError::InvalidJson { status } => status,
        ApiError::ContextTooDeep => 400,
        ApiError::RegistryNotReady => 503,
        ApiError::DecisionNotFound => 404,
        ApiError::ConcurrencyLimit => 429,
        ApiError::Evaluation(_) => 422,
        ApiError::EvaluationTaskFailed => 500,
        ApiError::EvaluationTimeout => 504,
        ApiError::ReloadInProgress => 409,
        ApiError::ReloadTaskFailed => 500,
    }
}

/// The code of an error.
pub open spec fn spec_error_code(e: ApiError) -> Seq<char> {
    match e {
        ApiError::NotFound => "not_found"@,
        ApiError::InvalidDecisionId => "invalid_decision_id"@,
        ApiError::RequestTooLarge => "request_too_large"@,
        ApiError::InvalidJson { .. } => "invalid_json"@,
        ApiError::ContextTooDeep => "context_too_deep"@,
        ApiError::RegistryNotReady => "registry_not_ready"@,
        ApiError::DecisionNotFound => "decision_not_found"@,
        ApiError::ConcurrencyLimit => "concurrency_limit"@,
        ApiError::Evaluation(EvaluationFailure::RuntimeFailed) => "runtime_failed"@,
        ApiError::Evaluation(EvaluationFailure::EvaluationFailed) => "evaluation_failed"@,
        ApiError::EvaluationTaskFailed => "internal_error"@,
        ApiError::EvaluationTimeout => "evaluation_timeout"@,
        ApiError::ReloadInProgress => "reload_in_progress"@,
        ApiError::ReloadTaskFailed => "internal_error"@,
    }
}

/// The fixed message of an error.
pub open spec fn spec_error_message(e: ApiError) -> Seq<char> {
    match e {
        ApiError::NotFound => "The requested endpoint does not exist."@,
        ApiError::InvalidDecisionId => "The decision identifier is invalid."@,
        ApiError::RequestTooLarge => "The JSON request body is invalid."@,
        ApiError::InvalidJson { .. } => "The JSON request body is invalid."@,
        ApiError::ContextTooDeep => "The JSON context exceeds the configured nesting limit."@,
        ApiError::RegistryNotReady => "The decision registry is not ready."@,
        ApiError::DecisionNotFound => "The requested decision does not exist."@,
        ApiError::ConcurrencyLimit => "The evaluation concurrency limit has been reached."@,
        ApiError::Evaluation(_) => "The decision could not be evaluated."@,
        ApiError::EvaluationTaskFailed => "The decision could not be evaluated."@,
        ApiError::EvaluationTimeout => "The decision exceeded the evaluation time limit."@,
        ApiError::ReloadInProgress => "A registry reload is already in progress."@,
        ApiError::ReloadTaskFailed => "The registry could not be reloaded."@,
    }
}

impl ApiError {
    /// The HTTP status.
    pub fn status(&self) -> (r: u16)
        ensures
            r == spec_error_status(*self),
    {
        match self {
            ApiError::NotFound => 404,
            ApiError::InvalidDecisionId => 400,
            ApiError::RequestTooLarge => 413,
            ApiError::InvalidJson { status } => *status,
            ApiError::ContextTooDeep => 400,
            ApiError::RegistryNotReady => 503,
            ApiError::DecisionNotFound => 404,
            ApiError::ConcurrencyLimit => 429,
            ApiError::Evaluation(_) => 422,
            ApiError::EvaluationTaskFailed => 500,
            ApiError::EvaluationTimeout => 504,
            ApiError::ReloadInProgress => 409,
            ApiError::ReloadTaskFailed => 500,
        }
    }

    /// The error code.
    pub fn code(&self) -> (r: &'static str)
        ensures
            r@ == spec_error_code(*self),
    {
        match self {
            ApiError::NotFound => "not_found",
            ApiError::InvalidDecisionId => "invalid_decision_id",
            ApiError::RequestTooLarge => "request_too_large",
            ApiError::InvalidJson { .. } => "invalid_json",
            ApiError::ContextTooDeep => "context_too_deep",
            ApiError::RegistryNotReady => "registry_not_ready",
            ApiError::DecisionNotFound => "decision_not_found",
            ApiError::ConcurrencyLimit => "concurrency_limit",
            ApiError::Evaluation(EvaluationFailure::RuntimeFailed) => "runtime_failed",
            ApiError::Evaluation(EvaluationFailure::EvaluationFailed) => "evaluation_failed",
            ApiError::EvaluationTaskFailed => "internal_error",
            ApiError::EvaluationTimeout => "evaluation_timeout",
            ApiError::ReloadInProgress => "reload_in_progress",
            ApiError::ReloadTaskFailed => "internal_error",
        }
    }

    /// The fixed message.
    pub fn message(&self) -> (r: &'static str)
        ensures
            r@ == spec_error_message(*self),
    {
        match self {
            ApiError::NotFound => "The requested endpoint does not exist.",
            ApiError::InvalidDecisionId => "The decision identifier is invalid.",
            ApiError::RequestTooLarge => "The JSON request body is invalid.",
            ApiError::InvalidJson { .. } => "The JSON request body is invalid.",
            ApiError::ContextTooDeep => "The JSON context exceeds the configured nesting limit.",
            ApiError::RegistryNotReady => "The decision registry is not ready.",
            ApiError::DecisionNotFound => "The requested decision does not exist.",
            ApiError::ConcurrencyLimit => "The evaluation concurrency limit has been reached.",
            ApiError::Evaluation(_) => "The decision could not be evaluated.",
            ApiError::EvaluationTaskFailed => "The decision could not be evaluated.",
            ApiError::EvaluationTimeout => "The decision exceeded the evaluation time limit.",
            ApiError::ReloadInProgress => "A registry reload is already in progress.",
            ApiError::ReloadTaskFailed => "The registry could not be reloaded.",
        }
    }
}

/// `s` without the trailing `/evaluate`, if it has one.
pub open spec fn strip_evaluate(s: Seq<char>) -> Option<Seq<char>> {
    let suffix = "/evaluate"@;
    if s.len() >= suffix.len() && s.skip(s.len() - suffix.len()) == suffix {
        Some(s.take(s.len() - suffix.len()))
    } else {
        None
    }
}

/// What the body of an evaluation request turned out to be.
pub enum RequestBody {
    /// A JSON document nested this deep.
    Json { depth: usize },
    /// The body was refused before it was read, with this HTTP status.
    Rejected { status: u16 },
}

/// The decision that an evaluation request names, with the store to
/// evaluate it through.
pub struct EvaluationTarget {
    pub decision_id: String,
    pub key: String,
    pub loader: Arc<MemoryLoader>,
}

/// What an evaluation request for the wildcard path `path` (the part after
/// `/v1/decisions/`) earns: the decision identifier and its loader key, or
/// the error, checked in this order: the path must end in `/evaluate`, the
/// identifier must be valid, the body must be JSON (a too large body is
/// `request_too_large`, any other refusal `invalid_json` with the refusal's
/// status), no deeper than `max_json_depth`, the registry must be ready and
/// must hold the decision.
pub open spec fn spec_plan_evaluation(
    path: Seq<char>,
    body: RequestBody,
    max_json_depth: usize,
    registry: Registry,
) -> Result<(Seq<char>, Seq<char>), ApiError> {
    match strip_evaluate(path) {
        None => Err(ApiError::NotFound),
        Some(id) => if !crate::ident::spec_valid_decision_id(id) {
            Err(ApiError::InvalidDecisionId)
        } else {
            match body {
                RequestBody::Rejected { status } => if status == 413 {
                    Err(ApiError::RequestTooLarge)
                } else {
                    Err(ApiError::InvalidJson { status })
                },
                RequestBody::Json { depth } => if depth > max_json_depth {
                    Err(ApiError::ContextTooDeep)
                } else if !registry.ready() {
                    Err(ApiError::RegistryNotReady)
                } else if !registry.keys().contains_key(id) {
                    Err(ApiError::DecisionNotFound)
                } else {
                    Ok((id, registry.keys()[id]))
                },
            }
        },
    }
}

/// `path` without its trailing `/evaluate`, if it has one.
fn strip_evaluate_suffix(path: &str) -> (r: Option<&str>)
    ensures
        r is Some <==> strip_evaluate(path@) is Some,
        r is Some ==> r->0@ == strip_evaluate(path@)->0,
{
    let suffix = "/evaluate";
    proof {
        reveal_strlit("/evaluate");
    }
    let n = path.unicode_len();
    let m = suffix.unicode_len();
    if n < m {
        return None;
    }
    let mut k: usize = 0;
    while k < m
        invariant
            n == path@.len(),
            suffix@ == "/evaluate"@,
            m == suffix@.len(),
            m <= n,
            k <= m,
            forall|j: int| 0 <= j < k ==> path@[n - m + j] == suffix@[j],
        decreases m - k,
    {
        if path.get_char(n - m + k) != suffix.get_char(k) {
            assert(path@.skip(n - m)[k as int] == path@[n - m + k]);
            assert(path@.skip(n - m)[k as int] != suffix@[k as int]);
            assert(path@.skip(n - m) != suffix@);
            return None;
        }
        k = k + 1;
    }
    assert(path@.skip(n - m) =~= suffix@);
    let stem = path.substring_char(0, n - m);
    assert(stem@ =~= path@.take(n - m));
    Some(stem)
}

/// Checks an evaluation request against the registry, before any
/// evaluation slot is taken.
pub fn plan_evaluation(path: &str, body: RequestBody, max_json_depth: usize, registry: &Registry) -> (r:
    Result<EvaluationTarget, ApiError>)
    ensures
        match spec_plan_evaluation(path@, body, max_json_depth, *registry) {
            Ok((id, key)) => r matches Ok(t) && t.decision_id@ == id && t.key@ == key,
            Err(e) => r matches Err(x) && x == e,
        },
        r matches Ok(t) ==> crate::engine::stored_keys(*t.loader).contains(t.key@),
{
    let id = match strip_evaluate_suffix(path) {
        Some(id) => id,
        None => {
            return Err(ApiError::NotFound);
        },
    };
    if !valid_decision_id(id) {
        return Err(ApiError::InvalidDecisionId);
    }
    match body {
        RequestBody::Rejected { status } => {
            if status == 413 {
                return Err(ApiError::RequestTooLarge);
            } else {
                return Err(ApiError::InvalidJson { status });
            }
        },
        RequestBody::Json { depth } => {
            if depth > max_json_depth {
                return Err(ApiError::ContextTooDeep);
            }
        },
    }
    if !registry.is_ready() {
        return Err(ApiError::RegistryNotReady);
    }
    let key = match registry.key_for(id) {
        Some(k) => k,
        None => {
            return Err(ApiError::DecisionNotFound);
        },
    };
    let loader = match registry.loader() {
        Some(l) => l,
        None => {
            return Err(ApiError::RegistryNotReady);
        },
    };
    proof {
        assert(registry.keys().contains_key(id@) && registry.keys()[id@] == key@);
        assert(registry.keys().values().contains(key@));
    }
    Ok(EvaluationTarget { decision_id: id.to_owned(), key, loader })
}

/// How an evaluation that was started ended.
pub enum EvaluationOutcome {
    /// It produced a result.
    Completed,
    /// It ran and failed.
    Failed(EvaluationFailure),
    /// The task that ran it failed.
    TaskFailed,
    /// It did not finish within the evaluation timeout.
    TimedOut,
}

/// The error that an evaluation outcome answers with; a completed
/// evaluation answers 200 with its result.
pub fn evaluation_error(outcome: EvaluationOutcome) -> (r: Option<ApiError>)
    ensures
        match outcome {
            EvaluationOutcome::Completed => r is None,
            EvaluationOutcome::Failed(f) => r == Some(ApiError::Evaluation(f)),
            EvaluationOutcome::TaskFailed => r == Some(ApiError::EvaluationTaskFailed),
            EvaluationOutcome::TimedOut => r == Some(ApiError::EvaluationTimeout),
        },
{
    match outcome {
        EvaluationOutcome::Completed => None,
        EvaluationOutcome::Failed(f) => Some(ApiError::Evaluation(f)),
        EvaluationOutcome::TaskFailed => Some(ApiError::EvaluationTaskFailed),
        EvaluationOutcome::TimedOut => Some(ApiError::EvaluationTimeout),
    }
}

/// How a reload's load ended.
pub enum ReloadAttempt {
    /// The workspace compiled into a new registry.
    Loaded(Registry),
    /// The workspace was refused.
    Refused(RegistryLoadError),
    /// The task that ran the load failed.
    TaskFailed,
}

/// What a reload answers.
pub enum ReloadAnswer {
    /// 200: the new registry is live.
    Reloaded { decision_count: usize, generation: u64 },
    /// 422 `registry_invalid`: the workspace was refused; the live registry
    /// is unchanged.
    Rejected { diagnostics: Vec<Diagnostic> },
    /// The reload failed.
    Failed(ApiError),
}

impl ReloadAnswer {
    /// The HTTP status of the answer.
    pub fn status(&self) -> (r: u16)
        ensures
            match self {
                ReloadAnswer::Reloaded { .. } => r == 200,
                ReloadAnswer::Rejected { .. } => r == 422,
                ReloadAnswer::Failed(e) => r == spec_error_status(*e),
            },
    {
        match self {
            ReloadAnswer::Reloaded { .. } => 200,
            ReloadAnswer::Rejected { .. } => 422,
            ReloadAnswer::Failed(e) => e.status(),
        }
    }
}

/// Which registry is live after a reload: the new one when the load
/// succeeded, the current one otherwise.
pub open spec fn spec_settled_registry(current: Registry, attempt: ReloadAttempt) -> Registry {
    match attempt {
        ReloadAttempt::Loaded(reg) => reg,
        _ => current,
    }
}

/// Settles a reload: which registry is live afterwards, and the answer.
/// A refused or failed load leaves the current registry live.
pub fn settle_reload(current: Arc<Registry>, attempt: ReloadAttempt) -> (r: (Arc<Registry>, ReloadAnswer))
    ensures
        *r.0 == spec_settled_registry(*current, attempt),
        match attempt {
            ReloadAttempt::Loaded(reg) => r.1 == (ReloadAnswer::Reloaded {
                decision_count: reg.keys().len() as usize,
                generation: reg.spec_generation(),
            }),
            ReloadAttempt::Refused(e) => r.1 matches ReloadAnswer::Rejected { diagnostics }
                && crate::diagnostics::diagnostics_view(diagnostics@)
                == crate::diagnostics::diagnostics_view(e.diagnostics@),
            ReloadAttempt::TaskFailed => r.1 == ReloadAnswer::Failed(ApiError::ReloadTaskFailed),
        },
{
    match attempt {
        ReloadAttempt::Loaded(reg) => {
            let decision_count = reg.decision_count();
            let generation = reg.generation();
            (Arc::new(reg), ReloadAnswer::Reloaded { decision_count, generation })
        },
        ReloadAttempt::Refused(e) => (current, ReloadAnswer::Rejected { diagnostics: e.diagnostics }),
        ReloadAttempt::TaskFailed => (current, ReloadAnswer::Failed(ApiError::ReloadTaskFailed)),
    }
}

/// What the readiness probe reports.
pub enum Readiness {
    /// 200 `ready`.
    Ready { decision_count: usize, generation: u64, loaded_at_unix_ms: u128 },
    /// 503 `not_ready`, `registry_invalid`, with the diagnostics.
    NotReady { diagnostics: Vec<Diagnostic> },
}

impl Readiness {
    /// The HTTP status of the report.
    pub fn status(&self) -> (r: u16)
        ensures
            r == (if self is Ready {
                200u16
            } else {
                503u16
            }),
    {
        match self {
            Readiness::Ready { .. } => 200,
            Readiness::NotReady { .. } => 503,
        }
    }
}

/// The readiness report of the live registry: ready exactly when it has
/// compiled models and no diagnostics.
pub fn readiness(registry: &Registry) -> (r: Readiness)
    ensures
        r is Ready <==> registry.ready(),
        r matches Readiness::Ready { decision_count, generation, loaded_at_unix_ms } ==> decision_count
            == registry.keys().len() && generation == registry.spec_generation() && loaded_at_unix_ms
            == registry.loaded_at(),
        r matches Readiness::NotReady { diagnostics } ==> crate::diagnostics::diagnostics_view(
            diagnostics@,
        ) == registry.diags() && diagnostics@.len() <= crate::diagnostics::MAX_DIAGNOSTICS,
{
    if registry.is_ready() {
        Readiness::Ready {
            decision_count: registry.decision_count(),
            generation: registry.generation(),
            loaded_at_unix_ms: registry.loaded_at_unix_ms(),
        }
    } else {
        Readiness::NotReady { diagnostics: registry.diagnostics() }
    }
}

/// The lowercase hexadecimal digit for `d`, a value below 16.
pub open spec fn hex_digit_text(d: u64) -> Seq<char> {
    if d == 0 {
        "0"@
    } else     if d == 1 {
        "1"@
    } else     if d == 2 {
        "2"@
    } else     if d == 3 {
        "3"@
    } else     if d == 4 {
        "4"@
    } else     if d == 5 {
        "5"@
    } else     if d == 6 {
        "6"@
    } else     if d == 7 {
        "7"@
    } else     if d == 8 {
        "8"@
    } else     if d == 9 {
        "9"@
    } else     if d == 10 {
        "a"@
    } else     if d == 11 {
        "b"@
    } else     if d == 12 {
        "c"@
    } else     if d == 13 {
        "d"@
    } else     if d == 14 {
        "e"@
    } else {
        "f"@
    }
}

/// The last `k` hexadecimal digits of `n`, most significant first, padded
/// with zeros.
pub open spec fn hex_digits(n: u64, k: nat) -> Seq<char>
    decreases k,
{
    if k == 0 {
        Seq::<char>::empty()
    } else {
        hex_digits(n / 16, (k - 1) as nat) + hex_digit_text(n % 16)
    }
}

/// `hex_digits(n, k)` has `k` digits.
proof fn lemma_hex_digits_len(n: u64, k: nat)
    ensures
        hex_digits(n, k).len() == k,
    decreases k,
{
    reveal_strlit("0");
    reveal_strlit("1");
    reveal_strlit("2");
    reveal_strlit("3");
    reveal_strlit("4");
    reveal_strlit("5");
    reveal_strlit("6");
    reveal_strlit("7");
    reveal_strlit("8");
    reveal_strlit("9");
    reveal_strlit("a");
    reveal_strlit("b");
    reveal_strlit("c");
    reveal_strlit("d");
    reveal_strlit("e");
    reveal_strlit("f");
    if k > 0 {
        lemma_hex_digits_len(n / 16, (k - 1) as nat);
    }
}

/// Two values below 16 with the same digit are equal.
proof fn lemma_hex_digit_injective(a: u64, b: u64)
    requires
        a < 16,
        b < 16,
        hex_digit_text(a) == hex_digit_text(b),
    ensures
        a == b,
{
    reveal_strlit("0");
    reveal_strlit("1");
    reveal_strlit("2");
    reveal_strlit("3");
    reveal_strlit("4");
    reveal_strlit("5");
    reveal_strlit("6");
    reveal_strlit("7");
    reveal_strlit("8");
    reveal_strlit("9");
    reveal_strlit("a");
    reveal_strlit("b");
    reveal_strlit("c");
    reveal_strlit("d");
    reveal_strlit("e");
    reveal_strlit("f");
    assert(hex_digit_text(a)[0] == hex_digit_text(b)[0]);
    assert(hex_digit_value(hex_digit_text(a)[0]) == a);
    assert(hex_digit_value(hex_digit_text(b)[0]) == b);
}

/// The value of a lowercase hexadecimal digit.
spec fn hex_digit_value(c: char) -> u64 {
    if '0' <= c && c <= '9' {
        (c as u64 - '0' as u64) as u64
    } else {
        (c as u64 - 'a' as u64 + 10) as u64
    }
}

/// The last `k` digits of a value determine it modulo `16^k`.
pub proof fn lemma_hex_digits_determine(a: u64, b: u64, k: nat)
    requires
        hex_digits(a, k) == hex_digits(b, k),
    ensures
        (a as int) % vstd::arithmetic::power::pow(16, k) == (b as int) % vstd::arithmetic::power::pow(16, k),
    decreases k,
{
    reveal(vstd::arithmetic::power::pow);
    if k == 0 {
        assert((a as int) % 1 == 0 && (b as int) % 1 == 0);
    } else {
        let k1 = (k - 1) as nat;
        let p = vstd::arithmetic::power::pow(16, k1);
        lemma_hex_digits_len(a / 16, k1);
        lemma_hex_digits_len(b / 16, k1);
        let sa = hex_digits(a / 16, k1);
        let sb = hex_digits(b / 16, k1);
        let ta = hex_digit_text(a % 16);
        let tb = hex_digit_text(b % 16);
        assert(sa + ta == sb + tb);
        assert(sa =~= (sa + ta).take(k1 as int));
        assert(sb =~= (sb + tb).take(k1 as int));
        assert(ta =~= (sa + ta).skip(k1 as int));
        assert(tb =~= (sb + tb).skip(k1 as int));
        lemma_hex_digit_injective(a % 16, b % 16);
        lemma_hex_digits_determine(a / 16, b / 16, k1);
        vstd::arithmetic::power::lemma_pow_positive(16, k1);
        vstd::arithmetic::div_mod::lemma_breakdown(a as int, 16, p);
        vstd::arithmetic::div_mod::lemma_breakdown(b as int, 16, p);
        assert(vstd::arithmetic::power::pow(16, k) == 16 * p);
    }
}

/// The lowercase hexadecimal digit of `d`, a value below 16.
fn hex_digit(d: u64) -> (r: &'static str)
    ensures
        r@ == hex_digit_text(d),
{
    if d == 0 {
        "0"
    } else     if d == 1 {
        "1"
    } else     if d == 2 {
        "2"
    } else     if d == 3 {
        "3"
    } else     if d == 4 {
        "4"
    } else     if d == 5 {
        "5"
    } else     if d == 6 {
        "6"
    } else     if d == 7 {
        "7"
    } else     if d == 8 {
        "8"
    } else     if d == 9 {
        "9"
    } else     if d == 10 {
        "a"
    } else     if d == 11 {
        "b"
    } else     if d == 12 {
        "c"
    } else     if d == 13 {
        "d"
    } else     if d == 14 {
        "e"
    } else {
        "f"
    }
}

/// Appends the last `k` hexadecimal digits of `n` to `out`.
fn push_hex_digits(out: &mut String, n: u64, k: u32)
    ensures
        final(out)@ == old(out)@ + hex_digits(n, k as nat),
    decreases k,
{
    if k > 0 {
        push_hex_digits(out, n / 16, k - 1);
        out.append(hex_digit(n % 16));
    }
}

/// The correlation identifier of request number `counter`: `zbre-` and the
/// counter in 16 lowercase hexadecimal digits.
pub fn correlation_id(counter: u64) -> (r: String)
    ensures
        r@ == "zbre-"@ + hex_digits(counter, 16),
{
    let mut out = "zbre-".to_owned();
    push_hex_digits(&mut out, counter, 16);
    out
}

} // verus!
