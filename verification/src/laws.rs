//! Properties of the service that span several of its functions.

use vstd::prelude::*;
use crate::api::{hex_digits, lemma_hex_digits_determine, spec_plan_evaluation, spec_settled_registry, ReloadAttempt, RequestBody};
use crate::config::{spec_apply_args, spec_startup, spec_validate, ConfigView, EnvValueView, StartupView};
use crate::registry::Registry;
use crate::values::{HostAddr, InputTextView};

verus! {

/// A reload is transactional: unless its load produced a new registry, the
/// registry that was live stays live, so a ready service stays ready after a
/// refused reload; when the load succeeded, the new registry is live.
pub proof fn lemma_reload_is_transactional(current: Registry, attempt: ReloadAttempt)
    ensures
        !(attempt is Loaded) ==> spec_settled_registry(current, attempt) == current,
        !(attempt is Loaded) && current.ready() ==> spec_settled_registry(current, attempt).ready(),
        attempt matches ReloadAttempt::Loaded(reg) ==> spec_settled_registry(current, attempt) == reg,
{
}

/// A registry without compiled models, such as the one that stands for an
/// invalid workspace at startup, is never ready.
pub proof fn lemma_registry_without_models_not_ready(registry: Registry)
    requires
        !registry.has_engine(),
    ensures
        !registry.ready(),
{
}

/// A diagnostics list never grows past `MAX_DIAGNOSTICS`, whatever is
/// recorded.
pub proof fn lemma_diagnostics_stay_bounded(
    diags: Seq<crate::diagnostics::DiagnosticView>,
    decision_id: Option<Seq<char>>,
    code: Seq<char>,
)
    requires
        diags.len() <= crate::diagnostics::MAX_DIAGNOSTICS,
    ensures
        crate::diagnostics::spec_push_diagnostic(diags, decision_id, code).len()
            <= crate::diagnostics::MAX_DIAGNOSTICS,
{
}

/// An outcome that runs the service runs it with a valid configuration.
pub open spec fn runs_valid(r: Result<StartupView, crate::config::ConfigErrorView>) -> bool {
    r matches Ok(StartupView::Run(c)) ==> spec_validate(c) is None
}

/// However the arguments are applied, a configuration that runs validates.
proof fn lemma_applied_args_validate(c: ConfigView, explicit: bool, args: Seq<InputTextView>)
    ensures
        runs_valid(spec_apply_args(c, explicit, args)),
    decreases args.len(),
{
    if args.len() > 0 {
        let a = args[0].text;
        if a == "--service-root"@ {
            if args.len() >= 2 {
                let root = args[1].text;
                lemma_applied_args_validate(
                    ConfigView {
                        service_root: root,
                        state_dir: crate::config::join_path(root, ".state"@),
                        decisions_dir: if explicit {
                            c.decisions_dir
                        } else {
                            crate::config::join_path(root, "decisions"@)
                        },
                        ..c
                    },
                    explicit,
                    args.skip(2),
                );
            }
        } else if a == "--decisions-dir"@ {
            if args.len() >= 2 {
                lemma_applied_args_validate(
                    ConfigView { decisions_dir: args[1].text, ..c },
                    true,
                    args.skip(2),
                );
            }
        } else if a == "--allow-non-loopback"@ {
            lemma_applied_args_validate(
                ConfigView { allow_non_loopback: true, ..c },
                explicit,
                args.skip(1),
            );
        } else if a == "--help"@ || a == "-h"@ {
        } else if crate::config::valued_option(a) && args.len() >= 2 {
            match crate::config::set_option(c, a, args[1]) {
                Some(c2) => lemma_applied_args_validate(c2, explicit, args.skip(2)),
                None => {},
            }
        }
    }
}

/// Every configuration that the service starts with is consistent: a
/// non-loopback address only with the explicit option, every resource
/// limit positive, and the model byte limit within the total one.
pub proof fn lemma_started_config_is_valid(
    env: Seq<(Seq<char>, EnvValueView)>,
    cwd: Option<Seq<char>>,
    args: Seq<InputTextView>,
)
    ensures
        spec_startup(env, cwd, args) matches Ok(StartupView::Run(c)) ==> {
            &&& crate::values::spec_is_loopback(c.host) || c.allow_non_loopback
            &&& c.max_body_bytes > 0 && c.max_model_bytes > 0 && c.max_total_model_bytes > 0
            &&& c.max_models > 0 && c.max_concurrency > 0 && c.evaluation_timeout_ms > 0
            &&& c.max_depth > 0 && c.max_json_depth > 0
            &&& c.max_model_bytes <= c.max_total_model_bytes
        },
{
    match crate::config::spec_env_config(env, cwd) {
        Ok((c, explicit)) => {
            lemma_applied_args_validate(c, explicit, args);
        },
        Err(_) => {},
    }
}

/// An evaluation is only ever started for a well-formed decision
/// identifier, against a ready registry that holds it, with a context
/// within the nesting limit.
pub proof fn lemma_evaluation_targets_ready_registry(
    path: Seq<char>,
    body: RequestBody,
    max_json_depth: usize,
    registry: Registry,
)
    ensures
        spec_plan_evaluation(path, body, max_json_depth, registry) matches Ok((id, key)) ==> {
            &&& crate::ident::spec_valid_decision_id(id)
            &&& registry.ready()
            &&& registry.keys().contains_key(id) && registry.keys()[id] == key
            &&& body matches RequestBody::Json { depth } && depth <= max_json_depth
        },
{
}

/// Distinct request numbers get distinct correlation identifiers, so the
/// identifiers of the requests one process serves never repeat.
pub proof fn lemma_correlation_ids_are_distinct(a: u64, b: u64)
    requires
        a != b,
    ensures
        "zbre-"@ + hex_digits(a, 16) != "zbre-"@ + hex_digits(b, 16),
{
    let prefix = "zbre-"@;
    if prefix + hex_digits(a, 16) == prefix + hex_digits(b, 16) {
        assert(hex_digits(a, 16) =~= (prefix + hex_digits(a, 16)).skip(prefix.len() as int));
        assert(hex_digits(b, 16) =~= (prefix + hex_digits(b, 16)).skip(prefix.len() as int));
        lemma_hex_digits_determine(a, b, 16);
        assert(vstd::arithmetic::power::pow(16, 16) == 0x1_0000_0000_0000_0000int) by {
            reveal_with_fuel(vstd::arithmetic::power::pow, 17);
        }
        vstd::arithmetic::div_mod::lemma_small_mod(a as nat, 0x1_0000_0000_0000_0000nat);
        vstd::arithmetic::div_mod::lemma_small_mod(b as nat, 0x1_0000_0000_0000_0000nat);
    }
}

/// Every decision that a ready registry lists can be evaluated: a request
/// for a listed identifier (each is well-formed, as `decision_ids` states)
/// with a JSON context within the nesting limit is planned against that
/// decision's loader key.
pub proof fn lemma_listed_decisions_are_evaluable(
    registry: Registry,
    id: Seq<char>,
    depth: usize,
    max_json_depth: usize,
)
    requires
        registry.ready(),
        registry.keys().contains_key(id),
        crate::ident::spec_valid_decision_id(id),
        depth <= max_json_depth,
    ensures
        spec_plan_evaluation(id + "/evaluate"@, RequestBody::Json { depth }, max_json_depth, registry)
            == Ok::<(Seq<char>, Seq<char>), crate::api::ApiError>((id, registry.keys()[id])),
{
    let suffix = "/evaluate"@;
    let s = id + suffix;
    assert(s.skip(s.len() - suffix.len()) =~= suffix);
    assert(s.take(s.len() - suffix.len()) =~= id);
}

/// The diagnostics after recording each of `entries` in turn.
pub open spec fn push_all(
    diags: Seq<crate::diagnostics::DiagnosticView>,
    entries: Seq<crate::diagnostics::DiagnosticView>,
) -> Seq<crate::diagnostics::DiagnosticView>
    decreases entries.len(),
{
    if entries.len() == 0 {
        diags
    } else {
        push_all(
            crate::diagnostics::spec_push_diagnostic(diags, entries[0].decision_id, entries[0].code),
            entries.skip(1),
        )
    }
}

/// Recording diagnostics one after another keeps the first
/// `MAX_DIAGNOSTICS` of them, in order: earlier entries are never changed,
/// reordered or removed, and the length is the smaller of the maximum and
/// the number recorded.
pub proof fn lemma_recorded_diagnostics_keep_the_first(
    diags: Seq<crate::diagnostics::DiagnosticView>,
    entries: Seq<crate::diagnostics::DiagnosticView>,
)
    requires
        diags.len() <= crate::diagnostics::MAX_DIAGNOSTICS,
    ensures
        push_all(diags, entries) == (diags + entries).take(
            if diags.len() + entries.len() < crate::diagnostics::MAX_DIAGNOSTICS {
                (diags.len() + entries.len()) as int
            } else {
                crate::diagnostics::MAX_DIAGNOSTICS as int
            },
        ),
    decreases entries.len(),
{
    if entries.len() == 0 {
        assert((diags + entries).take(diags.len() as int) =~= diags);
    } else {
        let e = entries[0];
        let next = crate::diagnostics::spec_push_diagnostic(diags, e.decision_id, e.code);
        lemma_recorded_diagnostics_keep_the_first(next, entries.skip(1));
        let n = if diags.len() + entries.len() < crate::diagnostics::MAX_DIAGNOSTICS {
            (diags.len() + entries.len()) as int
        } else {
            crate::diagnostics::MAX_DIAGNOSTICS as int
        };
        if diags.len() < crate::diagnostics::MAX_DIAGNOSTICS {
            assert(e == crate::diagnostics::DiagnosticView { decision_id: e.decision_id, code: e.code });
            assert(next + entries.skip(1) =~= diags + entries);
        } else {
            assert(next == diags);
            assert((diags + entries.skip(1)).take(n) =~= (diags + entries).take(n));
        }
    }
}

/// Whether option `a` takes the next argument as its value.
pub open spec fn takes_value(a: Seq<char>) -> bool {
    a == "--service-root"@ || a == "--decisions-dir"@ || crate::config::valued_option(a)
}

/// The value that the last occurrence of option `name` in `args` gives it,
/// reading the arguments as the service does (an option that takes a value
/// takes the next argument).
pub open spec fn last_value(args: Seq<InputTextView>, name: Seq<char>) -> Option<InputTextView>
    decreases args.len(),
{
    if args.len() == 0 {
        None
    } else if takes_value(args[0].text) && args.len() >= 2 {
        match last_value(args.skip(2), name) {
            Some(t) => Some(t),
            None => if args[0].text == name {
                Some(args[1])
            } else {
                None
            },
        }
    } else {
        last_value(args.skip(1), name)
    }
}

/// Whether flag `name` stands among `args`, read as the service reads them.
pub open spec fn flag_given(args: Seq<InputTextView>, name: Seq<char>) -> bool
    decreases args.len(),
{
    if args.len() == 0 {
        false
    } else if takes_value(args[0].text) && args.len() >= 2 {
        flag_given(args.skip(2), name)
    } else {
        args[0].text == name || flag_given(args.skip(1), name)
    }
}

/// The value of a typed option: what its last occurrence reads as, else
/// `fallback`.
pub open spec fn chosen<T: crate::values::TextValue>(args: Seq<InputTextView>, name: Seq<char>, fallback: T) -> T {
    match last_value(args, name) {
        Some(t) => match T::spec_read(t) {
            Some(v) => v,
            None => fallback,
        },
        None => fallback,
    }
}

/// The configuration `r` that applying `args` to `c` runs with follows the
/// precedence of the command line over what `c` holds (and every typed
/// option given reads as a value of its type).
pub open spec fn follows(c: ConfigView, explicit: bool, args: Seq<InputTextView>, r: ConfigView) -> bool {
    &&& r.host == chosen(args, "--host"@, c.host)
    &&& r.port == chosen(args, "--port"@, c.port)
    &&& r.max_body_bytes == chosen(args, "--max-body-bytes"@, c.max_body_bytes)
    &&& r.max_model_bytes == chosen(args, "--max-model-bytes"@, c.max_model_bytes)
    &&& r.max_total_model_bytes == chosen(args, "--max-total-model-bytes"@, c.max_total_model_bytes)
    &&& r.max_models == chosen(args, "--max-models"@, c.max_models)
    &&& r.max_concurrency == chosen(args, "--max-concurrency"@, c.max_concurrency)
    &&& r.evaluation_timeout_ms == chosen(args, "--evaluation-timeout-ms"@, c.evaluation_timeout_ms)
    &&& r.max_depth == chosen(args, "--max-depth"@, c.max_depth)
    &&& r.max_json_depth == chosen(args, "--max-json-depth"@, c.max_json_depth)
    &&& last_value(args, "--host"@) matches Some(t) ==> <HostAddr as crate::values::TextValue>::spec_read(t) is Some
    &&& last_value(args, "--port"@) matches Some(t) ==> <u16 as crate::values::TextValue>::spec_read(t) is Some
    &&& last_value(args, "--max-body-bytes"@) matches Some(t) ==> <usize as crate::values::TextValue>::spec_read(t) is Some
    &&& last_value(args, "--max-model-bytes"@) matches Some(t) ==> <u64 as crate::values::TextValue>::spec_read(t) is Some
    &&& last_value(args, "--max-total-model-bytes"@) matches Some(t) ==> <u64 as crate::values::TextValue>::spec_read(t) is Some
    &&& last_value(args, "--max-models"@) matches Some(t) ==> <usize as crate::values::TextValue>::spec_read(t) is Some
    &&& last_value(args, "--max-concurrency"@) matches Some(t) ==> <usize as crate::values::TextValue>::spec_read(t) is Some
    &&& last_value(args, "--evaluation-timeout-ms"@) matches Some(t) ==> <u64 as crate::values::TextValue>::spec_read(t) is Some
    &&& last_value(args, "--max-depth"@) matches Some(t) ==> <u8 as crate::values::TextValue>::spec_read(t) is Some
    &&& last_value(args, "--max-json-depth"@) matches Some(t) ==> <usize as crate::values::TextValue>::spec_read(t) is Some
    &&& r.allow_non_loopback == (flag_given(args, "--allow-non-loopback"@) || c.allow_non_loopback)
    &&& r.service_root == match last_value(args, "--service-root"@) {
        Some(t) => t.text,
        None => c.service_root,
    }
    &&& r.state_dir == crate::config::join_path(r.service_root, ".state"@)
    &&& r.decisions_dir == match last_value(args, "--decisions-dir"@) {
        Some(t) => t.text,
        None => if explicit {
            c.decisions_dir
        } else {
            crate::config::join_path(r.service_root, "decisions"@)
        },
    }
}

/// The option names are different texts.
proof fn lemma_option_names_differ()
    ensures
        "--service-root"@ != "--decisions-dir"@,
        "--service-root"@ != "--allow-non-loopback"@,
        "--service-root"@ != "--help"@,
        "--service-root"@ != "-h"@,
        "--service-root"@ != "--host"@,
        "--service-root"@ != "--port"@,
        "--service-root"@ != "--max-body-bytes"@,
        "--service-root"@ != "--max-model-bytes"@,
        "--service-root"@ != "--max-total-model-bytes"@,
        "--service-root"@ != "--max-models"@,
        "--service-root"@ != "--max-concurrency"@,
        "--service-root"@ != "--evaluation-timeout-ms"@,
        "--service-root"@ != "--max-depth"@,
        "--service-root"@ != "--max-json-depth"@,
        "--decisions-dir"@ != "--allow-non-loopback"@,
        "--decisions-dir"@ != "--help"@,
        "--decisions-dir"@ != "-h"@,
        "--decisions-dir"@ != "--host"@,
        "--decisions-dir"@ != "--port"@,
        "--decisions-dir"@ != "--max-body-bytes"@,
        "--decisions-dir"@ != "--max-model-bytes"@,
        "--decisions-dir"@ != "--max-total-model-bytes"@,
        "--decisions-dir"@ != "--max-models"@,
        "--decisions-dir"@ != "--max-concurrency"@,
        "--decisions-dir"@ != "--evaluation-timeout-ms"@,
        "--decisions-dir"@ != "--max-depth"@,
        "--decisions-dir"@ != "--max-json-depth"@,
        "--allow-non-loopback"@ != "--help"@,
        "--allow-non-loopback"@ != "-h"@,
        "--allow-non-loopback"@ != "--host"@,
        "--allow-non-loopback"@ != "--port"@,
        "--allow-non-loopback"@ != "--max-body-bytes"@,
        "--allow-non-loopback"@ != "--max-model-bytes"@,
        "--allow-non-loopback"@ != "--max-total-model-bytes"@,
        "--allow-non-loopback"@ != "--max-models"@,
        "--allow-non-loopback"@ != "--max-concurrency"@,
        "--allow-non-loopback"@ != "--evaluation-timeout-ms"@,
        "--allow-non-loopback"@ != "--max-depth"@,
        "--allow-non-loopback"@ != "--max-json-depth"@,
        "--help"@ != "-h"@,
        "--help"@ != "--host"@,
        "--help"@ != "--port"@,
        "--help"@ != "--max-body-bytes"@,
        "--help"@ != "--max-model-bytes"@,
        "--help"@ != "--max-total-model-bytes"@,
        "--help"@ != "--max-models"@,
        "--help"@ != "--max-concurrency"@,
        "--help"@ != "--evaluation-timeout-ms"@,
        "--help"@ != "--max-depth"@,
        "--help"@ != "--max-json-depth"@,
        "-h"@ != "--host"@,
        "-h"@ != "--port"@,
        "-h"@ != "--max-body-bytes"@,
        "-h"@ != "--max-model-bytes"@,
        "-h"@ != "--max-total-model-bytes"@,
        "-h"@ != "--max-models"@,
        "-h"@ != "--max-concurrency"@,
        "-h"@ != "--evaluation-timeout-ms"@,
        "-h"@ != "--max-depth"@,
        "-h"@ != "--max-json-depth"@,
        "--host"@ != "--port"@,
        "--host"@ != "--max-body-bytes"@,
        "--host"@ != "--max-model-bytes"@,
        "--host"@ != "--max-total-model-bytes"@,
        "--host"@ != "--max-models"@,
        "--host"@ != "--max-concurrency"@,
        "--host"@ != "--evaluation-timeout-ms"@,
        "--host"@ != "--max-depth"@,
        "--host"@ != "--max-json-depth"@,
        "--port"@ != "--max-body-bytes"@,
        "--port"@ != "--max-model-bytes"@,
        "--port"@ != "--max-total-model-bytes"@,
        "--port"@ != "--max-models"@,
        "--port"@ != "--max-concurrency"@,
        "--port"@ != "--evaluation-timeout-ms"@,
        "--port"@ != "--max-depth"@,
        "--port"@ != "--max-json-depth"@,
        "--max-body-bytes"@ != "--max-model-bytes"@,
        "--max-body-bytes"@ != "--max-total-model-bytes"@,
        "--max-body-bytes"@ != "--max-models"@,
        "--max-body-bytes"@ != "--max-concurrency"@,
        "--max-body-bytes"@ != "--evaluation-timeout-ms"@,
        "--max-body-bytes"@ != "--max-depth"@,
        "--max-body-bytes"@ != "--max-json-depth"@,
        "--max-model-bytes"@ != "--max-total-model-bytes"@,
        "--max-model-bytes"@ != "--max-models"@,
        "--max-model-bytes"@ != "--max-concurrency"@,
        "--max-model-bytes"@ != "--evaluation-timeout-ms"@,
        "--max-model-bytes"@ != "--max-depth"@,
        "--max-model-bytes"@ != "--max-json-depth"@,
        "--max-total-model-bytes"@ != "--max-models"@,
        "--max-total-model-bytes"@ != "--max-concurrency"@,
        "--max-total-model-bytes"@ != "--evaluation-timeout-ms"@,
        "--max-total-model-bytes"@ != "--max-depth"@,
        "--max-total-model-bytes"@ != "--max-json-depth"@,
        "--max-models"@ != "--max-concurrency"@,
        "--max-models"@ != "--evaluation-timeout-ms"@,
        "--max-models"@ != "--max-depth"@,
        "--max-models"@ != "--max-json-depth"@,
        "--max-concurrency"@ != "--evaluation-timeout-ms"@,
        "--max-concurrency"@ != "--max-depth"@,
        "--max-concurrency"@ != "--max-json-depth"@,
        "--evaluation-timeout-ms"@ != "--max-depth"@,
        "--evaluation-timeout-ms"@ != "--max-json-depth"@,
        "--max-depth"@ != "--max-json-depth"@,
{
    reveal_strlit("--service-root");
    reveal_strlit("--decisions-dir");
    reveal_strlit("--allow-non-loopback");
    reveal_strlit("--help");
    reveal_strlit("-h");
    reveal_strlit("--host");
    reveal_strlit("--port");
    reveal_strlit("--max-body-bytes");
    reveal_strlit("--max-model-bytes");
    reveal_strlit("--max-total-model-bytes");
    reveal_strlit("--max-models");
    reveal_strlit("--max-concurrency");
    reveal_strlit("--evaluation-timeout-ms");
    reveal_strlit("--max-depth");
    reveal_strlit("--max-json-depth");
    assert("--service-root"@.len() != "--decisions-dir"@.len());
    assert("--service-root"@.len() != "--allow-non-loopback"@.len());
    assert("--service-root"@.len() != "--help"@.len());
    assert("--service-root"@.len() != "-h"@.len());
    assert("--service-root"@.len() != "--host"@.len());
    assert("--service-root"@.len() != "--port"@.len());
    assert("--service-root"@.len() != "--max-body-bytes"@.len());
    assert("--service-root"@.len() != "--max-model-bytes"@.len());
    assert("--service-root"@.len() != "--max-total-model-bytes"@.len());
    assert("--service-root"@.len() != "--max-models"@.len());
    assert("--service-root"@.len() != "--max-concurrency"@.len());
    assert("--service-root"@.len() != "--evaluation-timeout-ms"@.len());
    assert("--service-root"@.len() != "--max-depth"@.len());
    assert("--service-root"@.len() != "--max-json-depth"@.len());
    assert("--decisions-dir"@.len() != "--allow-non-loopback"@.len());
    assert("--decisions-dir"@.len() != "--help"@.len());
    assert("--decisions-dir"@.len() != "-h"@.len());
    assert("--decisions-dir"@.len() != "--host"@.len());
    assert("--decisions-dir"@.len() != "--port"@.len());
    assert("--decisions-dir"@.len() != "--max-body-bytes"@.len());
    assert("--decisions-dir"@.len() != "--max-model-bytes"@.len());
    assert("--decisions-dir"@.len() != "--max-total-model-bytes"@.len());
    assert("--decisions-dir"@.len() != "--max-models"@.len());
    assert("--decisions-dir"@.len() != "--max-concurrency"@.len());
    assert("--decisions-dir"@.len() != "--evaluation-timeout-ms"@.len());
    assert("--decisions-dir"@.len() != "--max-depth"@.len());
    assert("--decisions-dir"@.len() != "--max-json-depth"@.len());
    assert("--allow-non-loopback"@.len() != "--help"@.len());
    assert("--allow-non-loopback"@.len() != "-h"@.len());
    assert("--allow-non-loopback"@.len() != "--host"@.len());
    assert("--allow-non-loopback"@.len() != "--port"@.len());
    assert("--allow-non-loopback"@.len() != "--max-body-bytes"@.len());
    assert("--allow-non-loopback"@.len() != "--max-model-bytes"@.len());
    assert("--allow-non-loopback"@.len() != "--max-total-model-bytes"@.len());
    assert("--allow-non-loopback"@.len() != "--max-models"@.len());
    assert("--allow-non-loopback"@.len() != "--max-concurrency"@.len());
    assert("--allow-non-loopback"@.len() != "--evaluation-timeout-ms"@.len());
    assert("--allow-non-loopback"@.len() != "--max-depth"@.len());
    assert("--allow-non-loopback"@.len() != "--max-json-depth"@.len());
    assert("--help"@.len() != "-h"@.len());
    assert("--help"@.len() != "--max-body-bytes"@.len());
    assert("--help"@.len() != "--max-model-bytes"@.len());
    assert("--help"@.len() != "--max-total-model-bytes"@.len());
    assert("--help"@.len() != "--max-models"@.len());
    assert("--help"@.len() != "--max-concurrency"@.len());
    assert("--help"@.len() != "--evaluation-timeout-ms"@.len());
    assert("--help"@.len() != "--max-depth"@.len());
    assert("--help"@.len() != "--max-json-depth"@.len());
    assert("-h"@.len() != "--host"@.len());
    assert("-h"@.len() != "--port"@.len());
    assert("-h"@.len() != "--max-body-bytes"@.len());
    assert("-h"@.len() != "--max-model-bytes"@.len());
    assert("-h"@.len() != "--max-total-model-bytes"@.len());
    assert("-h"@.len() != "--max-models"@.len());
    assert("-h"@.len() != "--max-concurrency"@.len());
    assert("-h"@.len() != "--evaluation-timeout-ms"@.len());
    assert("-h"@.len() != "--max-depth"@.len());
    assert("-h"@.len() != "--max-json-depth"@.len());
    assert("--host"@.len() != "--max-body-bytes"@.len());
    assert("--host"@.len() != "--max-model-bytes"@.len());
    assert("--host"@.len() != "--max-total-model-bytes"@.len());
    assert("--host"@.len() != "--max-models"@.len());
    assert("--host"@.len() != "--max-concurrency"@.len());
    assert("--host"@.len() != "--evaluation-timeout-ms"@.len());
    assert("--host"@.len() != "--max-depth"@.len());
    assert("--host"@.len() != "--max-json-depth"@.len());
    assert("--port"@.len() != "--max-body-bytes"@.len());
    assert("--port"@.len() != "--max-model-bytes"@.len());
    assert("--port"@.len() != "--max-total-model-bytes"@.len());
    assert("--port"@.len() != "--max-models"@.len());
    assert("--port"@.len() != "--max-concurrency"@.len());
    assert("--port"@.len() != "--evaluation-timeout-ms"@.len());
    assert("--port"@.len() != "--max-depth"@.len());
    assert("--port"@.len() != "--max-json-depth"@.len());
    assert("--max-body-bytes"@.len() != "--max-model-bytes"@.len());
    assert("--max-body-bytes"@.len() != "--max-total-model-bytes"@.len());
    assert("--max-body-bytes"@.len() != "--max-models"@.len());
    assert("--max-body-bytes"@.len() != "--max-concurrency"@.len());
    assert("--max-body-bytes"@.len() != "--evaluation-timeout-ms"@.len());
    assert("--max-body-bytes"@.len() != "--max-depth"@.len());
    assert("--max-model-bytes"@.len() != "--max-total-model-bytes"@.len());
    assert("--max-model-bytes"@.len() != "--max-models"@.len());
    assert("--max-model-bytes"@.len() != "--evaluation-timeout-ms"@.len());
    assert("--max-model-bytes"@.len() != "--max-depth"@.len());
    assert("--max-model-bytes"@.len() != "--max-json-depth"@.len());
    assert("--max-total-model-bytes"@.len() != "--max-models"@.len());
    assert("--max-total-model-bytes"@.len() != "--max-concurrency"@.len());
    assert("--max-total-model-bytes"@.len() != "--max-depth"@.len());
    assert("--max-total-model-bytes"@.len() != "--max-json-depth"@.len());
    assert("--max-models"@.len() != "--max-concurrency"@.len());
    assert("--max-models"@.len() != "--evaluation-timeout-ms"@.len());
    assert("--max-models"@.len() != "--max-depth"@.len());
    assert("--max-models"@.len() != "--max-json-depth"@.len());
    assert("--max-concurrency"@.len() != "--evaluation-timeout-ms"@.len());
    assert("--max-concurrency"@.len() != "--max-depth"@.len());
    assert("--max-concurrency"@.len() != "--max-json-depth"@.len());
    assert("--evaluation-timeout-ms"@.len() != "--max-depth"@.len());
    assert("--evaluation-timeout-ms"@.len() != "--max-json-depth"@.len());
    assert("--max-depth"@.len() != "--max-json-depth"@.len());
    assert("--help"@[3] != "--host"@[3]);
    assert("--help"@[2] != "--port"@[2]);
    assert("--host"@[2] != "--port"@[2]);
    assert("--max-body-bytes"@[6] != "--max-json-depth"@[6]);
    assert("--max-model-bytes"@[6] != "--max-concurrency"@[6]);
    assert("--max-total-model-bytes"@[2] != "--evaluation-timeout-ms"@[2]);
}

/// Applying the arguments follows the command line's precedence.
proof fn lemma_applied_args_follow(c: ConfigView, explicit: bool, args: Seq<InputTextView>)
    requires
        c.state_dir == crate::config::join_path(c.service_root, ".state"@),
        !explicit ==> c.decisions_dir == crate::config::join_path(c.service_root, "decisions"@),
    ensures
        spec_apply_args(c, explicit, args) matches Ok(StartupView::Run(r)) ==> follows(c, explicit, args, r),
    decreases args.len(),
{
    lemma_option_names_differ();
    if args.len() > 0 {
        let a = args[0].text;
        if a == "--service-root"@ {
            if args.len() >= 2 {
                let root = args[1].text;
                let c1 = ConfigView {
                    service_root: root,
                    state_dir: crate::config::join_path(root, ".state"@),
                    decisions_dir: if explicit {
                        c.decisions_dir
                    } else {
                        crate::config::join_path(root, "decisions"@)
                    },
                    ..c
                };
                lemma_applied_args_follow(c1, explicit, args.skip(2));
            }
        } else if a == "--decisions-dir"@ {
            if args.len() >= 2 {
                lemma_applied_args_follow(ConfigView { decisions_dir: args[1].text, ..c }, true, args.skip(2));
            }
        } else if a == "--allow-non-loopback"@ {
            lemma_applied_args_follow(ConfigView { allow_non_loopback: true, ..c }, explicit, args.skip(1));
        } else if a == "--host"@ {
            if args.len() >= 2 {
                match <HostAddr as crate::values::TextValue>::spec_read(args[1]) {
                    Some(v) => {
                        assert(crate::config::set_option(c, a, args[1]) == Some(ConfigView { host: v, ..c }));
                        lemma_applied_args_follow(ConfigView { host: v, ..c }, explicit, args.skip(2));
                    },
                    None => {},
                }
            }
        } else if a == "--port"@ {
            if args.len() >= 2 {
                match <u16 as crate::values::TextValue>::spec_read(args[1]) {
                    Some(v) => {
                        assert(crate::config::set_option(c, a, args[1]) == Some(ConfigView { port: v, ..c }));
                        lemma_applied_args_follow(ConfigView { port: v, ..c }, explicit, args.skip(2));
                    },
                    None => {},
                }
            }
        } else if a == "--max-body-bytes"@ {
            if args.len() >= 2 {
                match <usize as crate::values::TextValue>::spec_read(args[1]) {
                    Some(v) => {
                        assert(crate::config::set_option(c, a, args[1]) == Some(ConfigView { max_body_bytes: v, ..c }));
                        lemma_applied_args_follow(ConfigView { max_body_bytes: v, ..c }, explicit, args.skip(2));
                    },
                    None => {},
                }
            }
        } else if a == "--max-model-bytes"@ {
            if args.len() >= 2 {
                match <u64 as crate::values::TextValue>::spec_read(args[1]) {
                    Some(v) => {
                        assert(crate::config::set_option(c, a, args[1]) == Some(ConfigView { max_model_bytes: v, ..c }));
                        lemma_applied_args_follow(ConfigView { max_model_bytes: v, ..c }, explicit, args.skip(2));
                    },
                    None => {},
                }
            }
        } else if a == "--max-total-model-bytes"@ {
            if args.len() >= 2 {
                match <u64 as crate::values::TextValue>::spec_read(args[1]) {
                    Some(v) => {
                        assert(crate::config::set_option(c, a, args[1]) == Some(ConfigView { max_total_model_bytes: v, ..c }));
                        lemma_applied_args_follow(ConfigView { max_total_model_bytes: v, ..c }, explicit, args.skip(2));
                    },
                    None => {},
                }
            }
        } else if a == "--max-models"@ {
            if args.len() >= 2 {
                match <usize as crate::values::TextValue>::spec_read(args[1]) {
                    Some(v) => {
                        assert(crate::config::set_option(c, a, args[1]) == Some(ConfigView { max_models: v, ..c }));
                        lemma_applied_args_follow(ConfigView { max_models: v, ..c }, explicit, args.skip(2));
                    },
                    None => {},
                }
            }
        } else if a == "--max-concurrency"@ {
            if args.len() >= 2 {
                match <usize as crate::values::TextValue>::spec_read(args[1]) {
                    Some(v) => {
                        assert(crate::config::set_option(c, a, args[1]) == Some(ConfigView { max_concurrency: v, ..c }));
                        lemma_applied_args_follow(ConfigView { max_concurrency: v, ..c }, explicit, args.skip(2));
                    },
                    None => {},
                }
            }
        } else if a == "--evaluation-timeout-ms"@ {
            if args.len() >= 2 {
                match <u64 as crate::values::TextValue>::spec_read(args[1]) {
                    Some(v) => {
                        assert(crate::config::set_option(c, a, args[1]) == Some(ConfigView { evaluation_timeout_ms: v, ..c }));
                        lemma_applied_args_follow(ConfigView { evaluation_timeout_ms: v, ..c }, explicit, args.skip(2));
                    },
                    None => {},
                }
            }
        } else if a == "--max-depth"@ {
            if args.len() >= 2 {
                match <u8 as crate::values::TextValue>::spec_read(args[1]) {
                    Some(v) => {
                        assert(crate::config::set_option(c, a, args[1]) == Some(ConfigView { max_depth: v, ..c }));
                        lemma_applied_args_follow(ConfigView { max_depth: v, ..c }, explicit, args.skip(2));
                    },
                    None => {},
                }
            }
        } else if a == "--max-json-depth"@ {
            if args.len() >= 2 {
                match <usize as crate::values::TextValue>::spec_read(args[1]) {
                    Some(v) => {
                        assert(crate::config::set_option(c, a, args[1]) == Some(ConfigView { max_json_depth: v, ..c }));
                        lemma_applied_args_follow(ConfigView { max_json_depth: v, ..c }, explicit, args.skip(2));
                    },
                    None => {},
                }
            }
        }
    }
}

/// Each setting is taken from the last command-line option that gives
/// it, else from its environment variable, else from its default; the
/// service root defaults to the working directory, the state directory is
/// `.state` under the service root, and the decisions directory is the
/// option, else `ZEN_BRE_DECISIONS_DIR`, else `decisions` under the service
/// root. A non-loopback address is allowed only by the command-line flag.
pub proof fn lemma_configuration_precedence(
    env: Seq<(Seq<char>, EnvValueView)>,
    cwd: Option<Seq<char>>,
    args: Seq<InputTextView>,
)
    ensures
        spec_startup(env, cwd, args) matches Ok(StartupView::Run(c)) ==> {
            &&& c.host == chosen(args, "--host"@, crate::config::spec_parse_env(env, "ZEN_BRE_HOST"@, HostAddr::V4([127u8, 0, 0, 1]))->Ok_0)
            &&& c.port == chosen(args, "--port"@, crate::config::spec_parse_env(env, "ZEN_BRE_PORT"@, crate::config::DEFAULT_PORT)->Ok_0)
            &&& c.max_body_bytes == chosen(args, "--max-body-bytes"@, crate::config::spec_parse_env(env, "ZEN_BRE_MAX_BODY_BYTES"@, crate::config::DEFAULT_MAX_BODY_BYTES)->Ok_0)
            &&& c.max_model_bytes == chosen(args, "--max-model-bytes"@, crate::config::spec_parse_env(env, "ZEN_BRE_MAX_MODEL_BYTES"@, crate::config::DEFAULT_MAX_MODEL_BYTES)->Ok_0)
            &&& c.max_total_model_bytes == chosen(args, "--max-total-model-bytes"@, crate::config::spec_parse_env(env, "ZEN_BRE_MAX_TOTAL_MODEL_BYTES"@, crate::config::DEFAULT_MAX_TOTAL_MODEL_BYTES)->Ok_0)
            &&& c.max_models == chosen(args, "--max-models"@, crate::config::spec_parse_env(env, "ZEN_BRE_MAX_MODELS"@, crate::config::DEFAULT_MAX_MODELS)->Ok_0)
            &&& c.max_concurrency == chosen(args, "--max-concurrency"@, crate::config::spec_parse_env(env, "ZEN_BRE_MAX_CONCURRENCY"@, crate::config::DEFAULT_MAX_CONCURRENCY)->Ok_0)
            &&& c.evaluation_timeout_ms == chosen(args, "--evaluation-timeout-ms"@, crate::config::spec_parse_env(env, "ZEN_BRE_EVALUATION_TIMEOUT_MS"@, crate::config::DEFAULT_EVALUATION_TIMEOUT_MS)->Ok_0)
            &&& c.max_depth == chosen(args, "--max-depth"@, crate::config::spec_parse_env(env, "ZEN_BRE_MAX_DEPTH"@, crate::config::DEFAULT_MAX_DEPTH)->Ok_0)
            &&& c.max_json_depth == chosen(args, "--max-json-depth"@, crate::config::spec_parse_env(env, "ZEN_BRE_MAX_JSON_DEPTH"@, crate::config::DEFAULT_MAX_JSON_DEPTH)->Ok_0)
            &&& c.allow_non_loopback == flag_given(args, "--allow-non-loopback"@)
            &&& c.service_root == match last_value(args, "--service-root"@) {
                Some(t) => t.text,
                None => match crate::config::spec_env_path(env, "SERVICE_ROOT"@) {
                    Ok(Some(root)) => root,
                    _ => cwd->0,
                },
            }
            &&& c.state_dir == crate::config::join_path(c.service_root, ".state"@)
            &&& c.decisions_dir == match last_value(args, "--decisions-dir"@) {
                Some(t) => t.text,
                None => match crate::config::spec_env_path(env, "ZEN_BRE_DECISIONS_DIR"@) {
                    Ok(Some(d)) => d,
                    _ => crate::config::join_path(c.service_root, "decisions"@),
                },
            }
        },
{
    match crate::config::spec_env_config(env, cwd) {
        Ok((c0, explicit)) => {
            lemma_applied_args_follow(c0, explicit, args);
        },
        Err(_) => {},
    }
}

/// ASCII letters and digits, `-`, `_` and `.`: the characters an identifier
/// is written in.
pub open spec fn ascii_identifier_char(c: char) -> bool {
    ('a' <= c && c <= 'z') || ('A' <= c && c <= 'Z') || ('0' <= c && c <= '9') || c == '-' || c
        == '_' || c == '.'
}

/// A one-character segment is valid exactly when the character is an ASCII
/// letter or digit, `-` or `_`: every digit `0` to `9` and every letter
/// counts, `.` alone does not, and nothing else does.
pub proof fn lemma_one_character_segments(c: char)
    ensures
        crate::ident::spec_valid_id_segment(seq![c]) <==> (ascii_identifier_char(c) && c != '.'),
{
    let s = seq![c];
    if crate::ident::has_double_dot(s) {
        let i = choose|i: int| 0 <= i && i + 1 < s.len() && s[i] == '.' && #[trigger] s[i + 1] == '.';
        assert(false);
    }
    assert(s.len() == 1 && s[0] == c);
    if !ascii_identifier_char(c) {
        assert(!crate::ident::id_char(s[0]));
    }
    if c == '.' {
        assert(s =~= seq!['.']);
    }
    if ascii_identifier_char(c) && c != '.' {
        assert forall|i: int| 0 <= i < s.len() implies #[trigger] crate::ident::id_char(s[i]) by {
            assert(i == 0);
        }
        if s == seq!['.'] {
            assert(s[0] == '.');
        }
    }
}

/// A segment is valid exactly when it is non-empty, is not `.`, holds no
/// two consecutive dots, and is written only in ASCII letters, digits, `-`,
/// `_` and `.`.
pub proof fn lemma_segments_of_identifier_characters(s: Seq<char>)
    ensures
        crate::ident::spec_valid_id_segment(s) <==> {
            &&& s.len() > 0
            &&& s != seq!['.']
            &&& forall|i: int| 0 <= i < s.len() ==> ascii_identifier_char(#[trigger] s[i])
            &&& forall|i: int| 0 <= i < s.len() - 1 ==> !(#[trigger] s[i] == '.' && s[i + 1] == '.')
        },
{
    if crate::ident::spec_valid_id_segment(s) {
        assert forall|i: int| 0 <= i < s.len() implies ascii_identifier_char(#[trigger] s[i]) by {
            assert(crate::ident::id_char(s[i]));
        }
        assert forall|i: int| 0 <= i < s.len() - 1 implies !(#[trigger] s[i] == '.' && s[i + 1]
            == '.') by {
            if s[i] == '.' && s[i + 1] == '.' {
                assert(crate::ident::has_double_dot(s));
            }
        }
    }
    if s.len() > 0 && s != seq!['.'] && (forall|i: int|
        0 <= i < s.len() ==> ascii_identifier_char(#[trigger] s[i])) && (forall|i: int|
        0 <= i < s.len() - 1 ==> !(#[trigger] s[i] == '.' && s[i + 1] == '.')) {
        assert forall|i: int| 0 <= i < s.len() implies #[trigger] crate::ident::id_char(s[i]) by {
            assert(ascii_identifier_char(s[i]));
        }
        if crate::ident::has_double_dot(s) {
            let i = choose|i: int| 0 <= i && i + 1 < s.len() && s[i] == '.' && #[trigger] s[i + 1] == '.';
            assert(!(s[i] == '.' && s[i + 1] == '.'));
        }
    }
}

/// An identifier without `/` is valid exactly when it is a valid segment,
/// so such a name (`tax-2019`, `v1.2`) is accepted by the evaluate
/// endpoint whenever its characters are.
pub proof fn lemma_single_segment_identifiers(s: Seq<char>)
    requires
        forall|i: int| 0 <= i < s.len() ==> #[trigger] s[i] != '/',
    ensures
        crate::ident::spec_valid_decision_id(s) <==> crate::ident::spec_valid_id_segment(s),
{
    assert(crate::paths::slash_free(s));
    crate::paths::lemma_split_slash_free(s);
    let parts = crate::ident::split_slash(s);
    assert(parts.len() == 1 && parts[0] == s);
    if crate::ident::spec_valid_id_segment(s) {
        assert forall|i: int| 0 <= i < parts.len() implies #[trigger] crate::ident::spec_valid_id_segment(
            parts[i],
        ) by {
            assert(i == 0);
        }
    }
    if crate::ident::spec_valid_decision_id(s) {
        assert(crate::ident::spec_valid_id_segment(parts[0]));
    }
}

/// `--host V` is an option of the service: started with it alone, the
/// service runs with `host` set to what `V` reads as, everything else as the
/// environment gives it, when that configuration is valid; a value that
/// does not read is refused as an invalid value of `--host`, never as an
/// unsupported argument.
pub proof fn lemma_option_sets_host(
    env: Seq<(Seq<char>, EnvValueView)>,
    cwd: Option<Seq<char>>,
    flag: InputTextView,
    value: InputTextView,
)
    requires
        flag.text == "--host"@,
    ensures
        match crate::config::spec_env_config(env, cwd) {
            Ok((c0, _)) => match <HostAddr as crate::values::TextValue>::spec_read(value) {
                Some(v) => spec_validate(ConfigView { host: v, ..c0 }) is None ==> spec_startup(
                    env,
                    cwd,
                    seq![flag, value],
                ) == Ok::<StartupView, crate::config::ConfigErrorView>(
                    StartupView::Run(ConfigView { host: v, ..c0 }),
                ),
                None => spec_startup(env, cwd, seq![flag, value]) == Err::<
                    StartupView,
                    crate::config::ConfigErrorView,
                >(crate::config::ConfigErrorView::InvalidValue { name: "--host"@ }),
            },
            Err(e) => spec_startup(env, cwd, seq![flag, value]) == Err::<
                StartupView,
                crate::config::ConfigErrorView,
            >(e),
        },
{
    lemma_option_names_differ();
    let args = seq![flag, value];
    assert(args.skip(2) =~= Seq::<InputTextView>::empty());
    assert(args[0].text == "--host"@ && args[1] == value);
    assert(crate::config::valued_option("--host"@));
    match crate::config::spec_env_config(env, cwd) {
        Ok((c0, explicit)) => {
            match <HostAddr as crate::values::TextValue>::spec_read(value) {
                Some(v) => {
                    let c2 = ConfigView { host: v, ..c0 };
                    assert(crate::config::set_option(c0, "--host"@, value) == Some(c2));
                    assert(spec_apply_args(c0, explicit, args) == spec_apply_args(
                        c2,
                        explicit,
                        args.skip(2),
                    ));
                },
                None => {
                    assert(crate::config::set_option(c0, "--host"@, value) is None);
                },
            }
        },
        Err(_) => {},
    }
}

/// `--port V` is an option of the service: started with it alone, the
/// service runs with `port` set to what `V` reads as, everything else as the
/// environment gives it, when that configuration is valid; a value that
/// does not read is refused as an invalid value of `--port`, never as an
/// unsupported argument.
pub proof fn lemma_option_sets_port(
    env: Seq<(Seq<char>, EnvValueView)>,
    cwd: Option<Seq<char>>,
    flag: InputTextView,
    value: InputTextView,
)
    requires
        flag.text == "--port"@,
    ensures
        match crate::config::spec_env_config(env, cwd) {
            Ok((c0, _)) => match <u16 as crate::values::TextValue>::spec_read(value) {
                Some(v) => spec_validate(ConfigView { port: v, ..c0 }) is None ==> spec_startup(
                    env,
                    cwd,
                    seq![flag, value],
                ) == Ok::<StartupView, crate::config::ConfigErrorView>(
                    StartupView::Run(ConfigView { port: v, ..c0 }),
                ),
                None => spec_startup(env, cwd, seq![flag, value]) == Err::<
                    StartupView,
                    crate::config::ConfigErrorView,
                >(crate::config::ConfigErrorView::InvalidValue { name: "--port"@ }),
            },
            Err(e) => spec_startup(env, cwd, seq![flag, value]) == Err::<
                StartupView,
                crate::config::ConfigErrorView,
            >(e),
        },
{
    lemma_option_names_differ();
    let args = seq![flag, value];
    assert(args.skip(2) =~= Seq::<InputTextView>::empty());
    assert(args[0].text == "--port"@ && args[1] == value);
    assert(crate::config::valued_option("--port"@));
    match crate::config::spec_env_config(env, cwd) {
        Ok((c0, explicit)) => {
            match <u16 as crate::values::TextValue>::spec_read(value) {
                Some(v) => {
                    let c2 = ConfigView { port: v, ..c0 };
                    assert(crate::config::set_option(c0, "--port"@, value) == Some(c2));
                    assert(spec_apply_args(c0, explicit, args) == spec_apply_args(
                        c2,
                        explicit,
                        args.skip(2),
                    ));
                },
                None => {
                    assert(crate::config::set_option(c0, "--port"@, value) is None);
                },
            }
        },
        Err(_) => {},
    }
}

/// `--max-body-bytes V` is an option of the service: started with it alone, the
/// service runs with `max_body_bytes` set to what `V` reads as, everything else as the
/// environment gives it, when that configuration is valid; a value that
/// does not read is refused as an invalid value of `--max-body-bytes`, never as an
/// unsupported argument.
pub proof fn lemma_option_sets_max_body_bytes(
    env: Seq<(Seq<char>, EnvValueView)>,
    cwd: Option<Seq<char>>,
    flag: InputTextView,
    value: InputTextView,
)
    requires
        flag.text == "--max-body-bytes"@,
    ensures
        match crate::config::spec_env_config(env, cwd) {
            Ok((c0, _)) => match <usize as crate::values::TextValue>::spec_read(value) {
                Some(v) => spec_validate(ConfigView { max_body_bytes: v, ..c0 }) is None ==> spec_startup(
                    env,
                    cwd,
                    seq![flag, value],
                ) == Ok::<StartupView, crate::config::ConfigErrorView>(
                    StartupView::Run(ConfigView { max_body_bytes: v, ..c0 }),
                ),
                None => spec_startup(env, cwd, seq![flag, value]) == Err::<
                    StartupView,
                    crate::config::ConfigErrorView,
                >(crate::config::ConfigErrorView::InvalidValue { name: "--max-body-bytes"@ }),
            },
            Err(e) => spec_startup(env, cwd, seq![flag, value]) == Err::<
                StartupView,
                crate::config::ConfigErrorView,
            >(e),
        },
{
    lemma_option_names_differ();
    let args = seq![flag, value];
    assert(args.skip(2) =~= Seq::<InputTextView>::empty());
    assert(args[0].text == "--max-body-bytes"@ && args[1] == value);
    assert(crate::config::valued_option("--max-body-bytes"@));
    match crate::config::spec_env_config(env, cwd) {
        Ok((c0, explicit)) => {
            match <usize as crate::values::TextValue>::spec_read(value) {
                Some(v) => {
                    let c2 = ConfigView { max_body_bytes: v, ..c0 };
                    assert(crate::config::set_option(c0, "--max-body-bytes"@, value) == Some(c2));
                    assert(spec_apply_args(c0, explicit, args) == spec_apply_args(
                        c2,
                        explicit,
                        args.skip(2),
                    ));
                },
                None => {
                    assert(crate::config::set_option(c0, "--max-body-bytes"@, value) is None);
                },
            }
        },
        Err(_) => {},
    }
}

/// `--max-model-bytes V` is an option of the service: started with it alone, the
/// service runs with `max_model_bytes` set to what `V` reads as, everything else as the
/// environment gives it, when that configuration is valid; a value that
/// does not read is refused as an invalid value of `--max-model-bytes`, never as an
/// unsupported argument.
pub proof fn lemma_option_sets_max_model_bytes(
    env: Seq<(Seq<char>, EnvValueView)>,
    cwd: Option<Seq<char>>,
    flag: InputTextView,
    value: InputTextView,
)
    requires
        flag.text == "--max-model-bytes"@,
    ensures
        match crate::config::spec_env_config(env, cwd) {
            Ok((c0, _)) => match <u64 as crate::values::TextValue>::spec_read(value) {
                Some(v) => spec_validate(ConfigView { max_model_bytes: v, ..c0 }) is None ==> spec_startup(
                    env,
                    cwd,
                    seq![flag, value],
                ) == Ok::<StartupView, crate::config::ConfigErrorView>(
                    StartupView::Run(ConfigView { max_model_bytes: v, ..c0 }),
                ),
                None => spec_startup(env, cwd, seq![flag, value]) == Err::<
                    StartupView,
                    crate::config::ConfigErrorView,
                >(crate::config::ConfigErrorView::InvalidValue { name: "--max-model-bytes"@ }),
            },
            Err(e) => spec_startup(env, cwd, seq![flag, value]) == Err::<
                StartupView,
                crate::config::ConfigErrorView,
            >(e),
        },
{
    lemma_option_names_differ();
    let args = seq![flag, value];
    assert(args.skip(2) =~= Seq::<InputTextView>::empty());
    assert(args[0].text == "--max-model-bytes"@ && args[1] == value);
    assert(crate::config::valued_option("--max-model-bytes"@));
    match crate::config::spec_env_config(env, cwd) {
        Ok((c0, explicit)) => {
            match <u64 as crate::values::TextValue>::spec_read(value) {
                Some(v) => {
                    let c2 = ConfigView { max_model_bytes: v, ..c0 };
                    assert(crate::config::set_option(c0, "--max-model-bytes"@, value) == Some(c2));
                    assert(spec_apply_args(c0, explicit, args) == spec_apply_args(
                        c2,
                        explicit,
                        args.skip(2),
                    ));
                },
                None => {
                    assert(crate::config::set_option(c0, "--max-model-bytes"@, value) is None);
                },
            }
        },
        Err(_) => {},
    }
}

/// `--max-total-model-bytes V` is an option of the service: started with it alone, the
/// service runs with `max_total_model_bytes` set to what `V` reads as, everything else as the
/// environment gives it, when that configuration is valid; a value that
/// does not read is refused as an invalid value of `--max-total-model-bytes`, never as an
/// unsupported argument.
pub proof fn lemma_option_sets_max_total_model_bytes(
    env: Seq<(Seq<char>, EnvValueView)>,
    cwd: Option<Seq<char>>,
    flag: InputTextView,
    value: InputTextView,
)
    requires
        flag.text == "--max-total-model-bytes"@,
    ensures
        match crate::config::spec_env_config(env, cwd) {
            Ok((c0, _)) => match <u64 as crate::values::TextValue>::spec_read(value) {
                Some(v) => spec_validate(ConfigView { max_total_model_bytes: v, ..c0 }) is None ==> spec_startup(
                    env,
                    cwd,
                    seq![flag, value],
                ) == Ok::<StartupView, crate::config::ConfigErrorView>(
                    StartupView::Run(ConfigView { max_total_model_bytes: v, ..c0 }),
                ),
                None => spec_startup(env, cwd, seq![flag, value]) == Err::<
                    StartupView,
                    crate::config::ConfigErrorView,
                >(crate::config::ConfigErrorView::InvalidValue { name: "--max-total-model-bytes"@ }),
            },
            Err(e) => spec_startup(env, cwd, seq![flag, value]) == Err::<
                StartupView,
                crate::config::ConfigErrorView,
            >(e),
        },
{
    lemma_option_names_differ();
    let args = seq![flag, value];
    assert(args.skip(2) =~= Seq::<InputTextView>::empty());
    assert(args[0].text == "--max-total-model-bytes"@ && args[1] == value);
    assert(crate::config::valued_option("--max-total-model-bytes"@));
    match crate::config::spec_env_config(env, cwd) {
        Ok((c0, explicit)) => {
            match <u64 as crate::values::TextValue>::spec_read(value) {
                Some(v) => {
                    let c2 = ConfigView { max_total_model_bytes: v, ..c0 };
                    assert(crate::config::set_option(c0, "--max-total-model-bytes"@, value) == Some(c2));
                    assert(spec_apply_args(c0, explicit, args) == spec_apply_args(
                        c2,
                        explicit,
                        args.skip(2),
                    ));
                },
                None => {
                    assert(crate::config::set_option(c0, "--max-total-model-bytes"@, value) is None);
                },
            }
        },
        Err(_) => {},
    }
}

/// `--max-models V` is an option of the service: started with it alone, the
/// service runs with `max_models` set to what `V` reads as, everything else as the
/// environment gives it, when that configuration is valid; a value that
/// does not read is refused as an invalid value of `--max-models`, never as an
/// unsupported argument.
pub proof fn lemma_option_sets_max_models(
    env: Seq<(Seq<char>, EnvValueView)>,
    cwd: Option<Seq<char>>,
    flag: InputTextView,
    value: InputTextView,
)
    requires
        flag.text == "--max-models"@,
    ensures
        match crate::config::spec_env_config(env, cwd) {
            Ok((c0, _)) => match <usize as crate::values::TextValue>::spec_read(value) {
                Some(v) => spec_validate(ConfigView { max_models: v, ..c0 }) is None ==> spec_startup(
                    env,
                    cwd,
                    seq![flag, value],
                ) == Ok::<StartupView, crate::config::ConfigErrorView>(
                    StartupView::Run(ConfigView { max_models: v, ..c0 }),
                ),
                None => spec_startup(env, cwd, seq![flag, value]) == Err::<
                    StartupView,
                    crate::config::ConfigErrorView,
                >(crate::config::ConfigErrorView::InvalidValue { name: "--max-models"@ }),
            },
            Err(e) => spec_startup(env, cwd, seq![flag, value]) == Err::<
                StartupView,
                crate::config::ConfigErrorView,
            >(e),
        },
{
    lemma_option_names_differ();
    let args = seq![flag, value];
    assert(args.skip(2) =~= Seq::<InputTextView>::empty());
    assert(args[0].text == "--max-models"@ && args[1] == value);
    assert(crate::config::valued_option("--max-models"@));
    match crate::config::spec_env_config(env, cwd) {
        Ok((c0, explicit)) => {
            match <usize as crate::values::TextValue>::spec_read(value) {
                Some(v) => {
                    let c2 = ConfigView { max_models: v, ..c0 };
                    assert(crate::config::set_option(c0, "--max-models"@, value) == Some(c2));
                    assert(spec_apply_args(c0, explicit, args) == spec_apply_args(
                        c2,
                        explicit,
                        args.skip(2),
                    ));
                },
                None => {
                    assert(crate::config::set_option(c0, "--max-models"@, value) is None);
                },
            }
        },
        Err(_) => {},
    }
}

/// `--max-concurrency V` is an option of the service: started with it alone, the
/// service runs with `max_concurrency` set to what `V` reads as, everything else as the
/// environment gives it, when that configuration is valid; a value that
/// does not read is refused as an invalid value of `--max-concurrency`, never as an
/// unsupported argument.
pub proof fn lemma_option_sets_max_concurrency(
    env: Seq<(Seq<char>, EnvValueView)>,
    cwd: Option<Seq<char>>,
    flag: InputTextView,
    value: InputTextView,
)
    requires
        flag.text == "--max-concurrency"@,
    ensures
        match crate::config::spec_env_config(env, cwd) {
            Ok((c0, _)) => match <usize as crate::values::TextValue>::spec_read(value) {
                Some(v) => spec_validate(ConfigView { max_concurrency: v, ..c0 }) is None ==> spec_startup(
                    env,
                    cwd,
                    seq![flag, value],
                ) == Ok::<StartupView, crate::config::ConfigErrorView>(
                    StartupView::Run(ConfigView { max_concurrency: v, ..c0 }),
                ),
                None => spec_startup(env, cwd, seq![flag, value]) == Err::<
                    StartupView,
                    crate::config::ConfigErrorView,
                >(crate::config::ConfigErrorView::InvalidValue { name: "--max-concurrency"@ }),
            },
            Err(e) => spec_startup(env, cwd, seq![flag, value]) == Err::<
                StartupView,
                crate::config::ConfigErrorView,
            >(e),
        },
{
    lemma_option_names_differ();
    let args = seq![flag, value];
    assert(args.skip(2) =~= Seq::<InputTextView>::empty());
    assert(args[0].text == "--max-concurrency"@ && args[1] == value);
    assert(crate::config::valued_option("--max-concurrency"@));
    match crate::config::spec_env_config(env, cwd) {
        Ok((c0, explicit)) => {
            match <usize as crate::values::TextValue>::spec_read(value) {
                Some(v) => {
                    let c2 = ConfigView { max_concurrency: v, ..c0 };
                    assert(crate::config::set_option(c0, "--max-concurrency"@, value) == Some(c2));
                    assert(spec_apply_args(c0, explicit, args) == spec_apply_args(
                        c2,
                        explicit,
                        args.skip(2),
                    ));
                },
                None => {
                    assert(crate::config::set_option(c0, "--max-concurrency"@, value) is None);
                },
            }
        },
        Err(_) => {},
    }
}

/// `--evaluation-timeout-ms V` is an option of the service: started with it alone, the
/// service runs with `evaluation_timeout_ms` set to what `V` reads as, everything else as the
/// environment gives it, when that configuration is valid; a value that
/// does not read is refused as an invalid value of `--evaluation-timeout-ms`, never as an
/// unsupported argument.
pub proof fn lemma_option_sets_evaluation_timeout_ms(
    env: Seq<(Seq<char>, EnvValueView)>,
    cwd: Option<Seq<char>>,
    flag: InputTextView,
    value: InputTextView,
)
    requires
        flag.text == "--evaluation-timeout-ms"@,
    ensures
        match crate::config::spec_env_config(env, cwd) {
            Ok((c0, _)) => match <u64 as crate::values::TextValue>::spec_read(value) {
                Some(v) => spec_validate(ConfigView { evaluation_timeout_ms: v, ..c0 }) is None ==> spec_startup(
                    env,
                    cwd,
                    seq![flag, value],
                ) == Ok::<StartupView, crate::config::ConfigErrorView>(
                    StartupView::Run(ConfigView { evaluation_timeout_ms: v, ..c0 }),
                ),
                None => spec_startup(env, cwd, seq![flag, value]) == Err::<
                    StartupView,
                    crate::config::ConfigErrorView,
                >(crate::config::ConfigErrorView::InvalidValue { name: "--evaluation-timeout-ms"@ }),
            },
            Err(e) => spec_startup(env, cwd, seq![flag, value]) == Err::<
                StartupView,
                crate::config::ConfigErrorView,
            >(e),
        },
{
    lemma_option_names_differ();
    let args = seq![flag, value];
    assert(args.skip(2) =~= Seq::<InputTextView>::empty());
    assert(args[0].text == "--evaluation-timeout-ms"@ && args[1] == value);
    assert(crate::config::valued_option("--evaluation-timeout-ms"@));
    match crate::config::spec_env_config(env, cwd) {
        Ok((c0, explicit)) => {
            match <u64 as crate::values::TextValue>::spec_read(value) {
                Some(v) => {
                    let c2 = ConfigView { evaluation_timeout_ms: v, ..c0 };
                    assert(crate::config::set_option(c0, "--evaluation-timeout-ms"@, value) == Some(c2));
                    assert(spec_apply_args(c0, explicit, args) == spec_apply_args(
                        c2,
                        explicit,
                        args.skip(2),
                    ));
                },
                None => {
                    assert(crate::config::set_option(c0, "--evaluation-timeout-ms"@, value) is None);
                },
            }
        },
        Err(_) => {},
    }
}

/// `--max-depth V` is an option of the service: started with it alone, the
/// service runs with `max_depth` set to what `V` reads as, everything else as the
/// environment gives it, when that configuration is valid; a value that
/// does not read is refused as an invalid value of `--max-depth`, never as an
/// unsupported argument.
pub proof fn lemma_option_sets_max_depth(
    env: Seq<(Seq<char>, EnvValueView)>,
    cwd: Option<Seq<char>>,
    flag: InputTextView,
    value: InputTextView,
)
    requires
        flag.text == "--max-depth"@,
    ensures
        match crate::config::spec_env_config(env, cwd) {
            Ok((c0, _)) => match <u8 as crate::values::TextValue>::spec_read(value) {
                Some(v) => spec_validate(ConfigView { max_depth: v, ..c0 }) is None ==> spec_startup(
                    env,
                    cwd,
                    seq![flag, value],
                ) == Ok::<StartupView, crate::config::ConfigErrorView>(
                    StartupView::Run(ConfigView { max_depth: v, ..c0 }),
                ),
                None => spec_startup(env, cwd, seq![flag, value]) == Err::<
                    StartupView,
                    crate::config::ConfigErrorView,
                >(crate::config::ConfigErrorView::InvalidValue { name: "--max-depth"@ }),
            },
            Err(e) => spec_startup(env, cwd, seq![flag, value]) == Err::<
                StartupView,
                crate::config::ConfigErrorView,
            >(e),
        },
{
    lemma_option_names_differ();
    let args = seq![flag, value];
    assert(args.skip(2) =~= Seq::<InputTextView>::empty());
    assert(args[0].text == "--max-depth"@ && args[1] == value);
    assert(crate::config::valued_option("--max-depth"@));
    match crate::config::spec_env_config(env, cwd) {
        Ok((c0, explicit)) => {
            match <u8 as crate::values::TextValue>::spec_read(value) {
                Some(v) => {
                    let c2 = ConfigView { max_depth: v, ..c0 };
                    assert(crate::config::set_option(c0, "--max-depth"@, value) == Some(c2));
                    assert(spec_apply_args(c0, explicit, args) == spec_apply_args(
                        c2,
                        explicit,
                        args.skip(2),
                    ));
                },
                None => {
                    assert(crate::config::set_option(c0, "--max-depth"@, value) is None);
                },
            }
        },
        Err(_) => {},
    }
}

/// `--max-json-depth V` is an option of the service: started with it alone, the
/// service runs with `max_json_depth` set to what `V` reads as, everything else as the
/// environment gives it, when that configuration is valid; a value that
/// does not read is refused as an invalid value of `--max-json-depth`, never as an
/// unsupported argument.
pub proof fn lemma_option_sets_max_json_depth(
    env: Seq<(Seq<char>, EnvValueView)>,
    cwd: Option<Seq<char>>,
    flag: InputTextView,
    value: InputTextView,
)
    requires
        flag.text == "--max-json-depth"@,
    ensures
        match crate::config::spec_env_config(env, cwd) {
            Ok((c0, _)) => match <usize as crate::values::TextValue>::spec_read(value) {
                Some(v) => spec_validate(ConfigView { max_json_depth: v, ..c0 }) is None ==> spec_startup(
                    env,
                    cwd,
                    seq![flag, value],
                ) == Ok::<StartupView, crate::config::ConfigErrorView>(
                    StartupView::Run(ConfigView { max_json_depth: v, ..c0 }),
                ),
                None => spec_startup(env, cwd, seq![flag, value]) == Err::<
                    StartupView,
                    crate::config::ConfigErrorView,
                >(crate::config::ConfigErrorView::InvalidValue { name: "--max-json-depth"@ }),
            },
            Err(e) => spec_startup(env, cwd, seq![flag, value]) == Err::<
                StartupView,
                crate::config::ConfigErrorView,
            >(e),
        },
{
    lemma_option_names_differ();
    let args = seq![flag, value];
    assert(args.skip(2) =~= Seq::<InputTextView>::empty());
    assert(args[0].text == "--max-json-depth"@ && args[1] == value);
    assert(crate::config::valued_option("--max-json-depth"@));
    match crate::config::spec_env_config(env, cwd) {
        Ok((c0, explicit)) => {
            match <usize as crate::values::TextValue>::spec_read(value) {
                Some(v) => {
                    let c2 = ConfigView { max_json_depth: v, ..c0 };
                    assert(crate::config::set_option(c0, "--max-json-depth"@, value) == Some(c2));
                    assert(spec_apply_args(c0, explicit, args) == spec_apply_args(
                        c2,
                        explicit,
                        args.skip(2),
                    ));
                },
                None => {
                    assert(crate::config::set_option(c0, "--max-json-depth"@, value) is None);
                },
            }
        },
        Err(_) => {},
    }
}

} // verus!
