//! Service configuration: defaults, environment variables and command-line
//! options, in that order of precedence from lowest, then validation.

use vstd::prelude::*;
use vstd::string::*;
use crate::index::{compare_text, TextOrder};
use crate::values::{HostAddr, InputText, InputTextView, TextValue};

verus! {

/// The port the service listens on unless configured otherwise.
pub const DEFAULT_PORT: u16 = 18089;
/// The default limit on a request body, in bytes.
pub const DEFAULT_MAX_BODY_BYTES: usize = 1048576;
/// The default limit on one model file, in bytes.
pub const DEFAULT_MAX_MODEL_BYTES: u64 = 4194304;
/// The default limit on all model files together, in bytes.
pub const DEFAULT_MAX_TOTAL_MODEL_BYTES: u64 = 67108864;
/// The default limit on the number of model files.
pub const DEFAULT_MAX_MODELS: usize = 1000;
/// The default limit on concurrent evaluations.
pub const DEFAULT_MAX_CONCURRENCY: usize = 32;
/// The default evaluation time limit, in milliseconds.
pub const DEFAULT_EVALUATION_TIMEOUT_MS: u64 = 5000;
/// The default limit on nested decision evaluation.
pub const DEFAULT_MAX_DEPTH: u8 = 10;
/// The default limit on the nesting of a request context.
pub const DEFAULT_MAX_JSON_DEPTH: usize = 64;

/// The value of an environment variable.
pub enum EnvValue {
    Missing,
    Text(InputText),
    NotUnicode,
}

/// The mathematical value of an environment variable.
pub enum EnvValueView {
    Missing,
    Text(InputTextView),
    NotUnicode,
}

impl View for EnvValue {
    type V = EnvValueView;

    open spec fn view(&self) -> EnvValueView {
        match self {
            EnvValue::Missing => EnvValueView::Missing,
            EnvValue::Text(t) => EnvValueView::Text(t@),
            EnvValue::NotUnicode => EnvValueView::NotUnicode,
        }
    }
}

/// One variable of the process environment.
pub struct EnvVar {
    pub name: String,
    pub value: EnvValue,
}

/// The environment as name/value pairs.
pub open spec fn env_view(env: Seq<EnvVar>) -> Seq<(Seq<char>, EnvValueView)> {
    Seq::new(env.len(), |i: int| (env[i].name@, env[i].value@))
}

/// The value of variable `name`: the first entry that has that name.
pub open spec fn env_lookup(env: Seq<(Seq<char>, EnvValueView)>, name: Seq<char>) -> EnvValueView
    decreases env.len(),
{
    if env.len() == 0 {
        EnvValueView::Missing
    } else if env[0].0 == name {
        env[0].1
    } else {
        env_lookup(env.drop_first(), name)
    }
}

/// Why a configuration is refused.
pub enum ConfigError {
    /// The working directory, the default service root, is unavailable.
    WorkingDirectoryUnavailable,
    /// The variable or option `name` does not read as a value of its type.
    InvalidValue { name: String },
    /// The variable `name` is not valid Unicode.
    NotUnicode { name: String },
    /// The option `name` is the last argument, with no value after it.
    MissingValue { name: String },
    /// The argument is not an option of the service.
    UnsupportedArgument { argument: String },
    /// A non-loopback address is configured without the explicit option.
    NonLoopbackNotAllowed,
    /// A resource limit is zero.
    ZeroLimit,
    /// The per-model byte limit exceeds the total one.
    ModelLimitAboveTotal,
}

/// The mathematical value of a configuration error.
pub enum ConfigErrorView {
    WorkingDirectoryUnavailable,
    InvalidValue { name: Seq<char> },
    NotUnicode { name: Seq<char> },
    MissingValue { name: Seq<char> },
    UnsupportedArgument { argument: Seq<char> },
    NonLoopbackNotAllowed,
    ZeroLimit,
    ModelLimitAboveTotal,
}

impl View for ConfigError {
    type V = ConfigErrorView;

    open spec fn view(&self) -> ConfigErrorView {
        match self {
            ConfigError::WorkingDirectoryUnavailable => ConfigErrorView::WorkingDirectoryUnavailable,
            ConfigError::InvalidValue { name } => ConfigErrorView::InvalidValue { name: name@ },
            ConfigError::NotUnicode { name } => ConfigErrorView::NotUnicode { name: name@ },
            ConfigError::MissingValue { name } => ConfigErrorView::MissingValue { name: name@ },
            ConfigError::UnsupportedArgument { argument } => ConfigErrorView::UnsupportedArgument {
                argument: argument@,
            },
            ConfigError::NonLoopbackNotAllowed => ConfigErrorView::NonLoopbackNotAllowed,
            ConfigError::ZeroLimit => ConfigErrorView::ZeroLimit,
            ConfigError::ModelLimitAboveTotal => ConfigErrorView::ModelLimitAboveTotal,
        }
    }
}

/// The view of a result whose error is a configuration error.
pub open spec fn result_view<T>(r: Result<T, ConfigError>) -> Result<T, ConfigErrorView> {
    match r {
        Ok(v) => Ok(v),
        Err(e) => Err(e@),
    }
}

/// Looks variable `name` up in `env`.
pub fn lookup_env<'a>(env: &'a Vec<EnvVar>, name: &str) -> (r: &'a EnvValue)
    ensures
        r@ == env_lookup(env_view(env@), name@),
{
    let mut i: usize = 0;
    assert(env_view(env@).skip(0) =~= env_view(env@));
    while i < env.len()
        invariant
            i <= env@.len(),
            env_lookup(env_view(env@), name@) == env_lookup(env_view(env@).skip(i as int), name@),
        decreases env@.len() - i,
    {
        let ghost rest = env_view(env@).skip(i as int);
        assert(rest[0] == (env@[i as int].name@, env@[i as int].value@));
        match compare_text(env[i].name.as_str(), name) {
            TextOrder::Same => {
                return &env[i].value;
            },
            _ => {},
        }
        assert(rest.drop_first() =~= env_view(env@).skip(i + 1));
        i = i + 1;
    }
    proof {
        assert(env_view(env@).skip(i as int).len() == 0);
    }
    &EnvValue::Missing
}

/// What reading variable `name` as a `T` gives: `default` when it is unset.
pub open spec fn spec_parse_env<T: TextValue>(
    env: Seq<(Seq<char>, EnvValueView)>,
    name: Seq<char>,
    default: T,
) -> Result<T, ConfigErrorView> {
    match env_lookup(env, name) {
        EnvValueView::Missing => Ok(default),
        EnvValueView::Text(t) => match T::spec_read(t) {
            Some(v) => Ok(v),
            None => Err(ConfigErrorView::InvalidValue { name }),
        },
        EnvValueView::NotUnicode => Err(ConfigErrorView::NotUnicode { name }),
    }
}

/// Reads variable `name` as a `T`, or `default` when it is unset.
pub fn parse_env<T: TextValue>(env: &Vec<EnvVar>, name: &str, default: T) -> (r: Result<T, ConfigError>)
    ensures
        result_view(r) == spec_parse_env(env_view(env@), name@, default),
{
    match lookup_env(env, name) {
        EnvValue::Missing => Ok(default),
        EnvValue::Text(t) => match T::read(t) {
            Some(v) => Ok(v),
            None => Err(ConfigError::InvalidValue { name: name.to_owned() }),
        },
        EnvValue::NotUnicode => Err(ConfigError::NotUnicode { name: name.to_owned() }),
    }
}

/// The value that follows option `name`, or why there is none.
pub fn required_arg(name: &str, value: Option<InputText>) -> (r: Result<InputText, ConfigError>)
    ensures
        match value {
            Some(v) => r matches Ok(x) && x@ == v@,
            None => r matches Err(e) && e@ == ConfigErrorView::MissingValue { name: name@ },
        },
{
    match value {
        Some(v) => Ok(v),
        None => Err(ConfigError::MissingValue { name: name.to_owned() }),
    }
}

/// What the value after option `name` reads as.
pub open spec fn spec_parse_arg<T: TextValue>(name: Seq<char>, value: Option<InputTextView>) -> Result<
    T,
    ConfigErrorView,
> {
    match value {
        None => Err(ConfigErrorView::MissingValue { name }),
        Some(t) => match T::spec_read(t) {
            Some(v) => Ok(v),
            None => Err(ConfigErrorView::InvalidValue { name }),
        },
    }
}

/// Reads the value after option `name` as a `T`.
pub fn parse_arg<T: TextValue>(name: &str, value: Option<InputText>) -> (r: Result<T, ConfigError>)
    ensures
        result_view(r) == spec_parse_arg::<T>(
            name@,
            match value {
                Some(v) => Some(v@),
                None => None,
            },
        ),
{
    let t = match required_arg(name, value) {
        Ok(t) => t,
        Err(e) => {
            return Err(e);
        },
    };
    match T::read(&t) {
        Some(v) => Ok(v),
        None => Err(ConfigError::InvalidValue { name: name.to_owned() }),
    }
}

/// `base` joined with the relative name `name`, as a Unix path buffer
/// pushes a relative component: a `/` goes between them unless `base` is
/// empty or already ends in one.
pub open spec fn join_path(base: Seq<char>, name: Seq<char>) -> Seq<char> {
    if base.len() == 0 {
        name
    } else if base.last() == '/' {
        base + name
    } else {
        base + seq!['/'] + name
    }
}

/// Joins the relative name `name` onto `base`.
pub fn join_path_exec(base: &str, name: &str) -> (r: String)
    ensures
        r@ == join_path(base@, name@),
{
    let n = base.unicode_len();
    let mut out = base.to_owned();
    if n > 0 && base.get_char(n - 1) != '/' {
        proof {
            reveal_strlit("/");
        }
        out.append("/");
    }
    out.append(name);
    out
}

/// The service configuration. Paths are kept as text.
pub struct Config {
    pub host: HostAddr,
    pub port: u16,
    pub service_root: String,
    pub decisions_dir: String,
    pub state_dir: String,
    pub max_body_bytes: usize,
    pub max_model_bytes: u64,
    pub max_total_model_bytes: u64,
    pub max_models: usize,
    pub max_concurrency: usize,
    pub evaluation_timeout_ms: u64,
    pub max_depth: u8,
    pub max_json_depth: usize,
    pub allow_non_loopback: bool,
}

/// The mathematical value of a configuration.
pub struct ConfigView {
    pub host: HostAddr,
    pub port: u16,
    pub service_root: Seq<char>,
    pub decisions_dir: Seq<char>,
    pub state_dir: Seq<char>,
    pub max_body_bytes: usize,
    pub max_model_bytes: u64,
    pub max_total_model_bytes: u64,
    pub max_models: usize,
    pub max_concurrency: usize,
    pub evaluation_timeout_ms: u64,
    pub max_depth: u8,
    pub max_json_depth: usize,
    pub allow_non_loopback: bool,
}

impl View for Config {
    type V = ConfigView;

    open spec fn view(&self) -> ConfigView {
        ConfigView {
            host: self.host,
            port: self.port,
            service_root: self.service_root@,
            decisions_dir: self.decisions_dir@,
            state_dir: self.state_dir@,
            max_body_bytes: self.max_body_bytes,
            max_model_bytes: self.max_model_bytes,
            max_total_model_bytes: self.max_total_model_bytes,
            max_models: self.max_models,
            max_concurrency: self.max_concurrency,
            evaluation_timeout_ms: self.evaluation_timeout_ms,
            max_depth: self.max_depth,
            max_json_depth: self.max_json_depth,
            allow_non_loopback: self.allow_non_loopback,
        }
    }
}

/// Why a configuration is refused, if it is: a non-loopback host needs the
/// explicit option, every resource limit must be positive, and the model
/// byte limit may not exceed the total one.
pub open spec fn spec_validate(c: ConfigView) -> Option<ConfigErrorView> {
    if !crate::values::spec_is_loopback(c.host) && !c.allow_non_loopback {
        Some(ConfigErrorView::NonLoopbackNotAllowed)
    } else if c.max_body_bytes == 0 || c.max_model_bytes == 0 || c.max_total_model_bytes == 0
        || c.max_models == 0 || c.max_concurrency == 0 || c.evaluation_timeout_ms == 0 || c.max_depth
        == 0 || c.max_json_depth == 0 {
        Some(ConfigErrorView::ZeroLimit)
    } else if c.max_model_bytes > c.max_total_model_bytes {
        Some(ConfigErrorView::ModelLimitAboveTotal)
    } else {
        None
    }
}

impl Config {
    /// Checks the configuration's consistency.
    pub fn validate(&self) -> (r: Result<(), ConfigError>)
        ensures
            match spec_validate(self@) {
                Some(e) => r matches Err(x) && x@ == e,
                None => r is Ok,
            },
    {
        if !self.host.is_loopback() && !self.allow_non_loopback {
            return Err(ConfigError::NonLoopbackNotAllowed);
        }
        if self.max_body_bytes == 0 || self.max_model_bytes == 0 || self.max_total_model_bytes == 0
            || self.max_models == 0 || self.max_concurrency == 0 || self.evaluation_timeout_ms == 0
            || self.max_depth == 0 || self.max_json_depth == 0 {
            return Err(ConfigError::ZeroLimit);
        }
        if self.max_model_bytes > self.max_total_model_bytes {
            return Err(ConfigError::ModelLimitAboveTotal);
        }
        Ok(())
    }
}

/// The text of a path variable, `None` when unset, or why it is refused.
pub open spec fn spec_env_path(env: Seq<(Seq<char>, EnvValueView)>, name: Seq<char>) -> Result<
    Option<Seq<char>>,
    ConfigErrorView,
> {
    match env_lookup(env, name) {
        EnvValueView::Missing => Ok(None),
        EnvValueView::Text(t) => Ok(Some(t.text)),
        EnvValueView::NotUnicode => Err(ConfigErrorView::NotUnicode { name }),
    }
}

/// The text of path variable `name`: `None` when it is unset, refused when
/// it is not Unicode.
fn env_path(env: &Vec<EnvVar>, name: &str) -> (r: Result<Option<String>, ConfigError>)
    ensures
        match spec_env_path(env_view(env@), name@) {
            Ok(p) => r matches Ok(x) && (match x {
                Some(s) => p == Some(s@),
                None => p is None,
            }),
            Err(e) => r matches Err(x) && x@ == e,
        },
{
    match lookup_env(env, name) {
        EnvValue::Missing => Ok(None),
        EnvValue::Text(t) => Ok(Some(t.text.clone())),
        EnvValue::NotUnicode => Err(ConfigError::NotUnicode { name: name.to_owned() }),
    }
}

/// The configuration that the environment gives, with whether it names the
/// decisions directory explicitly: the working directory must be available
/// (it is the default service root); `SERVICE_ROOT` and
/// `ZEN_BRE_DECISIONS_DIR` give the paths; then the address, the port and
/// each limit variable are read in turn, and the first that does not read
/// refuses the configuration. A non-loopback address is never allowed from
/// the environment: only the explicit command-line option allows it.
pub open spec fn spec_env_config(env: Seq<(Seq<char>, EnvValueView)>, cwd: Option<Seq<char>>) -> Result<
    (ConfigView, bool),
    ConfigErrorView,
> {
    match cwd {
        None => Err(ConfigErrorView::WorkingDirectoryUnavailable),
        Some(cwd) => match spec_env_path(env, "SERVICE_ROOT"@) {
            Err(e) => Err(e),
            Ok(root_opt) => {
                let root = match root_opt {
                    Some(r) => r,
                    None => cwd,
                };
                match spec_env_path(env, "ZEN_BRE_DECISIONS_DIR"@) {
                    Err(e) => Err(e),
                    Ok(dd) => match spec_parse_env(env, "ZEN_BRE_HOST"@, HostAddr::V4([127u8, 0, 0, 1])) {
                        Err(e) => Err(e),
                        Ok(host) => match spec_parse_env(env, "ZEN_BRE_PORT"@, DEFAULT_PORT) {
                            Err(e) => Err(e),
                            Ok(port) => match spec_parse_env(env, "ZEN_BRE_MAX_BODY_BYTES"@, DEFAULT_MAX_BODY_BYTES) {
                                Err(e) => Err(e),
                                Ok(max_body_bytes) => match spec_parse_env(env, "ZEN_BRE_MAX_MODEL_BYTES"@, DEFAULT_MAX_MODEL_BYTES) {
                                    Err(e) => Err(e),
                                    Ok(max_model_bytes) => match spec_parse_env(env, "ZEN_BRE_MAX_TOTAL_MODEL_BYTES"@, DEFAULT_MAX_TOTAL_MODEL_BYTES) {
                                        Err(e) => Err(e),
                                        Ok(max_total_model_bytes) => match spec_parse_env(env, "ZEN_BRE_MAX_MODELS"@, DEFAULT_MAX_MODELS) {
                                            Err(e) => Err(e),
                                            Ok(max_models) => match spec_parse_env(env, "ZEN_BRE_MAX_CONCURRENCY"@, DEFAULT_MAX_CONCURRENCY) {
                                                Err(e) => Err(e),
                                                Ok(max_concurrency) => match spec_parse_env(env, "ZEN_BRE_EVALUATION_TIMEOUT_MS"@, DEFAULT_EVALUATION_TIMEOUT_MS) {
                                                    Err(e) => Err(e),
                                                    Ok(evaluation_timeout_ms) => match spec_parse_env(env, "ZEN_BRE_MAX_DEPTH"@, DEFAULT_MAX_DEPTH) {
                                                        Err(e) => Err(e),
                                                        Ok(max_depth) => match spec_parse_env(env, "ZEN_BRE_MAX_JSON_DEPTH"@, DEFAULT_MAX_JSON_DEPTH) {
                                                            Err(e) => Err(e),
                                                            Ok(max_json_depth) => Ok((ConfigView {
                                                                    host,
                                                                    port,
                                                                    service_root: root,
                                                                    decisions_dir: match dd {
                                                                        Some(d) => d,
                                                                        None => join_path(root, "decisions"@),
                                                                    },
                                                                    state_dir: join_path(root, ".state"@),
                                                                    max_body_bytes,
                                                                    max_model_bytes,
                                                                    max_total_model_bytes,
                                                                    max_models,
                                                                    max_concurrency,
                                                                    evaluation_timeout_ms,
                                                                    max_depth,
                                                                    max_json_depth,
                                                                    allow_non_loopback: false,
                                                                }, dd is Some)),
                                                        },
                                                    },
                                                },
                                            },
                                        },
                                    },
                                },
                            },
                        },
                    },
                }
            },
        },
    }
}

/// The configuration that the environment gives (see `spec_env_config`),
/// with whether the decisions directory was named explicitly.
pub fn env_config(env: &Vec<EnvVar>, current_dir: Option<String>) -> (r: Result<(Config, bool), ConfigError>)
    ensures
        match spec_env_config(
            env_view(env@),
            match current_dir {
                Some(c) => Some(c@),
                None => None,
            },
        ) {
            Ok((c, explicit)) => r matches Ok((x, e)) && x@ == c && e == explicit,
            Err(e) => r matches Err(x) && x@ == e,
        },
{
    let cwd = match current_dir {
        Some(c) => c,
        None => {
            return Err(ConfigError::WorkingDirectoryUnavailable);
        },
    };
    let service_root = match env_path(env, "SERVICE_ROOT") {
        Err(e) => {
            return Err(e);
        },
        Ok(Some(r)) => r,
        Ok(None) => cwd,
    };
    let decisions_override = match env_path(env, "ZEN_BRE_DECISIONS_DIR") {
        Err(e) => {
            return Err(e);
        },
        Ok(d) => d,
    };
    let host = match parse_env(env, "ZEN_BRE_HOST", HostAddr::localhost()) {
        Err(e) => {
            return Err(e);
        },
        Ok(v) => v,
    };
    let port = match parse_env(env, "ZEN_BRE_PORT", DEFAULT_PORT) {
        Err(e) => {
            return Err(e);
        },
        Ok(v) => v,
    };
    let max_body_bytes = match parse_env(env, "ZEN_BRE_MAX_BODY_BYTES", DEFAULT_MAX_BODY_BYTES) {
        Err(e) => {
            return Err(e);
        },
        Ok(v) => v,
    };
    let max_model_bytes = match parse_env(env, "ZEN_BRE_MAX_MODEL_BYTES", DEFAULT_MAX_MODEL_BYTES) {
        Err(e) => {
            return Err(e);
        },
        Ok(v) => v,
    };
    let max_total_model_bytes = match parse_env(
        env,
        "ZEN_BRE_MAX_TOTAL_MODEL_BYTES",
        DEFAULT_MAX_TOTAL_MODEL_BYTES,
    ) {
        Err(e) => {
            return Err(e);
        },
        Ok(v) => v,
    };
    let max_models = match parse_env(env, "ZEN_BRE_MAX_MODELS", DEFAULT_MAX_MODELS) {
        Err(e) => {
            return Err(e);
        },
        Ok(v) => v,
    };
    let max_concurrency = match parse_env(env, "ZEN_BRE_MAX_CONCURRENCY", DEFAULT_MAX_CONCURRENCY) {
        Err(e) => {
            return Err(e);
        },
        Ok(v) => v,
    };
    let evaluation_timeout_ms = match parse_env(
        env,
        "ZEN_BRE_EVALUATION_TIMEOUT_MS",
        DEFAULT_EVALUATION_TIMEOUT_MS,
    ) {
        Err(e) => {
            return Err(e);
        },
        Ok(v) => v,
    };
    let max_depth = match parse_env(env, "ZEN_BRE_MAX_DEPTH", DEFAULT_MAX_DEPTH) {
        Err(e) => {
            return Err(e);
        },
        Ok(v) => v,
    };
    let max_json_depth = match parse_env(env, "ZEN_BRE_MAX_JSON_DEPTH", DEFAULT_MAX_JSON_DEPTH) {
        Err(e) => {
            return Err(e);
        },
        Ok(v) => v,
    };
    let explicit = decisions_override.is_some();
    let decisions_dir = match decisions_override {
        Some(d) => d,
        None => join_path_exec(service_root.as_str(), "decisions"),
    };
    let state_dir = join_path_exec(service_root.as_str(), ".state");
    Ok(
        (
            Config {
                host,
                port,
                service_root,
                decisions_dir,
                state_dir,
                max_body_bytes,
                max_model_bytes,
                max_total_model_bytes,
                max_models,
                max_concurrency,
                evaluation_timeout_ms,
                max_depth,
                max_json_depth,
                allow_non_loopback: false,
            },
            explicit,
        ),
    )
}

/// What the command line asks for: run with a configuration, or print the
/// usage and stop.
pub enum StartupCommand {
    Run(Config),
    Help,
}

/// The mathematical value of a startup command.
pub enum StartupView {
    Run(ConfigView),
    Help,
}

/// The view of a startup outcome.
pub open spec fn startup_view(r: Result<StartupCommand, ConfigError>) -> Result<StartupView, ConfigErrorView> {
    match r {
        Ok(StartupCommand::Run(c)) => Ok(StartupView::Run(c@)),
        Ok(StartupCommand::Help) => Ok(StartupView::Help),
        Err(e) => Err(e@),
    }
}

/// The views of the arguments.
pub open spec fn args_view(args: Seq<InputText>) -> Seq<InputTextView> {
    Seq::new(args.len(), |i: int| args[i]@)
}

/// `a` is an option that takes a typed value: the address, the port and
/// the limits.
pub open spec fn valued_option(a: Seq<char>) -> bool {
    a == "--host"@ || a == "--port"@ || a == "--max-body-bytes"@ || a == "--max-model-bytes"@ || a == "--max-total-model-bytes"@ || a == "--max-models"@ || a == "--max-concurrency"@ || a == "--evaluation-timeout-ms"@ || a == "--max-depth"@ || a == "--max-json-depth"@
}

/// The configuration after valued option `a` is given the value `t`, or
/// `None` when `t` does not read as a value of the option's type.
pub open spec fn set_option(c: ConfigView, a: Seq<char>, t: InputTextView) -> Option<ConfigView> {
    if a == "--host"@ {
        match <HostAddr as TextValue>::spec_read(t) {
            Some(v) => Some(ConfigView { host: v, ..c }),
            None => None,
        }
    } else     if a == "--port"@ {
        match <u16 as TextValue>::spec_read(t) {
            Some(v) => Some(ConfigView { port: v, ..c }),
            None => None,
        }
    } else     if a == "--max-body-bytes"@ {
        match <usize as TextValue>::spec_read(t) {
            Some(v) => Some(ConfigView { max_body_bytes: v, ..c }),
            None => None,
        }
    } else     if a == "--max-model-bytes"@ {
        match <u64 as TextValue>::spec_read(t) {
            Some(v) => Some(ConfigView { max_model_bytes: v, ..c }),
            None => None,
        }
    } else     if a == "--max-total-model-bytes"@ {
        match <u64 as TextValue>::spec_read(t) {
            Some(v) => Some(ConfigView { max_total_model_bytes: v, ..c }),
            None => None,
        }
    } else     if a == "--max-models"@ {
        match <usize as TextValue>::spec_read(t) {
            Some(v) => Some(ConfigView { max_models: v, ..c }),
            None => None,
        }
    } else     if a == "--max-concurrency"@ {
        match <usize as TextValue>::spec_read(t) {
            Some(v) => Some(ConfigView { max_concurrency: v, ..c }),
            None => None,
        }
    } else     if a == "--evaluation-timeout-ms"@ {
        match <u64 as TextValue>::spec_read(t) {
            Some(v) => Some(ConfigView { evaluation_timeout_ms: v, ..c }),
            None => None,
        }
    } else     if a == "--max-depth"@ {
        match <u8 as TextValue>::spec_read(t) {
            Some(v) => Some(ConfigView { max_depth: v, ..c }),
            None => None,
        }
    } else     if a == "--max-json-depth"@ {
        match <usize as TextValue>::spec_read(t) {
            Some(v) => Some(ConfigView { max_json_depth: v, ..c }),
            None => None,
        }
    } else {
        None
    }
}

/// The outcome of the remaining arguments `args` applied, left to right, to
/// the configuration `c` (`explicit`: whether the decisions directory was
/// named explicitly). `--service-root` also moves the state directory and,
/// unless it was named explicitly, the decisions directory; `--help` or
/// `-h` stops with the usage; an option that needs a value takes the next
/// argument; an unknown argument is refused. When all are applied, the
/// configuration must validate.
pub open spec fn spec_apply_args(c: ConfigView, explicit: bool, args: Seq<InputTextView>) -> Result<
    StartupView,
    ConfigErrorView,
>
    decreases args.len(),
{
    if args.len() == 0 {
        match spec_validate(c) {
            Some(e) => Err(e),
            None => Ok(StartupView::Run(c)),
        }
    } else {
        let a = args[0].text;
        if a == "--service-root"@ {
            if args.len() < 2 {
                Err(ConfigErrorView::MissingValue { name: a })
            } else {
                let root = args[1].text;
                spec_apply_args(
                    ConfigView {
                        service_root: root,
                        state_dir: join_path(root, ".state"@),
                        decisions_dir: if explicit {
                            c.decisions_dir
                        } else {
                            join_path(root, "decisions"@)
                        },
                        ..c
                    },
                    explicit,
                    args.skip(2),
                )
            }
        } else if a == "--decisions-dir"@ {
            if args.len() < 2 {
                Err(ConfigErrorView::MissingValue { name: a })
            } else {
                spec_apply_args(ConfigView { decisions_dir: args[1].text, ..c }, true, args.skip(2))
            }
        } else if a == "--allow-non-loopback"@ {
            spec_apply_args(ConfigView { allow_non_loopback: true, ..c }, explicit, args.skip(1))
        } else if a == "--help"@ || a == "-h"@ {
            Ok(StartupView::Help)
        } else if valued_option(a) {
            if args.len() < 2 {
                Err(ConfigErrorView::MissingValue { name: a })
            } else {
                match set_option(c, a, args[1]) {
                    None => Err(ConfigErrorView::InvalidValue { name: a }),
                    Some(c2) => spec_apply_args(c2, explicit, args.skip(2)),
                }
            }
        } else {
            Err(ConfigErrorView::UnsupportedArgument { argument: a })
        }
    }
}

/// What the environment and the command line give together.
pub open spec fn spec_startup(
    env: Seq<(Seq<char>, EnvValueView)>,
    cwd: Option<Seq<char>>,
    args: Seq<InputTextView>,
) -> Result<StartupView, ConfigErrorView> {
    match spec_env_config(env, cwd) {
        Err(e) => Err(e),
        Ok((c, explicit)) => spec_apply_args(c, explicit, args),
    }
}

/// `a` is the text `b`.
fn is_text(a: &str, b: &str) -> (r: bool)
    ensures
        r == (a@ == b@),
{
    match compare_text(a, b) {
        TextOrder::Same => true,
        _ => false,
    }
}

/// Whether `a` is an option that takes a typed value.
fn is_valued_option(a: &str) -> (r: bool)
    ensures
        r == valued_option(a@),
{
    is_text(a, "--host") || is_text(a, "--port") || is_text(a, "--max-body-bytes") || is_text(a, "--max-model-bytes") || is_text(a, "--max-total-model-bytes") || is_text(a, "--max-models") || is_text(a, "--max-concurrency") || is_text(a, "--evaluation-timeout-ms") || is_text(a, "--max-depth") || is_text(a, "--max-json-depth")
}

/// Gives valued option `a` the value `value`; `false`, and no change, when
/// the value does not read as a value of the option's type.
fn set_valued_option(config: &mut Config, a: &str, value: &InputText) -> (r: bool)
    requires
        valued_option(a@),
    ensures
        match set_option(old(config)@, a@, value@) {
            Some(c2) => r && final(config)@ == c2,
            None => !r && final(config)@ == old(config)@,
        },
{
    if is_text(a, "--host") {
        match <HostAddr as TextValue>::read(value) {
            Some(v) => {
                config.host = v;
                true
            },
            None => false,
        }
    } else     if is_text(a, "--port") {
        match <u16 as TextValue>::read(value) {
            Some(v) => {
                config.port = v;
                true
            },
            None => false,
        }
    } else     if is_text(a, "--max-body-bytes") {
        match <usize as TextValue>::read(value) {
            Some(v) => {
                config.max_body_bytes = v;
                true
            },
            None => false,
        }
    } else     if is_text(a, "--max-model-bytes") {
        match <u64 as TextValue>::read(value) {
            Some(v) => {
                config.max_model_bytes = v;
                true
            },
            None => false,
        }
    } else     if is_text(a, "--max-total-model-bytes") {
        match <u64 as TextValue>::read(value) {
            Some(v) => {
                config.max_total_model_bytes = v;
                true
            },
            None => false,
        }
    } else     if is_text(a, "--max-models") {
        match <usize as TextValue>::read(value) {
            Some(v) => {
                config.max_models = v;
                true
            },
            None => false,
        }
    } else     if is_text(a, "--max-concurrency") {
        match <usize as TextValue>::read(value) {
            Some(v) => {
                config.max_concurrency = v;
                true
            },
            None => false,
        }
    } else     if is_text(a, "--evaluation-timeout-ms") {
        match <u64 as TextValue>::read(value) {
            Some(v) => {
                config.evaluation_timeout_ms = v;
                true
            },
            None => false,
        }
    } else     if is_text(a, "--max-depth") {
        match <u8 as TextValue>::read(value) {
            Some(v) => {
                config.max_depth = v;
                true
            },
            None => false,
        }
    } else     if is_text(a, "--max-json-depth") {
        match <usize as TextValue>::read(value) {
            Some(v) => {
                config.max_json_depth = v;
                true
            },
            None => false,
        }
    } else {
        false
    }
}

impl Config {
    /// Builds the configuration from the defaults, the environment `env`,
    /// the working directory `current_dir` (`None` when unavailable) and the
    /// command-line arguments after the program name, as `spec_startup`
    /// states; `--help` asks for the usage.
    pub fn from_env_and_args(env: &Vec<EnvVar>, current_dir: Option<String>, args: &Vec<InputText>) -> (r:
        Result<StartupCommand, ConfigError>)
        ensures
            startup_view(r) == spec_startup(
                env_view(env@),
                match current_dir {
                    Some(c) => Some(c@),
                    None => None,
                },
                args_view(args@),
            ),
    {
        let ghost argsv = args_view(args@);
        let (mut config, mut explicit) = match env_config(env, current_dir) {
            Ok(x) => x,
            Err(e) => {
                return Err(e);
            },
        };
        let mut i: usize = 0;
        assert(argsv.skip(0) =~= argsv);
        while i < args.len()
            invariant
                i <= args@.len(),
                argsv == args_view(args@),
                spec_startup(
                    env_view(env@),
                    match current_dir {
                        Some(c) => Some(c@),
                        None => None,
                    },
                    argsv,
                ) == spec_apply_args(config@, explicit, argsv.skip(i as int)),
            decreases args@.len() - i,
        {
            let ghost rest = argsv.skip(i as int);
            assert(rest[0] == args@[i as int]@);
            assert(rest.len() >= 2 ==> rest[1] == args@[i + 1]@);
            assert(rest.len() >= 2 ==> rest.skip(2) =~= argsv.skip(i + 2));
            assert(rest.skip(1) =~= argsv.skip(i + 1));
            let a = args[i].text.as_str();
            if is_text(a, "--service-root") {
                if args.len() - i < 2 {
                    return Err(ConfigError::MissingValue { name: a.to_owned() });
                }
                let root = args[i + 1].text.clone();
                config.state_dir = join_path_exec(root.as_str(), ".state");
                if !explicit {
                    config.decisions_dir = join_path_exec(root.as_str(), "decisions");
                }
                config.service_root = root;
                i = i + 2;
            } else if is_text(a, "--decisions-dir") {
                if args.len() - i < 2 {
                    return Err(ConfigError::MissingValue { name: a.to_owned() });
                }
                config.decisions_dir = args[i + 1].text.clone();
                explicit = true;
                i = i + 2;
            } else if is_text(a, "--allow-non-loopback") {
                config.allow_non_loopback = true;
                i = i + 1;
            } else if is_text(a, "--help") || is_text(a, "-h") {
                return Ok(StartupCommand::Help);
            } else if is_valued_option(a) {
                if args.len() - i < 2 {
                    return Err(ConfigError::MissingValue { name: a.to_owned() });
                }
                if !set_valued_option(&mut config, a, &args[i + 1]) {
                    return Err(ConfigError::InvalidValue { name: a.to_owned() });
                }
                i = i + 2;
            } else {
                return Err(ConfigError::UnsupportedArgument { argument: a.to_owned() });
            }
        }
        assert(argsv.skip(i as int).len() == 0);
        match config.validate() {
            Err(e) => Err(e),
            Ok(()) => Ok(StartupCommand::Run(config)),
        }
    }
}

/// The text of a configuration error.
pub open spec fn spec_config_message(e: ConfigErrorView) -> Seq<char> {
    match e {
        ConfigErrorView::WorkingDirectoryUnavailable => "working directory is unavailable"@,
        ConfigErrorView::InvalidValue { name } => name + " has an invalid value"@,
        ConfigErrorView::NotUnicode { name } => name + " must be valid Unicode"@,
        ConfigErrorView::MissingValue { name } => name + " requires a value"@,
        ConfigErrorView::UnsupportedArgument { argument } => "unsupported argument: "@ + argument,
        ConfigErrorView::NonLoopbackNotAllowed => "non-loopback binding requires the explicit --allow-non-loopback option"@,
        ConfigErrorView::ZeroLimit => "resource limits must be greater than zero"@,
        ConfigErrorView::ModelLimitAboveTotal => "max model bytes cannot exceed the total model byte limit"@,
    }
}

impl ConfigError {
    /// The error's text.
    pub fn message(&self) -> (r: String)
        ensures
            r@ == spec_config_message(self@),
    {
        match self {
            ConfigError::WorkingDirectoryUnavailable => "working directory is unavailable".to_owned(),
            ConfigError::InvalidValue { name } => name.clone().concat(" has an invalid value"),
            ConfigError::NotUnicode { name } => name.clone().concat(" must be valid Unicode"),
            ConfigError::MissingValue { name } => name.clone().concat(" requires a value"),
            ConfigError::UnsupportedArgument { argument } => "unsupported argument: ".to_owned().concat(
                argument.as_str(),
            ),
            ConfigError::NonLoopbackNotAllowed => "non-loopback binding requires the explicit --allow-non-loopback option".to_owned(),
            ConfigError::ZeroLimit => "resource limits must be greater than zero".to_owned(),
            ConfigError::ModelLimitAboveTotal => "max model bytes cannot exceed the total model byte limit".to_owned(),
        }
    }
}

} // verus!
