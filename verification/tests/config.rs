use lasso_zen_bre::config::{
    join_path_exec, lookup_env, parse_arg, parse_env, required_arg, Config, ConfigError, EnvValue,
    EnvVar, StartupCommand,
};
use lasso_zen_bre::values::{HostAddr, InputText};

fn text(s: &str) -> InputText {
    InputText { text: s.to_string(), ip: None }
}

fn address(s: &str, ip: HostAddr) -> InputText {
    InputText { text: s.to_string(), ip: Some(ip) }
}

fn var(name: &str, value: &str) -> EnvVar {
    EnvVar { name: name.to_string(), value: EnvValue::Text(text(value)) }
}

fn args(list: &[&str]) -> Vec<InputText> {
    list.iter().map(|a| text(a)).collect()
}

fn start(env: Vec<EnvVar>, argv: Vec<InputText>) -> Result<StartupCommand, ConfigError> {
    Config::from_env_and_args(&env, Some("/srv".to_string()), &argv)
}

fn run(r: Result<StartupCommand, ConfigError>) -> Config {
    match r {
        Ok(StartupCommand::Run(c)) => c,
        Ok(StartupCommand::Help) => panic!("expected a configuration, got the usage"),
        Err(e) => panic!("expected a configuration, got {}", e.message()),
    }
}

fn error(r: Result<StartupCommand, ConfigError>) -> ConfigError {
    match r {
        Err(e) => e,
        Ok(_) => panic!("expected a configuration error"),
    }
}

#[test]
fn defaults_apply_without_environment_or_arguments() {
    let c = run(start(vec![], vec![]));
    assert_eq!(c.host, HostAddr::V4([127, 0, 0, 1]));
    assert_eq!(c.port, 18089);
    assert_eq!(c.service_root, "/srv");
    assert_eq!(c.decisions_dir, "/srv/decisions");
    assert_eq!(c.state_dir, "/srv/.state");
    assert_eq!(c.max_body_bytes, 1_048_576);
    assert_eq!(c.max_model_bytes, 4 * 1024 * 1024);
    assert_eq!(c.max_total_model_bytes, 64 * 1024 * 1024);
    assert_eq!(c.max_models, 1000);
    assert_eq!(c.max_concurrency, 32);
    assert_eq!(c.evaluation_timeout_ms, 5000);
    assert_eq!(c.max_depth, 10);
    assert_eq!(c.max_json_depth, 64);
    assert!(!c.allow_non_loopback);
}

#[test]
fn environment_overrides_defaults() {
    let env = vec![
        var("SERVICE_ROOT", "/data/zen"),
        var("ZEN_BRE_PORT", "9000"),
        var("ZEN_BRE_MAX_MODELS", "7"),
    ];
    let c = run(start(env, vec![]));
    assert_eq!(c.service_root, "/data/zen");
    assert_eq!(c.decisions_dir, "/data/zen/decisions");
    assert_eq!(c.state_dir, "/data/zen/.state");
    assert_eq!(c.port, 9000);
    assert_eq!(c.max_models, 7);
    assert!(!c.allow_non_loopback);
}

#[test]
fn arguments_override_the_environment() {
    let env = vec![var("ZEN_BRE_PORT", "9000"), var("ZEN_BRE_MAX_DEPTH", "3")];
    let c = run(start(env, args(&["--port", "9100", "--max-json-depth", "8"])));
    assert_eq!(c.port, 9100);
    assert_eq!(c.max_depth, 3);
    assert_eq!(c.max_json_depth, 8);
}

#[test]
fn service_root_option_moves_the_derived_directories() {
    let c = run(start(vec![], args(&["--service-root", "/opt/zen/"])));
    assert_eq!(c.service_root, "/opt/zen/");
    assert_eq!(c.decisions_dir, "/opt/zen/decisions");
    assert_eq!(c.state_dir, "/opt/zen/.state");
}

#[test]
fn an_explicit_decisions_directory_survives_a_later_service_root() {
    let c = run(start(
        vec![],
        args(&["--decisions-dir", "/models", "--service-root", "/opt/zen"]),
    ));
    assert_eq!(c.decisions_dir, "/models");
    assert_eq!(c.state_dir, "/opt/zen/.state");

    let env = vec![var("ZEN_BRE_DECISIONS_DIR", "rules")];
    let c = run(start(env, args(&["--service-root", "/opt/zen"])));
    assert_eq!(c.decisions_dir, "rules");
}

#[test]
fn help_asks_for_the_usage() {
    assert!(matches!(start(vec![], args(&["--help"])), Ok(StartupCommand::Help)));
    assert!(matches!(start(vec![], args(&["--port", "1", "-h", "--bogus"])), Ok(StartupCommand::Help)));
}

#[test]
fn a_missing_working_directory_refuses_the_configuration() {
    let env = vec![var("SERVICE_ROOT", "/data")];
    let e = error(Config::from_env_and_args(&env, None, &vec![]));
    assert!(matches!(e, ConfigError::WorkingDirectoryUnavailable));
    assert_eq!(e.message(), "working directory is unavailable");
}

#[test]
fn an_invalid_environment_value_is_named() {
    let e = error(start(vec![var("ZEN_BRE_PORT", "eighty")], vec![]));
    assert!(matches!(&e, ConfigError::InvalidValue { name } if name == "ZEN_BRE_PORT"));
    assert_eq!(e.message(), "ZEN_BRE_PORT has an invalid value");
    let e = error(start(vec![var("ZEN_BRE_MAX_DEPTH", "256")], vec![]));
    assert_eq!(e.message(), "ZEN_BRE_MAX_DEPTH has an invalid value");
}

#[test]
fn a_non_unicode_variable_is_refused() {
    let env = vec![EnvVar { name: "ZEN_BRE_HOST".to_string(), value: EnvValue::NotUnicode }];
    let e = error(start(env, vec![]));
    assert_eq!(e.message(), "ZEN_BRE_HOST must be valid Unicode");
}

#[test]
fn an_option_without_value_is_refused() {
    let e = error(start(vec![], args(&["--port"])));
    assert!(matches!(&e, ConfigError::MissingValue { name } if name == "--port"));
    assert_eq!(e.message(), "--port requires a value");
    let e = error(start(vec![], args(&["--service-root"])));
    assert_eq!(e.message(), "--service-root requires a value");
}

#[test]
fn an_invalid_option_value_is_refused() {
    let e = error(start(vec![], args(&["--max-models", "-1"])));
    assert_eq!(e.message(), "--max-models has an invalid value");
}

#[test]
fn an_unknown_argument_is_refused() {
    let e = error(start(vec![], args(&["--verbose"])));
    assert!(matches!(&e, ConfigError::UnsupportedArgument { argument } if argument == "--verbose"));
    assert_eq!(e.message(), "unsupported argument: --verbose");
}

#[test]
fn non_loopback_binding_needs_the_explicit_option() {
    let any = address("0.0.0.0", HostAddr::V4([0, 0, 0, 0]));
    let e = error(start(vec![], vec![text("--host"), any.clone_text()]));
    assert!(matches!(e, ConfigError::NonLoopbackNotAllowed));
    assert_eq!(
        e.message(),
        "non-loopback binding requires the explicit --allow-non-loopback option"
    );
    let c = run(start(vec![], vec![text("--host"), any.clone_text(), text("--allow-non-loopback")]));
    assert_eq!(c.host, HostAddr::V4([0, 0, 0, 0]));
    let v6 = address("::1", HostAddr::V6([0, 0, 0, 0, 0, 0, 0, 1]));
    let c = run(start(vec![], vec![text("--host"), v6]));
    assert_eq!(c.host, HostAddr::V6([0, 0, 0, 0, 0, 0, 0, 1]));
}

trait CloneText {
    fn clone_text(&self) -> InputText;
}

impl CloneText for InputText {
    fn clone_text(&self) -> InputText {
        InputText { text: self.text.clone(), ip: self.ip }
    }
}

#[test]
fn zero_limits_are_refused() {
    let e = error(start(vec![], args(&["--max-concurrency", "0"])));
    assert!(matches!(e, ConfigError::ZeroLimit));
    assert_eq!(e.message(), "resource limits must be greater than zero");
    let e = error(start(vec![var("ZEN_BRE_EVALUATION_TIMEOUT_MS", "0")], vec![]));
    assert!(matches!(e, ConfigError::ZeroLimit));
}

#[test]
fn the_model_limit_may_not_exceed_the_total() {
    let e = error(start(vec![], args(&["--max-model-bytes", "10", "--max-total-model-bytes", "9"])));
    assert!(matches!(e, ConfigError::ModelLimitAboveTotal));
    assert_eq!(e.message(), "max model bytes cannot exceed the total model byte limit");
}

#[test]
fn every_started_configuration_validates() {
    let c = run(start(vec![], args(&["--max-model-bytes", "10", "--max-total-model-bytes", "10"])));
    assert!(c.validate().is_ok());
}

#[test]
fn the_first_variable_of_a_name_counts() {
    let env = vec![var("ZEN_BRE_PORT", "1"), var("ZEN_BRE_PORT", "2")];
    assert!(matches!(lookup_env(&env, "ZEN_BRE_PORT"), EnvValue::Text(t) if t.text == "1"));
    assert!(matches!(lookup_env(&env, "ZEN_BRE_HOST"), EnvValue::Missing));
}

#[test]
fn parse_env_reads_or_defaults() {
    let env = vec![var("ZEN_BRE_MAX_MODELS", "+12")];
    assert!(matches!(parse_env(&env, "ZEN_BRE_MAX_MODELS", 5usize), Ok(12)));
    assert!(matches!(parse_env(&env, "ZEN_BRE_MAX_CONCURRENCY", 5usize), Ok(5)));
    let e = parse_env(&env, "ZEN_BRE_MAX_MODELS", 5u8).map(|_| ());
    assert!(e.is_ok());
    let env = vec![var("ZEN_BRE_MAX_DEPTH", "300")];
    assert!(matches!(parse_env(&env, "ZEN_BRE_MAX_DEPTH", 5u8), Err(ConfigError::InvalidValue { .. })));
}

#[test]
fn required_and_parsed_arguments() {
    assert!(matches!(required_arg("--decisions-dir", Some(text("/m"))), Ok(t) if t.text == "/m"));
    let e = required_arg("--decisions-dir", None).err().expect("missing value");
    assert_eq!(e.message(), "--decisions-dir requires a value");
    assert!(matches!(parse_arg::<u16>("--port", Some(text("65535"))), Ok(65535)));
    let e = parse_arg::<u16>("--port", Some(text("65536"))).err().expect("out of range");
    assert_eq!(e.message(), "--port has an invalid value");
    let e = parse_arg::<u16>("--port", None).err().expect("missing");
    assert_eq!(e.message(), "--port requires a value");
}

#[test]
fn join_adds_one_separator() {
    assert_eq!(join_path_exec("/srv", "decisions"), "/srv/decisions");
    assert_eq!(join_path_exec("/srv/", ".state"), "/srv/.state");
    assert_eq!(join_path_exec("", "decisions"), "decisions");
}

#[test]
fn only_the_option_allows_a_non_loopback_host() {
    let env = vec![
        var("SERVICE_ROOT", "/srv"),
        EnvVar {
            name: "ZEN_BRE_HOST".to_string(),
            value: EnvValue::Text(address("0.0.0.0", HostAddr::V4([0, 0, 0, 0]))),
        },
        var("ZEN_BRE_ALLOW_NON_LOOPBACK", "true"),
    ];
    let e = error(start(env, vec![]));
    assert_eq!(
        e.message(),
        "non-loopback binding requires the explicit --allow-non-loopback option"
    );
}

#[test]
fn the_last_option_wins_then_the_environment_then_the_default() {
    let env = vec![
        var("ZEN_BRE_PORT", "9000"),
        var("ZEN_BRE_MAX_MODELS", "9"),
        var("ZEN_BRE_DECISIONS_DIR", "/env/models"),
    ];
    let c = run(start(
        env,
        args(&["--port", "1", "--service-root", "/a", "--port", "2", "--service-root", "/b"]),
    ));
    assert_eq!(c.port, 2);
    assert_eq!(c.max_models, 9);
    assert_eq!(c.max_concurrency, 32);
    assert_eq!(c.service_root, "/b");
    assert_eq!(c.state_dir, "/b/.state");
    assert_eq!(c.decisions_dir, "/env/models");
    let c = run(start(vec![], args(&["--decisions-dir", "/x", "--decisions-dir", "/y"])));
    assert_eq!(c.decisions_dir, "/y");
}
