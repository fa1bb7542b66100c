use openapi_snapshot::cli::{
    Cli, Command, CommonArgs, OutputProfile, WatchArgs, DEFAULT_OUT, DEFAULT_OUTLINE_OUT,
    DEFAULT_URL,
};
use openapi_snapshot::config::{
    parse_reduce_list, push_unique, reduce_key, validate_config, Config, Mode, ReduceKey,
};
use openapi_snapshot::errors::AppError;
use std::path::PathBuf;

fn common() -> CommonArgs {
    CommonArgs {
        url: None,
        out: None,
        outline_out: None,
        reduce: None,
        profile: OutputProfile::Full,
        minify: true,
        timeout_ms: 10_000,
        header: Vec::new(),
        stdout: false,
    }
}

fn watch_cli() -> Cli {
    Cli {
        command: Some(Command::Watch(WatchArgs { interval_ms: 500, no_outline: false })),
        common: common(),
    }
}

#[test]
fn config_parse_reduce_list_accepts_paths_components() {
    let keys = parse_reduce_list("paths,components").unwrap();
    assert_eq!(keys, vec![ReduceKey::Paths, ReduceKey::Components]);
}

#[test]
fn config_parse_reduce_list_rejects_mixed_case() {
    let err = parse_reduce_list("Paths").unwrap_err();
    assert!(matches!(err, AppError::Reduce(_)));
}

#[test]
fn config_defaults_apply_for_watch_mode() {
    let (config, mode) = Config::from_cli(watch_cli()).unwrap();
    assert_eq!(config.url, DEFAULT_URL);
    assert!(config.url_from_default);
    assert_eq!(config.out.unwrap(), PathBuf::from(DEFAULT_OUT));
    assert_eq!(config.reduce, vec![ReduceKey::Paths, ReduceKey::Components]);
    assert!(matches!(mode, Mode::Watch { .. }));
}

#[test]
fn lib_parse_reduce_list_accepts_paths_components() {
    let keys = parse_reduce_list("paths,components").unwrap();
    assert_eq!(keys, vec![ReduceKey::Paths, ReduceKey::Components]);
}

#[test]
fn lib_parse_reduce_list_rejects_mixed_case() {
    let err = parse_reduce_list("Paths").unwrap_err();
    assert!(matches!(err, AppError::Reduce(_)));
}

#[test]
fn lib_defaults_apply_for_watch_mode() {
    let (config, mode) = Config::from_cli(watch_cli()).unwrap();
    assert_eq!(config.url, DEFAULT_URL);
    assert_eq!(config.out.unwrap(), PathBuf::from(DEFAULT_OUT));
    assert_eq!(config.reduce, vec![ReduceKey::Paths, ReduceKey::Components]);
    assert!(matches!(mode, Mode::Watch { .. }));
}

#[test]
fn watch_mode_keeps_its_interval_and_adds_the_outline() {
    let (config, mode) = Config::from_cli(watch_cli()).unwrap();
    match mode {
        Mode::Watch { interval_ms } => assert_eq!(interval_ms, 500),
        Mode::Snapshot => panic!("watch expected"),
    }
    assert_eq!(config.outline_out, Some(PathBuf::from(DEFAULT_OUTLINE_OUT)));
    assert_eq!(config.timeout_ms, 10_000);
    assert!(config.minify);
}

#[test]
fn watch_mode_without_outline_has_no_second_destination() {
    let cli = Cli {
        command: Some(Command::Watch(WatchArgs { interval_ms: 500, no_outline: true })),
        common: common(),
    };
    let (config, _) = Config::from_cli(cli).unwrap();
    assert_eq!(config.outline_out, None);
}

#[test]
fn snapshot_mode_has_no_default_reduce() {
    let mut args = common();
    args.url = Some("http://example.test/doc.json".to_string());
    args.header = vec!["X-Token: abc".to_string()];
    let (config, mode) = Config::from_cli(Cli { command: None, common: args }).unwrap();
    assert!(matches!(mode, Mode::Snapshot));
    assert!(config.reduce.is_empty());
    assert_eq!(config.url, "http://example.test/doc.json");
    assert!(!config.url_from_default);
    assert_eq!(config.outline_out, None);
    assert_eq!(config.headers, vec!["X-Token: abc".to_string()]);
}

#[test]
fn stdout_needs_no_destination() {
    let mut args = common();
    args.stdout = true;
    let (config, _) = Config::from_cli(Cli { command: None, common: args }).unwrap();
    assert_eq!(config.out, None);
    assert!(validate_config(&config).is_ok());
}

#[test]
fn outline_profile_watch_has_no_default_reduce() {
    let mut args = common();
    args.profile = OutputProfile::Outline;
    let cli = Cli {
        command: Some(Command::Watch(WatchArgs { interval_ms: 2_000, no_outline: false })),
        common: args,
    };
    let (config, _) = Config::from_cli(cli).unwrap();
    assert!(config.reduce.is_empty());
    assert_eq!(config.outline_out, None);
    assert!(validate_config(&config).is_ok());
}

#[test]
fn from_cli_fails_on_a_bad_reduce_list() {
    let mut args = common();
    args.reduce = Some("paths,info".to_string());
    let err = Config::from_cli(Cli { command: None, common: args }).unwrap_err();
    assert!(matches!(err, AppError::Reduce(_)));
    assert_eq!(err.message(), "unsupported reduce value: info");
}

fn config_for_validation() -> Config {
    Config {
        url: DEFAULT_URL.to_string(),
        url_from_default: true,
        out: Some(PathBuf::from("out.json")),
        outline_out: None,
        reduce: Vec::new(),
        profile: OutputProfile::Full,
        minify: false,
        timeout_ms: 10_000,
        headers: Vec::new(),
        stdout: false,
    }
}

#[test]
fn validate_config_requires_a_destination() {
    let mut config = config_for_validation();
    config.out = None;
    let err = validate_config(&config).unwrap_err();
    assert!(matches!(err, AppError::Usage(_)));
    assert_eq!(err.message(), "--out is required unless --stdout is set.");
    assert_eq!(err.exit_code(), 1);
}

#[test]
fn validate_config_rejects_reduce_with_outline_profile() {
    let mut config = config_for_validation();
    config.profile = OutputProfile::Outline;
    config.reduce = vec![ReduceKey::Paths];
    let err = validate_config(&config).unwrap_err();
    assert!(matches!(err, AppError::Usage(_)));
    assert_eq!(err.message(), "--reduce is not supported with --profile outline.");
}

#[test]
fn validate_config_rejects_outline_out_with_outline_profile() {
    let mut config = config_for_validation();
    config.profile = OutputProfile::Outline;
    config.outline_out = Some(PathBuf::from("outline.json"));
    let err = validate_config(&config).unwrap_err();
    assert_eq!(err.message(), "--outline-out is not supported with --profile outline.");
}

#[test]
fn validate_config_accepts_full_profile_with_both_destinations() {
    let mut config = config_for_validation();
    config.outline_out = Some(PathBuf::from("outline.json"));
    config.reduce = vec![ReduceKey::Paths, ReduceKey::Components];
    assert!(validate_config(&config).is_ok());
}

#[test]
fn parse_reduce_list_trims_skips_and_collapses() {
    let keys = parse_reduce_list(" components , ,paths,components,").unwrap();
    assert_eq!(keys, vec![ReduceKey::Components, ReduceKey::Paths]);
}

#[test]
fn parse_reduce_list_rejects_empty_lists() {
    assert_eq!(parse_reduce_list("").unwrap_err().message(), "reduce list cannot be empty");
    assert_eq!(parse_reduce_list(" , ,").unwrap_err().message(), "reduce list cannot be empty");
}

#[test]
fn parse_reduce_list_names_the_faulty_value() {
    let err = parse_reduce_list("paths, Components").unwrap_err();
    assert_eq!(err.message(), "reduce values must be lowercase: Components");
    let err = parse_reduce_list("paths,info").unwrap_err();
    assert_eq!(err.message(), "unsupported reduce value: info");
    assert_eq!(err.exit_code(), 3);
}

#[test]
fn reduce_key_goes_by_value_and_lowercase_form() {
    assert_eq!(reduce_key("paths", "paths").unwrap(), ReduceKey::Paths);
    assert_eq!(reduce_key("components", "components").unwrap(), ReduceKey::Components);
    assert_eq!(
        reduce_key("INFO", "info").unwrap_err().message(),
        "reduce values must be lowercase: INFO"
    );
    assert_eq!(reduce_key("info", "info").unwrap_err().message(), "unsupported reduce value: info");
}

#[test]
fn push_unique_keeps_each_key_once() {
    let mut keys = vec![ReduceKey::Paths];
    push_unique(&mut keys, ReduceKey::Paths);
    assert_eq!(keys, vec![ReduceKey::Paths]);
    push_unique(&mut keys, ReduceKey::Components);
    assert_eq!(keys, vec![ReduceKey::Paths, ReduceKey::Components]);
}

#[test]
fn reduce_key_names() {
    assert_eq!(ReduceKey::Paths.as_str(), "paths");
    assert_eq!(ReduceKey::Components.as_str(), "components");
}

#[test]
fn outline_profile_rejects_reduce_flag() {
    let mut args = common();
    args.url = Some("http://localhost:1/openapi.json".to_string());
    args.out = Some(PathBuf::from("openapi.outline.json"));
    args.profile = OutputProfile::Outline;
    args.reduce = Some("paths".to_string());
    let (config, _) = Config::from_cli(Cli { command: None, common: args }).unwrap();
    let err = validate_config(&config).unwrap_err();
    assert_eq!(err.exit_code(), 1);
}
