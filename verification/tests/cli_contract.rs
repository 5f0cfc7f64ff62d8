use xin::app_config::{
    apply_token_file, ensure_minimal_fastmail_config, select_token_account, set_default_account, token_file_for,
    AuthConfigFile, EnvVars,
};
use xin::cli::{
    command_name, AuthCommand, AuthSetTokenArgs, Command, ConfigCommand, LabelsCommand, LabelsListArgs,
    MessagesCommand, MessagesSearchArgs, ThreadCommand, ThreadGetArgs,
};
use xin::config::{resolve_runtime_config, AuthConfig, Resolution};
use xin::stream::failure_line;

fn s(v: &str) -> String {
    v.to_string()
}

fn env(pairs: &[(&str, &str)]) -> EnvVars {
    EnvVars { vars: pairs.iter().map(|(k, v)| (s(k), s(v))).collect() }
}

const CFG_PATH: &str = "/tmp/xin-case/xin-config.json";

#[test]
fn mailboxes_alias_exists_and_has_its_own_command_name() {
    assert_eq!(command_name(&Command::Mailboxes(LabelsCommand::List(LabelsListArgs {}))), "mailboxes.list");
    assert_eq!(command_name(&Command::Labels(LabelsCommand::List(LabelsListArgs {}))), "labels.list");
}

#[test]
fn command_names_for_nested_subcommands_are_stable() {
    let search = MessagesSearchArgs { query: None, max: None, page: None, filter_json: None };
    assert_eq!(command_name(&Command::Messages(MessagesCommand::Search(search))), "messages.search");
    let get = ThreadGetArgs { thread_id: s("T123"), full: false };
    assert_eq!(command_name(&Command::Thread(ThreadCommand::Get(get))), "thread.get");
}

#[test]
fn config_init_creates_config_at_overridden_path_and_is_idempotent() {
    let e = env(&[("XIN_CONFIG_PATH", CFG_PATH)]);
    assert_eq!(command_name(&Command::Config(ConfigCommand::Init)), "config.init");
    let (cfg, path, created) = ensure_minimal_fastmail_config(None, &e).unwrap();
    assert!(created);
    assert_eq!(path, CFG_PATH);
    let (_, path2, created2) = ensure_minimal_fastmail_config(Some((cfg, path)), &e).unwrap();
    assert!(!created2);
    assert_eq!(path2, CFG_PATH);
}

#[test]
fn auth_set_token_writes_token_file_and_updates_config() {
    let e = env(&[("XIN_CONFIG_PATH", CFG_PATH)]);
    let set_token = Command::Auth(AuthCommand::SetToken(AuthSetTokenArgs { token: s("tok_123") }));
    assert_eq!(command_name(&set_token), "auth.set_token");
    let (cfg, _, _) = ensure_minimal_fastmail_config(None, &e).unwrap();
    let account = select_token_account(&cfg, None).unwrap();
    assert_eq!(account, "fastmail");
    let token_file = token_file_for(&cfg, &account, &e).unwrap();
    assert_eq!(token_file, "/tmp/xin-case/tokens/fastmail.token");
    let cfg = apply_token_file(cfg, &account, &token_file);
    assert!(matches!(
        cfg.accounts[0].1.auth,
        AuthConfigFile::Bearer { token: None, token_file: Some(ref f), .. } if f == "/tmp/xin-case/tokens/fastmail.token"
    ));
}

#[test]
fn config_set_default_unknown_account_is_usage_error() {
    let e = env(&[("XIN_CONFIG_PATH", CFG_PATH)]);
    let (cfg, _, _) = ensure_minimal_fastmail_config(None, &e).unwrap();
    let err = set_default_account(cfg, "does-not-exist").err().unwrap();
    assert_eq!(err.kind, "xinUsageError");
}

#[test]
fn config_show_effective_prefers_env_over_config() {
    let e = env(&[
        ("XIN_CONFIG_PATH", CFG_PATH),
        ("XIN_BASE_URL", "https://example.invalid"),
        ("XIN_TOKEN", "dummy"),
    ]);
    let (cfg, _, _) = ensure_minimal_fastmail_config(None, &e).unwrap();
    match resolve_runtime_config(None, &e, Some(&cfg), &vec![]) {
        Resolution::Ready(Ok(r)) => {
            assert_eq!(r.config.base_url, "https://example.invalid");
            assert!(matches!(r.config.auth, AuthConfig::Bearer(_)));
        }
        _ => panic!("expected a configuration"),
    }
}

#[test]
fn default_output_is_json_envelope() {
    // No configuration file and nothing in the environment: `labels list` is not available.
    let e = env(&[]);
    assert_eq!(command_name(&Command::Labels(LabelsCommand::List(LabelsListArgs {}))), "labels.list");
    match resolve_runtime_config(None, &e, None, &vec![]) {
        Resolution::Ready(Err(err)) => {
            assert_eq!(err.kind, "xinNotImplemented");
            assert_eq!(
                err.message,
                "missing XIN_BASE_URL (or XIN_SESSION_URL) environment variable, and no config file found"
            );
        }
        _ => panic!("expected an error"),
    }
}

#[test]
fn account_flag_is_reflected_in_envelope() {
    // The account given with --account is the one resolution reports, and without any
    // setup the command is still reported as not available.
    let e = env(&[]);
    match resolve_runtime_config(Some("fastmail"), &e, None, &vec![]) {
        Resolution::Ready(Err(err)) => assert_eq!(err.kind, "xinNotImplemented"),
        _ => panic!("expected an error"),
    }
    let e = env(&[("XIN_BASE_URL", "https://example.invalid"), ("XIN_TOKEN", "t")]);
    match resolve_runtime_config(Some("fastmail"), &e, None, &vec![]) {
        Resolution::Ready(Ok(r)) => assert_eq!(r.account, Some(s("fastmail"))),
        _ => panic!("expected a configuration"),
    }
}

#[test]
fn missing_credentials_with_a_base_url_is_a_config_error() {
    let e = env(&[("XIN_BASE_URL", "https://example.invalid")]);
    match resolve_runtime_config(None, &e, None, &vec![]) {
        Resolution::Ready(Err(err)) => assert_eq!(err.kind, "xinConfigError"),
        _ => panic!("expected an error"),
    }
}

#[test]
fn watch_without_envelope_reports_failures_on_one_line() {
    assert_eq!(
        failure_line(false, "watch", "xinUsageError", "invalid page token: \"x\""),
        "{\"type\":\"error\",\"error\":{\"kind\":\"xinUsageError\",\"message\":\"invalid page token: \\\"x\\\"\"}}"
    );
    assert_eq!(failure_line(true, "watch", "xinUsageError", "bad"), "ERR\twatch\txinUsageError\tbad");
}
