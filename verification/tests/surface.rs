use nuts::commands::ask::AskCommand;
use nuts::commands::call::CallOptions;
use nuts::commands::config::ConfigCommand;
use nuts::commands::discover::DiscoverCommand;
use nuts::commands::explain::ExplainCommand;
use nuts::commands::fix::FixCommand;
use nuts::commands::generate::GenerateCommand;
use nuts::commands::monitor::MonitorCommand;
use nuts::commands::predict::PredictCommand;
use nuts::commands::test::TestCommand;
use nuts::completer::NutsCompleter;
use nuts::config::Config;
use nuts::shell::ShellError;
use nuts::story::StoryMode;

fn config_with(api: Option<&str>, anthropic: Option<&str>) -> Config {
    Config {
        api_key: api.map(|s| s.to_string()),
        anthropic_api_key: anthropic.map(|s| s.to_string()),
    }
}

#[test]
fn merge_keeps_set_keys_and_fills_unset_ones() {
    let merged = config_with(None, Some("keep")).merge(config_with(Some("fill"), Some("lose")));
    assert_eq!(merged.api_key.as_deref(), Some("fill"));
    assert_eq!(merged.anthropic_api_key.as_deref(), Some("keep"));
    let both_unset = config_with(None, None).merge(config_with(None, None));
    assert_eq!(both_unset.api_key, None);
    assert_eq!(both_unset.anthropic_api_key, None);
}

#[test]
fn default_config_has_no_keys() {
    let c = Config::default();
    assert_eq!(c.api_key, None);
    assert_eq!(c.anthropic_api_key, None);
}

#[test]
fn commands_keep_the_configuration_they_were_built_with() {
    let c = config_with(Some("local-test-key"), None);
    assert_eq!(AskCommand::new(c.clone()).config.api_key, c.api_key);
    assert_eq!(ConfigCommand::new(c.clone()).config.api_key, c.api_key);
    assert_eq!(DiscoverCommand::new(c.clone()).config.api_key, c.api_key);
    assert_eq!(ExplainCommand::new(c.clone()).config.api_key, c.api_key);
    assert_eq!(FixCommand::new(c.clone()).config.api_key, c.api_key);
    assert_eq!(GenerateCommand::new(c.clone()).config.api_key, c.api_key);
    assert_eq!(MonitorCommand::new(c.clone()).config.api_key, c.api_key);
    assert_eq!(PredictCommand::new(c.clone()).config.api_key, c.api_key);
    assert_eq!(TestCommand::new(c.clone()).config.api_key, c.api_key);
}

#[test]
fn story_mode_keeps_flow_and_key() {
    let story = StoryMode::new("checkout".to_string(), "local-test-key".to_string());
    assert_eq!(story.flow, "checkout");
    assert_eq!(story.api_key, "local-test-key");
}

#[test]
fn call_options_default_is_a_plain_get() {
    let o = CallOptions::default();
    assert_eq!(o.method, "GET");
    assert_eq!(o.url, "");
    assert!(o.headers.is_empty());
    assert_eq!(o.body, None);
    assert!(!o.follow_redirects);
    assert_eq!(o.timeout_ms, Some(30000));
    assert!(!o.verbose);
    assert!(!o.include_headers);
    assert_eq!(o.output_file, None);
    assert_eq!(o.user_agent.as_deref(), Some("nuts"));
    assert_eq!(o.auth, None);
    assert_eq!(o.bearer_token, None);
    assert!(!o.insecure);
    assert_eq!(o.max_retries, 0);
    assert!(o.form_data.is_empty());
}

#[test]
fn completer_lists_every_command_and_alias() {
    let completer = NutsCompleter::new();
    assert_eq!(completer.commands.len(), 17);
    assert_eq!(completer.aliases.len(), 5);
    assert!(completer.commands.iter().any(|(name, _)| name == "call"));
    assert!(completer.commands.iter().any(|(name, _)| name == "collection story"));
    assert!(completer.aliases.iter().any(|(short, full)| short == "p" && full == "perf"));
}

#[test]
fn completions_offer_base_and_collection_commands_by_prefix() {
    let completer = NutsCompleter::new();
    assert_eq!(
        completer.get_command_completions("col"),
        vec![
            "collection",
            "collection new",
            "collection add",
            "collection run",
            "collection mock",
            "collection perf",
            "collection docs",
            "collection list",
        ]
    );
    assert_eq!(
        completer.get_command_completions("collection "),
        vec![
            "collection new",
            "collection add",
            "collection run",
            "collection mock",
            "collection perf",
            "collection docs",
            "collection list",
        ]
    );
    assert_eq!(completer.get_command_completions("mock"), vec!["mock"]);
    assert!(completer.get_command_completions("zzz").is_empty());
}

#[test]
fn completions_expand_an_exactly_matching_alias_first() {
    let completer = NutsCompleter::new();
    assert_eq!(completer.get_command_completions("p"), vec!["perf", "perf"]);
    assert_eq!(completer.get_command_completions("h"), vec!["help", "help"]);
    assert_eq!(completer.get_command_completions("q"), vec!["quit"]);
    assert_eq!(completer.get_command_completions("s"), vec!["collection story", "security"]);
}

#[test]
fn completions_offer_http_verbs_after_call_or_perf() {
    let completer = NutsCompleter::new();
    assert_eq!(completer.get_command_completions("call G"), vec!["call GET"]);
    assert_eq!(
        completer.get_command_completions("call P"),
        vec!["call POST", "call PUT", "call PATCH"]
    );
    assert_eq!(
        completer.get_command_completions("perf "),
        vec!["perf GET", "perf POST", "perf PUT", "perf DELETE", "perf PATCH"]
    );
}

#[test]
fn completions_offer_option_flags_on_perf_and_security_lines() {
    let completer = NutsCompleter::new();
    assert_eq!(completer.get_command_completions("perf --d"), vec!["--duration", "--deep"]);
    assert_eq!(
        completer.get_command_completions("security --"),
        vec!["--analyze", "--users", "--duration", "--deep"]
    );
    // the last token is the typed command itself, which no flag starts with
    assert!(completer.get_command_completions("security ").is_empty());
}

#[test]
fn shell_errors_carry_their_category() {
    assert_eq!(ShellError::ApiError("boom".to_string()).message(), "API Error: boom");
    assert_eq!(ShellError::ConfigError("no key".to_string()).message(), "Config Error: no key");
    assert_eq!(ShellError::IoError("pipe closed".to_string()).message(), "IO Error: pipe closed");
}
