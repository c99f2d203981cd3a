//! Configuration defaults, environment resolution and rewrite rules.

use dictr::config::{config_path, dirs_path, Config};

fn config_with_rules(rules: &[(&str, &str)]) -> Config {
    let mut config = Config::default();
    for (k, v) in rules {
        config
            .replacements
            .rules
            .push((k.to_string(), v.to_string()));
    }
    config
}

#[test]
fn defaults_are_sane() {
    let config = Config::default();
    assert_eq!(config.hotkey, "AltGr");
    assert_eq!(config.backend, "local");
    assert_eq!(config.typing_delay_ms, 2);
    assert!(config.api_key.is_empty());
    assert!(config.model_path.contains("ggml-base.bin"));
}

#[test]
fn env_var_fills_empty_api_key() {
    let mut config = Config::default();
    assert!(config.api_key.is_empty());

    config.resolve_env(None, Some("sk-from-env"));
    assert_eq!(config.api_key, "sk-from-env");
}

#[test]
fn toml_api_key_not_overridden_by_env() {
    let mut config = Config::default();
    config.api_key = "sk-from-toml".to_string();

    config.resolve_env(None, Some("sk-from-env"));
    assert_eq!(config.api_key, "sk-from-toml");
}

#[test]
fn tilde_expansion() {
    let mut config = Config::default();
    config.model_path = "~/models/test.bin".to_string();
    config.resolve_env(Some("/home/tester"), None);
    assert!(!config.model_path.starts_with('~'));
    assert!(config.model_path.ends_with("/models/test.bin"));
}

#[test]
fn absolute_path_not_expanded() {
    let mut config = Config::default();
    config.model_path = "/opt/models/test.bin".to_string();
    config.resolve_env(Some("/home/tester"), None);
    assert_eq!(config.model_path, "/opt/models/test.bin");
}

#[test]
fn resolved_model_path_is_the_configured_path() {
    let mut config = Config::default();
    config.model_path = "/tmp/model.bin".to_string();
    assert_eq!(config.resolved_model_path(), "/tmp/model.bin");
}

#[test]
fn replacements_basic() {
    let config = config_with_rules(&[("slash ", "/"), ("new line", "\n")]);
    assert_eq!(config.apply_replacements("slash review"), "/review");
    assert_eq!(
        config.apply_replacements("add new line here"),
        "add \n here"
    );
}

#[test]
fn replacements_case_insensitive() {
    let config = config_with_rules(&[("slash ", "/")]);
    assert_eq!(config.apply_replacements("Slash review"), "/review");
    assert_eq!(config.apply_replacements("SLASH commit"), "/commit");
}

#[test]
fn replacements_multiple_occurrences() {
    let config = config_with_rules(&[("comma", ",")]);
    assert_eq!(
        config.apply_replacements("one comma two comma three"),
        "one , two , three"
    );
}

#[test]
fn lowercase_after_default_on() {
    let config = config_with_rules(&[("slash ", "/")]);
    assert!(config.replacements.lowercase_after);
    // Basic: lowercase and no space after prefix
    assert_eq!(config.apply_replacements("Slash Commit"), "/commit");
    // Multiple occurrences
    assert_eq!(
        config.apply_replacements("Slash Home Slash Documents"),
        "/home /documents"
    );
    // Strips trailing punctuation
    assert_eq!(config.apply_replacements("Slash Commit."), "/commit");
    assert_eq!(
        config.apply_replacements("Slash Commit, done"),
        "/commit done"
    );
    // Strips space between prefix and word
    assert_eq!(config.apply_replacements("Slash  Commit"), "/commit");
    // No match passthrough
    assert_eq!(
        config.apply_replacements("no prefix here"),
        "no prefix here"
    );
}

#[test]
fn lowercase_after_disabled() {
    let mut config = config_with_rules(&[("slash ", "/")]);
    config.replacements.lowercase_after = false;
    assert_eq!(config.apply_replacements("Slash Commit"), "/Commit");
}

#[test]
fn replacements_empty_map_passthrough() {
    let config = Config::default();
    assert_eq!(config.apply_replacements("hello world"), "hello world");
}

#[test]
fn replacements_empty_key_skipped() {
    // An empty key should not cause an infinite loop
    let mut config = Config::default();
    config
        .replacements
        .rules
        .push((String::new(), "X".to_string()));
    assert_eq!(config.apply_replacements("hello"), "hello");
}

#[test]
fn dirs_path_xdg_and_fallback() {
    // An explicit configuration home wins
    let path = dirs_path(Some("/tmp/xdg-test"), Some("/home/tester"));
    assert_eq!(path, "/tmp/xdg-test/dictr");

    // Without it the home directory is used
    let path = dirs_path(None, Some("/home/tester"));
    assert_eq!(path, "/home/tester/.config/dictr");

    // Without either a relative fallback remains
    let path = dirs_path(None, None);
    assert_eq!(path, ".config/dictr");
}

#[test]
fn new_config_fields_have_defaults() {
    let config = Config::default();
    assert_eq!(
        config.api_url,
        "https://api.openai.com/v1/audio/transcriptions"
    );
    assert_eq!(config.min_duration_ms, 300);
    assert!(config.initial_prompt.is_none());
    assert!(config.language.is_none());
}

#[test]
fn config_path_ends_with_config_toml() {
    let path = config_path(None, Some("/home/tester"));
    assert!(path.ends_with("config.toml"));
    assert!(path.ends_with("dictr/config.toml"));
}
