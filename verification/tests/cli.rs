//! Command-line overrides merged into the configuration.

use dictr::cli::{apply_cli_overrides, Cli};
use dictr::config::Config;

fn no_options() -> Cli {
    Cli {
        backend: None,
        model: None,
        hotkey: None,
        paste: false,
        list_devices: false,
        device: None,
        language: None,
        api_url: None,
        initial_prompt: None,
        min_duration: None,
        verbose: false,
    }
}

#[test]
fn cli_override_backend() {
    let mut config = Config::default();
    let cli = Cli {
        backend: Some("api".to_string()),
        ..no_options()
    };
    apply_cli_overrides(&mut config, &cli);
    assert_eq!(config.backend, "api");
}

#[test]
fn cli_override_model() {
    let mut config = Config::default();
    let cli = Cli {
        model: Some("/tmp/model.bin".to_string()),
        ..no_options()
    };
    apply_cli_overrides(&mut config, &cli);
    assert_eq!(config.model_path, "/tmp/model.bin");
}

#[test]
fn cli_override_hotkey() {
    let mut config = Config::default();
    let cli = Cli {
        hotkey: Some("F9".to_string()),
        ..no_options()
    };
    apply_cli_overrides(&mut config, &cli);
    assert_eq!(config.hotkey, "F9");
}

#[test]
fn cli_override_device() {
    let mut config = Config::default();
    let cli = Cli {
        device: Some("AT2020".to_string()),
        ..no_options()
    };
    apply_cli_overrides(&mut config, &cli);
    assert_eq!(config.device, Some("AT2020".into()));
}

#[test]
fn cli_override_language() {
    let mut config = Config::default();
    let cli = Cli {
        language: Some("fr".to_string()),
        ..no_options()
    };
    apply_cli_overrides(&mut config, &cli);
    assert_eq!(config.language, Some("fr".into()));
}

#[test]
fn cli_override_api_url() {
    let mut config = Config::default();
    let cli = Cli {
        api_url: Some("http://localhost:8080/v1/transcriptions".to_string()),
        ..no_options()
    };
    apply_cli_overrides(&mut config, &cli);
    assert_eq!(config.api_url, "http://localhost:8080/v1/transcriptions");
}

#[test]
fn cli_override_initial_prompt() {
    let mut config = Config::default();
    let cli = Cli {
        initial_prompt: Some("NixOS, Rust".to_string()),
        ..no_options()
    };
    apply_cli_overrides(&mut config, &cli);
    assert_eq!(config.initial_prompt, Some("NixOS, Rust".into()));
}

#[test]
fn cli_override_min_duration() {
    let mut config = Config::default();
    let cli = Cli {
        min_duration: Some(500),
        ..no_options()
    };
    apply_cli_overrides(&mut config, &cli);
    assert_eq!(config.min_duration_ms, 500);
}

#[test]
fn cli_no_overrides_preserves_defaults() {
    let mut config = Config::default();
    let cli = no_options();
    apply_cli_overrides(&mut config, &cli);
    assert_eq!(config.backend, "local");
    assert_eq!(config.hotkey, "AltGr");
    assert_eq!(config.min_duration_ms, 300);
    assert!(config.device.is_none());
    assert!(config.language.is_none());
    assert!(config.initial_prompt.is_none());
}
