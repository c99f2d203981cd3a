//! Command-line overrides.
//!
//! Argument parsing itself happens outside of this crate; the parsed
//! options arrive as plain values and are merged into the configuration
//! here.

use vstd::prelude::*;
use crate::config::Config;

verus! {

/// The command-line options that can override the configuration file.
pub struct Cli {
    pub backend: Option<String>,
    pub model: Option<String>,
    pub hotkey: Option<String>,
    pub paste: bool,
    pub list_devices: bool,
    pub device: Option<String>,
    pub language: Option<String>,
    pub api_url: Option<String>,
    pub initial_prompt: Option<String>,
    pub min_duration: Option<u64>,
    pub verbose: bool,
}

/// Merge the command-line options into the configuration: every option
/// that was given replaces the configured value, every other field stays.
pub fn apply_cli_overrides(config: &mut Config, cli: &Cli)
    ensures
        final(config).backend == (match cli.backend {
            Some(b) => b,
            None => old(config).backend,
        }),
        final(config).model_path == (match cli.model {
            Some(m) => m,
            None => old(config).model_path,
        }),
        final(config).hotkey == (match cli.hotkey {
            Some(h) => h,
            None => old(config).hotkey,
        }),
        final(config).device == (if cli.device is Some {
            cli.device
        } else {
            old(config).device
        }),
        final(config).language == (if cli.language is Some {
            cli.language
        } else {
            old(config).language
        }),
        final(config).api_url == (match cli.api_url {
            Some(u) => u,
            None => old(config).api_url,
        }),
        final(config).initial_prompt == (if cli.initial_prompt is Some {
            cli.initial_prompt
        } else {
            old(config).initial_prompt
        }),
        final(config).min_duration_ms == (match cli.min_duration {
            Some(ms) => ms,
            None => old(config).min_duration_ms,
        }),
        final(config).api_key == old(config).api_key,
        final(config).typing_delay_ms == old(config).typing_delay_ms,
        final(config).replacements.lowercase_after == old(config).replacements.lowercase_after,
        final(config).replacements.rules == old(config).replacements.rules,
{
    match &cli.backend {
        Some(b) => {
            config.backend = b.clone();
        },
        None => {},
    }
    match &cli.model {
        Some(m) => {
            config.model_path = m.clone();
        },
        None => {},
    }
    match &cli.hotkey {
        Some(h) => {
            config.hotkey = h.clone();
        },
        None => {},
    }
    match &cli.device {
        Some(d) => {
            config.device = Some(d.clone());
        },
        None => {},
    }
    match &cli.language {
        Some(l) => {
            config.language = Some(l.clone());
        },
        None => {},
    }
    match &cli.api_url {
        Some(u) => {
            config.api_url = u.clone();
        },
        None => {},
    }
    match &cli.initial_prompt {
        Some(p) => {
            config.initial_prompt = Some(p.clone());
        },
        None => {},
    }
    match cli.min_duration {
        Some(ms) => {
            config.min_duration_ms = ms;
        },
        None => {},
    }
}

} // verus!
