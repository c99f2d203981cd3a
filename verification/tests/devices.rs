//! Source enumeration parsing, default marking and hint resolution.

use dictr::devices::{
    default_source_description, find_exact_name, mark_default_sources, parse_pactl_sources,
    parse_usize, resolve_source_hint, SourceEntry,
};

const LISTING: &str = "Source #55\n\
    \tName: alsa_output.pci.analog-stereo.monitor\n\
    \tDescription: Monitor of Built-in Audio\n\
    Source #56\n\
    \tName: alsa_input.pci.analog-stereo\n\
    \tDescription: Built-in Audio Analog Stereo\n\
    Source #57\n\
    \tName: alsa_input.usb-AT2020.analog-stereo\n\
    \tDescription: AT2020 USB Microphone Analog Stereo\n";

#[test]
fn pactl_parse_skips_monitors_and_marks_default() {
    let entries = parse_pactl_sources(LISTING, "alsa_input.usb-AT2020.analog-stereo");
    assert_eq!(entries.len(), 2);
    assert_eq!(entries[0].name, "alsa_input.pci.analog-stereo");
    assert_eq!(entries[0].description, "Built-in Audio Analog Stereo");
    assert!(!entries[0].is_default);
    assert_eq!(entries[1].name, "alsa_input.usb-AT2020.analog-stereo");
    assert!(entries[1].is_default);
}

#[test]
fn pactl_parse_never_marks_two_defaults() {
    // Even with a duplicated source name, only the first match is the
    // default.
    let listing = "Name: mic\nDescription: One\nName: mic\nDescription: Two\n";
    let entries = parse_pactl_sources(listing, "mic");
    let defaults = entries.iter().filter(|e| e.is_default).count();
    assert!(defaults <= 1, "at most one default device");
    assert!(entries[0].is_default);
    assert!(!entries[1].is_default);
}

#[test]
fn pactl_parse_description_without_name_is_dropped() {
    let listing = "Description: Orphan\nName: mic\nDescription: Real\n";
    let entries = parse_pactl_sources(listing, "none");
    assert_eq!(entries.len(), 1);
    assert_eq!(entries[0].description, "Real");
}

#[test]
fn mark_default_sources_marks_first_match_only() {
    let names = vec![
        "front".to_string(),
        "usb".to_string(),
        "usb".to_string(),
    ];
    let entries = mark_default_sources(&names, Some("usb"));
    assert_eq!(entries.len(), 3);
    assert!(!entries[0].is_default);
    assert!(entries[1].is_default);
    assert!(!entries[2].is_default);
    let defaults = entries.iter().filter(|e| e.is_default).count();
    assert_eq!(defaults, 1);
}

#[test]
fn mark_default_sources_without_default() {
    let names = vec!["a".to_string(), "b".to_string()];
    let entries = mark_default_sources(&names, None);
    assert!(entries.iter().all(|e| !e.is_default));
}

#[test]
fn default_source_description_picks_the_marked_entry() {
    let entries = parse_pactl_sources(LISTING, "alsa_input.pci.analog-stereo");
    assert_eq!(
        default_source_description(&entries),
        Some("Built-in Audio Analog Stereo".to_string())
    );
    let none = parse_pactl_sources(LISTING, "something-else");
    assert_eq!(default_source_description(&none), None);
}

#[test]
fn resolve_hint_by_index() {
    let entries = parse_pactl_sources(LISTING, "");
    assert_eq!(resolve_source_hint("1", &entries), Some(1));
    assert_eq!(resolve_source_hint("+0", &entries), Some(0));
    // An out-of-range index resolves to nothing, it does not fall back
    // to name matching.
    assert_eq!(resolve_source_hint("7", &entries), None);
}

#[test]
fn resolve_hint_by_name_and_description() {
    let entries = parse_pactl_sources(LISTING, "");
    assert_eq!(
        resolve_source_hint("alsa_input.pci.analog-stereo", &entries),
        Some(0)
    );
    // Case-insensitive substring of the description
    assert_eq!(resolve_source_hint("at2020", &entries), Some(1));
    assert_eq!(resolve_source_hint("no such device", &entries), None);
}

#[test]
fn parse_usize_accepts_plain_and_signed_numerals() {
    assert_eq!(parse_usize(&"42".chars().collect()), Some(42));
    assert_eq!(parse_usize(&"+7".chars().collect()), Some(7));
    assert_eq!(parse_usize(&"0".chars().collect()), Some(0));
    assert_eq!(parse_usize(&"".chars().collect()), None);
    assert_eq!(parse_usize(&"+".chars().collect()), None);
    assert_eq!(parse_usize(&"12a".chars().collect()), None);
    assert_eq!(parse_usize(&"-3".chars().collect()), None);
    // A value beyond machine range is rejected, not wrapped
    assert_eq!(
        parse_usize(&"99999999999999999999999999".chars().collect()),
        None
    );
}

#[test]
fn find_exact_name_finds_the_first_match() {
    let names = vec!["a".to_string(), "b".to_string(), "b".to_string()];
    assert_eq!(find_exact_name(&names, "b"), Some(1));
    assert_eq!(find_exact_name(&names, "c"), None);
}

#[test]
fn source_entry_fields_are_plain() {
    let e = SourceEntry {
        name: "n".to_string(),
        description: "d".to_string(),
        is_default: false,
    };
    assert_eq!(e.name, "n");
    assert_eq!(e.description, "d");
    assert!(!e.is_default);
}
