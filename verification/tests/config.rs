//! Settings.

use pasteport::config::{clamp_poll_interval, names_part, Config, ConfigFile};
use pasteport::error::Error;

#[test]
fn defaults_ignore_password_managers() {
    let cfg = Config::default();
    assert!(cfg.is_ignored_source(Some("1Password 8"), None));
    assert!(cfg.is_ignored_source(None, Some("com.bitwarden.desktop")));
    assert!(cfg.is_ignored_source(Some("KeePassXC"), None));
    assert!(!cfg.is_ignored_source(Some("Safari"), Some("com.apple.Safari")));
    assert!(!cfg.is_ignored_source(None, None));
}

#[test]
fn missing_file_yields_defaults() {
    let cfg = Config::load_from("nope.toml", ConfigFile::Missing).unwrap();
    assert_eq!(cfg.max_items, Config::default().max_items);
    assert_eq!(cfg.ignored_apps, Config::default().ignored_apps);
}

#[test]
fn malformed_file_is_an_error_not_a_silent_reset() {
    let parsed = Config::load_from(
        "config.toml",
        ConfigFile::Malformed("expected a number".to_string()),
    );
    assert!(matches!(parsed, Err(Error::Config { .. })));
    let message = parsed.unwrap_err().message();
    assert_eq!(
        message,
        "config file config.toml is invalid: expected a number"
    );
}

#[test]
fn unreadable_file_is_an_error() {
    let err = Config::load_from("c", ConfigFile::Unreadable("denied".to_string())).unwrap_err();
    assert_eq!(err.message(), "i/o error at c: denied");
}

#[test]
fn absurd_poll_interval_is_clamped() {
    let cfg = Config {
        poll_interval_ms: 0,
        ..Config::default()
    };
    assert_eq!(
        Config::load_from("config.toml", ConfigFile::Parsed(cfg))
            .unwrap()
            .poll_interval_ms,
        50
    );
    assert_eq!(clamp_poll_interval(0), 50);
    assert_eq!(clamp_poll_interval(400), 400);
    assert_eq!(clamp_poll_interval(u64::MAX), 60_000);
}

#[test]
fn other_settings_are_clamped_too() {
    let cfg = Config {
        max_items: 0,
        max_clip_bytes: 1,
        ..Config::default()
    };
    let cfg = Config::load_from("config.toml", ConfigFile::Parsed(cfg)).unwrap();
    assert_eq!(cfg.max_items, 1);
    assert_eq!(cfg.max_clip_bytes, 1024);
    let cfg = Config {
        max_clip_bytes: usize::MAX,
        ..Config::default()
    };
    let cfg = Config::load_from("config.toml", ConfigFile::Parsed(cfg)).unwrap();
    assert_eq!(cfg.max_clip_bytes, 256 * 1024 * 1024);
}

#[test]
fn ignore_entries_match_without_case_and_blank_ones_never() {
    let cfg = Config {
        ignored_apps: vec!["  MySecrets ".to_string(), "   ".to_string()],
        ..Config::default()
    };
    assert!(cfg.is_ignored_source(Some("the mysecrets app"), None));
    assert!(!cfg.is_ignored_source(Some("editor"), Some("com.example.editor")));
}

#[test]
fn case_is_ignored_beyond_ascii() {
    let cfg = Config {
        ignored_apps: vec!["étui".into()],
        ..Config::default()
    };
    assert!(cfg.is_ignored_source(Some("ÉTUI"), None));
    assert!(cfg.is_ignored_source(None, Some("com.example.Étui")));
    assert!(!cfg.is_ignored_source(Some("etui"), None));
    assert!(names_part("étui", "mon étui"));
    assert!(!names_part("", "mon étui"));
    assert!(!names_part("étui", "etui"));
}

#[test]
fn a_final_sigma_hides_nothing() {
    let cfg = Config {
        ignored_apps: vec!["ΟΔΟΣ".into()],
        ..Config::default()
    };
    assert!(cfg.is_ignored_source(Some("ΟΔΟΣΑ"), None));
    assert!(cfg.is_ignored_source(Some("The ΟΔΟΣ app"), None));
    assert!(cfg.is_ignored_source(None, Some("οδος")));
    assert!(!cfg.is_ignored_source(Some("ΟΔΟ"), None));
}
