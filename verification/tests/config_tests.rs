use rustow::cli::Args;
use rustow::config::{Config, StowMode};
use rustow::error::{ConfigError, RustowError};

fn toks(xs: &[&str]) -> Vec<String> {
    xs.iter().map(|s| s.to_string()).collect()
}

fn build(args: &[&str]) -> Result<Config, RustowError> {
    let parsed = Args::parse_from(toks(args)).unwrap();
    Config::build(
        parsed,
        "/x/S".to_string(),
        "/x/T".to_string(),
        "/home/user".to_string(),
    )
}

#[test]
fn test_config_build_defaults_to_stow_mode() {
    let config = build(&["rustow", "pkg"]).unwrap();
    assert_eq!(config.mode, StowMode::Stow);
    assert_eq!(config.packages, vec!["pkg"]);
    assert_eq!(config.stow_dir, "/x/S");
    assert_eq!(config.target_dir, "/x/T");
    assert_eq!(config.home_dir, "/home/user");
}

#[test]
fn test_config_build_delete_mode() {
    let config = build(&["rustow", "-D", "pkg"]).unwrap();
    assert_eq!(config.mode, StowMode::Delete);
}

#[test]
fn test_config_build_restow_mode() {
    let config = build(&["rustow", "-R", "pkg"]).unwrap();
    assert_eq!(config.mode, StowMode::Restow);
}

#[test]
fn test_config_build_delete_wins_over_restow() {
    let config = build(&["rustow", "-D", "-R", "pkg"]).unwrap();
    assert_eq!(config.mode, StowMode::Delete);
}

#[test]
fn test_config_build_copies_flags_and_patterns() {
    let config = build(&[
        "rustow",
        "--adopt",
        "--no-folding",
        "--dotfiles",
        "-n",
        "-vv",
        "--override=ov",
        "--defer=df",
        "--ignore=ig",
        "pkg1",
        "pkg2",
    ])
    .unwrap();
    assert!(config.adopt);
    assert!(config.no_folding);
    assert!(config.dotfiles);
    assert!(config.simulate);
    assert_eq!(config.verbosity, 2);
    assert_eq!(config.overrides, vec!["ov"]);
    assert_eq!(config.defers, vec!["df"]);
    assert_eq!(config.ignore_patterns, vec!["ig"]);
    assert_eq!(config.packages, vec!["pkg1", "pkg2"]);
}

#[test]
fn test_config_build_rejects_invalid_override_pattern() {
    let result = build(&["rustow", "--override=*invalid[", "pkg"]);
    match result {
        Err(RustowError::Config(ConfigError::InvalidRegexPattern(p))) => {
            assert_eq!(p, "*invalid[");
        }
        other => panic!("expected an invalid-pattern error, got {:?}", other),
    }
}

#[test]
fn test_config_build_rejects_invalid_defer_pattern() {
    assert!(build(&["rustow", "--defer=(unclosed", "pkg"]).is_err());
}

#[test]
fn test_config_build_rejects_invalid_ignore_pattern() {
    assert!(build(&["rustow", "--ignore=*invalid_ignore[", "pkg"]).is_err());
}

#[test]
fn test_config_build_rejects_relative_stow_dir() {
    let parsed = Args::parse_from(toks(&["rustow", "pkg"])).unwrap();
    let result = Config::build(
        parsed,
        "relative/stow".to_string(),
        "/x/T".to_string(),
        "/home/user".to_string(),
    );
    match result {
        Err(RustowError::Config(ConfigError::InvalidStowDir(_))) => {}
        other => panic!("expected an invalid stow directory error, got {:?}", other),
    }
}

#[test]
fn test_config_build_rejects_unnormalized_target_dir() {
    let parsed = Args::parse_from(toks(&["rustow", "pkg"])).unwrap();
    let result = Config::build(
        parsed,
        "/x/S".to_string(),
        "/x/../T".to_string(),
        "/home/user".to_string(),
    );
    match result {
        Err(RustowError::Config(ConfigError::InvalidTargetDir(_))) => {}
        other => panic!("expected an invalid target directory error, got {:?}", other),
    }
}
