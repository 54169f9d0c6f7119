use rustow::cli::Args;

fn toks(xs: &[&str]) -> Vec<String> {
    xs.iter().map(|s| s.to_string()).collect()
}

#[test]
fn test_basic_stow_command() {
    let args = Args::parse_from(toks(&["rustow", "mypackage"])).unwrap();
    assert_eq!(args.packages, vec!["mypackage"]);
    assert!(!args.stow);
    assert!(!args.delete);
    assert!(!args.restow);
    assert_eq!(args.verbose, 0);
    assert!(!args.simulate);
    assert!(args.target.is_none());
    assert!(args.dir.is_none());
    assert!(args.ignore_patterns.is_empty());
}

#[test]
fn test_delete_option() {
    let args = Args::parse_from(toks(&["rustow", "-D", "mypackage"])).unwrap();
    assert!(args.delete);
    assert!(!args.stow);
    assert_eq!(args.packages, vec!["mypackage"]);
}

#[test]
fn test_restow_option() {
    let args = Args::parse_from(toks(&["rustow", "-R", "mypackage"])).unwrap();
    assert!(args.restow);
    assert!(!args.stow);
    assert_eq!(args.packages, vec!["mypackage"]);
}

#[test]
fn test_target_and_dir_options() {
    let args = Args::parse_from(toks(&[
        "rustow",
        "-t",
        "/target/dir",
        "-d",
        "/stow/dir",
        "mypackage",
    ]))
    .unwrap();
    assert_eq!(args.target, Some("/target/dir".to_string()));
    assert_eq!(args.dir, Some("/stow/dir".to_string()));
    assert_eq!(args.packages, vec!["mypackage"]);
}

#[test]
fn test_verbose_option() {
    let args = Args::parse_from(toks(&["rustow", "-vvv", "mypackage"])).unwrap();
    assert_eq!(args.verbose, 3);
    let args_single_v = Args::parse_from(toks(&["rustow", "-v", "mypackage"])).unwrap();
    assert_eq!(args_single_v.verbose, 1);
}

#[test]
fn test_multiple_packages() {
    let args = Args::parse_from(toks(&["rustow", "pkg1", "pkg2", "pkg3"])).unwrap();
    assert_eq!(args.packages, vec!["pkg1", "pkg2", "pkg3"]);
}

#[test]
fn test_simulate_option() {
    let args = Args::parse_from(toks(&["rustow", "-n", "mypackage"])).unwrap();
    assert!(args.simulate);
    let args_long = Args::parse_from(toks(&["rustow", "--simulate", "mypackage"])).unwrap();
    assert!(args_long.simulate);
    let args_alias = Args::parse_from(toks(&["rustow", "--no", "mypackage"])).unwrap();
    assert!(args_alias.simulate);
}

#[test]
fn test_override_defer_options() {
    let args = Args::parse_from(toks(&[
        "rustow",
        "--override=foo",
        "--override=bar",
        "--defer=baz",
        "mypackage",
    ]))
    .unwrap();
    assert_eq!(args.override_conflicts, vec!["foo", "bar"]);
    assert_eq!(args.defer_conflicts, vec!["baz"]);
}

#[test]
fn test_all_boolean_flags() {
    let args = Args::parse_from(toks(&[
        "rustow",
        "--adopt",
        "--no-folding",
        "--dotfiles",
        "mypackage",
    ]))
    .unwrap();
    assert!(args.adopt);
    assert!(args.no_folding);
    assert!(args.dotfiles);
}

#[test]
fn test_stow_option_short() {
    let args = Args::parse_from(toks(&["rustow", "-S", "mypackage"])).unwrap();
    assert!(args.stow);
    assert_eq!(args.packages, vec!["mypackage"]);
}

#[test]
fn test_stow_option_long() {
    let args = Args::parse_from(toks(&["rustow", "--stow", "mypackage"])).unwrap();
    assert!(args.stow);
    assert_eq!(args.packages, vec!["mypackage"]);
}

#[test]
fn test_ignore_option_single() {
    let args = Args::parse_from(toks(&["rustow", "--ignore=\\.git", "mypackage"])).unwrap();
    assert_eq!(args.ignore_patterns, vec!["\\.git"]);
    assert_eq!(args.packages, vec!["mypackage"]);
}

#[test]
fn test_ignore_option_multiple() {
    let args = Args::parse_from(toks(&[
        "rustow",
        "--ignore=\\.git",
        "--ignore=.*~",
        "--ignore=node_modules",
        "mypackage",
    ]))
    .unwrap();
    assert_eq!(args.ignore_patterns, vec!["\\.git", ".*~", "node_modules"]);
    assert_eq!(args.packages, vec!["mypackage"]);
}

#[test]
fn test_stow_with_ignore_combination() {
    let args = Args::parse_from(toks(&[
        "rustow",
        "-S",
        "--ignore=\\.git",
        "--ignore=temp",
        "mypackage",
    ]))
    .unwrap();
    assert!(args.stow);
    assert_eq!(args.ignore_patterns, vec!["\\.git", "temp"]);
    assert_eq!(args.packages, vec!["mypackage"]);
}

#[test]
fn test_no_packages_is_an_error() {
    assert!(Args::parse_from(toks(&["rustow", "-S"])).is_err());
}

#[test]
fn test_unknown_flag_is_an_error() {
    assert!(Args::parse_from(toks(&["rustow", "--frobnicate", "pkg"])).is_err());
}

#[test]
fn test_missing_flag_value_is_an_error() {
    assert!(Args::parse_from(toks(&["rustow", "pkg", "-t"])).is_err());
}

#[test]
fn test_double_dash_ends_flags() {
    let args = Args::parse_from(toks(&["rustow", "--", "-D", "pkg"])).unwrap();
    assert!(!args.delete);
    assert_eq!(args.packages, vec!["-D", "pkg"]);
}

#[test]
fn test_long_value_flags_with_space() {
    let args = Args::parse_from(toks(&[
        "rustow",
        "--target",
        "/t",
        "--dir",
        "/d",
        "--override",
        "ov",
        "--defer",
        "df",
        "--ignore",
        "ig",
        "pkg",
    ]))
    .unwrap();
    assert_eq!(args.target, Some("/t".to_string()));
    assert_eq!(args.dir, Some("/d".to_string()));
    assert_eq!(args.override_conflicts, vec!["ov"]);
    assert_eq!(args.defer_conflicts, vec!["df"]);
    assert_eq!(args.ignore_patterns, vec!["ig"]);
}

#[test]
fn test_mixed_short_cluster() {
    let args = Args::parse_from(toks(&["rustow", "-Rnv", "pkg"])).unwrap();
    assert!(args.restow);
    assert!(args.simulate);
    assert_eq!(args.verbose, 1);
}
