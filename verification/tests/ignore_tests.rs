use rustow::ignore::{
    filter_items, get_default_ignore_patterns, is_ignored, parse_pattern_lines, IgnorePatterns,
    MinimalStowableItem,
};

fn set_of(patterns: &[&str]) -> IgnorePatterns {
    IgnorePatterns::from_pattern_texts(patterns.iter().map(|s| s.to_string()).collect())
}

#[test]
fn test_is_ignored_empty_patterns() {
    let patterns = set_of(&[]);
    assert!(!is_ignored("/foo.txt", "foo.txt", &patterns));
    assert!(!is_ignored("/bar/baz.rs", "baz.rs", &patterns));
}

#[test]
fn test_is_ignored_basename_match() {
    let patterns = set_of(&[r"\.log$", r"temp", r"^exact_filename\.rs$"]);

    assert!(is_ignored("/mylog.log", "mylog.log", &patterns));
    assert!(is_ignored("/dir/access.log", "access.log", &patterns));
    assert!(!is_ignored("/logger.txt", "logger.txt", &patterns));

    assert!(is_ignored("/foo/temporary_file.txt", "temporary_file.txt", &patterns));
    assert!(is_ignored("/bar/my_temp_dir", "my_temp_dir", &patterns));
    assert!(is_ignored("/baz/temp", "temp", &patterns));
    assert!(!is_ignored("/qux/archive.zip", "archive.zip", &patterns));

    assert!(is_ignored("/src/exact_filename.rs", "exact_filename.rs", &patterns));
    assert!(!is_ignored(
        "/src/exact_filename_extra.rs",
        "exact_filename_extra.rs",
        &patterns
    ));
}

#[test]
fn test_is_ignored_fullpath_match() {
    let patterns = set_of(&[r"^/specific/file\.txt$", r"^/config/"]);
    assert!(is_ignored("/specific/file.txt", "file.txt", &patterns));
    assert!(!is_ignored("/notspecific/file.txt", "file.txt", &patterns));
    assert!(is_ignored("/config/settings.json", "settings.json", &patterns));
    assert!(!is_ignored("/conf/settings.json", "settings.json", &patterns));
}

#[test]
fn test_is_ignored_parent_component() {
    // A basename pattern filters a whole subtree through its parent
    // components.
    let patterns = set_of(&[r"\.git"]);
    assert!(is_ignored("/.git", ".git", &patterns));
    assert!(is_ignored("/.git/config", "config", &patterns));
    assert!(is_ignored("/sub/.git/hooks/pre-commit", "pre-commit", &patterns));
    assert!(!is_ignored("/src/main.rs", "main.rs", &patterns));
}

#[test]
fn test_is_ignored_default_patterns() {
    let texts = get_default_ignore_patterns().unwrap();
    let patterns = IgnorePatterns::from_pattern_texts(texts);

    assert!(is_ignored("/.git", ".git", &patterns));
    assert!(is_ignored("/some/dir/.git", ".git", &patterns));
    assert!(is_ignored("/file.txt~", "file.txt~", &patterns));
    assert!(is_ignored("/#save.txt#", "#save.txt#", &patterns));
    assert!(is_ignored("/.#lockfile", ".#lockfile", &patterns));
    assert!(is_ignored("/ver,v", "ver,v", &patterns));
    assert!(is_ignored("/.stow-local-ignore", ".stow-local-ignore", &patterns));

    assert!(is_ignored("/README.md", "README.md", &patterns));
    assert!(is_ignored("/LICENSE.txt", "LICENSE.txt", &patterns));
    assert!(is_ignored("/COPYING", "COPYING", &patterns));
    assert!(!is_ignored("/docs/README.md", "README.md", &patterns));
    assert!(!is_ignored("/src/COPYING", "COPYING", &patterns));
    assert!(!is_ignored("/COPYING.bak", "COPYING.bak", &patterns));
}

#[test]
fn test_load_local_wins_over_global() {
    // When the package's own ignore file exists, neither the global file
    // nor the defaults are consulted.
    let set = IgnorePatterns::load(Some("local_rule"), Some("global_rule")).unwrap();
    assert_eq!(set.iter_patterns(), &vec!["local_rule".to_string()]);
}

#[test]
fn test_load_global_when_no_local() {
    let set = IgnorePatterns::load(None, Some("^/glob/\n\\.cache")).unwrap();
    assert_eq!(
        set.iter_patterns(),
        &vec!["^/glob/".to_string(), "\\.cache".to_string()]
    );
}

#[test]
fn test_load_defaults_when_no_files() {
    let set = IgnorePatterns::load(None, None).unwrap();
    let defaults = get_default_ignore_patterns().unwrap();
    assert_eq!(set.iter_patterns(), &defaults);
    assert_eq!(defaults.len(), 15);
}

#[test]
fn test_parse_pattern_lines_skips_blank_and_comments() {
    let parsed = parse_pattern_lines(".*\\.log\n# Comment\n\ntemp_file").unwrap();
    assert_eq!(parsed, vec![".*\\.log".to_string(), "temp_file".to_string()]);
}

#[test]
fn test_parse_pattern_lines_trims_whitespace() {
    let parsed = parse_pattern_lines("  spaced  \n\t# comment after tab\n").unwrap();
    assert_eq!(parsed, vec!["spaced".to_string()]);
}

#[test]
fn test_parse_pattern_lines_invalid_regex() {
    let result = parse_pattern_lines("valid_pattern\n*[invalid\nanother_valid");
    match result {
        Err(rustow::error::IgnoreError::InvalidPattern(p)) => {
            assert_eq!(p, "*[invalid");
        }
        other => panic!("expected an invalid-pattern error, got {:?}", other),
    }
}

#[test]
fn test_load_invalid_local_pattern_fails() {
    assert!(IgnorePatterns::load(Some("(unclosed"), None).is_err());
}

#[test]
fn test_filter_items() {
    let patterns = set_of(&[r"\.log$", r"^/secrets/", r"config\.json"]);
    let items = vec![
        MinimalStowableItem {
            package_relative_path: "mylog.log".to_string(),
            basename: "mylog.log".to_string(),
        },
        MinimalStowableItem {
            package_relative_path: "data/file.txt".to_string(),
            basename: "file.txt".to_string(),
        },
        MinimalStowableItem {
            package_relative_path: "secrets/key.pem".to_string(),
            basename: "key.pem".to_string(),
        },
        MinimalStowableItem {
            package_relative_path: "myapp/config.json".to_string(),
            basename: "config.json".to_string(),
        },
        MinimalStowableItem {
            package_relative_path: "myapp/settings.xml".to_string(),
            basename: "settings.xml".to_string(),
        },
    ];

    let filtered = filter_items(items, &patterns);
    assert_eq!(filtered.len(), 2);
    assert_eq!(filtered[0].basename, "file.txt");
    assert_eq!(filtered[1].basename, "settings.xml");
}

#[test]
fn test_regex_matching_is_real() {
    // An anchored pattern matches only where the regex engine says so;
    // this fails if matching were anything but the regex crate's answer.
    let patterns = set_of(&["^a+$"]);
    assert!(is_ignored("/aaa", "aaa", &patterns));
    assert!(!is_ignored("/ab", "ab", &patterns));
    assert!(!is_ignored("/baa", "baa", &patterns));
}

#[test]
fn test_load_local_skips_comments_and_blanks() {
    // The package's own file is parsed alone even when the global file
    // exists; comment and blank lines are dropped, file order kept.
    let local = ".*\\.log\n# Comment\n\ntemp_file";
    let set = IgnorePatterns::load(Some(local), Some("global_rule")).unwrap();
    assert_eq!(
        set.iter_patterns(),
        &vec![".*\\.log".to_string(), "temp_file".to_string()]
    );
}
