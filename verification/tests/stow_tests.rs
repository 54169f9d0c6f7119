use rustow::config::{Config, StowMode};
use rustow::fs_utils::{DirEntryObs, RawStowItem, RawStowItemType, TargetObservation};
use rustow::ignore::IgnorePatterns;
use rustow::stow::{
    decide_execution, execute_conflict_action, execute_simulate_action, plan_delete_action_for_item,
    plan_restow_delete_actions, plan_stow_action_for_item, prepare_item_for_stow,
    refine_actions_for_parent_conflicts, reports_all_clean, sort_deletion_actions,
    summarize_reports, ActionType, ConflictResolver, ExecObservation, FsOp, PatternMatcher,
    PreparedItem, TargetAction, TargetActionReport, TargetActionReportStatus, TargetWalkEntry,
};

fn cfg(stow_dir: &str, target_dir: &str) -> Config {
    Config {
        target_dir: target_dir.to_string(),
        stow_dir: stow_dir.to_string(),
        packages: vec![],
        mode: StowMode::Stow,
        stow: false,
        adopt: false,
        no_folding: false,
        dotfiles: false,
        overrides: vec![],
        defers: vec![],
        ignore_patterns: vec![],
        simulate: false,
        verbosity: 0,
        home_dir: "/home/user".to_string(),
    }
}

fn no_patterns() -> IgnorePatterns {
    IgnorePatterns::from_pattern_texts(vec![])
}

fn default_patterns() -> IgnorePatterns {
    IgnorePatterns::load(None, None).unwrap()
}

fn raw(abs: &str, rel: &str, ty: RawStowItemType) -> RawStowItem {
    RawStowItem {
        absolute_path: abs.to_string(),
        package_relative_path: rel.to_string(),
        item_type: ty,
    }
}

fn prep(
    abs: &str,
    rel: &str,
    ty: RawStowItemType,
    config: &Config,
    patterns: &IgnorePatterns,
    package: &str,
) -> PreparedItem {
    prepare_item_for_stow(&raw(abs, rel, ty), config, patterns, package)
        .unwrap()
        .unwrap()
}

fn obs_missing() -> TargetObservation {
    TargetObservation::missing()
}

fn obs_symlink(body: &str, resolves_to_dir: bool) -> TargetObservation {
    TargetObservation {
        exists: true,
        is_dir: resolves_to_dir,
        is_symlink: true,
        link_body: Some(body.to_string()),
        entries: Vec::new(),
    }
}

fn obs_plain_file() -> TargetObservation {
    TargetObservation {
        exists: true,
        is_dir: false,
        is_symlink: false,
        link_body: None,
        entries: Vec::new(),
    }
}

fn obs_dir(entries: Vec<DirEntryObs>) -> TargetObservation {
    TargetObservation {
        exists: true,
        is_dir: true,
        is_symlink: false,
        link_body: None,
        entries,
    }
}

fn delete_symlink_action(path: &str) -> TargetAction {
    TargetAction {
        source_item: None,
        target_path: path.to_string(),
        link_target_path: None,
        action_type: ActionType::DeleteSymlink,
        conflict_details: None,
    }
}

fn delete_directory_action(path: &str) -> TargetAction {
    TargetAction {
        source_item: None,
        target_path: path.to_string(),
        link_target_path: None,
        action_type: ActionType::DeleteDirectory,
        conflict_details: None,
    }
}

// --- deletion ordering ---

#[test]
fn test_sort_deletion_actions_mixed_types() {
    let mut actions = vec![
        delete_directory_action("/tmp/dir1"),
        delete_symlink_action("/tmp/link1"),
        delete_directory_action("/tmp/dir2"),
    ];

    sort_deletion_actions(&mut actions);

    assert!(matches!(actions[0].action_type, ActionType::DeleteSymlink));
    assert!(matches!(actions[1].action_type, ActionType::DeleteDirectory));
    assert!(matches!(actions[2].action_type, ActionType::DeleteDirectory));
}

#[test]
fn test_sort_deletion_actions_only_symlinks() {
    let mut actions = vec![
        delete_symlink_action("/tmp/link1"),
        delete_symlink_action("/tmp/link2"),
    ];

    sort_deletion_actions(&mut actions);

    assert!(matches!(actions[0].action_type, ActionType::DeleteSymlink));
    assert!(matches!(actions[1].action_type, ActionType::DeleteSymlink));
}

#[test]
fn test_sort_deletion_actions_empty_list() {
    let mut actions: Vec<TargetAction> = vec![];
    sort_deletion_actions(&mut actions);
    assert!(actions.is_empty());
}

#[test]
fn test_sort_deletion_actions_is_stable() {
    let mut actions = vec![
        delete_directory_action("/t/a"),
        delete_symlink_action("/t/a/x"),
        delete_directory_action("/t/b"),
        delete_symlink_action("/t/b/y"),
    ];
    sort_deletion_actions(&mut actions);
    assert_eq!(actions[0].target_path, "/t/a/x");
    assert_eq!(actions[1].target_path, "/t/b/y");
    assert_eq!(actions[2].target_path, "/t/a");
    assert_eq!(actions[3].target_path, "/t/b");
}

// --- basic stow planning (package with a directory, a nested file and a
// --- top-level file; defaults drop README)

#[test]
fn test_basic_stow_plan() {
    let config = cfg("/x/S", "/x/T");
    let pats = default_patterns();

    let p_dir = prep("/x/S/p1/bin", "bin", RawStowItemType::Directory, &config, &pats, "p1");
    let a_dir = plan_stow_action_for_item(&p_dir, &obs_missing(), &config);
    assert!(matches!(a_dir.action_type, ActionType::CreateDirectory));
    assert_eq!(a_dir.target_path, "/x/T/bin");

    let p_file = prep(
        "/x/S/p1/bin/script",
        "bin/script",
        RawStowItemType::File,
        &config,
        &pats,
        "p1",
    );
    let a_file = plan_stow_action_for_item(&p_file, &obs_missing(), &config);
    assert!(matches!(a_file.action_type, ActionType::CreateSymlink));
    assert_eq!(a_file.target_path, "/x/T/bin/script");
    assert_eq!(
        a_file.link_target_path,
        Some("../../S/p1/bin/script".to_string())
    );

    let p_dot = prep(
        "/x/S/p1/dot-bashrc",
        "dot-bashrc",
        RawStowItemType::File,
        &config,
        &pats,
        "p1",
    );
    let a_dot = plan_stow_action_for_item(&p_dot, &obs_missing(), &config);
    assert_eq!(a_dot.target_path, "/x/T/dot-bashrc");
    assert_eq!(a_dot.link_target_path, Some("../S/p1/dot-bashrc".to_string()));

    let readme = raw("/x/S/p1/README.md", "README.md", RawStowItemType::File);
    assert!(prepare_item_for_stow(&readme, &config, &pats, "p1").unwrap().is_none());
    let license = raw("/x/S/p1/LICENSE", "LICENSE", RawStowItemType::File);
    assert!(prepare_item_for_stow(&license, &config, &pats, "p1").unwrap().is_none());
}

#[test]
fn test_stow_with_dotfiles_rewrite() {
    let mut config = cfg("/x/S", "/x/T");
    config.dotfiles = true;
    let pats = default_patterns();

    let p_dot = prep(
        "/x/S/p1/dot-bashrc",
        "dot-bashrc",
        RawStowItemType::File,
        &config,
        &pats,
        "p1",
    );
    let a_dot = plan_stow_action_for_item(&p_dot, &obs_missing(), &config);
    assert_eq!(a_dot.target_path, "/x/T/.bashrc");
    assert_eq!(a_dot.link_target_path, Some("../S/p1/dot-bashrc".to_string()));

    let p_nested = prep(
        "/x/S/p1/dot-config/nvim/init.vim",
        "dot-config/nvim/init.vim",
        RawStowItemType::File,
        &config,
        &pats,
        "p1",
    );
    let a_nested = plan_stow_action_for_item(&p_nested, &obs_missing(), &config);
    assert_eq!(a_nested.target_path, "/x/T/.config/nvim/init.vim");
    assert_eq!(
        a_nested.link_target_path,
        Some("../../../S/p1/dot-config/nvim/init.vim".to_string())
    );
}

// --- inter-package conflict, override, defer ---

fn two_package_actions(config: &Config) -> Vec<TargetAction> {
    let pats = no_patterns();
    let p1 = prep("/x/S/p1/file", "file", RawStowItemType::File, config, &pats, "p1");
    let p2 = prep("/x/S/p2/file", "file", RawStowItemType::File, config, &pats, "p2");
    vec![
        plan_stow_action_for_item(&p1, &obs_missing(), config),
        plan_stow_action_for_item(&p2, &obs_missing(), config),
    ]
}

#[test]
fn test_inter_package_conflict() {
    let config = cfg("/x/S", "/x/T");
    let mut actions = two_package_actions(&config);
    let resolver = ConflictResolver::new(&config);
    resolver.resolve_inter_package_conflicts(&mut actions);
    assert!(matches!(actions[0].action_type, ActionType::Conflict));
    assert!(matches!(actions[1].action_type, ActionType::Conflict));
    assert!(actions[0].link_target_path.is_none());
    assert!(actions[1].link_target_path.is_none());

    // The executor performs nothing for a conflict.
    for a in &actions {
        let step = decide_execution(
            a,
            &ExecObservation {
                exists: false,
                is_symlink: false,
                parent_exists: true,
                is_dir: false,
                dir_empty: false,
            },
            false,
        );
        assert!(step.ops.is_empty());
        assert!(matches!(
            step.report.status,
            TargetActionReportStatus::ConflictPrevented
        ));
    }
}

#[test]
fn test_override_wins_for_second_package() {
    let mut config = cfg("/x/S", "/x/T");
    config.overrides = vec!["file$".to_string()];
    let pats = no_patterns();
    // The first package's link is already installed.
    let p2 = prep("/x/S/p2/file", "file", RawStowItemType::File, &config, &pats, "p2");
    let a2 = plan_stow_action_for_item(&p2, &obs_symlink("../S/p1/file", false), &config);
    assert!(matches!(a2.action_type, ActionType::CreateSymlink));
    assert_eq!(a2.link_target_path, Some("../S/p2/file".to_string()));

    // Executing replaces the old link with the new one.
    let step = decide_execution(
        &a2,
        &ExecObservation {
            exists: true,
            is_symlink: true,
            parent_exists: true,
            is_dir: false,
            dir_empty: false,
        },
        false,
    );
    assert_eq!(step.ops.len(), 2);
    assert!(matches!(&step.ops[0], FsOp::DeleteSymlinkAt(p) if p == "/x/T/file"));
    assert!(
        matches!(&step.ops[1], FsOp::CreateSymlinkAt { link, target_value }
            if link == "/x/T/file" && target_value == "../S/p2/file")
    );
}

#[test]
fn test_defer_wins_over_override() {
    let mut config = cfg("/x/S", "/x/T");
    config.overrides = vec!["file$".to_string()];
    config.defers = vec!["file$".to_string()];
    let pats = no_patterns();
    let p2 = prep("/x/S/p2/file", "file", RawStowItemType::File, &config, &pats, "p2");
    let a2 = plan_stow_action_for_item(&p2, &obs_symlink("../S/p1/file", false), &config);
    assert!(matches!(a2.action_type, ActionType::Skip));
    assert!(a2.link_target_path.is_none());
}

#[test]
fn test_pattern_matcher_defer_precedence() {
    let mut config = cfg("/x/S", "/x/T");
    config.overrides = vec!["conf".to_string()];
    config.defers = vec!["conf".to_string()];
    let matcher = PatternMatcher::new(&config);
    let r = matcher.check_patterns("/x/T/conf", "../S/p/conf".to_string());
    let (kind, _msg, link) = r.unwrap();
    assert!(matches!(kind, ActionType::Skip));
    assert!(link.is_none());
}

// --- adopt ---

#[test]
fn test_adopt_plain_file() {
    let mut config = cfg("/x/S", "/x/T");
    config.adopt = true;
    let pats = no_patterns();
    let p = prep(
        "/x/S/pkg/config.txt",
        "config.txt",
        RawStowItemType::File,
        &config,
        &pats,
        "pkg",
    );
    let a = plan_stow_action_for_item(&p, &obs_plain_file(), &config);
    assert!(matches!(a.action_type, ActionType::AdoptFile));

    let step = decide_execution(
        &a,
        &ExecObservation {
            exists: true,
            is_symlink: false,
            parent_exists: true,
            is_dir: false,
            dir_empty: false,
        },
        false,
    );
    assert_eq!(step.ops.len(), 2);
    assert!(matches!(&step.ops[0], FsOp::MoveItem { from, to }
        if from == "/x/T/config.txt" && to == "/x/S/pkg/config.txt"));
    assert!(matches!(&step.ops[1], FsOp::CreateSymlinkAt { link, target_value }
        if link == "/x/T/config.txt" && target_value == "../S/pkg/config.txt"));
    assert!(matches!(step.report.status, TargetActionReportStatus::Success));
}

#[test]
fn test_without_adopt_plain_file_is_conflict() {
    let config = cfg("/x/S", "/x/T");
    let pats = no_patterns();
    let p = prep(
        "/x/S/pkg/config.txt",
        "config.txt",
        RawStowItemType::File,
        &config,
        &pats,
        "pkg",
    );
    let a = plan_stow_action_for_item(&p, &obs_plain_file(), &config);
    assert!(matches!(a.action_type, ActionType::Conflict));
    assert!(a.conflict_details.is_some());
}

// --- idempotence: planning over the state stow itself produced ---

#[test]
fn test_stow_twice_second_run_skips() {
    let config = cfg("/x/S", "/x/T");
    let pats = no_patterns();
    let p = prep(
        "/x/S/p1/dot-bashrc",
        "dot-bashrc",
        RawStowItemType::File,
        &config,
        &pats,
        "p1",
    );
    let first = plan_stow_action_for_item(&p, &obs_missing(), &config);
    assert!(matches!(first.action_type, ActionType::CreateSymlink));
    let link = first.link_target_path.clone().unwrap();

    // After execution the target is a symlink holding exactly that value.
    let second = plan_stow_action_for_item(&p, &obs_symlink(&link, false), &config);
    assert!(matches!(second.action_type, ActionType::Skip));
}

#[test]
fn test_stow_twice_directory_stays_directory() {
    let config = cfg("/x/S", "/x/T");
    let pats = no_patterns();
    let p = prep("/x/S/p1/bin", "bin", RawStowItemType::Directory, &config, &pats, "p1");
    let first = plan_stow_action_for_item(&p, &obs_missing(), &config);
    assert!(matches!(first.action_type, ActionType::CreateDirectory));

    // The directory now exists and holds only stow-managed links.
    let entries = vec![DirEntryObs {
        path: "/x/T/bin/script".to_string(),
        is_symlink: true,
        link_body: Some("../../S/p1/bin/script".to_string()),
    }];
    let second = plan_stow_action_for_item(&p, &obs_dir(entries), &config);
    assert!(matches!(second.action_type, ActionType::CreateDirectory));
}

#[test]
fn test_directory_with_foreign_content_is_conflict() {
    let config = cfg("/x/S", "/x/T");
    let pats = no_patterns();
    let p = prep("/x/S/p1/bin", "bin", RawStowItemType::Directory, &config, &pats, "p1");
    let entries = vec![DirEntryObs {
        path: "/x/T/bin/stray".to_string(),
        is_symlink: false,
        link_body: None,
    }];
    let a = plan_stow_action_for_item(&p, &obs_dir(entries), &config);
    assert!(matches!(a.action_type, ActionType::Conflict));
}

// --- delete: the inverse of stow on the state stow produced ---

#[test]
fn test_delete_removes_what_stow_created() {
    let config = cfg("/x/S", "/x/T");
    let pats = no_patterns();
    let p = prep(
        "/x/S/p1/dot-bashrc",
        "dot-bashrc",
        RawStowItemType::File,
        &config,
        &pats,
        "p1",
    );
    let planted = plan_stow_action_for_item(&p, &obs_missing(), &config);
    let link = planted.link_target_path.clone().unwrap();

    let del = plan_delete_action_for_item(&p, &obs_symlink(&link, false), &config);
    assert!(matches!(del.action_type, ActionType::DeleteSymlink));
    assert_eq!(del.target_path, "/x/T/dot-bashrc");

    let step = decide_execution(
        &del,
        &ExecObservation {
            exists: true,
            is_symlink: true,
            parent_exists: true,
            is_dir: false,
            dir_empty: false,
        },
        false,
    );
    assert_eq!(step.ops.len(), 1);
    assert!(matches!(&step.ops[0], FsOp::DeleteSymlinkAt(t) if t == "/x/T/dot-bashrc"));
}

#[test]
fn test_delete_leaves_foreign_links_alone() {
    let config = cfg("/x/S", "/x/T");
    let pats = no_patterns();
    let p = prep("/x/S/p1/file", "file", RawStowItemType::File, &config, &pats, "p1");

    // A link belonging to another package is skipped.
    let other = plan_delete_action_for_item(&p, &obs_symlink("../S/p2/file", false), &config);
    assert!(matches!(other.action_type, ActionType::Skip));

    // A plain file is skipped.
    let plain = plan_delete_action_for_item(&p, &obs_plain_file(), &config);
    assert!(matches!(plain.action_type, ActionType::Skip));

    // A missing target is skipped.
    let missing = plan_delete_action_for_item(&p, &obs_missing(), &config);
    assert!(matches!(missing.action_type, ActionType::Skip));
}

#[test]
fn test_delete_directory_skips_until_empty() {
    let del = delete_directory_action("/x/T/bin");
    let busy = decide_execution(
        &del,
        &ExecObservation {
            exists: true,
            is_symlink: false,
            parent_exists: true,
            is_dir: true,
            dir_empty: false,
        },
        false,
    );
    assert!(busy.ops.is_empty());
    assert!(matches!(busy.report.status, TargetActionReportStatus::Skipped));

    let empty = decide_execution(
        &del,
        &ExecObservation {
            exists: true,
            is_symlink: false,
            parent_exists: true,
            is_dir: true,
            dir_empty: true,
        },
        false,
    );
    assert_eq!(empty.ops.len(), 1);
    assert!(matches!(&empty.ops[0], FsOp::DeleteEmptyDirAt(t) if t == "/x/T/bin"));
}

// --- restow: driven by the installed links, not the package contents ---

#[test]
fn test_restow_after_package_mutation() {
    let config = cfg("/x/S", "/x/T");
    // On disk: T/bin/old -> ../../S/p/bin/old, though `old` has left the
    // package.  The walk lists directory contents before the directory.
    let entries = vec![
        TargetWalkEntry {
            path: "/x/T/bin/old".to_string(),
            is_symlink: true,
            link_body: Some("../../S/p/bin/old".to_string()),
            is_dir: false,
        },
        TargetWalkEntry {
            path: "/x/T/bin".to_string(),
            is_symlink: false,
            link_body: None,
            is_dir: true,
        },
    ];
    let plan = plan_restow_delete_actions("p", &config, &entries);
    assert_eq!(plan.len(), 2);
    assert!(matches!(plan[0].action_type, ActionType::DeleteSymlink));
    assert_eq!(plan[0].target_path, "/x/T/bin/old");
    assert!(matches!(plan[1].action_type, ActionType::DeleteDirectory));
    assert_eq!(plan[1].target_path, "/x/T/bin");

    // The fresh stow phase then links the new item.
    let pats = no_patterns();
    let p_new = prep("/x/S/p/bin/new", "bin/new", RawStowItemType::File, &config, &pats, "p");
    let a_new = plan_stow_action_for_item(&p_new, &obs_missing(), &config);
    assert!(matches!(a_new.action_type, ActionType::CreateSymlink));
    assert_eq!(a_new.target_path, "/x/T/bin/new");
}

#[test]
fn test_restow_ignores_foreign_links() {
    let config = cfg("/x/S", "/x/T");
    let entries = vec![
        TargetWalkEntry {
            path: "/x/T/keep".to_string(),
            is_symlink: true,
            link_body: Some("../S/otherpkg/keep".to_string()),
            is_dir: false,
        },
        TargetWalkEntry {
            path: "/x/T/away".to_string(),
            is_symlink: true,
            link_body: Some("/elsewhere/away".to_string()),
            is_dir: false,
        },
    ];
    let plan = plan_restow_delete_actions("p", &config, &entries);
    assert!(plan.is_empty());
}

// --- simulate mode ---

#[test]
fn test_simulate_performs_nothing() {
    let config = cfg("/x/S", "/x/T");
    let pats = no_patterns();
    let p = prep("/x/S/p1/file", "file", RawStowItemType::File, &config, &pats, "p1");
    let create = plan_stow_action_for_item(&p, &obs_missing(), &config);
    let conflicted = plan_stow_action_for_item(&p, &obs_plain_file(), &config);
    let del = delete_directory_action("/x/T/bin");

    for action in [&create, &conflicted, &del] {
        let step = decide_execution(
            action,
            &ExecObservation {
                exists: true,
                is_symlink: false,
                parent_exists: false,
                is_dir: false,
                dir_empty: true,
            },
            true,
        );
        assert!(step.ops.is_empty());
        assert!(matches!(step.report.status, TargetActionReportStatus::Skipped));
    }

    let report = execute_simulate_action(&create);
    assert!(matches!(report.status, TargetActionReportStatus::Skipped));
}

// --- executor details ---

#[test]
fn test_create_symlink_makes_missing_parent() {
    let config = cfg("/x/S", "/x/T");
    let pats = no_patterns();
    let p = prep("/x/S/p1/bin/script", "bin/script", RawStowItemType::File, &config, &pats, "p1");
    let a = plan_stow_action_for_item(&p, &obs_missing(), &config);
    let step = decide_execution(
        &a,
        &ExecObservation {
            exists: false,
            is_symlink: false,
            parent_exists: false,
            is_dir: false,
            dir_empty: false,
        },
        false,
    );
    assert_eq!(step.ops.len(), 2);
    assert!(matches!(&step.ops[0], FsOp::CreateDirAll(d) if d == "/x/T/bin"));
    assert!(matches!(&step.ops[1], FsOp::CreateSymlinkAt { link, .. } if link == "/x/T/bin/script"));
}

#[test]
fn test_create_symlink_refuses_non_symlink_occupant() {
    let config = cfg("/x/S", "/x/T");
    let pats = no_patterns();
    let p = prep("/x/S/p1/file", "file", RawStowItemType::File, &config, &pats, "p1");
    let a = plan_stow_action_for_item(&p, &obs_missing(), &config);
    let step = decide_execution(
        &a,
        &ExecObservation {
            exists: true,
            is_symlink: false,
            parent_exists: true,
            is_dir: false,
            dir_empty: false,
        },
        false,
    );
    assert!(step.ops.is_empty());
    assert!(matches!(step.report.status, TargetActionReportStatus::Failure(_)));
}

#[test]
fn test_delete_symlink_tolerates_absence() {
    let del = delete_symlink_action("/x/T/gone");
    let step = decide_execution(
        &del,
        &ExecObservation {
            exists: false,
            is_symlink: false,
            parent_exists: true,
            is_dir: false,
            dir_empty: false,
        },
        false,
    );
    assert!(step.ops.is_empty());
    assert!(matches!(step.report.status, TargetActionReportStatus::Skipped));
}

// --- conflict propagation and the parent cascade ---

#[test]
fn test_child_of_conflicting_parent_is_conflict() {
    let config = cfg("/x/S", "/x/T");
    let mut actions = vec![
        TargetAction {
            source_item: None,
            target_path: "/x/T/d".to_string(),
            link_target_path: None,
            action_type: ActionType::Conflict,
            conflict_details: Some("occupied".to_string()),
        },
        TargetAction {
            source_item: None,
            target_path: "/x/T/d/f".to_string(),
            link_target_path: Some("../../S/p/d/f".to_string()),
            action_type: ActionType::CreateSymlink,
            conflict_details: None,
        },
        TargetAction {
            source_item: None,
            target_path: "/x/T/other".to_string(),
            link_target_path: Some("../S/p/other".to_string()),
            action_type: ActionType::CreateSymlink,
            conflict_details: None,
        },
    ];
    let resolver = ConflictResolver::new(&config);
    resolver.propagate_conflicts_to_children(&mut actions);
    assert!(matches!(actions[1].action_type, ActionType::Conflict));
    assert!(actions[1].link_target_path.is_none());
    assert!(matches!(actions[2].action_type, ActionType::CreateSymlink));
}

#[test]
fn test_parent_cascade_marks_file_ancestor() {
    let config = cfg("/x/S", "/x/T");
    let mut actions = vec![
        TargetAction {
            source_item: None,
            target_path: "/x/T/a/b/c".to_string(),
            link_target_path: Some("../../../S/p/a/b/c".to_string()),
            action_type: ActionType::CreateSymlink,
            conflict_details: None,
        },
        TargetAction {
            source_item: None,
            target_path: "/x/T/clean".to_string(),
            link_target_path: Some("../S/p/clean".to_string()),
            action_type: ActionType::CreateSymlink,
            conflict_details: None,
        },
    ];
    let parent_files = vec!["/x/T/a".to_string()];
    refine_actions_for_parent_conflicts(&mut actions, &parent_files, &config);
    assert!(matches!(actions[0].action_type, ActionType::Conflict));
    assert!(actions[0].link_target_path.is_none());
    assert!(matches!(actions[1].action_type, ActionType::CreateSymlink));
}

// --- reports ---

fn report_with(status: TargetActionReportStatus) -> TargetActionReport {
    TargetActionReport {
        original_action: delete_symlink_action("/x/T/x"),
        status,
        message: None,
    }
}

#[test]
fn test_summarize_reports_counts() {
    let reports = vec![
        report_with(TargetActionReportStatus::Success),
        report_with(TargetActionReportStatus::Success),
        report_with(TargetActionReportStatus::Skipped),
        report_with(TargetActionReportStatus::ConflictPrevented),
        report_with(TargetActionReportStatus::Failure("boom".to_string())),
    ];
    let summary = summarize_reports(&reports);
    assert_eq!(summary.successes, 2);
    assert_eq!(summary.skips, 1);
    assert_eq!(summary.conflicts, 1);
    assert_eq!(summary.failures, 1);
    assert!(!reports_all_clean(&reports));

    let clean = vec![
        report_with(TargetActionReportStatus::Success),
        report_with(TargetActionReportStatus::Skipped),
    ];
    assert!(reports_all_clean(&clean));
}

#[test]
fn test_conflict_report_shape() {
    let a = TargetAction {
        source_item: None,
        target_path: "/x/T/c".to_string(),
        link_target_path: None,
        action_type: ActionType::Conflict,
        conflict_details: Some("two packages".to_string()),
    };
    let report = execute_conflict_action(&a);
    assert!(matches!(report.status, TargetActionReportStatus::ConflictPrevented));
    assert!(report.message.is_some());
}

#[test]
fn test_plan_actions_list_matches_per_item_planning() {
    let config = cfg("/x/S", "/x/T");
    let pats = no_patterns();
    let prepared = vec![
        prep("/x/S/p1/bin", "bin", RawStowItemType::Directory, &config, &pats, "p1"),
        prep("/x/S/p1/bin/script", "bin/script", RawStowItemType::File, &config, &pats, "p1"),
    ];
    let observations = vec![obs_missing(), obs_missing()];
    let actions = rustow::stow::plan_actions(&prepared, &observations, &config);
    assert_eq!(actions.len(), 2);
    assert!(matches!(actions[0].action_type, ActionType::CreateDirectory));
    assert!(matches!(actions[1].action_type, ActionType::CreateSymlink));
}

#[test]
fn test_simulate_execution_reports_mirror_the_plan() {
    let actions = vec![
        delete_symlink_action("/x/T/a"),
        delete_directory_action("/x/T/b"),
        TargetAction {
            source_item: None,
            target_path: "/x/T/c".to_string(),
            link_target_path: None,
            action_type: ActionType::Conflict,
            conflict_details: Some("busy".to_string()),
        },
    ];
    let reports = rustow::stow::simulate_execution(&actions);
    assert_eq!(reports.len(), actions.len());
    for (report, action) in reports.iter().zip(actions.iter()) {
        assert!(matches!(report.status, TargetActionReportStatus::Skipped));
        assert_eq!(report.original_action.target_path, action.target_path);
        assert!(matches!(report.original_action.action_type, k if k == action.action_type));
    }
}

#[test]
fn test_parent_cascade_marks_conflicting_action_ancestor() {
    let config = cfg("/x/S", "/x/T");
    let mut actions = vec![
        TargetAction {
            source_item: None,
            target_path: "/x/T/d".to_string(),
            link_target_path: None,
            action_type: ActionType::Conflict,
            conflict_details: Some("occupied".to_string()),
        },
        TargetAction {
            source_item: None,
            target_path: "/x/T/d/deep/leaf".to_string(),
            link_target_path: Some("../../../S/p/d/deep/leaf".to_string()),
            action_type: ActionType::CreateSymlink,
            conflict_details: None,
        },
    ];
    // The cascade walks every strict ancestor, so even a grandparent's
    // conflict marks the leaf.
    refine_actions_for_parent_conflicts(&mut actions, &vec![], &config);
    assert!(matches!(actions[1].action_type, ActionType::Conflict));
}

#[test]
fn test_child_propagation_is_one_pass() {
    let config = cfg("/x/S", "/x/T");
    let mut actions = vec![
        TargetAction {
            source_item: None,
            target_path: "/x/T/d".to_string(),
            link_target_path: None,
            action_type: ActionType::Conflict,
            conflict_details: Some("occupied".to_string()),
        },
        TargetAction {
            source_item: None,
            target_path: "/x/T/d/e".to_string(),
            link_target_path: None,
            action_type: ActionType::CreateDirectory,
            conflict_details: None,
        },
        TargetAction {
            source_item: None,
            target_path: "/x/T/d/e/g".to_string(),
            link_target_path: Some("../../../S/p/d/e/g".to_string()),
            action_type: ActionType::CreateSymlink,
            conflict_details: None,
        },
    ];
    let resolver = ConflictResolver::new(&config);
    // The cross-package propagation is a single pass over the input
    // statuses: the direct child is marked, and a grandchild is caught
    // only by the planner's own ancestor cascade beforehand.
    resolver.propagate_conflicts_to_children(&mut actions);
    assert!(matches!(actions[1].action_type, ActionType::Conflict));
    assert!(matches!(actions[2].action_type, ActionType::CreateSymlink));
}

#[test]
fn test_delete_directory_fails_on_non_directory() {
    let del = delete_directory_action("/x/T/bin");
    let on_file = decide_execution(
        &del,
        &ExecObservation {
            exists: true,
            is_symlink: false,
            parent_exists: true,
            is_dir: false,
            dir_empty: false,
        },
        false,
    );
    assert!(on_file.ops.is_empty());
    assert!(matches!(on_file.report.status, TargetActionReportStatus::Failure(_)));

    let on_symlink = decide_execution(
        &del,
        &ExecObservation {
            exists: true,
            is_symlink: true,
            parent_exists: true,
            is_dir: true,
            dir_empty: false,
        },
        false,
    );
    assert!(on_symlink.ops.is_empty());
    assert!(matches!(on_symlink.report.status, TargetActionReportStatus::Failure(_)));
}
