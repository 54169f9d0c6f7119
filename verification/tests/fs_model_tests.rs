use rustow::fs_utils::{
    is_directory, is_stow_symlink, is_symlink, path_exists, RawStowItem, RawStowItemType,
    TargetObservation,
};
use rustow::stow::{normalize_path_components, should_delete_symlink};

#[test]
fn test_observation_predicates() {
    let missing = TargetObservation::missing();
    assert!(!path_exists(&missing));
    assert!(!is_directory(&missing));
    assert!(!is_symlink(&missing));

    let dir = TargetObservation {
        exists: true,
        is_dir: true,
        is_symlink: false,
        link_body: None,
        entries: Vec::new(),
    };
    assert!(path_exists(&dir));
    assert!(is_directory(&dir));
    assert!(!is_symlink(&dir));
}

#[test]
fn test_raw_item_basename() {
    let item = RawStowItem {
        absolute_path: "/s/p/bin/script".to_string(),
        package_relative_path: "bin/script".to_string(),
        item_type: RawStowItemType::File,
    };
    assert_eq!(item.basename(), "script");

    let top = RawStowItem {
        absolute_path: "/s/p/file".to_string(),
        package_relative_path: "file".to_string(),
        item_type: RawStowItemType::File,
    };
    assert_eq!(top.basename(), "file");
}

#[test]
fn test_is_stow_symlink_not_a_symlink() {
    assert_eq!(is_stow_symlink("/t/file", None, "/s"), None);
}

#[test]
fn test_is_stow_symlink_relative_body_inside() {
    // /t/file -> ../s/mypkg/item.txt resolves to /s/mypkg/item.txt.
    let r = is_stow_symlink("/t/file", Some("../s/mypkg/item.txt"), "/s");
    assert_eq!(r, Some(("mypkg".to_string(), "item.txt".to_string())));
}

#[test]
fn test_is_stow_symlink_absolute_body_inside() {
    let r = is_stow_symlink("/t/file", Some("/s/mypkg/sub/nested.txt"), "/s");
    assert_eq!(r, Some(("mypkg".to_string(), "sub/nested.txt".to_string())));
}

#[test]
fn test_is_stow_symlink_target_outside() {
    assert_eq!(is_stow_symlink("/t/file", Some("../elsewhere/item"), "/s"), None);
}

#[test]
fn test_is_stow_symlink_target_is_stow_dir_itself() {
    assert_eq!(is_stow_symlink("/t/link", Some("../s"), "/s"), None);
}

#[test]
fn test_is_stow_symlink_target_is_package_dir() {
    let r = is_stow_symlink("/t/link", Some("../s/mypkg"), "/s");
    assert_eq!(r, Some(("mypkg".to_string(), "".to_string())));
}

#[test]
fn test_is_stow_symlink_broken_target_still_classified() {
    // Classification is lexical: a link whose target was deleted is still
    // recognized as belonging to its package.
    let r = is_stow_symlink("/t/bin/gone", Some("../../s/p/bin/gone"), "/s");
    assert_eq!(r, Some(("p".to_string(), "bin/gone".to_string())));
}

#[test]
fn test_normalize_path_components() {
    assert_eq!(normalize_path_components("/a/b/../c/./d"), "/a/c/d");
    assert_eq!(normalize_path_components("a/./b"), "a/b");
    assert_eq!(normalize_path_components("/a/.."), "/");
}

#[test]
fn test_should_delete_symlink() {
    assert!(should_delete_symlink("/home/u/stow/mypackage/bin/script", "/home/u/stow/mypackage"));
    assert!(should_delete_symlink(
        "/home/u/stow/mypackage/subdir/../bin/script",
        "/home/u/stow/mypackage"
    ));
    assert!(!should_delete_symlink(
        "/home/u/stow/otherpackage/bin/script",
        "/home/u/stow/mypackage"
    ));
}
