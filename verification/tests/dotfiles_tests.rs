use rustow::dotfiles::{process_component, process_item_name};

#[test]
fn test_process_item_name_dotfiles_enabled() {
    assert_eq!(process_item_name("dot-bashrc", true), ".bashrc");
    assert_eq!(
        process_item_name("dot-config/nvim/init.vim", true),
        ".config/nvim/init.vim"
    );
    assert_eq!(process_item_name("dot-", true), ".");
    assert_eq!(process_item_name("file.txt", true), "file.txt");
    assert_eq!(process_item_name("another-dot-file", true), "another-dot-file");
}

#[test]
fn test_process_item_name_dotfiles_disabled() {
    assert_eq!(process_item_name("dot-bashrc", false), "dot-bashrc");
    assert_eq!(
        process_item_name("dot-config/nvim/init.vim", false),
        "dot-config/nvim/init.vim"
    );
    assert_eq!(process_item_name("dot-", false), "dot-");
    assert_eq!(process_item_name("file.txt", false), "file.txt");
}

#[test]
fn test_process_item_name_path_like_string() {
    // The rewrite applies to every path component independently, so the
    // deeper `dot-another` is rewritten as well as the leading one.
    assert_eq!(
        process_item_name("dot-config/sub/dot-another", true),
        ".config/sub/.another"
    );
}

#[test]
fn test_process_component_identity_without_prefix() {
    assert_eq!(process_component("plain", true), "plain");
    assert_eq!(process_component("dot-x", false), "dot-x");
    assert_eq!(process_component("dot-x", true), ".x");
}

#[test]
fn test_process_item_name_is_componentwise() {
    // The rewrite of a whole path equals the join of the rewrites of its
    // components.
    let whole = process_item_name("dot-a/b/dot-c", true);
    let joined = format!(
        "{}/{}/{}",
        process_component("dot-a", true),
        process_component("b", true),
        process_component("dot-c", true)
    );
    assert_eq!(whole, joined);
}
