//! Relative paths between exported files.

use flowjs_rs::paths::{diff_paths, normalize_separators, path_components, relative_import_path, resolve_with_extension};

#[test]
fn components_skip_current_directory_and_empty_pieces() {
    assert_eq!(path_components("a/./b//c"), vec!["a", "b", "c"]);
    assert_eq!(path_components("./a"), vec![".", "a"]);
    assert_eq!(path_components("/root/x"), vec!["/", "root", "x"]);
    assert_eq!(path_components("a/../b"), vec!["a", "..", "b"]);
    assert!(path_components("").is_empty());
}

#[test]
fn diff_paths_climbs_out_of_the_base() {
    assert_eq!(diff_paths("a/b/c", "a/b"), "c");
    assert_eq!(diff_paths("a/x", "a/b/c"), "../../x");
    assert_eq!(diff_paths("a/b", "a/b"), ".");
    assert_eq!(diff_paths("x", ""), "x");
}

#[test]
fn import_paths_are_relative_to_the_importing_file() {
    assert_eq!(relative_import_path("User", "Post"), "./Post");
    assert_eq!(relative_import_path("api/User", "models/Post"), "../models/Post");
    assert_eq!(relative_import_path("api/User", "api/sub/Post"), "./sub/Post");
    assert_eq!(relative_import_path("a/b/User", "Post"), "../../Post");
}

#[test]
fn backslashes_become_forward_slashes() {
    assert_eq!(normalize_separators("a\\b\\c"), "a/b/c");
    assert_eq!(normalize_separators("a/b"), "a/b");
}

#[test]
fn extensions_are_added_only_when_missing() {
    assert_eq!(resolve_with_extension("User", "js.flow"), "User.js.flow");
    assert_eq!(resolve_with_extension("dir/User.flow", "js.flow"), "dir/User.flow");
    assert_eq!(resolve_with_extension(".hidden", "js.flow"), ".hidden.js.flow");
}

#[test]
fn diff_paths_climbs_then_descends() {
    // The common prefix `a` is kept; `d/e` is climbed out of, `b/c` descended into.
    assert_eq!(diff_paths("a/b/c", "a/d/e"), "../../b/c");
    assert_eq!(path_components(&diff_paths("a/b/c", "a/d/e")), vec!["..", "..", "b", "c"]);
    assert_eq!(diff_paths("x/y", "x/y"), ".");
    assert_eq!(diff_paths("x", "x/y/z"), "../..");
}
