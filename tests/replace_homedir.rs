use std::cell::Cell;

use replace_homedir::{replace_homedir, replace_homedir_in, replace_homedir_in_with, replace_homedir_with};

#[test]
fn test_replace_homedir_with_home_path() {
    let home = dirs::home_dir().expect("Should have home dir");
    let test_path = format!("{}/projects/myapp", home.display());
    let result = replace_homedir(&test_path, "~");
    assert_eq!(result, "~/projects/myapp");
}

#[test]
fn test_replace_homedir_exact_home() {
    let home = dirs::home_dir().expect("Should have home dir");
    let test_path = home.to_string_lossy().to_string();
    let result = replace_homedir(&test_path, "~");
    assert_eq!(result, "~");
}

#[test]
fn test_replace_homedir_non_home_path() {
    let result = replace_homedir("/tmp/something", "~");
    assert_eq!(result, "/tmp/something");
}

#[test]
fn test_replace_homedir_empty_path() {
    let result = replace_homedir("", "~");
    assert_eq!(result, "");
}

#[test]
fn test_replace_homedir_relative_path() {
    let result = replace_homedir("relative/path", "~");
    assert_eq!(result, "relative/path");
}

#[test]
fn test_replace_homedir_with_closure() {
    let home = dirs::home_dir().expect("Should have home dir");
    let test_path = format!("{}/docs", home.display());
    let result = replace_homedir_with(&test_path, |_| "HOME".to_string());
    assert_eq!(result, "HOME/docs");
}

#[test]
fn test_replace_homedir_nested_path() {
    let home = dirs::home_dir().expect("Should have home dir");
    let test_path = format!("{}/a/b/c/d", home.display());
    let result = replace_homedir(&test_path, "~");
    assert_eq!(result, "~/a/b/c/d");
}

#[test]
fn path_below_home_is_shortened() {
    let result = replace_homedir_in("/home/user/projects/myapp", Some("/home/user"), "~");
    assert_eq!(result, "~/projects/myapp");
}

#[test]
fn home_itself_becomes_replacement() {
    assert_eq!(replace_homedir_in("/home/user", Some("/home/user"), "~"), "~");
}

#[test]
fn path_elsewhere_is_unchanged() {
    assert_eq!(replace_homedir_in("/tmp/something", Some("/home/user"), "~"), "/tmp/something");
}

#[test]
fn empty_path_is_unchanged() {
    assert_eq!(replace_homedir_in("", Some("/home/user"), "~"), "");
    assert_eq!(replace_homedir_in("", Some("."), "~"), "");
}

#[test]
fn relative_path_is_unchanged() {
    assert_eq!(replace_homedir_in("relative/path", Some("/home/user"), "~"), "relative/path");
    assert_eq!(replace_homedir_in("home/user/x", Some("/home/user"), "~"), "home/user/x");
}

#[test]
fn segment_boundary_is_respected() {
    assert_eq!(replace_homedir_in("/home/alice2/file", Some("/home/alice"), "~"), "/home/alice2/file");
    assert_eq!(replace_homedir_in("/home/alice/file", Some("/home/alice2"), "~"), "/home/alice/file");
}

#[test]
fn unknown_home_leaves_path_unchanged() {
    assert_eq!(replace_homedir_in("/home/user/x", None, "~"), "/home/user/x");
}

#[test]
fn suffix_is_kept_after_replacement() {
    assert_eq!(replace_homedir_in("/home/user/a/b/c", Some("/home/user"), "<home>"), "<home>/a/b/c");
    assert_eq!(replace_homedir_in("/home/user/x", Some("/home/user"), ""), "/x");
}

#[test]
fn separators_and_dots_are_normalised() {
    assert_eq!(replace_homedir_in("/home//user/./a//b/", Some("/home/user/"), "~"), "~/a/b");
    assert_eq!(replace_homedir_in("/home/user/", Some("/home/user"), "~"), "~");
    assert_eq!(replace_homedir_in("/home/user/../x", Some("/home/user"), "~"), "~/../x");
}

#[test]
fn root_home_covers_every_absolute_path() {
    assert_eq!(replace_homedir_in("/tmp/x", Some("/"), "~"), "~/tmp/x");
    assert_eq!(replace_homedir_in("/", Some("/"), "~"), "~");
}

#[test]
fn relative_home_matches_relative_paths() {
    assert_eq!(replace_homedir_in("./a/b", Some("."), "~"), "~/a/b");
    assert_eq!(replace_homedir_in("a/b", Some("."), "~"), "a/b");
    assert_eq!(replace_homedir_in("a/b", Some("a"), "~"), "~/b");
}

#[test]
fn non_ascii_segments_are_compared_by_character() {
    assert_eq!(replace_homedir_in("/home/zoë/café", Some("/home/zoë"), "~"), "~/café");
    assert_eq!(replace_homedir_in("/home/zoe/café", Some("/home/zoë"), "~"), "/home/zoe/café");
}

#[test]
fn closure_result_matches_plain_replacement() {
    let path = "/home/user/projects/myapp";
    let calls = Cell::new(0u32);
    let with = replace_homedir_in_with(path, Some("/home/user"), |h| {
        calls.set(calls.get() + 1);
        assert_eq!(h, "/home/user");
        "~".to_string()
    });
    assert_eq!(with, replace_homedir_in(path, Some("/home/user"), "~"));
    assert_eq!(calls.get(), 1);
}

#[test]
fn closure_not_called_without_match() {
    let calls = Cell::new(0u32);
    let result = replace_homedir_in_with("/home/alice2/file", Some("/home/alice"), |_| {
        calls.set(calls.get() + 1);
        "~".to_string()
    });
    assert_eq!(result, "/home/alice2/file");
    let result = replace_homedir_in_with("/home/user/x", None, |_| {
        calls.set(calls.get() + 1);
        "~".to_string()
    });
    assert_eq!(result, "/home/user/x");
    assert_eq!(calls.get(), 0);
}

#[test]
fn closure_not_called_for_relative_path() {
    let calls = Cell::new(0u32);
    let result = replace_homedir_with("relative/path", |_| {
        calls.set(calls.get() + 1);
        "~".to_string()
    });
    assert_eq!(result, "relative/path");
    assert_eq!(calls.get(), 0);
}
