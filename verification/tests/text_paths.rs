use sdkcheck::naming::{safe_name_core, safe_name_or};
use sdkcheck::paths::{
    clean_relative_path, join_path, path_components, path_file_name, resolve_relative_path,
    PathError,
};
use sdkcheck::text::{
    cat3, join_strings, KeyOrder, parse_usize_exec, quote_if_spaced_exec, replace_all_exec, sort_dedup_by,
    sort_strings, split_text, truncate_with_marker, u128_string, utf8_len_within,
};
use sdkcheck::paths::HostPlatform;

const LINUX: HostPlatform = HostPlatform { windows: false, linux: true };

#[test]
fn path_model_matches_std_paths() {
    assert_eq!(path_components("/a//b/./c/", LINUX), vec!["/", "a", "b", "c"]);
    assert_eq!(path_components("./a", LINUX), vec![".", "a"]);
    assert_eq!(join_path("/w", "x/y", LINUX), "/w/x/y");
    assert_eq!(join_path("/w/", "x", LINUX), "/w/x");
    assert_eq!(join_path("/w", "/abs", LINUX), "/abs");
    assert_eq!(path_file_name("/w/runs/demo", LINUX), Some("demo".to_string()));
    assert_eq!(path_file_name("/w/..", LINUX), None);
    assert_eq!(path_file_name("/", LINUX), None);
    assert_eq!(clean_relative_path("a/./b//c", LINUX), Ok("a/b/c".to_string()));
    assert_eq!(clean_relative_path("/etc", LINUX), Err(PathError::Absolute));
    assert_eq!(clean_relative_path("a/..", LINUX), Err(PathError::ParentTraversal));
    assert_eq!(resolve_relative_path("/repo", "docs/x.md", LINUX), Ok("/repo/docs/x.md".to_string()));
    assert_eq!(PathError::Absolute.to_text(), "absolute paths are not allowed");
}

#[test]
fn safe_names() {
    assert_eq!(safe_name_core("--Hello, World!--"), "hello--world");
    assert_eq!(safe_name_or("!!!", "fallback"), "fallback");
}

#[test]
fn text_helpers() {
    assert_eq!(sort_strings(vec!["b".into(), "a".into(), "B".into()]), vec!["B", "a", "b"]);
    assert_eq!(sort_dedup_by(vec!["b".into(), "a".into(), "b".into()], KeyOrder::Text), vec!["a", "b"]);
    assert_eq!(join_strings(&vec!["a".into(), "b".into()], ", "), "a, b");
    assert_eq!(join_strings(&Vec::new(), ", "), "");
    assert_eq!(split_text("a::b", ':'), vec!["a", "", "b"]);
    assert_eq!(parse_usize_exec("+42"), Some(42));
    assert_eq!(parse_usize_exec("4x"), None);
    assert_eq!(parse_usize_exec(""), None);
    assert_eq!(quote_if_spaced_exec("a\tb"), "\"a\\tb\"");
    assert_eq!(u128_string(1234567890123), "1234567890123");
    assert_eq!(cat3("a", "b", "c"), "abc");
    assert_eq!(utf8_len_within("héllo", 10), Some(6));
    assert_eq!(utf8_len_within("héllo", 5), None);
    assert_eq!(truncate_with_marker("abc def", 4, "!"), "abc!");
    let rep: Vec<char> = replace_all_exec(&"aaa".chars().collect(), &"aa".chars().collect(), &"b".chars().collect());
    assert_eq!(rep.into_iter().collect::<String>(), "ba");
}

const WINDOWS: HostPlatform = HostPlatform { windows: true, linux: false };

#[test]
fn windows_components_know_prefixes_and_both_separators() {
    assert_eq!(path_components(r"C:\w\run", WINDOWS), vec!["C:", r"\", "w", "run"]);
    assert_eq!(path_components(r"C:/w//run/./x", WINDOWS), vec!["C:", r"\", "w", "run", "x"]);
    assert_eq!(path_components("C:x", WINDOWS), vec!["C:", "x"]);
    assert_eq!(path_components(r"\\server\share\x", WINDOWS), vec![r"\\server\share", r"\", "x"]);
    assert_eq!(path_components(r"\\?\C:\a/b", WINDOWS), vec![r"\\?\C:", r"\", "a/b"]);
    assert_eq!(path_components(r"\\?\C:\a\.\b", WINDOWS), vec![r"\\?\C:", r"\", "a", ".", "b"]);
    assert_eq!(path_components(r".\a\b", WINDOWS), vec![".", "a", "b"]);
    assert_eq!(path_components(r"\x", WINDOWS), vec![r"\", "x"]);
    assert_eq!(path_file_name(r"C:\w\runs\demo", WINDOWS), Some("demo".to_string()));
    assert_eq!(path_file_name(r"C:\w\runs\demo\", WINDOWS), Some("demo".to_string()));
    assert_eq!(path_file_name("C:", WINDOWS), None);
    assert_eq!(path_file_name(r"C:\", WINDOWS), None);
    assert_eq!(path_file_name(r"a\..", WINDOWS), None);
}

#[test]
fn windows_joins_follow_path_buf_push() {
    assert_eq!(join_path(r"C:\w", "runs", WINDOWS), r"C:\w\runs");
    assert_eq!(join_path(r"C:\w\", "runs", WINDOWS), r"C:\w\runs");
    assert_eq!(join_path("C:", "x", WINDOWS), "C:x");
    assert_eq!(join_path(r"C:\w", r"\x", WINDOWS), r"C:\x");
    assert_eq!(join_path(r"C:\w", r"D:\y", WINDOWS), r"D:\y");
    assert_eq!(join_path(r"C:\w", "D:y", WINDOWS), "D:y");
    assert_eq!(join_path(r"\\?\C:\w", "x", WINDOWS), r"\\?\C:\w\x");
    assert_eq!(join_path(r"\\?\C:\w\v", r"..\x", WINDOWS), r"\\?\C:\w\x");
    assert_eq!(join_path(r"\\?\C:\w", r".\x/y", WINDOWS), r"\\?\C:\w\x\y");
}

#[test]
fn windows_relative_paths_are_cleaned_or_refused() {
    assert_eq!(clean_relative_path(r"a\b/c", WINDOWS), Ok(r"a\b\c".to_string()));
    assert_eq!(clean_relative_path(r"..\x", WINDOWS), Err(PathError::ParentTraversal));
    assert_eq!(clean_relative_path(r"a\..\..\x", WINDOWS), Err(PathError::ParentTraversal));
    assert_eq!(clean_relative_path(r"C:\x", WINDOWS), Err(PathError::Absolute));
    assert_eq!(clean_relative_path(r"\\server\share\x", WINDOWS), Err(PathError::Absolute));
    assert_eq!(clean_relative_path("C:x", WINDOWS), Err(PathError::InvalidComponent));
    assert_eq!(clean_relative_path(r"\x", WINDOWS), Err(PathError::InvalidComponent));
    assert_eq!(clean_relative_path("./C:x", WINDOWS), Ok("C:x".to_string()));
    assert_eq!(PathError::InvalidComponent.to_text(), "invalid path component");
    assert_eq!(
        resolve_relative_path(r"C:\w\repo", r"docs\x.md", WINDOWS),
        Ok(r"C:\w\repo\docs\x.md".to_string())
    );
    assert_eq!(resolve_relative_path(r"C:\w\repo", r"..\..", WINDOWS), Err(PathError::ParentTraversal));
    // On a Unix-like host a backslash is part of a name.
    assert_eq!(clean_relative_path(r"..\x", LINUX), Ok(r"..\x".to_string()));
}
