use trsync::path::file_name;
use trsync::path::is_file_name;
use trsync::path::is_filtered;
use trsync::path::is_relative_path;
use trsync::path::is_skipped;
use trsync::path::is_under_skipped;
use trsync::path::join;
use trsync::path::parent;
use trsync::path::strip_prefix;

#[test]
fn file_name_is_last_component() {
    assert_eq!(file_name("foo/bar/baz.txt"), "baz.txt");
    assert_eq!(file_name("baz.txt"), "baz.txt");
    assert_eq!(file_name("foo/"), "");
    assert_eq!(file_name(""), "");
    assert_eq!(file_name("dossier/été.txt"), "été.txt");
}

#[test]
fn parent_is_what_precedes_last_separator() {
    assert_eq!(parent("foo/bar/baz.txt"), Some("foo/bar".to_string()));
    assert_eq!(parent("foo/bar"), Some("foo".to_string()));
    assert_eq!(parent("foo"), None);
    assert_eq!(parent(""), None);
    assert_eq!(parent("/foo"), Some("".to_string()));
}

#[test]
fn join_places_name_in_directory() {
    assert_eq!(join(&Some("foo/bar".to_string()), "baz.txt"), "foo/bar/baz.txt");
    assert_eq!(join(&None, "baz.txt"), "baz.txt");
}

#[test]
fn join_of_parent_and_file_name_gives_path_back() {
    for path in ["a", "a/b", "a/b/c.txt", "x y/z~", ""] {
        assert_eq!(join(&parent(path), &file_name(path)), path);
    }
}

#[test]
fn filtered_names_start_with_dot_or_end_with_tilde() {
    assert!(is_filtered(".git"));
    assert!(is_filtered("src/.hidden"));
    assert!(is_filtered("notes.txt~"));
    assert!(is_filtered("a/b/notes~"));
    assert!(is_filtered("~"));
    assert!(!is_filtered("notes.txt"));
    assert!(!is_filtered(".config/settings"));
    assert!(!is_filtered("~tmp"));
    assert!(!is_filtered("#draft"));
    assert!(!is_filtered(""));
    assert!(!is_filtered("a/"));
}

#[test]
fn skipped_names_start_with_dot_tilde_or_hash() {
    assert!(is_skipped(".git"));
    assert!(is_skipped("~lock"));
    assert!(is_skipped("#draft#"));
    assert!(!is_skipped("notes.txt~"));
    assert!(!is_skipped("a.b"));
    assert!(!is_skipped(""));
}

#[test]
fn under_skipped_looks_at_every_component() {
    assert!(is_under_skipped(".git/config"));
    assert!(is_under_skipped("a/.cache/b"));
    assert!(is_under_skipped("a/b/#c"));
    assert!(is_under_skipped("~x"));
    assert!(!is_under_skipped("a/b.c/d~"));
    assert!(!is_under_skipped("a.b/c#d"));
    assert!(!is_under_skipped(""));
}

#[test]
fn strip_prefix_gives_path_below_root() {
    assert_eq!(strip_prefix("/home/ws", "/home/ws/a/b.txt"), Some("a/b.txt".to_string()));
    assert_eq!(strip_prefix("/home/ws", "/home/ws/a"), Some("a".to_string()));
    assert_eq!(strip_prefix("/", "/a"), Some("a".to_string()));
    assert_eq!(strip_prefix("/home/ws/", "/home/ws/a"), Some("a".to_string()));
}

#[test]
fn strip_prefix_refuses_what_is_not_below_root() {
    assert_eq!(strip_prefix("/home/ws", "/home/wsx/a"), None);
    assert_eq!(strip_prefix("/home/ws", "/home/other/a"), None);
    assert_eq!(strip_prefix("/home/ws", "/home/ws"), None);
    assert_eq!(strip_prefix("/home/ws", "/home/ws/"), None);
    assert_eq!(strip_prefix("/home/ws", "/home"), None);
    assert_eq!(strip_prefix("/home/ws", ""), None);
}

#[test]
fn relative_paths_have_plain_components() {
    for path in ["a", "a/b", "a/b/c.txt", ".hidden", "a/.b", "...", "a/..b", "a/b..", "a.b/c d", "~"] {
        assert!(is_relative_path(path), "{}", path);
    }
    for path in ["", "/", "/a", "a/", "a//b", "..", "../a", "a/..", "a/../b", "a/b/.."] {
        assert!(!is_relative_path(path), "{}", path);
    }
}

#[test]
fn file_names_have_one_component() {
    for name in ["a", "a.txt", ".hidden", "...", "été"] {
        assert!(is_file_name(name), "{}", name);
    }
    for name in ["", "..", "a/b", "/a", "a/", "/"] {
        assert!(!is_file_name(name), "{}", name);
    }
}
