//! Behaviour of the path respelling used for shell exports.

use msvc_env::{unixify_path, unixify_path_env};

#[test]
fn drive_path_is_respelled() {
    assert_eq!(unixify_path("C:\\Program Files\\MSVC"), "/c/Program\\ Files/MSVC");
}

#[test]
fn drive_letter_is_lower_cased() {
    assert_eq!(unixify_path("D:\\x"), "/d/x");
    assert_eq!(unixify_path("d:\\x"), "/d/x");
}

#[test]
fn forward_slashes_are_accepted() {
    assert_eq!(unixify_path("C:/foo/bar"), "/c/foo/bar");
    assert_eq!(unixify_path("C:\\foo/bar"), "/c/foo/bar");
}

#[test]
fn rooted_path_without_drive_loses_the_root() {
    assert_eq!(unixify_path("\\foo\\bar"), "foo/bar");
}

#[test]
fn relative_path_keeps_its_segments() {
    assert_eq!(unixify_path("foo\\bar"), "foo/bar");
    assert_eq!(unixify_path("..\\foo"), "../foo");
    assert_eq!(unixify_path(".\\foo"), "./foo");
}

#[test]
fn repeated_separators_collapse() {
    assert_eq!(unixify_path("C:\\\\foo\\\\bar"), "/c/foo/bar");
}

#[test]
fn empty_path_stays_empty() {
    assert_eq!(unixify_path(""), "");
}

#[test]
fn path_list_is_respelled_entry_by_entry() {
    assert_eq!(unixify_path_env("C:\\a;D:\\b"), "/c/a:/d/b");
}

#[test]
fn empty_path_list_entries_stay_empty() {
    assert_eq!(unixify_path_env("a;;b"), "a::b");
}

#[test]
fn single_entry_list_has_no_colon() {
    assert_eq!(unixify_path_env("C:\\only"), "/c/only");
}
