use nixcache::desktop::{is_nix_desktop_entry, tag_desktop_entry};
use nixcache::text::{
    contains_string, drop_two_dot_segments, first_line_of, last_segment, last_segment_from,
    split_after_first_dot, str_eq_str, str_starts_with, strip_or_keep, trim_str,
};

#[test]
fn trimming_removes_surrounding_whitespace() {
    assert_eq!(trim_str("  25.11.1234\n"), "25.11.1234");
    assert_eq!(trim_str("\t\r\n "), "");
    assert_eq!(trim_str("inner space stays"), "inner space stays");
    assert_eq!(trim_str(""), "");
}

#[test]
fn string_equality_is_by_characters() {
    assert!(str_eq_str("abc", "abc"));
    assert!(!str_eq_str("abc", "abd"));
    assert!(!str_eq_str("abc", "abcd"));
    assert!(str_eq_str("", ""));
}

#[test]
fn prefix_tests_and_stripping() {
    assert!(str_starts_with("pkgs.hello", "pkgs."));
    assert!(!str_starts_with("hello", "pkgs."));
    assert_eq!(strip_or_keep("pkgs.hello", "pkgs."), "hello");
    assert_eq!(strip_or_keep("hello", "pkgs."), "hello");
}

#[test]
fn dot_segment_splitting() {
    assert_eq!(split_after_first_dot("a.b.c"), Some(String::from("b.c")));
    assert_eq!(split_after_first_dot("abc"), None);
    assert_eq!(drop_two_dot_segments("a.b.c.d"), Some(String::from("c.d")));
    assert_eq!(drop_two_dot_segments("a.b"), Some(String::from("")));
    assert_eq!(drop_two_dot_segments("a"), None);
}

#[test]
fn last_segment_takes_what_follows_the_final_dot() {
    assert_eq!(last_segment("25.11.abcd"), "abcd");
    assert_eq!(last_segment("nodots"), "nodots");
    assert_eq!(last_segment("trailing."), "");
}

#[test]
fn last_segment_generalizes_to_url_paths() {
    assert_eq!(last_segment_from("/nixos-25.05-12345.abcdef", '/'), "nixos-25.05-12345.abcdef");
    assert_eq!(last_segment_from("/a/b/c", '/'), "c");
    assert_eq!(last_segment_from("nodots", '/'), "nodots");
}

#[test]
fn first_line_handles_both_line_endings() {
    assert_eq!(first_line_of("top\nrest"), "top");
    assert_eq!(first_line_of("top\r\nrest"), "top");
    assert_eq!(first_line_of("single"), "single");
    assert_eq!(first_line_of(""), "");
}

#[test]
fn string_membership() {
    let v = vec![String::from("a"), String::from("b")];
    assert!(contains_string(&v, "a"));
    assert!(!contains_string(&v, "c"));
}

#[test]
fn desktop_entry_marker_round_trip() {
    let tagged = tag_desktop_entry("[Desktop Entry]\nName=Hello\n");
    assert_eq!(tagged, "# Nix Desktop Entry\n[Desktop Entry]\nName=Hello\n");
    assert!(is_nix_desktop_entry(&tagged));
    assert!(!is_nix_desktop_entry("[Desktop Entry]\nName=Hello\n"));
}
