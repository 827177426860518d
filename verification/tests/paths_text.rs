use heco::numeric::{parse_u32, parse_usize};
use heco::paths::{file_name, join, paths_equal, path_starts_with, Platform};
use heco::text::{contains, lines_of, split_char, trim_str};

#[test]
fn joining_paths() {
    assert_eq!(join(Platform::MacOs, "/a", "b"), "/a/b");
    assert_eq!(join(Platform::MacOs, "/a/", "b"), "/a/b");
    assert_eq!(join(Platform::MacOs, "", "b"), "b");
    assert_eq!(join(Platform::MacOs, "/a", "/b"), "/b");
    assert_eq!(join(Platform::Windows, "C:", "b"), "C:b");
    assert_eq!(join(Platform::Windows, "C:\\a", "b"), "C:\\a\\b");
    assert_eq!(join(Platform::Windows, "C:\\a", "\\b"), "C:\\b");
    assert_eq!(join(Platform::Windows, "C:\\a", "D:\\b"), "D:\\b");
}

#[test]
fn comparing_paths_by_components() {
    assert!(paths_equal(Platform::MacOs, "/a/b/", "/a//b"));
    assert!(paths_equal(Platform::MacOs, "/a/./b", "/a/b"));
    assert!(!paths_equal(Platform::MacOs, "/a/b", "a/b"));
    assert!(!paths_equal(Platform::MacOs, "./a", "a"));
    assert!(paths_equal(Platform::Windows, "C:\\a\\b", "C:/a/b"));
    assert!(path_starts_with(Platform::MacOs, "/p/./entry/src", "/p/entry"));
    assert!(!path_starts_with(Platform::MacOs, "/p/entryx", "/p/entry"));
}

#[test]
fn file_names() {
    assert_eq!(file_name(Platform::MacOs, "/a/b/"), Some("b"));
    assert_eq!(file_name(Platform::MacOs, "a/."), Some("a"));
    assert_eq!(file_name(Platform::MacOs, "a/.."), None);
    assert_eq!(file_name(Platform::MacOs, "/"), None);
    assert_eq!(file_name(Platform::Windows, "C:\\"), None);
    assert_eq!(file_name(Platform::Windows, "C:\\x\\proj"), Some("proj"));
}

#[test]
fn numbers_as_str_parse_reads_them() {
    assert_eq!(parse_u32("42"), Some(42));
    assert_eq!(parse_u32("+7"), Some(7));
    assert_eq!(parse_u32("4294967295"), Some(u32::MAX));
    assert_eq!(parse_u32("4294967296"), None);
    assert_eq!(parse_u32(""), None);
    assert_eq!(parse_u32("+"), None);
    assert_eq!(parse_u32("-1"), None);
    assert_eq!(parse_u32(" 1"), None);
    assert_eq!(parse_usize("007"), Some(7));
    for s in ["0", "12", "99999999999999999999", "1a", "+0"] {
        assert_eq!(parse_usize(s), s.parse::<usize>().ok());
        assert_eq!(parse_u32(s), s.parse::<u32>().ok());
    }
}

#[test]
fn text_helpers_agree_with_str() {
    for s in ["", "a", "a\n", "a\r\nb", "\n\n", "x\ny\n\nz", " \u{3000}a b\u{85} "] {
        let ours = lines_of(s);
        let std_lines: Vec<String> = s.lines().map(String::from).collect();
        assert_eq!(ours, std_lines);
        assert_eq!(trim_str(s), s.trim());
        let pieces: Vec<String> = s.split('.').map(String::from).collect();
        assert_eq!(split_char(s, '.'), pieces);
    }
    assert!(contains("already running now", "already running"));
    assert!(!contains("alread", "already"));
    assert!(contains("x", ""));
}
