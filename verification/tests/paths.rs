use runway::paths::{join_path, Platform};

#[test]
fn paths_are_extended() {
    let here = Platform::here();
    if here.uses_backslashes() {
        assert_eq!(join_path(here, "C:\\project", ".runway"), "C:\\project\\.runway");
        assert_eq!(join_path(here, "C:\\project\\", ".runway"), "C:\\project\\.runway");
        assert_eq!(join_path(here, "a", "C:\\b"), "C:\\b");
    } else {
        assert_eq!(join_path(here, "/project", ".runway"), "/project/.runway");
        assert_eq!(join_path(here, "/project/", ".runway"), "/project/.runway");
        assert_eq!(join_path(here, "a", "/b"), "/b");
        assert_eq!(join_path(here, "a", ""), "a/");
        assert_eq!(join_path(here, "a\\", "b"), "a\\/b");
    }
    assert_eq!(join_path(here, "", "a"), "a");
}

#[test]
fn path_extension_agrees_with_std() {
    for base in ["", "a", "/a/b", "a/", "/", "C:", "C:\\a", "\\\\?\\C:\\a", "\\\\host\\share"] {
        for rest in ["", "x", "x/y", "/x", "\\x", "D:x", "D:\\x", ".."] {
            let expected = std::path::Path::new(base).join(rest);
            assert_eq!(join_path(Platform::here(), base, rest), expected.to_str().unwrap());
        }
    }
}

#[test]
fn the_platform_is_the_one_at_hand() {
    assert_eq!(Platform::here().uses_backslashes(), std::path::is_separator('\\'));
}
