use utsh::paths::{config_file_in, history_file_in, join, plugins_dir_in, themes_dir_in};

#[test]
fn joining_paths() {
    assert_eq!(join("/a", "b"), "/a/b");
    assert_eq!(join("/a/", "b"), "/a/b");
    assert_eq!(join("", "b"), "b");
    assert_eq!(join("/a", "/b"), "/b");
    assert_eq!(config_file_in("/c/ut"), "/c/ut/utsh.toml");
    assert_eq!(plugins_dir_in("/d"), "/d/plugins");
    assert_eq!(themes_dir_in("/d"), "/d/themes");
    assert_eq!(history_file_in("/d"), "/d/history");
}
