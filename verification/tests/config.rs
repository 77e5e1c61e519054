use utsh::config::{Config, ConfigError};
use utsh::paths::{cache_dir_from, config_dir_from, data_dir_from, socket_path_from};

#[test]
fn alias_validation() {
    let mut cfg = Config::default();
    assert!(cfg.add_alias("ok_name-1", "ls").is_ok());
    assert!(cfg.add_alias("has space", "ls").is_err());
    assert!(cfg.add_alias("", "ls").is_err());
    assert!(cfg.add_alias("x", "").is_err());
    assert!(cfg.add_alias("x", "a\nb").is_err());
    assert!(cfg.remove_alias("ok_name-1"));
    assert!(!cfg.remove_alias("ok_name-1"));
}

#[test]
fn plugin_toggle_obeys_max() {
    let mut cfg = Config::default();
    cfg.plugins.max_plugins = 1;
    assert!(cfg.enable_plugin("a"));
    assert!(!cfg.enable_plugin("b"));
    assert!(cfg.is_plugin_enabled("a"));
    assert!(cfg.disable_plugin("a"));
    assert!(!cfg.is_plugin_enabled("a"));
}

#[test]
fn dir_resolution() {
    let xdg = Some("/xdg".to_string());
    let home = Some("/home/u".to_string());
    assert_eq!(config_dir_from(xdg.clone(), home.clone()), "/xdg/ut");
    assert_eq!(config_dir_from(None, home.clone()), "/home/u/ut");
    assert_eq!(data_dir_from(None, home.clone()), "/home/u/.local/share/utsh");
    assert_eq!(data_dir_from(Some("/xdg-data".to_string()), home), "/xdg-data/utsh");
}

#[test]
fn defaults_match_the_documented_file() {
    let cfg = Config::default();
    assert_eq!(cfg.general.default_editor, "nvim");
    assert_eq!(cfg.general.history_size, 10_000);
    assert!(cfg.plugins.enable_defaults);
    assert_eq!(cfg.webui.port, 8787);
    assert_eq!(cfg.theme(), "none");
    assert_eq!(cfg.alias("ll"), Some("ls -alF"));
    assert_eq!(cfg.alias("gst"), Some("git status"));
    assert_eq!(cfg.alias("ga"), Some("git add"));
    assert_eq!(cfg.aliases().len(), 3);
}

#[test]
fn add_alias_reports_new_and_errors() {
    let mut cfg = Config::default();
    assert!(matches!(cfg.add_alias("gc", "git checkout"), Ok(true)));
    assert!(matches!(cfg.add_alias("gc", "git commit"), Ok(false)));
    assert_eq!(cfg.alias("gc"), Some("git commit"));
    assert!(matches!(cfg.add_alias("a b", "ls"), Err(ConfigError::InvalidAliasName(n)) if n == "a b"));
    assert!(matches!(cfg.add_alias("ab", " "), Err(ConfigError::InvalidAliasCommand(n)) if n == "ab"));
    cfg.set_theme("starship".to_string());
    assert_eq!(cfg.theme(), "starship");
}

#[test]
fn enabling_twice_and_disabling_all_copies() {
    let mut cfg = Config::default();
    cfg.plugins.enabled = vec!["a".to_string(), "b".to_string(), "a".to_string()];
    assert!(cfg.enable_plugin("a"));
    assert_eq!(cfg.enabled_plugins().len(), 3);
    assert!(cfg.disable_plugin("a"));
    assert_eq!(cfg.enabled_plugins(), &["b".to_string()]);
    assert!(!cfg.disable_plugin("zzz"));
}

#[test]
fn other_directories() {
    assert_eq!(cache_dir_from(Some("/c".to_string()), None), "/c/ut");
    assert_eq!(config_dir_from(None, None), "./ut");
    assert_eq!(data_dir_from(None, None), "./utsh");
    assert_eq!(socket_path_from(None), "/tmp/utsh.sock");
    assert_eq!(socket_path_from(Some("/s".to_string())), "/s");
    assert_eq!(config_dir_from(Some("/x/".to_string()), None), "/x/ut");
}

#[test]
fn cache_directory_under_home() {
    assert_eq!(cache_dir_from(None, Some("/home/u".to_string())), "/home/u/.cache/ut");
    assert_eq!(cache_dir_from(Some("/c".to_string()), Some("/home/u".to_string())), "/c/ut");
    assert_eq!(cache_dir_from(None, None), "./ut");
}

#[test]
fn disable_undoes_enable() {
    let mut cfg = Config::default();
    cfg.plugins.enabled = vec!["x".to_string()];
    assert!(cfg.enable_plugin("y"));
    assert!(cfg.disable_plugin("y"));
    assert_eq!(cfg.enabled_plugins(), &["x".to_string()]);
}

#[test]
fn alias_error_messages() {
    assert_eq!(
        ConfigError::InvalidAliasName("a b".to_string()).message(),
        Some("invalid alias name `a b`".to_string())
    );
    assert_eq!(
        ConfigError::InvalidAliasCommand("x".to_string()).message(),
        Some("invalid alias command for `x`: must not be empty or contain newlines".to_string())
    );
}
