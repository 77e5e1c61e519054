use utsh::cli::{
    browse_entries, effective_source, is_builtin_plugin, log_level, same_ignoring_ascii_case,
    theme_css_path, theme_list,
};

#[test]
fn log_levels() {
    assert_eq!(log_level(0), "warn");
    assert_eq!(log_level(1), "info");
    assert_eq!(log_level(2), "debug");
    assert_eq!(log_level(7), "trace");
}

#[test]
fn builtins_and_sources() {
    assert!(is_builtin_plugin("zsh-autosuggestions"));
    assert!(!is_builtin_plugin("zsh-completions"));
    assert_eq!(effective_source("x", "user/repo"), Ok("user/repo".to_string()));
    assert_eq!(effective_source("zsh-completions", ""), Ok("zsh-completions".to_string()));
    assert_eq!(effective_source("a/b", ""), Ok("a/b".to_string()));
    assert_eq!(
        effective_source("nope", ""),
        Err("unknown plugin `nope`: pass a git URL or user/repo via --source".to_string())
    );
}

#[test]
fn browsing_by_category() {
    assert!(same_ignoring_ascii_case("Syntax", "syntax"));
    assert!(!same_ignoring_ascii_case("syntax", "syntaxx"));
    let syn = browse_entries(Some("SYNTAX"));
    assert_eq!(syn.len(), 2);
    assert_eq!(syn[0].name, "zsh-syntax-highlighting");
    assert_eq!(browse_entries(None).len(), 5);
    assert!(browse_entries(Some("prompt")).is_empty());
}

#[test]
fn themes() {
    assert_eq!(theme_css_path("/t", "dark"), "/t/dark/dark.css");
    assert_eq!(
        theme_list(vec!["zen".to_string(), "dark".to_string()]),
        vec!["dark".to_string(), "none".to_string(), "zen".to_string()]
    );
}

#[test]
fn webui_backend_candidates() {
    let c = utsh::cli::webui_candidates(None, "/src/webui".to_string(), Some("/x".to_string()), Some("/h".to_string()));
    assert_eq!(
        c,
        vec![
            "/src/webui".to_string(),
            "/x/utsh/webui/backend".to_string(),
            "/h/.local/share/utsh/webui/backend".to_string(),
            "/usr/share/utsh/webui/backend".to_string(),
            "/usr/local/share/utsh/webui/backend".to_string(),
        ]
    );
    assert_eq!(utsh::cli::webui_candidates(Some("/e".to_string()), "d".to_string(), None, None).len(), 4);
}

#[test]
fn plugin_listing() {
    let mut cfg = utsh::config::Config::default();
    cfg.enable_plugin("p1");
    let (builtin, rows) = utsh::cli::plugin_list_rows(&cfg, &vec!["p1".to_string(), "zsh-autosuggestions".to_string()]);
    assert_eq!(
        builtin,
        vec![("zsh-syntax-highlighting".to_string(), false), ("zsh-autosuggestions".to_string(), true)]
    );
    assert_eq!(rows, vec![("p1".to_string(), true), ("zsh-autosuggestions".to_string(), false)]);
    cfg.plugins.enable_defaults = false;
    assert!(utsh::cli::plugin_list_rows(&cfg, &vec![]).0.is_empty());
}
