use utsh::plugins::{
    finish_manifest, is_valid_plugin_name, official, official_plugins, plan_install,
    plugin_error_message, resolve_load_order, resolve_source_url, sort_plugins, PluginError,
    PluginManager, PluginManifest,
};

#[test]
fn official_lookup_and_url() {
    assert_eq!(
        official("zsh-autosuggestions").unwrap().repo,
        "zsh-users/zsh-autosuggestions"
    );
    assert!(official("nope").is_none());
    assert_eq!(
        resolve_source_url("zsh-users/zsh-autosuggestions"),
        "https://github.com/zsh-users/zsh-autosuggestions.git"
    );
    assert_eq!(
        resolve_source_url("https://example.com/x.git"),
        "https://example.com/x.git"
    );
}

#[test]
fn mod_name_validation() {
    assert!(is_valid_plugin_name("zsh-autosuggestions"));
    assert!(!is_valid_plugin_name("a b"));
    assert!(!is_valid_plugin_name(""));
    assert!(!is_valid_plugin_name("../evil"));
}

#[test]
fn market_has_five_entries() {
    let all = official_plugins();
    assert_eq!(all.len(), 5);
    assert_eq!(all[4].name, "fast-syntax-highlighting");
}

#[test]
fn other_url_forms_are_kept() {
    assert_eq!(resolve_source_url("git@github.com:a/b.git"), "git@github.com:a/b.git");
    assert_eq!(resolve_source_url("ssh://h/r"), "ssh://h/r");
    assert_eq!(resolve_source_url("http://h/r"), "http://h/r");
}

#[test]
fn install_plan_errors_and_urls() {
    match plan_install("bad name", "x/y", false) {
        Err(PluginError::InvalidName(n)) => assert_eq!(n, "bad name"),
        _ => panic!("expected InvalidName"),
    }
    match plan_install("p", "x/y", true) {
        Err(PluginError::AlreadyInstalled(n)) => assert_eq!(n, "p"),
        _ => panic!("expected AlreadyInstalled"),
    }
    match plan_install("p", "nothing", false) {
        Err(PluginError::UnknownSource(s)) => assert_eq!(s, "nothing"),
        _ => panic!("expected UnknownSource"),
    }
    match plan_install("p", "zsh-completions", false) {
        Ok(u) => assert_eq!(u, "https://github.com/zsh-users/zsh-completions.git"),
        _ => panic!("expected official url"),
    }
    match plan_install("p", "https://h/x.git", false) {
        Ok(u) => assert_eq!(u, "https://h/x.git"),
        _ => panic!("expected url"),
    }
    match plan_install("p", "user/repo", false) {
        Ok(u) => assert_eq!(u, "https://github.com/user/repo.git"),
        _ => panic!("expected github url"),
    }
}

#[test]
fn error_messages() {
    assert_eq!(
        plugin_error_message(&PluginError::NotFound("x".into())),
        Some("plugin `x` is not installed".to_string())
    );
    assert_eq!(
        plugin_error_message(&PluginError::AlreadyInstalled("x".into())),
        Some("plugin `x` is already installed".to_string())
    );
    assert_eq!(
        plugin_error_message(&PluginError::InvalidName("x".into())),
        Some("invalid plugin name `x`".to_string())
    );
}

#[test]
fn manifest_defaults_and_finish() {
    let m = PluginManifest::default();
    assert_eq!(m.version, "0.0.0");
    assert!(m.name.is_empty());
    let d = PluginManifest::for_dir_name("dir".into());
    assert_eq!(d.name, "dir");
    let f = finish_manifest(PluginManifest::default(), "p", "u".to_string(), Some("abc"));
    assert_eq!(f.name, "p");
    assert_eq!(f.source, "u");
    assert_eq!(f.commit, "abc");
    let g = finish_manifest(d, "p", "u".to_string(), None);
    assert_eq!(g.name, "dir");
    assert_eq!(g.commit, "");
}

#[test]
fn manager_paths_and_get() {
    let pm = PluginManager::new("/data/plugins".to_string());
    assert_eq!(pm.plugin_path("x"), "/data/plugins/x");
    match pm.get("x", None) {
        Err(PluginError::NotFound(n)) => assert_eq!(n, "x"),
        _ => panic!("expected NotFound"),
    }
    let info = pm.get("x", Some(PluginManifest::default())).ok().unwrap();
    assert_eq!(info.path, "/data/plugins/x");
    assert!(!info.enabled);
    let d = PluginManager::default_dir(None, Some("/home/u".to_string()));
    assert_eq!(d.plugins_dir, "/home/u/.local/share/utsh/plugins");
}

#[test]
fn load_order_is_sorted_and_unique() {
    let m = PluginManifest::default();
    let order = resolve_load_order(&vec![
        ("b".to_string(), m.clone()),
        ("a".to_string(), m.clone()),
        ("b".to_string(), m.clone()),
    ]);
    assert_eq!(order, vec!["a".to_string(), "b".to_string()]);
}

#[test]
fn resolving_twice_is_resolving_once() {
    let once = resolve_source_url("a/b");
    assert_eq!(resolve_source_url(&once), once);
}

#[test]
fn uninstall_refuses_invalid_names() {
    let pm = PluginManager::new("/data/plugins".to_string());
    match pm.uninstall_target("../evil") {
        Err(PluginError::InvalidName(n)) => assert_eq!(n, "../evil"),
        _ => panic!("expected InvalidName"),
    }
    assert!(matches!(pm.uninstall_target(""), Err(PluginError::InvalidName(_))));
    assert_eq!(pm.uninstall_target("zsh-autosuggestions").ok().unwrap(), "/data/plugins/zsh-autosuggestions");
}

#[test]
fn scanned_plugins_come_out_by_name() {
    let pm = PluginManager::new("/p".to_string());
    let mk = |n: &str| pm.get(n, Some(PluginManifest::default())).ok().unwrap();
    let sorted = sort_plugins(vec![mk("zeta"), mk("alpha"), mk("Mid"), mk("beta")]);
    let names: Vec<&str> = sorted.iter().map(|p| p.name.as_str()).collect();
    assert_eq!(names, vec!["Mid", "alpha", "beta", "zeta"]);
    assert!(sort_plugins(Vec::new()).is_empty());
}
