use utsh::history::History;

#[test]
fn cap_and_dups() {
    let mut h = History::new(3, true);
    assert!(h.push("a".into()));
    assert!(h.push("b".into()));
    assert!(!h.push("b".into()), "consecutive dup ignored");
    assert!(h.push("c".into()));
    assert!(h.push("d".into()));
    assert_eq!(h.entries(), &["b", "c", "d"]);
    assert!(h.remove("c"));
    assert_eq!(h.entries(), &["b", "d"]);
}

#[test]
fn search_directions() {
    let mut h = History::new(100, false);
    for l in ["echo one", "ls", "echo two"] {
        h.push(l.into());
    }
    assert_eq!(h.search_backward("echo", None), Some(2));
    assert_eq!(h.search_backward("echo", Some(2)), Some(0));
    assert_eq!(h.search_forward("echo", Some(0)), Some(2));
    assert_eq!(h.search_backward("zzz", None), None);
}

#[test]
fn push_strips_newlines_and_refuses_blank() {
    let mut h = History::new(10, false);
    assert!(h.push("ls\n\n".into()));
    assert_eq!(h.entries(), &["ls"]);
    assert!(!h.push("  \n".into()));
    assert!(!h.push("".into()));
    assert!(h.push("ls".into()));
    assert_eq!(h.len(), 2);
}

#[test]
fn zero_limit_keeps_nothing() {
    let mut h = History::new(0, false);
    assert!(!h.push("a".into()));
    assert!(h.is_empty());
}

#[test]
fn remove_takes_the_newest() {
    let mut h = History::new(10, false);
    for l in ["x", "y", "x"] {
        h.push(l.into());
    }
    assert!(h.remove("x"));
    assert_eq!(h.entries(), &["x", "y"]);
    assert!(!h.remove("z"));
    h.clear();
    assert!(h.is_empty());
}

#[test]
fn forward_search_without_start_skips_the_first() {
    let mut h = History::new(10, false);
    for l in ["echo a", "echo b"] {
        h.push(l.into());
    }
    assert_eq!(h.search_forward("echo", None), Some(1));
    assert_eq!(h.search_forward("echo", Some(5)), None);
}

#[test]
fn text_and_content_roundtrip() {
    let mut h = History::new(100, true);
    h.push("first".into());
    h.push("second".into());
    let text = h.to_text();
    assert_eq!(text, "first\nsecond\n");
    let loaded = History::from_content(&text, 100, true, "/tmp/h".to_string());
    assert_eq!(loaded.entries(), &["first", "second"]);
    assert_eq!(loaded.file().map(|s| s.as_str()), Some("/tmp/h"));
    assert_eq!(h.file(), None);
}

#[test]
fn content_lines_follow_str_lines() {
    let h = History::from_content("a\r\n\n  \nb\r\nb\nc", 100, true, "f".to_string());
    assert_eq!(h.entries(), &["a", "b", "c"]);
    let h2 = History::from_content("1\n2\n3\n", 2, false, "f".to_string());
    assert_eq!(h2.entries(), &["2", "3"]);
}

#[test]
fn save_plan_names_file_and_text() {
    let mut h = History::from_content("", 10, true, "/tmp/hist".to_string());
    h.push("a".into());
    h.push("a".into());
    assert_eq!(h.save(), Some(("/tmp/hist".to_string(), "a\n".to_string())));
    assert_eq!(History::new(1, true).save(), None);
}
