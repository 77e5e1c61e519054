use utsh::text::is_alphanumeric_char;
use utsh::alias::{first_word, is_valid_name, AliasTable, MAX_EXPANSION_DEPTH};

#[test]
fn basic_expansion() {
    let mut t = AliasTable::new();
    t.insert("ll".into(), "ls -alF".into()).unwrap();
    t.insert("gst".into(), "git status".into()).unwrap();
    assert_eq!(t.expand("ll /tmp"), "ls -alF /tmp");
    assert_eq!(t.expand("gst"), "git status");
    assert_eq!(t.expand("ls /tmp"), "ls /tmp");
    assert_eq!(t.expand("   ll /tmp"), "ls -alF /tmp");
}

#[test]
fn recursive_expansion_is_bounded() {
    let mut t = AliasTable::new();
    t.insert("a".into(), "b".into()).unwrap();
    t.insert("b".into(), "a".into()).unwrap();
    let _ = t.expand("a x");
}

#[test]
fn name_validation() {
    let mut t = AliasTable::new();
    assert!(t.insert("has space".into(), "ls".into()).is_err());
    assert!(t.insert("".into(), "ls".into()).is_err());
    assert!(t.insert("x".into(), "".into()).is_err());
    assert!(t.insert("ok-name.1".into(), "ls".into()).is_ok());
    assert!(t.remove("ok-name.1"));
}

#[test]
fn error_messages_quote_the_name() {
    let mut t = AliasTable::new();
    assert_eq!(t.insert("a b".into(), "ls".into()), Err("invalid alias name: \"a b\"".to_string()));
    assert_eq!(t.insert("x".into(), "a\nb".into()), Err("invalid alias command for \"x\"".to_string()));
    assert_eq!(t.insert("y".into(), "   ".into()), Err("invalid alias command for \"y\"".to_string()));
    assert!(t.is_empty());
}

#[test]
fn chained_aliases_expand_in_rounds() {
    let mut t = AliasTable::new();
    t.insert("g".into(), "git".into()).unwrap();
    t.insert("gs".into(), "g status".into()).unwrap();
    assert_eq!(t.expand("gs -s"), "git status -s");
}

#[test]
fn cycle_stops_after_the_limit() {
    let mut t = AliasTable::new();
    t.insert("a".into(), "b".into()).unwrap();
    t.insert("b".into(), "a".into()).unwrap();
    // ten rounds from "a": a -> b -> a ... ends on "a"
    assert_eq!(MAX_EXPANSION_DEPTH, 10);
    assert_eq!(t.expand("a x"), "a x");
}

#[test]
fn self_alias_stops() {
    let mut t = AliasTable::new();
    t.insert("ls".into(), "ls --color".into()).unwrap();
    assert_eq!(t.expand("ls"), "ls --color --color --color --color --color --color --color --color --color --color");
}

#[test]
fn non_alias_line_loses_leading_space_only() {
    let t = AliasTable::new();
    assert_eq!(t.expand("  echo  hi "), "echo  hi ");
    assert_eq!(t.expand(""), "");
}

#[test]
fn table_queries() {
    let mut t = AliasTable::from_entries(vec![
        ("b".to_string(), "2".to_string()),
        ("a".to_string(), "1".to_string()),
        ("b".to_string(), "3".to_string()),
    ]);
    assert_eq!(t.len(), 2);
    assert_eq!(t.get("b"), Some("3"));
    assert_eq!(t.get("c"), None);
    assert!(!t.remove("c"));
    assert!(t.remove("a"));
    assert_eq!(t.inner().len(), 1);
}

#[test]
fn first_word_and_names() {
    assert_eq!(first_word("  git status"), "git");
    assert_eq!(first_word(""), "");
    assert_eq!(first_word("ls\t-l"), "ls");
    assert!(is_valid_name("a.b-c_9"));
    assert!(!is_valid_name("a/b"));
    assert!(is_valid_name("日本"));
}

#[test]
fn ascii_letters_and_digits_are_alphanumeric() {
    assert!(is_alphanumeric_char('a'));
    assert!(is_alphanumeric_char('Z'));
    assert!(is_alphanumeric_char('7'));
    assert!(is_alphanumeric_char('é'));
    assert!(!is_alphanumeric_char('-'));
    assert!(!is_alphanumeric_char(' '));
}
