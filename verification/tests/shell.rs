use utsh::alias::AliasTable;
use utsh::shell::{
    classify_expanded, contains_shell_meta, exits_interactive, expand_home, login_shell_args,
    parse_i32, prompt_text, should_exit, LineAction, Session,
};

#[test]
fn alias_expansion_via_session() {
    let s = Session {
        aliases: AliasTable::from_entries(vec![(
            "ll".to_string(),
            "echo aliased-ll".to_string(),
        )]),
        history: None,
        last_code: 0,
    };
    assert_eq!(s.expand("ll /tmp"), "echo aliased-ll /tmp");
}

#[test]
fn exit_detection() {
    assert!(should_exit("exit"));
    assert!(should_exit("  exit 3 "));
    assert!(!should_exit("exit code is fine"));
    assert!(!should_exit("echo exit"));
}

#[test]
fn login_arg_parse() {
    let args = login_shell_args(vec!["-c".into(), "echo hi".into()]);
    assert_eq!(args.command.as_deref(), Some("echo hi"));
    assert_eq!(args.file, None);
    assert!(matches!(classify_expanded("echo hi", 0), LineAction::Run(l) if l == "echo hi"));
}

#[test]
fn login_args_options_and_file() {
    let args = login_shell_args(vec!["-l".into(), "--norc".into(), "script.sh".into(), "-c".into()]);
    assert_eq!(args.command, None);
    assert_eq!(args.file.as_deref(), Some("script.sh"));
    let args = login_shell_args(vec!["--command".into(), "ls".into(), "-x".into()]);
    assert_eq!(args.command.as_deref(), Some("ls"));
    assert_eq!(args.config, None);
}

#[test]
fn integers_parse_like_str_parse() {
    assert_eq!(parse_i32("42"), Some(42));
    assert_eq!(parse_i32("-7"), Some(-7));
    assert_eq!(parse_i32("+7"), Some(7));
    assert_eq!(parse_i32("2147483647"), Some(i32::MAX));
    assert_eq!(parse_i32("-2147483648"), Some(i32::MIN));
    assert_eq!(parse_i32("2147483648"), None);
    assert_eq!(parse_i32("99999999999999999999"), None);
    assert_eq!(parse_i32(""), None);
    assert_eq!(parse_i32("-"), None);
    assert_eq!(parse_i32("1a"), None);
    assert_eq!(parse_i32(" 1"), None);
    assert_eq!(parse_i32("0007"), Some(7));
}

#[test]
fn meta_characters_are_quote_aware() {
    assert!(contains_shell_meta("ls | wc"));
    assert!(contains_shell_meta("echo $HOME"));
    assert!(contains_shell_meta("echo '$HOME'"));
    assert!(contains_shell_meta("a=b"));
    assert!(!contains_shell_meta("echo 'a|b'"));
    assert!(!contains_shell_meta("echo \"a;b\""));
    assert!(!contains_shell_meta("echo a\\;b"));
    assert!(!contains_shell_meta("ls -la"));
    assert!(contains_shell_meta("echo `date`"));
}

#[test]
fn line_classification() {
    assert!(matches!(classify_expanded("", 5), LineAction::Keep(5)));
    assert!(matches!(classify_expanded("# c", 1), LineAction::Keep(1)));
    assert!(matches!(classify_expanded("exit 3", 0), LineAction::Exit(3)));
    assert!(matches!(classify_expanded("exit", 9), LineAction::Exit(0)));
    assert!(matches!(classify_expanded("exitfoo", 9), LineAction::Exit(0)));
    assert!(matches!(classify_expanded("cd", 0), LineAction::CdHome));
    assert!(matches!(classify_expanded("cd  /tmp ", 0), LineAction::Cd(d) if d == "/tmp"));
    assert!(matches!(classify_expanded("pwd", 0), LineAction::Pwd));
    assert!(matches!(classify_expanded("help", 0), LineAction::Help));
    assert!(matches!(classify_expanded("history", 0), LineAction::ListHistory));
    assert!(matches!(classify_expanded("ls | wc", 0), LineAction::System(l) if l == "ls | wc"));
    assert!(matches!(classify_expanded("ls -l", 0), LineAction::Run(l) if l == "ls -l"));
}

#[test]
fn session_classifies_after_expansion() {
    let s = Session {
        aliases: AliasTable::from_entries(vec![("q".to_string(), "exit 4".to_string())]),
        history: None,
        last_code: 2,
    };
    assert!(matches!(s.classify_line("  q  "), LineAction::Exit(4)));
    assert!(matches!(s.classify_line("   "), LineAction::Keep(2)));
}

#[test]
fn home_expansion() {
    assert_eq!(expand_home("~/src", Some("/home/u".to_string())), "/home/u/src");
    assert_eq!(expand_home("~/src", None), "~/src");
    assert_eq!(expand_home("/tmp", Some("/home/u".to_string())), "/tmp");
}

#[test]
fn interactive_exit_lines() {
    assert!(exits_interactive("exit"));
    assert!(exits_interactive(" exit 2 "));
    assert!(!exits_interactive("exit x"));
    assert!(!exits_interactive("exit\t2"));
}

#[test]
fn prompt_shortens_home() {
    assert_eq!(prompt_text("/home/u", "/home/u", true), "~$ ");
    assert_eq!(prompt_text("/home/u/src", "/home/u", true), "~/src$ ");
    assert_eq!(prompt_text("/usr/lib", "/home/u", true), "lib$ ");
    assert_eq!(prompt_text("/", "", true), "/$ ");
    assert_eq!(prompt_text("/home/u", "/home/u", false), "\x1b[1;32m~\x1b[0m$ ");
}

#[test]
fn prompt_takes_the_last_path_component() {
    assert_eq!(prompt_text("/usr/bin/", "", true), "bin$ ");
    assert_eq!(prompt_text("/usr//lib/.", "", true), "lib$ ");
    assert_eq!(prompt_text("/usr/..", "", true), "/usr/..$ ");
    assert_eq!(prompt_text(".", "", true), ".$ ");
    assert_eq!(prompt_text("./src", "/home/u", true), "src$ ");
}
