use utsh::parser::{launch_for, parse_outcome, AstNode, Launch, ParseOutcome};

fn node(kind: &str, words: &[&str]) -> AstNode {
    AstNode {
        kind: kind.to_string(),
        text: words.join(" "),
        children: words.iter().map(|w| w.to_string()).collect(),
    }
}

#[test]
fn accessors() {
    let n = node("command", &["echo", "hello", "world"]);
    assert!(n.is_command());
    assert_eq!(n.program(), Some("echo"));
    assert_eq!(n.args(), &["hello", "world"]);
    assert_eq!(n.text(), "echo hello world");
    let e = node("empty", &[]);
    assert!(!e.is_command());
    assert_eq!(e.program(), None);
    assert!(e.args().is_empty());
}

#[test]
fn outcomes() {
    assert_eq!(parse_outcome("   ", Some(node("command", &["x"]))), ParseOutcome::Unsupported);
    assert_eq!(parse_outcome("x", None), ParseOutcome::Unsupported);
    assert_eq!(parse_outcome("x", Some(node("error", &[]))), ParseOutcome::Unsupported);
    let n = node("command", &["x"]);
    assert_eq!(parse_outcome("x", Some(n.clone())), ParseOutcome::Parsed(n));
}

#[test]
fn launches() {
    match launch_for(ParseOutcome::Parsed(node("command", &["ls", "-l"]))) {
        Launch::Program(p, a) => {
            assert_eq!(p, "ls");
            assert_eq!(a, vec!["-l".to_string()]);
        }
        _ => panic!("expected a program"),
    }
    assert!(matches!(launch_for(ParseOutcome::Parsed(node("command", &[]))), Launch::Nothing));
    assert!(matches!(launch_for(ParseOutcome::Parsed(node("pipeline", &["a"]))), Launch::SystemShell));
    assert!(matches!(launch_for(ParseOutcome::Unsupported), Launch::SystemShell));
}

#[test]
fn empty_input_is_unsupported() {
    let n = node("command", &["x"]);
    assert_eq!(parse_outcome("", Some(n.clone())), ParseOutcome::Unsupported);
    assert_eq!(parse_outcome("   ", Some(n)), ParseOutcome::Unsupported);
}
