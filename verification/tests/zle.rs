use utsh::zle::engine::ZleEngine;
use utsh::zle::key::Key;
use utsh::zle::spec::{KeymapMode, Widget, WidgetStatus};

fn type_str(e: &mut ZleEngine, s: &str) {
    for c in s.chars() {
        assert_eq!(e.handle_key(Key::Char(c)), WidgetStatus::Continue);
    }
}

#[test]
fn insert_and_move_cursor() {
    let mut e = ZleEngine::new();
    type_str(&mut e, "abc");
    assert_eq!(e.buffer(), "abc");
    assert_eq!(e.cursor(), 3);
    e.handle_key(Key::Left);
    e.handle_key(Key::Left);
    assert_eq!(e.cursor(), 1);
    type_str(&mut e, "X");
    assert_eq!(e.buffer(), "aXbc");
    e.handle_key(Key::Ctrl('a'));
    assert_eq!(e.cursor(), 0);
    e.handle_key(Key::Ctrl('f'));
    assert_eq!(e.cursor(), 1);
    e.handle_key(Key::Ctrl('e'));
    assert_eq!(e.cursor(), e.buffer().len());
}

#[test]
fn deletion_ops() {
    let mut e = ZleEngine::new();
    type_str(&mut e, "hello");
    e.handle_key(Key::Backspace);
    assert_eq!(e.buffer(), "hell");
    e.handle_key(Key::Ctrl('e'));
    e.handle_key(Key::Ctrl('u'));
    assert_eq!(e.buffer(), "");
    type_str(&mut e, "foo bar baz");
    e.handle_key(Key::Ctrl('w'));
    assert_eq!(e.buffer(), "foo bar ");
    e.handle_key(Key::Ctrl('a'));
    e.handle_key(Key::Ctrl('k'));
    assert_eq!(e.buffer(), "");
}

#[test]
fn undo_redo() {
    let mut e = ZleEngine::new();
    type_str(&mut e, "ab");
    type_str(&mut e, "cd");
    e.handle_key(Key::Ctrl('_'));
    assert_eq!(e.buffer(), "abc");
    e.handle_key(Key::Ctrl('_'));
    assert_eq!(e.buffer(), "ab");
    e.handle_key(Key::Ctrl('_'));
    assert_eq!(e.buffer(), "a");
    e.register_widget("t-redo".to_string(), Widget::Redo);
    e.bind_key(Key::Meta('r'), "t-redo".to_string());
    e.handle_key(Key::Meta('r'));
    assert_eq!(e.buffer(), "ab");
}

#[test]
fn accept_line_pushes_history() {
    let mut e = ZleEngine::new();
    type_str(&mut e, "echo hi");
    assert_eq!(e.handle_key(Key::Enter), WidgetStatus::Accept);
    assert_eq!(e.accepted(), Some("echo hi"));
    assert_eq!(e.buffer(), "");
    assert_eq!(e.history(), &["echo hi".to_string()]);
}

#[test]
fn history_prefix_search() {
    let mut e = ZleEngine::new();
    for line in ["echo one", "echo two", "ls"] {
        type_str(&mut e, line);
        e.handle_key(Key::Enter);
    }
    type_str(&mut e, "echo ");
    assert_eq!(e.handle_key(Key::Ctrl('r')), WidgetStatus::Continue);
    assert_eq!(e.buffer(), "echo two");
    assert_eq!(e.handle_key(Key::Ctrl('r')), WidgetStatus::Continue);
    assert_eq!(e.buffer(), "echo one");
    assert_eq!(e.handle_key(Key::Ctrl('s')), WidgetStatus::Continue);
    assert_eq!(e.buffer(), "echo two");
}

#[test]
fn vi_modes() {
    let mut e = ZleEngine::new();
    type_str(&mut e, "abc");
    e.handle_key(Key::Esc);
    assert_eq!(e.mode(), KeymapMode::ViCommand);
    e.handle_key(Key::Char('h'));
    assert_eq!(e.cursor(), 1);
    e.handle_key(Key::Char('x'));
    assert_eq!(e.buffer(), "ac");
    e.handle_key(Key::Char('A'));
    assert_eq!(e.mode(), KeymapMode::ViInsert);
    assert_eq!(e.cursor(), e.buffer().len());
    type_str(&mut e, "!");
    assert_eq!(e.buffer(), "ac!");
}

#[test]
fn suggestion_lifecycle() {
    let mut e = ZleEngine::new();
    type_str(&mut e, "git st");
    e.set_suggestion(Some("atus".into()));
    assert_eq!(e.suggestion(), Some("atus"));
    type_str(&mut e, "x");
    assert_eq!(e.suggestion(), None);
}

#[test]
fn key_notation_roundtrip() {
    assert_eq!(Key::from_readline_notation("^R"), Some(Key::Ctrl('r')));
    assert_eq!(Key::from_readline_notation("<Up>"), Some(Key::Up));
    assert_eq!(Key::from_readline_notation("x"), Some(Key::Char('x')));
    assert_eq!(Key::Ctrl('r').to_readline_notation(), "^R");
    assert_eq!(Key::from_readline_notation("not-a-key"), None);
}

#[test]
fn undo_after_insert_restores_buffer() {
    let mut e = ZleEngine::new();
    type_str(&mut e, "xy");
    e.handle_key(Key::Ctrl('_'));
    assert_eq!(e.buffer(), "x");
    assert_eq!(e.cursor(), 1);
}

#[test]
fn bindings_are_sorted_by_notation() {
    let e = ZleEngine::new();
    let b = e.bindings();
    assert!(!b.is_empty());
    for w in b.windows(2) {
        assert!(w[0].0 <= w[1].0);
    }
}

#[test]
fn bind_by_notation() {
    let mut e = ZleEngine::new();
    type_str(&mut e, "abc");
    assert!(e.bind_readline_notation("^X", "beginning-of-line"));
    e.handle_key(Key::Ctrl('x'));
    assert_eq!(e.cursor(), 0);
    assert!(!e.bind_readline_notation("not-a-key", "beginning-of-line"));
}

#[test]
fn run_widget_by_name() {
    let mut e = ZleEngine::new();
    type_str(&mut e, "ab");
    assert_eq!(e.run_widget("beginning-of-line"), WidgetStatus::Continue);
    assert_eq!(e.cursor(), 0);
    assert_eq!(e.run_widget("no-such-widget"), WidgetStatus::Ignored);
}

#[test]
fn default_engine_is_new() {
    let e = ZleEngine::default();
    assert_eq!(e.buffer(), "");
    assert_eq!(e.mode(), KeymapMode::Emacs);
}

#[test]
fn non_ascii_character_notation() {
    assert_eq!(Key::from_readline_notation("é"), Some(Key::Char('é')));
    assert_eq!(Key::Char('é').to_readline_notation(), "é");
    assert_eq!(Key::from_readline_notation("éé"), None);
}

#[test]
fn redos_undo_the_undos() {
    let mut e = ZleEngine::new();
    type_str(&mut e, "abc");
    assert_eq!(e.run_widget("undo"), WidgetStatus::Continue);
    assert_eq!(e.run_widget("undo"), WidgetStatus::Continue);
    assert_eq!(e.buffer(), "a");
    assert_eq!(e.run_widget("redo"), WidgetStatus::Continue);
    assert_eq!(e.buffer(), "ab");
    assert_eq!(e.run_widget("redo"), WidgetStatus::Continue);
    assert_eq!(e.buffer(), "abc");
    assert_eq!(e.cursor(), 3);
}

#[test]
fn redo_clears_suggestion() {
    let mut e = ZleEngine::new();
    e.handle_key(Key::Char('a'));
    e.handle_key(Key::Char('b'));
    e.handle_key(Key::Ctrl('_'));
    assert_eq!(e.buffer(), "a");
    e.set_suggestion(Some("zz".into()));
    assert_eq!(e.run_widget("redo"), WidgetStatus::Continue);
    assert_eq!(e.buffer(), "ab");
    assert_eq!(e.suggestion(), None);
}

#[test]
fn undo_reverts_deletions() {
    let mut e = ZleEngine::new();
    type_str(&mut e, "hello world");
    e.handle_key(Key::Ctrl('w'));
    assert_eq!(e.buffer(), "hello ");
    e.handle_key(Key::Ctrl('_'));
    assert_eq!(e.buffer(), "hello world");
    assert_eq!(e.cursor(), 11);
    e.handle_key(Key::Backspace);
    assert_eq!(e.buffer(), "hello worl");
    e.handle_key(Key::Ctrl('_'));
    assert_eq!(e.buffer(), "hello world");
    e.handle_key(Key::Ctrl('u'));
    assert_eq!(e.buffer(), "");
    e.handle_key(Key::Ctrl('_'));
    assert_eq!(e.buffer(), "hello world");
    assert_eq!(e.cursor(), 11);
}
