use utsh::term::{char_width, decode_key, display_width, editor_step, suggest, EditStep, KeyRead};
use utsh::zle::engine::ZleEngine;
use utsh::zle::key::Key;

#[test]
fn decodes_control_and_plain_keys() {
    assert_eq!(decode_key(&[], false), KeyRead::Need);
    assert_eq!(decode_key(&[], true), KeyRead::Done(None));
    assert_eq!(decode_key(&[0x0d], false), KeyRead::Done(Some(Key::Enter)));
    assert_eq!(decode_key(&[0x0a], false), KeyRead::Done(Some(Key::Enter)));
    assert_eq!(decode_key(&[0x09], false), KeyRead::Done(Some(Key::Tab)));
    assert_eq!(decode_key(&[0x7f], false), KeyRead::Done(Some(Key::Backspace)));
    assert_eq!(decode_key(&[0x01], false), KeyRead::Done(Some(Key::Ctrl('a'))));
    assert_eq!(decode_key(&[0x12], false), KeyRead::Done(Some(Key::Ctrl('r'))));
    assert_eq!(decode_key(b"x", false), KeyRead::Done(Some(Key::Char('x'))));
}

#[test]
fn decodes_escape_sequences() {
    assert_eq!(decode_key(&[0x1b], false), KeyRead::Need);
    assert_eq!(decode_key(&[0x1b], true), KeyRead::Done(Some(Key::Esc)));
    assert_eq!(decode_key(b"\x1b[A", false), KeyRead::Done(Some(Key::Up)));
    assert_eq!(decode_key(b"\x1bOD", false), KeyRead::Done(Some(Key::Left)));
    assert_eq!(decode_key(b"\x1b[H", false), KeyRead::Done(Some(Key::Home)));
    assert_eq!(decode_key(b"\x1b[3", false), KeyRead::Need);
    assert_eq!(decode_key(b"\x1b[3~", false), KeyRead::Done(Some(Key::Delete)));
    assert_eq!(decode_key(b"\x1b[3", true), KeyRead::Done(Some(Key::Delete)));
    assert_eq!(decode_key(b"\x1b[Z", false), KeyRead::Done(Some(Key::Esc)));
    assert_eq!(decode_key(b"\x1bx", false), KeyRead::Done(Some(Key::Esc)));
}

#[test]
fn decodes_utf8_characters() {
    let bytes = "é".as_bytes();
    assert_eq!(decode_key(&bytes[..1], false), KeyRead::Need);
    assert_eq!(decode_key(bytes, false), KeyRead::Done(Some(Key::Char('é'))));
    let cjk = "中".as_bytes();
    assert_eq!(decode_key(&cjk[..2], false), KeyRead::Need);
    assert_eq!(decode_key(cjk, false), KeyRead::Done(Some(Key::Char('中'))));
    assert_eq!(decode_key(&cjk[..2], true), KeyRead::Done(Some(Key::Char('\u{fffd}'))));
}

#[test]
fn widths() {
    assert_eq!(char_width('a'), 1);
    assert_eq!(char_width('中'), 2);
    assert_eq!(char_width('é'), 1);
    assert_eq!(display_width("ab中文"), 6);
    assert_eq!(display_width(""), 0);
}

#[test]
fn suggestion_from_history() {
    let mut e = ZleEngine::new();
    e.set_history(vec!["git status".to_string(), "git stash".to_string(), "ls".to_string()]);
    assert_eq!(suggest(&e), None);
    for c in "git st".chars() {
        e.handle_key(Key::Char(c));
    }
    assert_eq!(suggest(&e), Some("ash".to_string()));
    for c in "ash".chars() {
        e.handle_key(Key::Char(c));
    }
    assert_eq!(suggest(&e), None);
}

#[test]
fn editor_steps() {
    let mut e = ZleEngine::new();
    e.set_history(vec!["git status".to_string()]);
    assert!(matches!(editor_step(&mut e, Key::Ctrl('d')), EditStep::EndSession));
    for c in "git s".chars() {
        assert!(matches!(editor_step(&mut e, Key::Char(c)), EditStep::Redraw));
    }
    assert_eq!(e.suggestion(), Some("tatus"));
    assert!(matches!(editor_step(&mut e, Key::Right), EditStep::Redraw));
    assert_eq!(e.buffer(), "git status");
    assert!(matches!(editor_step(&mut e, Key::Ctrl('d')), EditStep::Redraw));
    match editor_step(&mut e, Key::Enter) {
        EditStep::Accepted(l) => assert_eq!(l, "git status"),
        _ => panic!("expected an accepted line"),
    }
    assert_eq!(e.accepted(), None);
}

#[test]
fn multibyte_and_invalid_input() {
    assert_eq!(decode_key(&[0xc3], false), KeyRead::Need);
    assert_eq!(decode_key(&[0xc3, 0xa9], false), KeyRead::Done(Some(Key::Char('é'))));
    assert_eq!(decode_key(&[0xe4, 0xb8, 0xad], false), KeyRead::Done(Some(Key::Char('中'))));
    assert_eq!(decode_key(&[0xc3], true), KeyRead::Done(Some(Key::Char('\u{fffd}'))));
    assert_eq!(decode_key(&[0xff, 0x41, 0x42, 0x43], false), KeyRead::Done(Some(Key::Char('\u{fffd}'))));
    assert_eq!(decode_key(&[0x80], true), KeyRead::Done(Some(Key::Char('\u{fffd}'))));
}

#[test]
fn ctrl_c_cancels_the_line() {
    let mut e = ZleEngine::new();
    for c in "echo hi".chars() {
        assert!(matches!(editor_step(&mut e, Key::Char(c)), EditStep::Redraw));
    }
    e.set_suggestion(Some("x".into()));
    assert!(matches!(editor_step(&mut e, Key::Ctrl('c')), EditStep::Cancel));
    assert_eq!(e.buffer(), "");
    assert_eq!(e.cursor(), 0);
    assert_eq!(e.suggestion(), None);
    // nothing of the cancelled line comes back through undo
    assert!(matches!(editor_step(&mut e, Key::Ctrl('_')), EditStep::Redraw));
    assert_eq!(e.buffer(), "");
    // Ctrl-D on the fresh empty line ends the session
    assert!(matches!(editor_step(&mut e, Key::Ctrl('d')), EditStep::EndSession));
}

#[test]
fn new_prompt_starts_an_empty_line() {
    let mut e = ZleEngine::new();
    e.set_history(vec!["ls".to_string()]);
    e.handle_key(Key::Char('a'));
    e.new_prompt();
    assert_eq!(e.buffer(), "");
    assert_eq!(e.cursor(), 0);
    assert_eq!(e.history(), &["ls".to_string()]);
}
