//! The abstract state of the line editor and the meaning of every editing
//! operation, widget and key press as a function on that state.
use vstd::prelude::*;
use crate::table::{keys_distinct, kv_get, kv_put};
use crate::text::{has_prefix, unicode_alphanumeric};
use super::key::Key;

verus! {

/// Undo-stack bound of a new engine.
pub const DEFAULT_UNDO_LIMIT: usize = 200;

/// Keymap modes.
#[derive(Clone, Copy, Debug, PartialEq, Eq, Structural)]
pub enum KeymapMode {
    /// Emacs keys (the default).
    Emacs,
    /// Vi insert mode.
    ViInsert,
    /// Vi command mode.
    ViCommand,
}

/// What a widget reports after it ran.
#[derive(Clone, Copy, Debug, PartialEq, Eq, Structural)]
pub enum WidgetStatus {
    /// Keep editing.
    Continue,
    /// The line was accepted (Enter); the caller reads `accepted()`.
    Accept,
    /// Leave the editor.
    Quit,
    /// The key had no effect.
    Ignored,
}

/// The widgets the engine knows how to run (`zle -N` registers one of them
/// under a name).
#[derive(Clone, Copy, Debug, PartialEq, Eq, Structural)]
pub enum Widget {
    SelfInsert,
    AcceptLine,
    BackwardChar,
    ForwardChar,
    BeginningOfLine,
    EndOfLine,
    BackwardDeleteChar,
    DeleteChar,
    KillLine,
    UnixLineDiscard,
    BackwardKillWord,
    Undo,
    Redo,
    HistorySearchBackward,
    HistorySearchForward,
    ViCmdMode,
    ViInsertMode,
    ViAppend,
    ViAppendEol,
    ViBackwardWord,
    ViForwardWord,
    ViBackwardChar,
    ViForwardChar,
}

/// Abstract state of a `ZleEngine`.
#[verifier::ext_equal]
pub struct ZleState {
    pub buffer: Seq<char>,
    pub cursor: nat,
    pub mode: KeymapMode,
    /// Key bindings of the current mode (key → widget name).
    pub keymap: Seq<(Key, Seq<char>)>,
    /// Registered widgets (name → widget).
    pub widgets: Seq<(Seq<char>, Widget)>,
    /// Snapshots `(buffer, cursor)` taken before edits, newest last.
    pub undo_stack: Seq<(Seq<char>, nat)>,
    pub redo_stack: Seq<(Seq<char>, nat)>,
    pub undo_limit: nat,
    pub kill_ring: Seq<char>,
    /// History lines, newest last.
    pub history: Seq<Seq<char>>,
    pub search_from: Option<nat>,
    pub history_query: Option<Seq<char>>,
    pub accepted: Option<Seq<char>>,
    pub suggestion: Option<Seq<char>>,
    pub rprompt: Seq<char>,
    pub prompt: Seq<char>,
    pub pending_key: Option<Key>,
}

/// Invariant of the editor state.
pub open spec fn state_wf(s: ZleState) -> bool {
    &&& s.cursor <= s.buffer.len()
    &&& keys_distinct(s.keymap)
    &&& keys_distinct(s.widgets)
    &&& s.undo_limit == DEFAULT_UNDO_LIMIT
    &&& s.undo_stack.len() <= s.undo_limit
    &&& forall|i: int|
        0 <= i < s.undo_stack.len() ==> (#[trigger] s.undo_stack[i]).1 <= s.undo_stack[i].0.len()
    &&& forall|i: int|
        0 <= i < s.redo_stack.len() ==> (#[trigger] s.redo_stack[i]).1 <= s.redo_stack[i].0.len()
    &&& s.search_from matches Some(p) ==> p < usize::MAX
}

/// Word characters: alphanumerics and `_`.
pub open spec fn word_char(c: char) -> bool {
    unicode_alphanumeric(c) || c == '_'
}

// ---------------------------------------------------------------------------
// Primitive edits
// ---------------------------------------------------------------------------

/// Any edit interrupts a history search.
pub open spec fn reset_history_search(s: ZleState) -> ZleState {
    ZleState { search_from: None, history_query: None, ..s }
}

pub open spec fn clear_suggestion(s: ZleState) -> ZleState {
    ZleState { suggestion: None, ..s }
}

/// Records `(buffer, cursor)` for undo (dropping the oldest snapshot at the
/// limit) and interrupts history search.
pub open spec fn record_undo(s: ZleState) -> ZleState {
    let undo = if s.undo_stack.len() >= s.undo_limit {
        s.undo_stack.drop_first()
    } else {
        s.undo_stack
    };
    reset_history_search(ZleState { undo_stack: undo.push((s.buffer, s.cursor)), ..s })
}

/// Before a new edit: records the state for undo, and the edit invalidates
/// redo.
pub open spec fn push_undo(s: ZleState) -> ZleState {
    ZleState { redo_stack: Seq::empty(), ..record_undo(s) }
}

pub open spec fn insert_char(s: ZleState, c: char) -> ZleState {
    let t = push_undo(s);
    clear_suggestion(
        ZleState { buffer: t.buffer.insert(t.cursor as int, c), cursor: t.cursor + 1, ..t },
    )
}

pub open spec fn insert_str(s: ZleState, cs: Seq<char>) -> ZleState {
    if cs.len() == 0 {
        s
    } else {
        let t = push_undo(s);
        clear_suggestion(
            ZleState {
                buffer: t.buffer.take(t.cursor as int) + cs + t.buffer.skip(t.cursor as int),
                cursor: t.cursor + cs.len(),
                ..t
            },
        )
    }
}

pub open spec fn delete_before(s: ZleState) -> ZleState {
    if s.cursor == 0 {
        s
    } else {
        let t = push_undo(s);
        clear_suggestion(
            ZleState {
                buffer: t.buffer.remove(t.cursor - 1),
                cursor: (t.cursor - 1) as nat,
                ..t
            },
        )
    }
}

pub open spec fn delete_at_cursor(s: ZleState) -> ZleState {
    if s.cursor >= s.buffer.len() {
        s
    } else {
        let t = push_undo(s);
        clear_suggestion(ZleState { buffer: t.buffer.remove(t.cursor as int), ..t })
    }
}

pub open spec fn kill_to_end(s: ZleState) -> ZleState {
    if s.cursor >= s.buffer.len() {
        s
    } else {
        let t = push_undo(s);
        clear_suggestion(
            ZleState {
                kill_ring: t.buffer.skip(t.cursor as int),
                buffer: t.buffer.take(t.cursor as int),
                ..t
            },
        )
    }
}

pub open spec fn kill_to_start(s: ZleState) -> ZleState {
    if s.cursor == 0 {
        s
    } else {
        let t = push_undo(s);
        clear_suggestion(
            ZleState {
                kill_ring: t.buffer.take(t.cursor as int),
                buffer: t.buffer.skip(t.cursor as int),
                cursor: 0,
                ..t
            },
        )
    }
}

/// Start of the word that ends at `cur`: one past the last non-word
/// character before `cur` (0 if there is none).
pub open spec fn word_start(b: Seq<char>, cur: nat) -> nat
    decreases cur,
{
    if cur == 0 {
        0
    } else if !word_char(b[cur - 1]) {
        cur
    } else {
        word_start(b, (cur - 1) as nat)
    }
}

pub open spec fn kill_word_before(s: ZleState) -> ZleState {
    if s.cursor == 0 {
        s
    } else {
        let st = word_start(s.buffer, s.cursor);
        let t = push_undo(s);
        clear_suggestion(
            ZleState {
                kill_ring: t.buffer.subrange(st as int, t.cursor as int),
                buffer: t.buffer.take(st as int) + t.buffer.skip(t.cursor as int),
                cursor: st,
                ..t
            },
        )
    }
}

/// Moves `cur` left while the character before it is (`want`) or is not
/// (`!want`) a word character.
pub open spec fn back_while(b: Seq<char>, cur: nat, want: bool) -> nat
    decreases cur,
{
    if cur > 0 && word_char(b[cur - 1]) == want {
        back_while(b, (cur - 1) as nat, want)
    } else {
        cur
    }
}

/// Moves `cur` right while the character under it is (`want`) or is not
/// (`!want`) a word character.
pub open spec fn fwd_while(b: Seq<char>, cur: nat, want: bool) -> nat
    decreases b.len() - cur,
{
    if cur < b.len() && word_char(b[cur as int]) == want {
        fwd_while(b, cur + 1, want)
    } else {
        cur
    }
}

pub open spec fn move_word_back(s: ZleState) -> ZleState {
    ZleState { cursor: back_while(s.buffer, back_while(s.buffer, s.cursor, false), true), ..s }
}

pub open spec fn move_word_forward(s: ZleState) -> ZleState {
    ZleState { cursor: fwd_while(s.buffer, fwd_while(s.buffer, s.cursor, true), false), ..s }
}

// ---------------------------------------------------------------------------
// Keymaps
// ---------------------------------------------------------------------------

/// Default Emacs bindings (also the base of Vi insert mode).
#[verifier::opaque]
pub open spec fn emacs_keymap() -> Seq<(Key, Seq<char>)> {
    let m = Seq::<(Key, Seq<char>)>::empty();
    let m = kv_put(m, Key::Ctrl('a'), "beginning-of-line"@);
    let m = kv_put(m, Key::Ctrl('e'), "end-of-line"@);
    let m = kv_put(m, Key::Ctrl('b'), "backward-char"@);
    let m = kv_put(m, Key::Ctrl('f'), "forward-char"@);
    let m = kv_put(m, Key::Ctrl('d'), "delete-char"@);
    let m = kv_put(m, Key::Ctrl('u'), "unix-line-discard"@);
    let m = kv_put(m, Key::Ctrl('k'), "kill-line"@);
    let m = kv_put(m, Key::Ctrl('w'), "backward-kill-word"@);
    let m = kv_put(m, Key::Ctrl('r'), "history-search-backward"@);
    let m = kv_put(m, Key::Ctrl('s'), "history-search-forward"@);
    let m = kv_put(m, Key::Ctrl('_'), "undo"@);
    let m = kv_put(m, Key::Left, "backward-char"@);
    let m = kv_put(m, Key::Right, "forward-char"@);
    let m = kv_put(m, Key::Home, "beginning-of-line"@);
    let m = kv_put(m, Key::End, "end-of-line"@);
    let m = kv_put(m, Key::Backspace, "backward-delete-char"@);
    let m = kv_put(m, Key::Delete, "delete-char"@);
    let m = kv_put(m, Key::Enter, "accept-line"@);
    let m = kv_put(m, Key::Up, "history-search-backward"@);
    let m = kv_put(m, Key::Down, "history-search-forward"@);
    m
}

/// Default Vi command-mode bindings.
#[verifier::opaque]
pub open spec fn vi_command_keymap() -> Seq<(Key, Seq<char>)> {
    let m = Seq::<(Key, Seq<char>)>::empty();
    let m = kv_put(m, Key::Char('h'), "vi-backward-char"@);
    let m = kv_put(m, Key::Char('l'), "vi-forward-char"@);
    let m = kv_put(m, Key::Char('^'), "beginning-of-line"@);
    let m = kv_put(m, Key::Char('$'), "end-of-line"@);
    let m = kv_put(m, Key::Char('i'), "vi-insert-mode"@);
    let m = kv_put(m, Key::Char('a'), "vi-append"@);
    let m = kv_put(m, Key::Char('A'), "vi-append-eol"@);
    let m = kv_put(m, Key::Char('x'), "delete-char"@);
    let m = kv_put(m, Key::Char('u'), "undo"@);
    let m = kv_put(m, Key::Char('b'), "vi-backward-word"@);
    let m = kv_put(m, Key::Char('w'), "vi-forward-word"@);
    let m = kv_put(m, Key::Left, "backward-char"@);
    let m = kv_put(m, Key::Right, "forward-char"@);
    m
}

/// The bindings a mode starts with.
pub open spec fn default_keymap(mode: KeymapMode) -> Seq<(Key, Seq<char>)> {
    match mode {
        KeymapMode::Emacs => emacs_keymap(),
        KeymapMode::ViInsert => kv_put(emacs_keymap(), Key::Esc, "vi-cmd-mode"@),
        KeymapMode::ViCommand => vi_command_keymap(),
    }
}

/// The built-in widgets under their `zle` names.
#[verifier::opaque]
pub open spec fn builtin_widgets() -> Seq<(Seq<char>, Widget)> {
    let m = Seq::<(Seq<char>, Widget)>::empty();
    let m = kv_put(m, "self-insert"@, Widget::SelfInsert);
    let m = kv_put(m, "accept-line"@, Widget::AcceptLine);
    let m = kv_put(m, "backward-char"@, Widget::BackwardChar);
    let m = kv_put(m, "forward-char"@, Widget::ForwardChar);
    let m = kv_put(m, "beginning-of-line"@, Widget::BeginningOfLine);
    let m = kv_put(m, "end-of-line"@, Widget::EndOfLine);
    let m = kv_put(m, "backward-delete-char"@, Widget::BackwardDeleteChar);
    let m = kv_put(m, "delete-char"@, Widget::DeleteChar);
    let m = kv_put(m, "kill-line"@, Widget::KillLine);
    let m = kv_put(m, "unix-line-discard"@, Widget::UnixLineDiscard);
    let m = kv_put(m, "backward-kill-word"@, Widget::BackwardKillWord);
    let m = kv_put(m, "undo"@, Widget::Undo);
    let m = kv_put(m, "redo"@, Widget::Redo);
    let m = kv_put(m, "history-search-backward"@, Widget::HistorySearchBackward);
    let m = kv_put(m, "history-search-forward"@, Widget::HistorySearchForward);
    let m = kv_put(m, "vi-cmd-mode"@, Widget::ViCmdMode);
    let m = kv_put(m, "vi-insert-mode"@, Widget::ViInsertMode);
    let m = kv_put(m, "vi-append"@, Widget::ViAppend);
    let m = kv_put(m, "vi-append-eol"@, Widget::ViAppendEol);
    let m = kv_put(m, "vi-backward-word"@, Widget::ViBackwardWord);
    let m = kv_put(m, "vi-forward-word"@, Widget::ViForwardWord);
    let m = kv_put(m, "vi-backward-char"@, Widget::ViBackwardChar);
    let m = kv_put(m, "vi-forward-char"@, Widget::ViForwardChar);
    m
}

/// State of a new engine: empty line, Emacs mode, built-in widgets.
pub open spec fn initial_state() -> ZleState {
    ZleState {
        buffer: Seq::empty(),
        cursor: 0,
        mode: KeymapMode::Emacs,
        keymap: emacs_keymap(),
        widgets: builtin_widgets(),
        undo_stack: Seq::empty(),
        redo_stack: Seq::empty(),
        undo_limit: DEFAULT_UNDO_LIMIT as nat,
        kill_ring: Seq::empty(),
        history: Seq::empty(),
        search_from: None,
        history_query: None,
        accepted: None,
        suggestion: None,
        rprompt: Seq::empty(),
        prompt: Seq::empty(),
        pending_key: None,
    }
}

/// Switching mode reloads that mode's default bindings; entering Vi command
/// mode at the end of a non-empty line steps back onto the last character.
pub open spec fn set_mode(s: ZleState, mode: KeymapMode) -> ZleState {
    let cursor = if mode == KeymapMode::ViCommand && s.cursor == s.buffer.len() && s.buffer.len()
        > 0 {
        (s.cursor - 1) as nat
    } else {
        s.cursor
    };
    ZleState { mode, keymap: default_keymap(mode), cursor, ..s }
}

// ---------------------------------------------------------------------------
// Widgets
// ---------------------------------------------------------------------------

/// Enter: records the line in history (unless empty or equal to the newest
/// entry), makes it the accepted line and starts an empty one.
pub open spec fn accept_line(s: ZleState) -> ZleState {
    let line = s.buffer;
    let history = if line.len() > 0 && (s.history.len() == 0 || s.history.last() != line) {
        s.history.push(line)
    } else {
        s.history
    };
    reset_history_search(
        clear_suggestion(
            ZleState { history, accepted: Some(line), buffer: Seq::empty(), cursor: 0, ..s },
        ),
    )
}

/// A new prompt (after Ctrl-C cancels the line, or before the next line):
/// an empty line with the cursor at its start, nothing to undo or redo, no
/// accepted line, no suggestion and no history search under way.  The
/// mode, bindings, widgets, kill ring and history stay.
pub open spec fn new_line(s: ZleState) -> ZleState {
    ZleState {
        buffer: Seq::empty(),
        cursor: 0,
        undo_stack: Seq::empty(),
        redo_stack: Seq::empty(),
        accepted: None,
        suggestion: None,
        search_from: None,
        history_query: None,
        ..s
    }
}

pub open spec fn undo(s: ZleState) -> ZleState {
    if s.undo_stack.len() > 0 {
        let snap = s.undo_stack.last();
        clear_suggestion(
            ZleState {
                undo_stack: s.undo_stack.drop_last(),
                redo_stack: s.redo_stack.push((s.buffer, s.cursor)),
                buffer: snap.0,
                cursor: snap.1,
                ..s
            },
        )
    } else {
        s
    }
}

pub open spec fn redo(s: ZleState) -> ZleState {
    if s.redo_stack.len() > 0 {
        let snap = s.redo_stack.last();
        let t = record_undo(ZleState { redo_stack: s.redo_stack.drop_last(), ..s });
        clear_suggestion(ZleState { buffer: snap.0, cursor: snap.1, ..t })
    } else {
        s
    }
}

/// First index at or after `i` (forward) or at or before `i` (backward)
/// whose line starts with `p`.
pub open spec fn search_index(h: Seq<Seq<char>>, p: Seq<char>, i: int, forward: bool) -> Option<
    nat,
>
    decreases (if forward {
        h.len() - i
    } else {
        i + 1
    }),
{
    if 0 <= i < h.len() {
        if has_prefix(h[i], p) {
            Some(i as nat)
        } else if forward {
            search_index(h, p, i + 1, forward)
        } else {
            search_index(h, p, i - 1, forward)
        }
    } else {
        None
    }
}

/// Where a search starts: the newest line for a fresh backward search,
/// nothing for a fresh forward search, otherwise next to the last hit.
pub open spec fn search_start(s: ZleState, forward: bool) -> int {
    match s.search_from {
        Some(pos) => if forward {
            if pos + 1 <= s.history.len() - 1 {
                (pos + 1) as int
            } else {
                s.history.len() - 1
            }
        } else {
            pos - 1
        },
        None => if forward {
            -1
        } else {
            s.history.len() - 1
        },
    }
}

/// Prefix history search.  The query is the line as it was when the search
/// began; a hit replaces the line and puts the cursor at its end.
pub open spec fn history_search(s: ZleState, forward: bool) -> (ZleState, WidgetStatus) {
    let prefix = match s.history_query {
        Some(q) => q,
        None => s.buffer,
    };
    let s1 = ZleState { history_query: Some(prefix), ..s };
    if s1.history.len() == 0 {
        (s1, WidgetStatus::Ignored)
    } else {
        match search_index(s1.history, prefix, search_start(s, forward), forward) {
            Some(j) => (
                ZleState {
                    search_from: Some(j),
                    buffer: s1.history[j as int],
                    cursor: s1.history[j as int].len(),
                    suggestion: None,
                    ..s1
                },
                WidgetStatus::Continue,
            ),
            None => (s1, WidgetStatus::Ignored),
        }
    }
}

pub open spec fn with_cursor(s: ZleState, cursor: nat) -> ZleState {
    ZleState { cursor, ..s }
}

/// The effect of running one widget.
pub open spec fn apply_widget(s: ZleState, w: Widget) -> (ZleState, WidgetStatus) {
    let len = s.buffer.len();
    match w {
        Widget::SelfInsert => match s.pending_key {
            Some(Key::Char(c)) => (insert_char(s, c), WidgetStatus::Continue),
            _ => (s, WidgetStatus::Ignored),
        },
        Widget::AcceptLine => (accept_line(s), WidgetStatus::Accept),
        Widget::BackwardChar | Widget::ViBackwardChar => (
            with_cursor(
                s,
                if s.cursor > 0 {
                    (s.cursor - 1) as nat
                } else {
                    0
                },
            ),
            WidgetStatus::Continue,
        ),
        Widget::ForwardChar => (
            with_cursor(
                s,
                if s.cursor < len {
                    s.cursor + 1
                } else {
                    s.cursor
                },
            ),
            WidgetStatus::Continue,
        ),
        Widget::BeginningOfLine => (with_cursor(s, 0), WidgetStatus::Continue),
        Widget::EndOfLine => (with_cursor(s, len), WidgetStatus::Continue),
        Widget::BackwardDeleteChar => (delete_before(s), WidgetStatus::Continue),
        Widget::DeleteChar => (delete_at_cursor(s), WidgetStatus::Continue),
        Widget::KillLine => (kill_to_end(s), WidgetStatus::Continue),
        Widget::UnixLineDiscard => (kill_to_start(s), WidgetStatus::Continue),
        Widget::BackwardKillWord => (kill_word_before(s), WidgetStatus::Continue),
        Widget::Undo => (undo(s), WidgetStatus::Continue),
        Widget::Redo => (redo(s), WidgetStatus::Continue),
        Widget::HistorySearchBackward => history_search(s, false),
        Widget::HistorySearchForward => history_search(s, true),
        Widget::ViCmdMode => (set_mode(s, KeymapMode::ViCommand), WidgetStatus::Continue),
        Widget::ViInsertMode => (set_mode(s, KeymapMode::ViInsert), WidgetStatus::Continue),
        Widget::ViAppend => (
            set_mode(
                with_cursor(
                    s,
                    if s.cursor < len {
                        s.cursor + 1
                    } else {
                        s.cursor
                    },
                ),
                KeymapMode::ViInsert,
            ),
            WidgetStatus::Continue,
        ),
        Widget::ViAppendEol => (
            set_mode(with_cursor(s, len), KeymapMode::ViInsert),
            WidgetStatus::Continue,
        ),
        Widget::ViBackwardWord => (move_word_back(s), WidgetStatus::Continue),
        Widget::ViForwardWord => (move_word_forward(s), WidgetStatus::Continue),
        Widget::ViForwardChar => (
            with_cursor(
                s,
                if s.cursor + 1 < len {
                    s.cursor + 1
                } else {
                    s.cursor
                },
            ),
            WidgetStatus::Continue,
        ),
    }
}

/// Runs the widget registered under `name`; unknown names are ignored.
pub open spec fn run_widget(s: ZleState, name: Seq<char>) -> (ZleState, WidgetStatus) {
    match kv_get(s.widgets, name) {
        Some(w) => apply_widget(s, w),
        None => (s, WidgetStatus::Ignored),
    }
}

/// What an unbound key does: in Vi command mode nothing; otherwise
/// characters are inserted and the editing keys run their usual widgets.
pub open spec fn default_action(s: ZleState, key: Key) -> (ZleState, WidgetStatus) {
    if s.mode == KeymapMode::ViCommand {
        (s, WidgetStatus::Ignored)
    } else {
        match key {
            Key::Char(c) => (insert_char(s, c), WidgetStatus::Continue),
            Key::Enter => run_widget(s, "accept-line"@),
            Key::Backspace => run_widget(s, "backward-delete-char"@),
            Key::Delete => run_widget(s, "delete-char"@),
            Key::Tab => (s, WidgetStatus::Ignored),
            Key::Esc => (set_mode(s, KeymapMode::ViCommand), WidgetStatus::Continue),
            Key::Left => run_widget(s, "backward-char"@),
            Key::Right => run_widget(s, "forward-char"@),
            Key::Home => run_widget(s, "beginning-of-line"@),
            Key::End => run_widget(s, "end-of-line"@),
            Key::Up => run_widget(s, "history-search-backward"@),
            Key::Down => run_widget(s, "history-search-forward"@),
            _ => (s, WidgetStatus::Ignored),
        }
    }
}

/// One key press: the bound widget if the key is bound to a registered
/// widget, the default action otherwise.
pub open spec fn handle_key(s: ZleState, key: Key) -> (ZleState, WidgetStatus) {
    let s1 = ZleState { pending_key: Some(key), ..s };
    match kv_get(s1.keymap, key) {
        Some(name) => match kv_get(s1.widgets, name) {
            Some(w) => apply_widget(s1, w),
            None => default_action(s1, key),
        },
        None => default_action(s1, key),
    }
}

} // verus!
