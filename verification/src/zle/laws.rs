//! Properties of the editor that hold across operations.
use vstd::prelude::*;
use crate::text::has_prefix;
use crate::table::{keys_distinct, kv_get, kv_has, kv_put, lemma_kv_put_get};
use super::key::Key;
use super::spec::{builtin_widgets, default_keymap, emacs_keymap, handle_key, history_search, KeymapMode, Widget, WidgetStatus, accept_line, apply_widget, delete_at_cursor, delete_before, insert_char, kill_to_end, kill_to_start, kill_word_before, push_undo, redo, search_index, search_start, state_wf, undo, ZleState};

verus! {

/// Undo right after typing a character restores the line and the cursor as
/// they were before the character was typed.
pub proof fn lemma_undo_reverts_insert(s: ZleState, c: char)
    requires
        state_wf(s),
    ensures
        undo(insert_char(s, c)).buffer == s.buffer,
        undo(insert_char(s, c)).cursor == s.cursor,
{
    let t = insert_char(s, c);
    assert(t.undo_stack.len() > 0);
    assert(t.undo_stack.last() == (s.buffer, s.cursor));
}

/// Undo right after any edit that changed the line (Backspace, Delete,
/// Ctrl-D, Ctrl-K, Ctrl-U, Ctrl-W) restores the line and the cursor as they
/// were before the edit.
pub proof fn lemma_undo_reverts_edit(s: ZleState)
    requires
        state_wf(s),
    ensures
        s.cursor > 0 ==> undo(delete_before(s)).buffer == s.buffer && undo(
            delete_before(s),
        ).cursor == s.cursor,
        s.cursor < s.buffer.len() ==> undo(delete_at_cursor(s)).buffer == s.buffer && undo(
            delete_at_cursor(s),
        ).cursor == s.cursor,
        s.cursor < s.buffer.len() ==> undo(kill_to_end(s)).buffer == s.buffer && undo(
            kill_to_end(s),
        ).cursor == s.cursor,
        s.cursor > 0 ==> undo(kill_to_start(s)).buffer == s.buffer && undo(
            kill_to_start(s),
        ).cursor == s.cursor,
        s.cursor > 0 ==> undo(kill_word_before(s)).buffer == s.buffer && undo(
            kill_word_before(s),
        ).cursor == s.cursor,
{
    let p = push_undo(s);
    assert(p.undo_stack.len() > 0);
    assert(p.undo_stack.last() == (s.buffer, s.cursor));
    if s.cursor > 0 {
        assert(delete_before(s).undo_stack == p.undo_stack);
        assert(kill_to_start(s).undo_stack == p.undo_stack);
        assert(kill_word_before(s).undo_stack == p.undo_stack);
    }
    if s.cursor < s.buffer.len() {
        assert(delete_at_cursor(s).undo_stack == p.undo_stack);
        assert(kill_to_end(s).undo_stack == p.undo_stack);
    }
}

/// `s` with no history search under way and no suggestion shown.
pub open spec fn settled(s: ZleState) -> ZleState {
    ZleState { search_from: None, history_query: None, suggestion: None, ..s }
}

/// `k` undos in a row.
pub open spec fn undo_times(s: ZleState, k: nat) -> ZleState
    decreases k,
{
    if k == 0 {
        s
    } else {
        undo_times(undo(s), (k - 1) as nat)
    }
}

/// `k` redos in a row.
pub open spec fn redo_times(s: ZleState, k: nat) -> ZleState
    decreases k,
{
    if k == 0 {
        s
    } else {
        redo(redo_times(s, (k - 1) as nat))
    }
}

/// Undo followed by redo gives back the state before the undo: line,
/// cursor, both stacks, kill ring and history (only a history search under
/// way and the suggestion are dropped).
pub proof fn lemma_redo_after_undo(s: ZleState)
    requires
        state_wf(s),
        s.undo_stack.len() > 0,
    ensures
        redo(undo(s)) == settled(s),
        state_wf(undo(s)),
{
    let u = undo(s);
    assert(u.redo_stack.last() == (s.buffer, s.cursor));
    assert(u.redo_stack.drop_last() =~= s.redo_stack);
    assert(u.undo_stack.len() < s.undo_limit);
    assert(u.undo_stack.push(s.undo_stack.last()) =~= s.undo_stack);
    let k = s.undo_stack.len() - 1;
    assert(s.undo_stack[k] == s.undo_stack.last());
    assert forall|i: int| 0 <= i < u.undo_stack.len() implies (#[trigger] u.undo_stack[i]).1
        <= u.undo_stack[i].0.len() by {
        assert(u.undo_stack[i] == s.undo_stack[i]);
    }
    assert forall|i: int| 0 <= i < u.redo_stack.len() implies (#[trigger] u.redo_stack[i]).1
        <= u.redo_stack[i].0.len() by {
        if i < s.redo_stack.len() {
            assert(u.redo_stack[i] == s.redo_stack[i]);
        }
    }
}

/// `k` undos followed by `k` redos give back the state before the undos
/// (only a history search under way and the suggestion are dropped), for
/// every `k` from one up to the number of recorded snapshots.
pub proof fn lemma_redos_undo_undos(s: ZleState, k: nat)
    requires
        state_wf(s),
        1 <= k <= s.undo_stack.len(),
    ensures
        redo_times(undo_times(s, k), k) == settled(s),
    decreases k,
{
    lemma_redo_after_undo(s);
    let u = undo(s);
    if k == 1 {
        assert(undo_times(s, 1) == undo_times(u, 0));
        assert(redo_times(u, 1) == redo(redo_times(u, 0)));
    } else {
        let j = (k - 1) as nat;
        lemma_redos_undo_undos(u, j);
        assert(undo_times(s, k) == undo_times(u, j));
        let x = redo_times(undo_times(u, j), j);
        assert(x == settled(u));
        assert(redo_times(undo_times(s, k), k) == redo(x));
        assert(redo(settled(u)) == redo(u));
    }
}

/// Redo right after that undo brings the typed character back.
pub proof fn lemma_redo_reinserts(s: ZleState, c: char)
    requires
        state_wf(s),
    ensures
        redo(undo(insert_char(s, c))).buffer == insert_char(s, c).buffer,
        redo(undo(insert_char(s, c))).cursor == insert_char(s, c).cursor,
{
    let t = insert_char(s, c);
    let u = undo(t);
    assert(t.undo_stack.len() > 0);
    assert(u.redo_stack.len() > 0);
    assert(u.redo_stack.last() == (t.buffer, t.cursor));
}

/// Every edit that changes the line drops the auto-suggestion.
pub proof fn lemma_edits_clear_suggestion(s: ZleState, c: char)
    ensures
        insert_char(s, c).suggestion is None,
        s.cursor > 0 ==> delete_before(s).suggestion is None,
        s.cursor < s.buffer.len() ==> delete_at_cursor(s).suggestion is None,
        s.cursor < s.buffer.len() ==> kill_to_end(s).suggestion is None,
        s.cursor > 0 ==> kill_to_start(s).suggestion is None,
        s.cursor > 0 ==> kill_word_before(s).suggestion is None,
        accept_line(s).suggestion is None,
        s.undo_stack.len() > 0 ==> undo(s).suggestion is None,
        s.redo_stack.len() > 0 ==> redo(s).suggestion is None,
{
}

/// Every edit records the line before it for undo and forgets redo.
pub proof fn lemma_edit_records_undo(s: ZleState)
    requires
        state_wf(s),
    ensures
        push_undo(s).undo_stack.last() == (s.buffer, s.cursor),
        push_undo(s).redo_stack.len() == 0,
        push_undo(s).undo_stack.len() <= s.undo_limit,
{
}

/// Accepting a line hands it out, starts an empty line, and leaves it as
/// the newest history entry unless it is empty.
pub proof fn lemma_accept_line(s: ZleState)
    ensures
        accept_line(s).accepted == Some(s.buffer),
        accept_line(s).buffer.len() == 0,
        accept_line(s).cursor == 0,
        s.buffer.len() > 0 ==> accept_line(s).history.last() == s.buffer,
        s.buffer.len() == 0 ==> accept_line(s).history == s.history,
        accept_line(s).history.len() <= s.history.len() + 1,
{
}

/// A history search hit is a line with the query as prefix, and no line
/// between the start of the search and the hit has it.
pub proof fn lemma_search_index(h: Seq<Seq<char>>, p: Seq<char>, i: int, forward: bool)
    ensures
        search_index(h, p, i, forward) matches Some(j) ==> {
            &&& 0 <= j < h.len()
            &&& has_prefix(h[j as int], p)
            &&& forward ==> i <= j
            &&& !forward ==> j <= i
            &&& forall|k: int|
                (if forward {
                    i <= k < j
                } else {
                    j < k <= i
                }) ==> !has_prefix(#[trigger] h[k], p)
        },
        search_index(h, p, i, forward) is None && (if forward {
            0 <= i
        } else {
            i < h.len()
        }) ==> forall|k: int|
            0 <= k < h.len() && (if forward {
                i <= k
            } else {
                k <= i
            }) ==> !has_prefix(#[trigger] h[k], p),
    decreases (if forward {
        h.len() - i
    } else {
        i + 1
    }),
{
    if 0 <= i < h.len() {
        if !has_prefix(h[i], p) {
            if forward {
                lemma_search_index(h, p, i + 1, forward);
            } else {
                lemma_search_index(h, p, i - 1, forward);
            }
        }
    }
}

/// A fresh backward history search (none under way) takes the line as its
/// query and finds the newest history line that starts with it: the line
/// becomes that entry, and no newer entry has the query as prefix.  When no
/// entry has it, the search is ignored and the line stays.
pub proof fn lemma_fresh_backward_search(s: ZleState)
    requires
        s.search_from is None,
        s.history_query is None,
    ensures
        ({
            let h = s.history;
            let q = s.buffer;
            let (t, st) = history_search(s, false);
            &&& (exists|i: int| 0 <= i < h.len() && has_prefix(#[trigger] h[i], q)) ==> {
                &&& st == WidgetStatus::Continue
                &&& t.search_from matches Some(j) && j < h.len() && t.buffer == h[j as int]
                    && t.cursor == h[j as int].len() && has_prefix(h[j as int], q) && forall|k: int|
                    j < k < h.len() ==> !has_prefix(#[trigger] h[k], q)
            }
            &&& !(exists|i: int| 0 <= i < h.len() && has_prefix(#[trigger] h[i], q)) ==> st
                == WidgetStatus::Ignored && t.buffer == s.buffer
            &&& t.history_query == Some(q)
        }),
        s.history.len() > 0 && has_prefix(s.history.last(), s.buffer) ==> history_search(
            s,
            false,
        ).0.buffer == s.history.last() && history_search(s, false).1 == WidgetStatus::Continue,
{
    let h = s.history;
    let q = s.buffer;
    let n = h.len() as int;
    lemma_search_index(h, q, n - 1, false);
    if exists|i: int| 0 <= i < h.len() && has_prefix(#[trigger] h[i], q) {
        let i = choose|i: int| 0 <= i < h.len() && has_prefix(#[trigger] h[i], q);
        assert(search_index(h, q, n - 1, false) is Some);
    }
    if n > 0 && has_prefix(h.last(), q) {
        assert(has_prefix(h[n - 1], q));
        assert(search_index(h, q, n - 1, false) == Some((n - 1) as nat));
    }
}

/// Down or Ctrl-S with no search under way finds nothing: a forward search
/// only continues a backward one.
pub proof fn lemma_fresh_forward_search(s: ZleState)
    requires
        s.search_from is None,
    ensures
        history_search(s, true).1 == WidgetStatus::Ignored,
        history_search(s, true).0.buffer == s.buffer,
        history_search(s, true).0.cursor == s.cursor,
{
}

/// A search that continues the last hit at `p` keeps the first query:
/// backwards it finds the newest entry older than `p` with the query as
/// prefix; forwards the oldest one from `p + 1` on (from the newest entry
/// when `p` is the newest), with nothing in between that has it.  With no
/// such entry the search is ignored and the line stays.
pub proof fn lemma_continued_search(s: ZleState, forward: bool)
    requires
        s.search_from matches Some(p) && p < s.history.len(),
        s.history_query is Some,
    ensures
        ({
            let h = s.history;
            let q = s.history_query->Some_0;
            let p = s.search_from->Some_0;
            let lo: int = if forward {
                if p + 1 < h.len() {
                    p + 1int
                } else {
                    h.len() - 1
                }
            } else {
                0
            };
            let hi: int = if forward {
                h.len() as int
            } else {
                p as int
            };
            let (t, st) = history_search(s, forward);
            &&& t.history_query == Some(q)
            &&& (exists|i: int| lo <= i < hi && has_prefix(#[trigger] h[i], q)) ==> {
                &&& st == WidgetStatus::Continue
                &&& t.search_from matches Some(j) && lo <= j < hi && t.buffer == h[j as int]
                    && t.cursor == h[j as int].len() && has_prefix(h[j as int], q)
                &&& forward ==> forall|k: int|
                    lo <= k < t.search_from->Some_0 ==> !has_prefix(#[trigger] h[k], q)
                &&& !forward ==> forall|k: int|
                    t.search_from->Some_0 < k < hi ==> !has_prefix(#[trigger] h[k], q)
            }
            &&& !(exists|i: int| lo <= i < hi && has_prefix(#[trigger] h[i], q)) ==> st
                == WidgetStatus::Ignored && t.buffer == s.buffer
        }),
{
    let h = s.history;
    let q = s.history_query->Some_0;
    let p = s.search_from->Some_0;
    let start = search_start(s, forward);
    lemma_search_index(h, q, start, forward);
    let lo: int = if forward {
        if p + 1 < h.len() {
            p + 1int
        } else {
            h.len() - 1
        }
    } else {
        0
    };
    let hi: int = if forward {
        h.len() as int
    } else {
        p as int
    };
    if exists|i: int| lo <= i < hi && has_prefix(#[trigger] h[i], q) {
        let i = choose|i: int| lo <= i < hi && has_prefix(#[trigger] h[i], q);
        assert(search_index(h, q, start, forward) is Some);
    }
}

/// The binding of a key in the default Emacs key map.
pub open spec fn emacs_binding(k: Key) -> Option<Seq<char>> {
    if k == Key::Down {
        Some("history-search-forward"@)
    } else if k == Key::Up {
        Some("history-search-backward"@)
    } else if k == Key::Enter {
        Some("accept-line"@)
    } else if k == Key::Delete {
        Some("delete-char"@)
    } else if k == Key::Backspace {
        Some("backward-delete-char"@)
    } else if k == Key::End {
        Some("end-of-line"@)
    } else if k == Key::Home {
        Some("beginning-of-line"@)
    } else if k == Key::Right {
        Some("forward-char"@)
    } else if k == Key::Left {
        Some("backward-char"@)
    } else if k == Key::Ctrl('_') {
        Some("undo"@)
    } else if k == Key::Ctrl('s') {
        Some("history-search-forward"@)
    } else if k == Key::Ctrl('r') {
        Some("history-search-backward"@)
    } else if k == Key::Ctrl('w') {
        Some("backward-kill-word"@)
    } else if k == Key::Ctrl('k') {
        Some("kill-line"@)
    } else if k == Key::Ctrl('u') {
        Some("unix-line-discard"@)
    } else if k == Key::Ctrl('d') {
        Some("delete-char"@)
    } else if k == Key::Ctrl('f') {
        Some("forward-char"@)
    } else if k == Key::Ctrl('b') {
        Some("backward-char"@)
    } else if k == Key::Ctrl('e') {
        Some("end-of-line"@)
    } else if k == Key::Ctrl('a') {
        Some("beginning-of-line"@)
    } else {
        None
    }
}

/// `emacs_keymap` binds exactly what `emacs_binding` says.
pub proof fn lemma_emacs_keymap(q: Key)
    ensures
        keys_distinct(emacs_keymap()),
        kv_get(emacs_keymap(), q) == emacs_binding(q),
{
    let m0 = Seq::<(Key, Seq<char>)>::empty();
    assert(!kv_has(m0, q));
    let m1 = kv_put(m0, Key::Ctrl('a'), "beginning-of-line"@);
    lemma_kv_put_get(m0, Key::Ctrl('a'), "beginning-of-line"@, q);
    let m2 = kv_put(m1, Key::Ctrl('e'), "end-of-line"@);
    lemma_kv_put_get(m1, Key::Ctrl('e'), "end-of-line"@, q);
    let m3 = kv_put(m2, Key::Ctrl('b'), "backward-char"@);
    lemma_kv_put_get(m2, Key::Ctrl('b'), "backward-char"@, q);
    let m4 = kv_put(m3, Key::Ctrl('f'), "forward-char"@);
    lemma_kv_put_get(m3, Key::Ctrl('f'), "forward-char"@, q);
    let m5 = kv_put(m4, Key::Ctrl('d'), "delete-char"@);
    lemma_kv_put_get(m4, Key::Ctrl('d'), "delete-char"@, q);
    let m6 = kv_put(m5, Key::Ctrl('u'), "unix-line-discard"@);
    lemma_kv_put_get(m5, Key::Ctrl('u'), "unix-line-discard"@, q);
    let m7 = kv_put(m6, Key::Ctrl('k'), "kill-line"@);
    lemma_kv_put_get(m6, Key::Ctrl('k'), "kill-line"@, q);
    let m8 = kv_put(m7, Key::Ctrl('w'), "backward-kill-word"@);
    lemma_kv_put_get(m7, Key::Ctrl('w'), "backward-kill-word"@, q);
    let m9 = kv_put(m8, Key::Ctrl('r'), "history-search-backward"@);
    lemma_kv_put_get(m8, Key::Ctrl('r'), "history-search-backward"@, q);
    let m10 = kv_put(m9, Key::Ctrl('s'), "history-search-forward"@);
    lemma_kv_put_get(m9, Key::Ctrl('s'), "history-search-forward"@, q);
    let m11 = kv_put(m10, Key::Ctrl('_'), "undo"@);
    lemma_kv_put_get(m10, Key::Ctrl('_'), "undo"@, q);
    let m12 = kv_put(m11, Key::Left, "backward-char"@);
    lemma_kv_put_get(m11, Key::Left, "backward-char"@, q);
    let m13 = kv_put(m12, Key::Right, "forward-char"@);
    lemma_kv_put_get(m12, Key::Right, "forward-char"@, q);
    let m14 = kv_put(m13, Key::Home, "beginning-of-line"@);
    lemma_kv_put_get(m13, Key::Home, "beginning-of-line"@, q);
    let m15 = kv_put(m14, Key::End, "end-of-line"@);
    lemma_kv_put_get(m14, Key::End, "end-of-line"@, q);
    let m16 = kv_put(m15, Key::Backspace, "backward-delete-char"@);
    lemma_kv_put_get(m15, Key::Backspace, "backward-delete-char"@, q);
    let m17 = kv_put(m16, Key::Delete, "delete-char"@);
    lemma_kv_put_get(m16, Key::Delete, "delete-char"@, q);
    let m18 = kv_put(m17, Key::Enter, "accept-line"@);
    lemma_kv_put_get(m17, Key::Enter, "accept-line"@, q);
    let m19 = kv_put(m18, Key::Up, "history-search-backward"@);
    lemma_kv_put_get(m18, Key::Up, "history-search-backward"@, q);
    let m20 = kv_put(m19, Key::Down, "history-search-forward"@);
    lemma_kv_put_get(m19, Key::Down, "history-search-forward"@, q);
    reveal(emacs_keymap);
    assert(m20 == emacs_keymap());
}

/// The built-in widget registered under a name.
pub open spec fn builtin_binding(name: Seq<char>) -> Option<Widget> {
    if name == "vi-forward-char"@ {
        Some(Widget::ViForwardChar)
    } else if name == "vi-backward-char"@ {
        Some(Widget::ViBackwardChar)
    } else if name == "vi-forward-word"@ {
        Some(Widget::ViForwardWord)
    } else if name == "vi-backward-word"@ {
        Some(Widget::ViBackwardWord)
    } else if name == "vi-append-eol"@ {
        Some(Widget::ViAppendEol)
    } else if name == "vi-append"@ {
        Some(Widget::ViAppend)
    } else if name == "vi-insert-mode"@ {
        Some(Widget::ViInsertMode)
    } else if name == "vi-cmd-mode"@ {
        Some(Widget::ViCmdMode)
    } else if name == "history-search-forward"@ {
        Some(Widget::HistorySearchForward)
    } else if name == "history-search-backward"@ {
        Some(Widget::HistorySearchBackward)
    } else if name == "redo"@ {
        Some(Widget::Redo)
    } else if name == "undo"@ {
        Some(Widget::Undo)
    } else if name == "backward-kill-word"@ {
        Some(Widget::BackwardKillWord)
    } else if name == "unix-line-discard"@ {
        Some(Widget::UnixLineDiscard)
    } else if name == "kill-line"@ {
        Some(Widget::KillLine)
    } else if name == "delete-char"@ {
        Some(Widget::DeleteChar)
    } else if name == "backward-delete-char"@ {
        Some(Widget::BackwardDeleteChar)
    } else if name == "end-of-line"@ {
        Some(Widget::EndOfLine)
    } else if name == "beginning-of-line"@ {
        Some(Widget::BeginningOfLine)
    } else if name == "forward-char"@ {
        Some(Widget::ForwardChar)
    } else if name == "backward-char"@ {
        Some(Widget::BackwardChar)
    } else if name == "accept-line"@ {
        Some(Widget::AcceptLine)
    } else if name == "self-insert"@ {
        Some(Widget::SelfInsert)
    } else {
        None
    }
}

/// `builtin_widgets` registers exactly what `builtin_binding` says.
pub proof fn lemma_builtin_widgets(q: Seq<char>)
    ensures
        keys_distinct(builtin_widgets()),
        kv_get(builtin_widgets(), q) == builtin_binding(q),
{
    let w0 = Seq::<(Seq<char>, Widget)>::empty();
    assert(!kv_has(w0, q));
    let w1 = kv_put(w0, "self-insert"@, Widget::SelfInsert);
    lemma_kv_put_get(w0, "self-insert"@, Widget::SelfInsert, q);
    let w2 = kv_put(w1, "accept-line"@, Widget::AcceptLine);
    lemma_kv_put_get(w1, "accept-line"@, Widget::AcceptLine, q);
    let w3 = kv_put(w2, "backward-char"@, Widget::BackwardChar);
    lemma_kv_put_get(w2, "backward-char"@, Widget::BackwardChar, q);
    let w4 = kv_put(w3, "forward-char"@, Widget::ForwardChar);
    lemma_kv_put_get(w3, "forward-char"@, Widget::ForwardChar, q);
    let w5 = kv_put(w4, "beginning-of-line"@, Widget::BeginningOfLine);
    lemma_kv_put_get(w4, "beginning-of-line"@, Widget::BeginningOfLine, q);
    let w6 = kv_put(w5, "end-of-line"@, Widget::EndOfLine);
    lemma_kv_put_get(w5, "end-of-line"@, Widget::EndOfLine, q);
    let w7 = kv_put(w6, "backward-delete-char"@, Widget::BackwardDeleteChar);
    lemma_kv_put_get(w6, "backward-delete-char"@, Widget::BackwardDeleteChar, q);
    let w8 = kv_put(w7, "delete-char"@, Widget::DeleteChar);
    lemma_kv_put_get(w7, "delete-char"@, Widget::DeleteChar, q);
    let w9 = kv_put(w8, "kill-line"@, Widget::KillLine);
    lemma_kv_put_get(w8, "kill-line"@, Widget::KillLine, q);
    let w10 = kv_put(w9, "unix-line-discard"@, Widget::UnixLineDiscard);
    lemma_kv_put_get(w9, "unix-line-discard"@, Widget::UnixLineDiscard, q);
    let w11 = kv_put(w10, "backward-kill-word"@, Widget::BackwardKillWord);
    lemma_kv_put_get(w10, "backward-kill-word"@, Widget::BackwardKillWord, q);
    let w12 = kv_put(w11, "undo"@, Widget::Undo);
    lemma_kv_put_get(w11, "undo"@, Widget::Undo, q);
    let w13 = kv_put(w12, "redo"@, Widget::Redo);
    lemma_kv_put_get(w12, "redo"@, Widget::Redo, q);
    let w14 = kv_put(w13, "history-search-backward"@, Widget::HistorySearchBackward);
    lemma_kv_put_get(w13, "history-search-backward"@, Widget::HistorySearchBackward, q);
    let w15 = kv_put(w14, "history-search-forward"@, Widget::HistorySearchForward);
    lemma_kv_put_get(w14, "history-search-forward"@, Widget::HistorySearchForward, q);
    let w16 = kv_put(w15, "vi-cmd-mode"@, Widget::ViCmdMode);
    lemma_kv_put_get(w15, "vi-cmd-mode"@, Widget::ViCmdMode, q);
    let w17 = kv_put(w16, "vi-insert-mode"@, Widget::ViInsertMode);
    lemma_kv_put_get(w16, "vi-insert-mode"@, Widget::ViInsertMode, q);
    let w18 = kv_put(w17, "vi-append"@, Widget::ViAppend);
    lemma_kv_put_get(w17, "vi-append"@, Widget::ViAppend, q);
    let w19 = kv_put(w18, "vi-append-eol"@, Widget::ViAppendEol);
    lemma_kv_put_get(w18, "vi-append-eol"@, Widget::ViAppendEol, q);
    let w20 = kv_put(w19, "vi-backward-word"@, Widget::ViBackwardWord);
    lemma_kv_put_get(w19, "vi-backward-word"@, Widget::ViBackwardWord, q);
    let w21 = kv_put(w20, "vi-forward-word"@, Widget::ViForwardWord);
    lemma_kv_put_get(w20, "vi-forward-word"@, Widget::ViForwardWord, q);
    let w22 = kv_put(w21, "vi-backward-char"@, Widget::ViBackwardChar);
    lemma_kv_put_get(w21, "vi-backward-char"@, Widget::ViBackwardChar, q);
    let w23 = kv_put(w22, "vi-forward-char"@, Widget::ViForwardChar);
    lemma_kv_put_get(w22, "vi-forward-char"@, Widget::ViForwardChar, q);
    reveal(builtin_widgets);
    assert(w23 == builtin_widgets());
}

/// In Emacs and Vi insert mode every key but Esc has its Emacs binding.
pub proof fn lemma_default_binding(mode: KeymapMode, q: Key)
    requires
        mode != KeymapMode::ViCommand,
        q != Key::Esc,
    ensures
        kv_get(default_keymap(mode), q) == emacs_binding(q),
{
    lemma_emacs_keymap(q);
    if mode == KeymapMode::ViInsert {
        lemma_kv_put_get(emacs_keymap(), Key::Esc, "vi-cmd-mode"@, q);
    }
}

/// The built-in widgets behind the undo and editing widget names.
pub proof fn lemma_edit_widgets()
    ensures
        kv_get(builtin_widgets(), "undo"@) == Some(Widget::Undo),
        kv_get(builtin_widgets(), "backward-delete-char"@) == Some(Widget::BackwardDeleteChar),
        kv_get(builtin_widgets(), "delete-char"@) == Some(Widget::DeleteChar),
        kv_get(builtin_widgets(), "kill-line"@) == Some(Widget::KillLine),
        kv_get(builtin_widgets(), "unix-line-discard"@) == Some(Widget::UnixLineDiscard),
        kv_get(builtin_widgets(), "backward-kill-word"@) == Some(Widget::BackwardKillWord),
{
    reveal_strlit("self-insert");
    reveal_strlit("accept-line");
    reveal_strlit("backward-char");
    reveal_strlit("forward-char");
    reveal_strlit("beginning-of-line");
    reveal_strlit("end-of-line");
    reveal_strlit("backward-delete-char");
    reveal_strlit("delete-char");
    reveal_strlit("kill-line");
    reveal_strlit("unix-line-discard");
    reveal_strlit("backward-kill-word");
    reveal_strlit("undo");
    reveal_strlit("redo");
    reveal_strlit("history-search-backward");
    reveal_strlit("history-search-forward");
    reveal_strlit("vi-cmd-mode");
    reveal_strlit("vi-insert-mode");
    reveal_strlit("vi-append");
    reveal_strlit("vi-append-eol");
    reveal_strlit("vi-backward-word");
    reveal_strlit("vi-forward-word");
    reveal_strlit("vi-backward-char");
    reveal_strlit("vi-forward-char");
    // names differ in length, or else in their first character
    assert("self-insert"@.len() == 11);
    assert("accept-line"@.len() == 11);
    assert("backward-char"@.len() == 13);
    assert("forward-char"@.len() == 12);
    assert("beginning-of-line"@.len() == 17);
    assert("end-of-line"@.len() == 11);
    assert("backward-delete-char"@.len() == 20);
    assert("delete-char"@.len() == 11);
    assert("kill-line"@.len() == 9);
    assert("unix-line-discard"@.len() == 17);
    assert("backward-kill-word"@.len() == 18);
    assert("undo"@.len() == 4);
    assert("redo"@.len() == 4);
    assert("history-search-backward"@.len() == 23);
    assert("history-search-forward"@.len() == 22);
    assert("vi-cmd-mode"@.len() == 11);
    assert("vi-insert-mode"@.len() == 14);
    assert("vi-append"@.len() == 9);
    assert("vi-append-eol"@.len() == 13);
    assert("vi-backward-word"@.len() == 16);
    assert("vi-forward-word"@.len() == 15);
    assert("vi-backward-char"@.len() == 16);
    assert("vi-forward-char"@.len() == 15);
    assert("undo"@[0] != "redo"@[0]);
    assert("delete-char"@[0] != "vi-cmd-mode"@[0]);
    assert("kill-line"@[0] != "vi-append"@[0]);
    lemma_builtin_widgets("undo"@);
    lemma_builtin_widgets("backward-delete-char"@);
    lemma_builtin_widgets("delete-char"@);
    lemma_builtin_widgets("kill-line"@);
    lemma_builtin_widgets("unix-line-discard"@);
    lemma_builtin_widgets("backward-kill-word"@);
}

/// The widgets that edit the line and record the line before the edit
/// for undo: deleting before or at the cursor, killing to either end of the
/// line, and killing the word before the cursor.
pub open spec fn edit_widget(w: Widget) -> bool {
    ||| w == Widget::BackwardDeleteChar
    ||| w == Widget::DeleteChar
    ||| w == Widget::KillLine
    ||| w == Widget::UnixLineDiscard
    ||| w == Widget::BackwardKillWord
}

/// A key that edits the line in `s`: an unbound character, or a key bound
/// to an editing widget.
pub open spec fn edit_key(s: ZleState, k: Key) -> bool {
    match kv_get(s.keymap, k) {
        None => k is Char,
        Some(name) => match kv_get(s.widgets, name) {
            Some(w) => edit_widget(w),
            None => false,
        },
    }
}

/// Outside Vi command mode, with Ctrl-_ bound to the undo widget, Ctrl-_
/// right after a key press that edited the line restores the line and the
/// cursor as they were before that key.
pub proof fn lemma_undo_key_reverts(s: ZleState, k: Key)
    requires
        state_wf(s),
        s.mode != KeymapMode::ViCommand,
        kv_get(s.keymap, Key::Ctrl('_')) == Some("undo"@),
        kv_get(s.widgets, "undo"@) == Some(Widget::Undo),
        edit_key(s, k),
        handle_key(s, k).0.buffer != s.buffer,
    ensures
        handle_key(handle_key(s, k).0, Key::Ctrl('_')).0.buffer == s.buffer,
        handle_key(handle_key(s, k).0, Key::Ctrl('_')).0.cursor == s.cursor,
{
    let s1 = ZleState { pending_key: Some(k), ..s };
    let t = handle_key(s, k).0;
    let p = push_undo(s1);
    assert(p.undo_stack.last() == (s.buffer, s.cursor));
    match kv_get(s.keymap, k) {
        None => {
            let c = k->Char_0;
            assert(t == insert_char(s1, c));
        },
        Some(name) => {
            let w = kv_get(s.widgets, name)->Some_0;
            assert(t == apply_widget(s1, w).0);
            if w == Widget::BackwardDeleteChar {
                assert(t == delete_before(s1));
            } else if w == Widget::DeleteChar {
                assert(t == delete_at_cursor(s1));
            } else if w == Widget::KillLine {
                assert(t == kill_to_end(s1));
            } else if w == Widget::UnixLineDiscard {
                assert(t == kill_to_start(s1));
            } else {
                assert(t == kill_word_before(s1));
            }
        },
    }
    assert(t.undo_stack == p.undo_stack);
    assert(t.keymap == s.keymap && t.widgets == s.widgets && t.mode == s.mode);
    let t1 = ZleState { pending_key: Some(Key::Ctrl('_')), ..t };
    assert(handle_key(t, Key::Ctrl('_')).0 == undo(t1));
}

/// With the default bindings of Emacs or Vi insert mode and the built-in
/// widgets, Ctrl-_ right after a key press that changed the line (a
/// character, Backspace, Delete, Ctrl-D, Ctrl-K, Ctrl-U or Ctrl-W) restores
/// the line and the cursor as they were before that key.
pub proof fn lemma_undo_key_reverts_default(s: ZleState, k: Key)
    requires
        state_wf(s),
        s.mode != KeymapMode::ViCommand,
        s.keymap == default_keymap(s.mode),
        s.widgets == builtin_widgets(),
        k is Char || k == Key::Backspace || k == Key::Delete || k == Key::Ctrl('d') || k
            == Key::Ctrl('k') || k == Key::Ctrl('u') || k == Key::Ctrl('w'),
        handle_key(s, k).0.buffer != s.buffer,
    ensures
        handle_key(handle_key(s, k).0, Key::Ctrl('_')).0.buffer == s.buffer,
        handle_key(handle_key(s, k).0, Key::Ctrl('_')).0.cursor == s.cursor,
{
    lemma_default_binding(s.mode, k);
    lemma_default_binding(s.mode, Key::Ctrl('_'));
    lemma_edit_widgets();
    assert(edit_key(s, k));
    lemma_undo_key_reverts(s, k);
}

} // verus!
