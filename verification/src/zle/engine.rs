//! The ZLE line-editor state machine: key → widget → state change.  No
//! terminal I/O happens here; a terminal layer turns raw input into `Key`s
//! and renders `buffer`, `cursor`, `suggestion` and the prompts.
use vstd::prelude::*;
use crate::paths::opt_view;
use crate::table::{kv_get, kv_has, kv_put, lemma_kv_index, lemma_kv_put};
use crate::text::{chars_of, is_alphanumeric, starts_with, string_of};
use super::key::{Key, key_from_notation, key_notation};
use crate::sort::{pairs_view, sort_pairs_by_first, sorted_by_first, strings_view};
use super::spec;
use super::spec::{KeymapMode, Widget, WidgetStatus, ZleState, state_wf, word_char};

verus! {

/// A `(buffer, cursor)` snapshot taken before an edit.
struct Snapshot {
    buffer: Vec<char>,
    cursor: usize,
}

/// The line-editor engine.
pub struct ZleEngine {
    buffer: Vec<char>,
    cursor: usize,
    mode: KeymapMode,
    keymap: Vec<(Key, String)>,
    widgets: Vec<(String, Widget)>,
    undo_stack: Vec<Snapshot>,
    redo_stack: Vec<Snapshot>,
    undo_limit: usize,
    kill_ring: Vec<char>,
    history: Vec<String>,
    search_from: Option<usize>,
    history_query: Option<String>,
    accepted: Option<String>,
    suggestion: Option<String>,
    rprompt: String,
    prompt: String,
    pending_key: Option<Key>,
}

spec fn snaps_view(v: Seq<Snapshot>) -> Seq<(Seq<char>, nat)> {
    v.map_values(|s: Snapshot| (s.buffer@, s.cursor as nat))
}

spec fn keymap_view(v: Seq<(Key, String)>) -> Seq<(Key, Seq<char>)> {
    v.map_values(|e: (Key, String)| (e.0, e.1@))
}

spec fn widgets_view(v: Seq<(String, Widget)>) -> Seq<(Seq<char>, Widget)> {
    v.map_values(|e: (String, Widget)| (e.0@, e.1))
}

impl View for ZleEngine {
    type V = ZleState;

    closed spec fn view(&self) -> ZleState {
        ZleState {
            buffer: self.buffer@,
            cursor: self.cursor as nat,
            mode: self.mode,
            keymap: keymap_view(self.keymap@),
            widgets: widgets_view(self.widgets@),
            undo_stack: snaps_view(self.undo_stack@),
            redo_stack: snaps_view(self.redo_stack@),
            undo_limit: self.undo_limit as nat,
            kill_ring: self.kill_ring@,
            history: strings_view(self.history@),
            search_from: match self.search_from {
                Some(p) => Some(p as nat),
                None => None,
            },
            history_query: opt_view(self.history_query),
            accepted: opt_view(self.accepted),
            suggestion: opt_view(self.suggestion),
            rprompt: self.rprompt@,
            prompt: self.prompt@,
            pending_key: self.pending_key,
        }
    }
}

/// Word characters: alphanumerics and `_`.
pub fn is_word_char(c: char) -> (r: bool)
    ensures
        r == word_char(c),
{
    is_alphanumeric(c) || c == '_'
}

impl ZleEngine {
    /// The engine's invariant.
    pub open spec fn wf(&self) -> bool {
        state_wf(self@)
    }

    // ---------------- lookups in the tables ----------------

    fn find_key(&self, key: Key) -> (r: Option<usize>)
        ensures
            match r {
                Some(i) => i < self.keymap@.len() && self.keymap@[i as int].0 == key,
                None => !kv_has(self@.keymap, key),
            },
    {
        let mut i: usize = 0;
        while i < self.keymap.len()
            invariant
                i <= self.keymap@.len(),
                forall|j: int| 0 <= j < i ==> self.keymap@[j].0 != key,
            decreases self.keymap@.len() - i,
        {
            if self.keymap[i].0 == key {
                return Some(i);
            }
            i = i + 1;
        }
        assert forall|j: int| 0 <= j < self@.keymap.len() implies (#[trigger] self@.keymap[j]).0
            != key by {
            assert(self@.keymap[j].0 == self.keymap@[j].0);
        }
        None
    }

    fn find_widget(&self, name: &String) -> (r: Option<usize>)
        ensures
            match r {
                Some(i) => i < self.widgets@.len() && self.widgets@[i as int].0@ == name@,
                None => !kv_has(self@.widgets, name@),
            },
    {
        let mut i: usize = 0;
        while i < self.widgets.len()
            invariant
                i <= self.widgets@.len(),
                forall|j: int| 0 <= j < i ==> self.widgets@[j].0@ != name@,
            decreases self.widgets@.len() - i,
        {
            if self.widgets[i].0 == *name {
                return Some(i);
            }
            i = i + 1;
        }
        assert forall|j: int| 0 <= j < self@.widgets.len() implies (#[trigger] self@.widgets[j]).0
            != name@ by {
            assert(self@.widgets[j].0 == self.widgets@[j].0@);
        }
        None
    }

    /// The widget name bound to `key`.
    fn keymap_get(&self, key: Key) -> (r: Option<String>)
        requires
            self.wf(),
        ensures
            opt_view(r) == kv_get(self@.keymap, key),
    {
        match self.find_key(key) {
            Some(i) => {
                proof {
                    assert(self@.keymap[i as int] == (self.keymap@[i as int].0, self.keymap@[i as int].1@));
                    lemma_kv_index(self@.keymap, key, i as int);
                }
                Some(self.keymap[i].1.clone())
            },
            None => None,
        }
    }

    /// The widget registered under `name`.
    fn widget_get(&self, name: &String) -> (r: Option<Widget>)
        requires
            self.wf(),
        ensures
            r == kv_get(self@.widgets, name@),
    {
        match self.find_widget(name) {
            Some(i) => {
                proof {
                    assert(self@.widgets[i as int] == (self.widgets@[i as int].0@, self.widgets@[i as int].1));
                    lemma_kv_index(self@.widgets, name@, i as int);
                }
                Some(self.widgets[i].1)
            },
            None => None,
        }
    }

    fn keymap_put(&mut self, key: Key, name: String)
        requires
            old(self).wf(),
        ensures
            final(self)@ == (ZleState { keymap: kv_put(old(self)@.keymap, key, name@), ..old(self)@ }),
            final(self).wf(),
    {
        proof {
            lemma_kv_put(self@.keymap, key, name@);
        }
        let ghost name_v = name@;
        match self.find_key(key) {
            Some(i) => {
                proof {
                    assert(self@.keymap[i as int] == (self.keymap@[i as int].0, self.keymap@[i as int].1@));
                    lemma_kv_index(self@.keymap, key, i as int);
                }
                self.keymap.set(i, (key, name));
                assert(keymap_view(self.keymap@) =~= old(self)@.keymap.update(i as int, (key, name_v)));
            },
            None => {
                self.keymap.push((key, name));
                assert(keymap_view(self.keymap@) =~= old(self)@.keymap.push((key, name_v)));
            },
        }
    }

    fn widget_put(&mut self, name: String, w: Widget)
        requires
            old(self).wf(),
        ensures
            final(self)@ == (ZleState { widgets: kv_put(old(self)@.widgets, name@, w), ..old(self)@ }),
            final(self).wf(),
    {
        proof {
            lemma_kv_put(self@.widgets, name@, w);
        }
        let ghost name_v = name@;
        match self.find_widget(&name) {
            Some(i) => {
                proof {
                    assert(self@.widgets[i as int] == (self.widgets@[i as int].0@, self.widgets@[i as int].1));
                    lemma_kv_index(self@.widgets, name_v, i as int);
                }
                self.widgets.set(i, (name, w));
                assert(widgets_view(self.widgets@) =~= old(self)@.widgets.update(i as int, (name_v, w)));
            },
            None => {
                self.widgets.push((name, w));
                assert(widgets_view(self.widgets@) =~= old(self)@.widgets.push((name_v, w)));
            },
        }
    }
}

impl ZleEngine {
    // ---------------- editing primitives ----------------

    fn reset_history_search(&mut self)
        requires
            old(self).wf(),
        ensures
            final(self)@ == spec::reset_history_search(old(self)@),
            final(self).wf(),
    {
        self.search_from = None;
        self.history_query = None;
    }

    fn clear_suggestion(&mut self)
        requires
            old(self).wf(),
        ensures
            final(self)@ == spec::clear_suggestion(old(self)@),
            final(self).wf(),
    {
        self.suggestion = None;
    }

    fn record_undo(&mut self)
        requires
            old(self).wf(),
        ensures
            final(self)@ == spec::record_undo(old(self)@),
            final(self).wf(),
    {
        let b = self.buffer.clone();
        assert(b@ =~= self.buffer@);
        let snap = Snapshot { buffer: b, cursor: self.cursor };
        let ghost u0 = self@.undo_stack;
        if self.undo_stack.len() >= self.undo_limit {
            let _ = self.undo_stack.remove(0);
            assert(snaps_view(self.undo_stack@) =~= u0.drop_first());
        }
        let ghost u1 = snaps_view(self.undo_stack@);
        self.undo_stack.push(snap);
        assert(snaps_view(self.undo_stack@) =~= u1.push((old(self)@.buffer, old(self)@.cursor)));
        self.reset_history_search();
    }

    fn push_undo(&mut self)
        requires
            old(self).wf(),
        ensures
            final(self)@ == spec::push_undo(old(self)@),
            final(self).wf(),
    {
        self.record_undo();
        self.redo_stack.clear();
        assert(snaps_view(self.redo_stack@) =~= Seq::<(Seq<char>, nat)>::empty());
    }

    fn insert_char(&mut self, c: char)
        requires
            old(self).wf(),
            old(self)@.buffer.len() < usize::MAX,
        ensures
            final(self)@ == spec::insert_char(old(self)@, c),
            final(self).wf(),
    {
        self.push_undo();
        self.buffer.insert(self.cursor, c);
        self.cursor = self.cursor + 1;
        self.clear_suggestion();
    }

    /// Inserts a string at the cursor as one undoable edit (pasting or
    /// accepting a suggestion).
    pub fn insert_str(&mut self, s: &str)
        requires
            old(self).wf(),
            old(self)@.buffer.len() + s@.len() <= usize::MAX,
        ensures
            final(self)@ == spec::insert_str(old(self)@, s@),
            final(self).wf(),
    {
        let cs = chars_of(s);
        if cs.len() == 0 {
            return;
        }
        self.push_undo();
        let ghost b0 = self.buffer@;
        let ghost c0 = self.cursor;
        let mut i: usize = 0;
        while i < cs.len()
            invariant
                self.wf(),
                i <= cs@.len(),
                cs@ == s@,
                c0 <= b0.len(),
                b0.len() + cs@.len() <= usize::MAX,
                self.cursor == c0 + i,
                self.buffer@ == b0.take(c0 as int) + cs@.take(i as int) + b0.skip(c0 as int),
                self@ == (ZleState { buffer: self.buffer@, cursor: self.cursor as nat, ..spec::push_undo(old(self)@) }),
            decreases cs@.len() - i,
        {
            self.buffer.insert(self.cursor, cs[i]);
            self.cursor = self.cursor + 1;
            i = i + 1;
            assert(self.buffer@ =~= b0.take(c0 as int) + cs@.take(i as int) + b0.skip(c0 as int));
        }
        assert(cs@.take(i as int) =~= cs@);
        self.clear_suggestion();
    }

    fn delete_before(&mut self)
        requires
            old(self).wf(),
        ensures
            final(self)@ == spec::delete_before(old(self)@),
            final(self).wf(),
    {
        if self.cursor == 0 {
            return;
        }
        self.push_undo();
        self.cursor = self.cursor - 1;
        let _ = self.buffer.remove(self.cursor);
        self.clear_suggestion();
    }

    fn delete_at_cursor(&mut self)
        requires
            old(self).wf(),
        ensures
            final(self)@ == spec::delete_at_cursor(old(self)@),
            final(self).wf(),
    {
        if self.cursor >= self.buffer.len() {
            return;
        }
        self.push_undo();
        let _ = self.buffer.remove(self.cursor);
        self.clear_suggestion();
    }

    fn kill_to_end(&mut self)
        requires
            old(self).wf(),
        ensures
            final(self)@ == spec::kill_to_end(old(self)@),
            final(self).wf(),
    {
        if self.cursor >= self.buffer.len() {
            return;
        }
        self.push_undo();
        self.kill_ring = self.buffer.split_off(self.cursor);
        self.clear_suggestion();
    }

    fn kill_to_start(&mut self)
        requires
            old(self).wf(),
        ensures
            final(self)@ == spec::kill_to_start(old(self)@),
            final(self).wf(),
    {
        if self.cursor == 0 {
            return;
        }
        self.push_undo();
        let mut rest = self.buffer.split_off(self.cursor);
        std::mem::swap(&mut self.buffer, &mut rest);
        self.kill_ring = rest;
        self.cursor = 0;
        self.clear_suggestion();
    }

    fn kill_word_before(&mut self)
        requires
            old(self).wf(),
        ensures
            final(self)@ == spec::kill_word_before(old(self)@),
            final(self).wf(),
    {
        if self.cursor == 0 {
            return;
        }
        let start = word_start_before(&self.buffer, self.cursor);
        self.push_undo();
        let (rest, removed) = splice_out(&self.buffer, start, self.cursor);
        self.buffer = rest;
        self.kill_ring = removed;
        self.cursor = start;
        self.clear_suggestion();
    }

    fn move_word_back(&mut self)
        requires
            old(self).wf(),
        ensures
            final(self)@ == spec::move_word_back(old(self)@),
            final(self).wf(),
    {
        let ghost b = self.buffer@;
        while self.cursor > 0 && !is_word_char(self.buffer[self.cursor - 1])
            invariant
                old(self).wf(),
                self.cursor <= b.len(),
                self.buffer@ == b,
                self@ == spec::with_cursor(old(self)@, self.cursor as nat),
                spec::back_while(b, old(self).cursor as nat, false) == spec::back_while(b, self.cursor as nat, false),
            decreases self.cursor,
        {
            assert(spec::back_while(b, self.cursor as nat, false) == spec::back_while(b, (self.cursor - 1) as nat, false));
            self.cursor = self.cursor - 1;
        }
        let ghost mid = self.cursor as nat;
        while self.cursor > 0 && is_word_char(self.buffer[self.cursor - 1])
            invariant
                old(self).wf(),
                self.cursor <= b.len(),
                self.buffer@ == b,
                self@ == spec::with_cursor(old(self)@, self.cursor as nat),
                spec::back_while(b, mid, true) == spec::back_while(b, self.cursor as nat, true),
            decreases self.cursor,
        {
            assert(spec::back_while(b, self.cursor as nat, true) == spec::back_while(b, (self.cursor - 1) as nat, true));
            self.cursor = self.cursor - 1;
        }
    }

    fn move_word_forward(&mut self)
        requires
            old(self).wf(),
        ensures
            final(self)@ == spec::move_word_forward(old(self)@),
            final(self).wf(),
    {
        let ghost b = self.buffer@;
        while self.cursor < self.buffer.len() && is_word_char(self.buffer[self.cursor])
            invariant
                old(self).wf(),
                self.cursor <= b.len(),
                self.buffer@ == b,
                self@ == spec::with_cursor(old(self)@, self.cursor as nat),
                spec::fwd_while(b, old(self).cursor as nat, true) == spec::fwd_while(b, self.cursor as nat, true),
            decreases b.len() - self.cursor,
        {
            assert(spec::fwd_while(b, self.cursor as nat, true) == spec::fwd_while(b, (self.cursor + 1) as nat, true));
            self.cursor = self.cursor + 1;
        }
        let ghost mid = self.cursor as nat;
        while self.cursor < self.buffer.len() && !is_word_char(self.buffer[self.cursor])
            invariant
                old(self).wf(),
                self.cursor <= b.len(),
                self.buffer@ == b,
                self@ == spec::with_cursor(old(self)@, self.cursor as nat),
                spec::fwd_while(b, mid, false) == spec::fwd_while(b, self.cursor as nat, false),
            decreases b.len() - self.cursor,
        {
            assert(spec::fwd_while(b, self.cursor as nat, false) == spec::fwd_while(b, (self.cursor + 1) as nat, false));
            self.cursor = self.cursor + 1;
        }
    }
}

/// `b` without `b[start..end]`, and `b[start..end]`.
fn splice_out(b: &Vec<char>, start: usize, end: usize) -> (r: (Vec<char>, Vec<char>))
    requires
        start <= end <= b@.len(),
    ensures
        r.0@ == b@.take(start as int) + b@.skip(end as int),
        r.1@ == b@.subrange(start as int, end as int),
{
    let mut rest: Vec<char> = Vec::new();
    let mut removed: Vec<char> = Vec::new();
    let mut i: usize = 0;
    while i < b.len()
        invariant
            i <= b@.len(),
            start <= end <= b@.len(),
            rest@ == (if i <= start { b@.take(i as int) } else if i <= end { b@.take(start as int) } else { b@.take(start as int) + b@.subrange(end as int, i as int) }),
            removed@ == (if i <= start { Seq::<char>::empty() } else if i <= end { b@.subrange(start as int, i as int) } else { b@.subrange(start as int, end as int) }),
        decreases b@.len() - i,
    {
        if i < start || i >= end {
            rest.push(b[i]);
        } else {
            removed.push(b[i]);
        }
        i = i + 1;
        assert(rest@ =~= (if i <= start { b@.take(i as int) } else if i <= end { b@.take(start as int) } else { b@.take(start as int) + b@.subrange(end as int, i as int) }));
        assert(removed@ =~= (if i <= start { Seq::<char>::empty() } else if i <= end { b@.subrange(start as int, i as int) } else { b@.subrange(start as int, end as int) }));
    }
    assert(b@.subrange(end as int, b@.len() as int) =~= b@.skip(end as int));
    assert(rest@ =~= b@.take(start as int) + b@.skip(end as int));
    (rest, removed)
}

/// `word_start(buffer, cursor)`: one past the last non-word character
/// before `cursor`.
fn word_start_before(b: &Vec<char>, cursor: usize) -> (r: usize)
    requires
        cursor <= b@.len(),
    ensures
        r == spec::word_start(b@, cursor as nat),
        r <= cursor,
{
    let mut i = cursor;
    while i > 0 && is_word_char(b[i - 1])
        invariant
            i <= cursor <= b@.len(),
            spec::word_start(b@, cursor as nat) == spec::word_start(b@, i as nat),
        decreases i,
    {
        i = i - 1;
    }
    i
}


impl ZleEngine {
    // ---------------- keymaps and modes ----------------

    /// Clears the bindings and loads the defaults of `mode`.
    fn load_default_keymap(&mut self, mode: KeymapMode)
        requires
            old(self).wf(),
        ensures
            final(self)@ == (ZleState { keymap: spec::default_keymap(mode), ..old(self)@ }),
            final(self).wf(),
    {
        proof {
            reveal(spec::emacs_keymap);
            reveal(spec::vi_command_keymap);
        }
        self.keymap.clear();
        assert(keymap_view(self.keymap@) =~= Seq::<(Key, Seq<char>)>::empty());
        match mode {
            KeymapMode::Emacs | KeymapMode::ViInsert => {
                self.keymap_put(Key::Ctrl('a'), "beginning-of-line".to_owned());
                self.keymap_put(Key::Ctrl('e'), "end-of-line".to_owned());
                self.keymap_put(Key::Ctrl('b'), "backward-char".to_owned());
                self.keymap_put(Key::Ctrl('f'), "forward-char".to_owned());
                self.keymap_put(Key::Ctrl('d'), "delete-char".to_owned());
                self.keymap_put(Key::Ctrl('u'), "unix-line-discard".to_owned());
                self.keymap_put(Key::Ctrl('k'), "kill-line".to_owned());
                self.keymap_put(Key::Ctrl('w'), "backward-kill-word".to_owned());
                self.keymap_put(Key::Ctrl('r'), "history-search-backward".to_owned());
                self.keymap_put(Key::Ctrl('s'), "history-search-forward".to_owned());
                self.keymap_put(Key::Ctrl('_'), "undo".to_owned());
                self.keymap_put(Key::Left, "backward-char".to_owned());
                self.keymap_put(Key::Right, "forward-char".to_owned());
                self.keymap_put(Key::Home, "beginning-of-line".to_owned());
                self.keymap_put(Key::End, "end-of-line".to_owned());
                self.keymap_put(Key::Backspace, "backward-delete-char".to_owned());
                self.keymap_put(Key::Delete, "delete-char".to_owned());
                self.keymap_put(Key::Enter, "accept-line".to_owned());
                self.keymap_put(Key::Up, "history-search-backward".to_owned());
                self.keymap_put(Key::Down, "history-search-forward".to_owned());
                if mode == KeymapMode::ViInsert {
                    self.keymap_put(Key::Esc, "vi-cmd-mode".to_owned());
                }
            },
            KeymapMode::ViCommand => {
                self.keymap_put(Key::Char('h'), "vi-backward-char".to_owned());
                self.keymap_put(Key::Char('l'), "vi-forward-char".to_owned());
                self.keymap_put(Key::Char('^'), "beginning-of-line".to_owned());
                self.keymap_put(Key::Char('$'), "end-of-line".to_owned());
                self.keymap_put(Key::Char('i'), "vi-insert-mode".to_owned());
                self.keymap_put(Key::Char('a'), "vi-append".to_owned());
                self.keymap_put(Key::Char('A'), "vi-append-eol".to_owned());
                self.keymap_put(Key::Char('x'), "delete-char".to_owned());
                self.keymap_put(Key::Char('u'), "undo".to_owned());
                self.keymap_put(Key::Char('b'), "vi-backward-word".to_owned());
                self.keymap_put(Key::Char('w'), "vi-forward-word".to_owned());
                self.keymap_put(Key::Left, "backward-char".to_owned());
                self.keymap_put(Key::Right, "forward-char".to_owned());
            },
        }
    }

    /// Switches the keymap mode, reloading that mode's default bindings.
    pub fn set_mode(&mut self, mode: KeymapMode)
        requires
            old(self).wf(),
        ensures
            final(self)@ == spec::set_mode(old(self)@, mode),
            final(self).wf(),
    {
        self.mode = mode;
        self.load_default_keymap(mode);
        if mode == KeymapMode::ViCommand && self.cursor == self.buffer.len() && self.buffer.len()
            > 0 {
            self.cursor = self.cursor - 1;
        }
    }
}

// ---------------- built-in widgets ----------------

fn w_self_insert(e: &mut ZleEngine) -> (st: WidgetStatus)
    requires
        old(e).wf(),
        old(e)@.buffer.len() < usize::MAX,
    ensures
        final(e).wf(),
        (final(e)@, st) == spec::apply_widget(old(e)@, Widget::SelfInsert),
{
    if let Some(Key::Char(c)) = e.pending_key {
        e.insert_char(c);
        WidgetStatus::Continue
    } else {
        WidgetStatus::Ignored
    }
}

fn w_accept_line(e: &mut ZleEngine) -> (st: WidgetStatus)
    requires
        old(e).wf(),
    ensures
        final(e).wf(),
        (final(e)@, st) == spec::apply_widget(old(e)@, Widget::AcceptLine),
{
    let line: String = string_of(e.buffer.as_slice());
    let ghost h0 = e.history@;
    if e.buffer.len() > 0 {
        let dup = if e.history.len() > 0 {
            e.history[e.history.len() - 1] == line
        } else {
            false
        };
        if !dup {
            e.history.push(line.clone());
            assert(strings_view(e.history@) =~= strings_view(h0).push(line@));
        }
    }
    e.accepted = Some(line);
    e.buffer.clear();
    e.cursor = 0;
    assert(e@.undo_stack == old(e)@.undo_stack && e@.redo_stack == old(e)@.redo_stack);
    e.clear_suggestion();
    e.reset_history_search();
    WidgetStatus::Accept
}

fn w_backward_char(e: &mut ZleEngine) -> (st: WidgetStatus)
    requires
        old(e).wf(),
    ensures
        final(e).wf(),
        (final(e)@, st) == spec::apply_widget(old(e)@, Widget::BackwardChar),
{
    e.cursor = if e.cursor > 0 { e.cursor - 1 } else { 0 };
    WidgetStatus::Continue
}

fn w_forward_char(e: &mut ZleEngine) -> (st: WidgetStatus)
    requires
        old(e).wf(),
    ensures
        final(e).wf(),
        (final(e)@, st) == spec::apply_widget(old(e)@, Widget::ForwardChar),
{
    if e.cursor < e.buffer.len() {
        e.cursor = e.cursor + 1;
    }
    WidgetStatus::Continue
}

fn w_beginning_of_line(e: &mut ZleEngine) -> (st: WidgetStatus)
    requires
        old(e).wf(),
    ensures
        final(e).wf(),
        (final(e)@, st) == spec::apply_widget(old(e)@, Widget::BeginningOfLine),
{
    e.cursor = 0;
    WidgetStatus::Continue
}

fn w_end_of_line(e: &mut ZleEngine) -> (st: WidgetStatus)
    requires
        old(e).wf(),
    ensures
        final(e).wf(),
        (final(e)@, st) == spec::apply_widget(old(e)@, Widget::EndOfLine),
{
    e.cursor = e.buffer.len();
    WidgetStatus::Continue
}

fn w_backward_delete_char(e: &mut ZleEngine) -> (st: WidgetStatus)
    requires
        old(e).wf(),
    ensures
        final(e).wf(),
        (final(e)@, st) == spec::apply_widget(old(e)@, Widget::BackwardDeleteChar),
{
    e.delete_before();
    WidgetStatus::Continue
}

fn w_delete_char(e: &mut ZleEngine) -> (st: WidgetStatus)
    requires
        old(e).wf(),
    ensures
        final(e).wf(),
        (final(e)@, st) == spec::apply_widget(old(e)@, Widget::DeleteChar),
{
    e.delete_at_cursor();
    WidgetStatus::Continue
}

fn w_kill_line(e: &mut ZleEngine) -> (st: WidgetStatus)
    requires
        old(e).wf(),
    ensures
        final(e).wf(),
        (final(e)@, st) == spec::apply_widget(old(e)@, Widget::KillLine),
{
    e.kill_to_end();
    WidgetStatus::Continue
}

fn w_unix_line_discard(e: &mut ZleEngine) -> (st: WidgetStatus)
    requires
        old(e).wf(),
    ensures
        final(e).wf(),
        (final(e)@, st) == spec::apply_widget(old(e)@, Widget::UnixLineDiscard),
{
    e.kill_to_start();
    WidgetStatus::Continue
}

fn w_backward_kill_word(e: &mut ZleEngine) -> (st: WidgetStatus)
    requires
        old(e).wf(),
    ensures
        final(e).wf(),
        (final(e)@, st) == spec::apply_widget(old(e)@, Widget::BackwardKillWord),
{
    e.kill_word_before();
    WidgetStatus::Continue
}

fn w_undo(e: &mut ZleEngine) -> (st: WidgetStatus)
    requires
        old(e).wf(),
    ensures
        final(e).wf(),
        (final(e)@, st) == spec::apply_widget(old(e)@, Widget::Undo),
{
    if let Some(snap) = e.undo_stack.pop() {
        let ghost r0 = snaps_view(e.redo_stack@);
        let b = e.buffer.clone();
        assert(b@ =~= e.buffer@);
        e.redo_stack.push(Snapshot { buffer: b, cursor: e.cursor });
        assert(snaps_view(e.redo_stack@) =~= r0.push((old(e)@.buffer, old(e)@.cursor)));
        assert(snaps_view(e.undo_stack@) =~= old(e)@.undo_stack.drop_last());
        proof {
            let k = old(e)@.undo_stack.len() - 1;
            assert(old(e)@.undo_stack[k] == (snap.buffer@, snap.cursor as nat));
        }
        e.buffer = snap.buffer;
        e.cursor = snap.cursor;
        e.clear_suggestion();
    }
    WidgetStatus::Continue
}

fn w_redo(e: &mut ZleEngine) -> (st: WidgetStatus)
    requires
        old(e).wf(),
    ensures
        final(e).wf(),
        (final(e)@, st) == spec::apply_widget(old(e)@, Widget::Redo),
{
    if let Some(snap) = e.redo_stack.pop() {
        assert(snaps_view(e.redo_stack@) =~= old(e)@.redo_stack.drop_last());
        proof {
            let k = old(e)@.redo_stack.len() - 1;
            assert(old(e)@.redo_stack[k] == (snap.buffer@, snap.cursor as nat));
        }
        e.record_undo();
        e.buffer = snap.buffer;
        e.cursor = snap.cursor;
        e.clear_suggestion();
    }
    WidgetStatus::Continue
}

/// Prefix history search in either direction (see `spec::history_search`).
fn history_search(e: &mut ZleEngine, forward: bool) -> (st: WidgetStatus)
    requires
        old(e).wf(),
    ensures
        final(e).wf(),
        (final(e)@, st) == spec::history_search(old(e)@, forward),
{
    let prefix: Vec<char> = match &e.history_query {
        Some(q) => chars_of(q.as_str()),
        None => {
            let q = string_of(e.buffer.as_slice());
            e.history_query = Some(q);
            e.buffer.clone()
        },
    };
    assert(prefix@ =~= match old(e)@.history_query { Some(q) => q, None => old(e)@.buffer });
    let n = e.history.len();
    if n == 0 {
        return WidgetStatus::Ignored;
    }
    let ghost h = e@.history;
    let ghost start = spec::search_start(old(e)@, forward);
    let mut i: usize = 0;
    let mut ok: bool = false;
    match e.search_from {
        Some(pos) => {
            if forward {
                i = if pos + 1 <= n - 1 { pos + 1 } else { n - 1 };
                ok = true;
            } else if pos > 0 {
                i = pos - 1;
                ok = true;
            }
        },
        None => {
            if !forward {
                i = n - 1;
                ok = true;
            }
        },
    }
    assert(spec::search_index(h, prefix@, start, forward) == spec::search_index(
        h,
        prefix@,
        if ok { i as int } else { -1 },
        forward,
    ));
    while ok && i < n
        invariant
            old(e).wf(),
            prefix@ == match old(e)@.history_query { Some(q) => q, None => old(e)@.buffer },
            start == spec::search_start(old(e)@, forward),
            n == e.history@.len(),
            h == e@.history,
            e@ == (ZleState { history_query: Some(prefix@), ..old(e)@ }),
            spec::search_index(h, prefix@, start, forward) == spec::search_index(
                h,
                prefix@,
                if ok { i as int } else { -1 },
                forward,
            ),
        decreases (if forward { n - i } else { i + 1 }) + (if ok { 1int } else { 0 }),
    {
        let line = chars_of(e.history[i].as_str());
        assert(line@ == h[i as int]);
        if starts_with(line.as_slice(), prefix.as_slice()) {
            assert(ok);
            assert(spec::search_index(h, prefix@, i as int, forward) == Some(i as nat));
            assert(spec::search_index(h, prefix@, start, forward) == Some(i as nat));
            e.search_from = Some(i);
            e.buffer = line;
            e.cursor = e.buffer.len();
            e.suggestion = None;
            return WidgetStatus::Continue;
        }
        assert(spec::search_index(h, prefix@, i as int, forward) == spec::search_index(
            h,
            prefix@,
            if forward { i + 1 } else { i - 1 },
            forward,
        ));
        if forward {
            i = i + 1;
        } else if i == 0 {
            ok = false;
        } else {
            i = i - 1;
        }
    }
    WidgetStatus::Ignored
}

fn w_history_search_backward(e: &mut ZleEngine) -> (st: WidgetStatus)
    requires
        old(e).wf(),
    ensures
        final(e).wf(),
        (final(e)@, st) == spec::apply_widget(old(e)@, Widget::HistorySearchBackward),
{
    history_search(e, false)
}

fn w_history_search_forward(e: &mut ZleEngine) -> (st: WidgetStatus)
    requires
        old(e).wf(),
    ensures
        final(e).wf(),
        (final(e)@, st) == spec::apply_widget(old(e)@, Widget::HistorySearchForward),
{
    history_search(e, true)
}

fn w_vi_cmd_mode(e: &mut ZleEngine) -> (st: WidgetStatus)
    requires
        old(e).wf(),
    ensures
        final(e).wf(),
        (final(e)@, st) == spec::apply_widget(old(e)@, Widget::ViCmdMode),
{
    e.set_mode(KeymapMode::ViCommand);
    WidgetStatus::Continue
}

fn w_vi_insert_mode(e: &mut ZleEngine) -> (st: WidgetStatus)
    requires
        old(e).wf(),
    ensures
        final(e).wf(),
        (final(e)@, st) == spec::apply_widget(old(e)@, Widget::ViInsertMode),
{
    e.set_mode(KeymapMode::ViInsert);
    WidgetStatus::Continue
}

fn w_vi_append(e: &mut ZleEngine) -> (st: WidgetStatus)
    requires
        old(e).wf(),
    ensures
        final(e).wf(),
        (final(e)@, st) == spec::apply_widget(old(e)@, Widget::ViAppend),
{
    if e.cursor < e.buffer.len() {
        e.cursor = e.cursor + 1;
    }
    e.set_mode(KeymapMode::ViInsert);
    WidgetStatus::Continue
}

fn w_vi_append_eol(e: &mut ZleEngine) -> (st: WidgetStatus)
    requires
        old(e).wf(),
    ensures
        final(e).wf(),
        (final(e)@, st) == spec::apply_widget(old(e)@, Widget::ViAppendEol),
{
    e.cursor = e.buffer.len();
    e.set_mode(KeymapMode::ViInsert);
    WidgetStatus::Continue
}

fn w_vi_backward_word(e: &mut ZleEngine) -> (st: WidgetStatus)
    requires
        old(e).wf(),
    ensures
        final(e).wf(),
        (final(e)@, st) == spec::apply_widget(old(e)@, Widget::ViBackwardWord),
{
    e.move_word_back();
    WidgetStatus::Continue
}

fn w_vi_forward_word(e: &mut ZleEngine) -> (st: WidgetStatus)
    requires
        old(e).wf(),
    ensures
        final(e).wf(),
        (final(e)@, st) == spec::apply_widget(old(e)@, Widget::ViForwardWord),
{
    e.move_word_forward();
    WidgetStatus::Continue
}

fn w_vi_backward_char(e: &mut ZleEngine) -> (st: WidgetStatus)
    requires
        old(e).wf(),
    ensures
        final(e).wf(),
        (final(e)@, st) == spec::apply_widget(old(e)@, Widget::ViBackwardChar),
{
    e.cursor = if e.cursor > 0 { e.cursor - 1 } else { 0 };
    WidgetStatus::Continue
}

fn w_vi_forward_char(e: &mut ZleEngine) -> (st: WidgetStatus)
    requires
        old(e).wf(),
    ensures
        final(e).wf(),
        (final(e)@, st) == spec::apply_widget(old(e)@, Widget::ViForwardChar),
{
    let last = if e.buffer.len() > 0 { e.buffer.len() - 1 } else { 0 };
    if e.cursor < last {
        e.cursor = e.cursor + 1;
    }
    WidgetStatus::Continue
}

/// Runs one widget (the table of built-in widgets).
fn apply_widget(e: &mut ZleEngine, w: Widget) -> (st: WidgetStatus)
    requires
        old(e).wf(),
        old(e)@.buffer.len() < usize::MAX,
    ensures
        final(e).wf(),
        (final(e)@, st) == spec::apply_widget(old(e)@, w),
{
    match w {
        Widget::SelfInsert => w_self_insert(e),
        Widget::AcceptLine => w_accept_line(e),
        Widget::BackwardChar => w_backward_char(e),
        Widget::ForwardChar => w_forward_char(e),
        Widget::BeginningOfLine => w_beginning_of_line(e),
        Widget::EndOfLine => w_end_of_line(e),
        Widget::BackwardDeleteChar => w_backward_delete_char(e),
        Widget::DeleteChar => w_delete_char(e),
        Widget::KillLine => w_kill_line(e),
        Widget::UnixLineDiscard => w_unix_line_discard(e),
        Widget::BackwardKillWord => w_backward_kill_word(e),
        Widget::Undo => w_undo(e),
        Widget::Redo => w_redo(e),
        Widget::HistorySearchBackward => w_history_search_backward(e),
        Widget::HistorySearchForward => w_history_search_forward(e),
        Widget::ViCmdMode => w_vi_cmd_mode(e),
        Widget::ViInsertMode => w_vi_insert_mode(e),
        Widget::ViAppend => w_vi_append(e),
        Widget::ViAppendEol => w_vi_append_eol(e),
        Widget::ViBackwardWord => w_vi_backward_word(e),
        Widget::ViForwardWord => w_vi_forward_word(e),
        Widget::ViBackwardChar => w_vi_backward_char(e),
        Widget::ViForwardChar => w_vi_forward_char(e),
    }
}


/// The `bindkey` listing of a keymap: each binding as (notation, widget).
pub open spec fn binding_entries(m: Seq<(Key, Seq<char>)>) -> Seq<(Seq<char>, Seq<char>)> {
    m.map_values(|e: (Key, Seq<char>)| (key_notation(e.0), e.1))
}

impl Default for ZleEngine {
    /// The same as `ZleEngine::new`.
    fn default() -> (e: ZleEngine)
        ensures
            e.wf(),
            e@ == spec::initial_state(),
    {
        ZleEngine::new()
    }
}

impl ZleEngine {
    /// A new engine in Emacs mode with the built-in widgets and the default
    /// Emacs bindings.
    pub fn new() -> (e: ZleEngine)
        ensures
            e.wf(),
            e@ == spec::initial_state(),
    {
        let mut e = ZleEngine {
            buffer: Vec::new(),
            cursor: 0,
            mode: KeymapMode::Emacs,
            keymap: Vec::new(),
            widgets: Vec::new(),
            undo_stack: Vec::new(),
            redo_stack: Vec::new(),
            undo_limit: spec::DEFAULT_UNDO_LIMIT,
            kill_ring: Vec::new(),
            history: Vec::new(),
            search_from: None,
            history_query: None,
            accepted: None,
            suggestion: None,
            rprompt: String::new(),
            prompt: String::new(),
            pending_key: None,
        };
        assert(keymap_view(e.keymap@) =~= Seq::<(Key, Seq<char>)>::empty());
        assert(widgets_view(e.widgets@) =~= Seq::<(Seq<char>, Widget)>::empty());
        assert(snaps_view(e.undo_stack@) =~= Seq::<(Seq<char>, nat)>::empty());
        assert(snaps_view(e.redo_stack@) =~= Seq::<(Seq<char>, nat)>::empty());
        assert(strings_view(e.history@) =~= Seq::<Seq<char>>::empty());
        proof {
            reveal(spec::builtin_widgets);
        }
        e.widget_put("self-insert".to_owned(), Widget::SelfInsert);
        e.widget_put("accept-line".to_owned(), Widget::AcceptLine);
        e.widget_put("backward-char".to_owned(), Widget::BackwardChar);
        e.widget_put("forward-char".to_owned(), Widget::ForwardChar);
        e.widget_put("beginning-of-line".to_owned(), Widget::BeginningOfLine);
        e.widget_put("end-of-line".to_owned(), Widget::EndOfLine);
        e.widget_put("backward-delete-char".to_owned(), Widget::BackwardDeleteChar);
        e.widget_put("delete-char".to_owned(), Widget::DeleteChar);
        e.widget_put("kill-line".to_owned(), Widget::KillLine);
        e.widget_put("unix-line-discard".to_owned(), Widget::UnixLineDiscard);
        e.widget_put("backward-kill-word".to_owned(), Widget::BackwardKillWord);
        e.widget_put("undo".to_owned(), Widget::Undo);
        e.widget_put("redo".to_owned(), Widget::Redo);
        e.widget_put("history-search-backward".to_owned(), Widget::HistorySearchBackward);
        e.widget_put("history-search-forward".to_owned(), Widget::HistorySearchForward);
        e.widget_put("vi-cmd-mode".to_owned(), Widget::ViCmdMode);
        e.widget_put("vi-insert-mode".to_owned(), Widget::ViInsertMode);
        e.widget_put("vi-append".to_owned(), Widget::ViAppend);
        e.widget_put("vi-append-eol".to_owned(), Widget::ViAppendEol);
        e.widget_put("vi-backward-word".to_owned(), Widget::ViBackwardWord);
        e.widget_put("vi-forward-word".to_owned(), Widget::ViForwardWord);
        e.widget_put("vi-backward-char".to_owned(), Widget::ViBackwardChar);
        e.widget_put("vi-forward-char".to_owned(), Widget::ViForwardChar);
        e.load_default_keymap(KeymapMode::Emacs);
        e
    }

    // ---------------- accessors ----------------

    /// The line being edited.
    pub fn buffer(&self) -> (r: String)
        ensures
            r@ == self@.buffer,
    {
        string_of(self.buffer.as_slice())
    }

    /// Cursor position (a character index in `0..=len`).
    pub fn cursor(&self) -> (r: usize)
        ensures
            r == self@.cursor,
    {
        self.cursor
    }

    /// Current keymap mode.
    pub fn mode(&self) -> (r: KeymapMode)
        ensures
            r == self@.mode,
    {
        self.mode
    }

    /// Sets the prompt (rendered by the terminal layer).
    pub fn set_prompt(&mut self, p: String)
        requires
            old(self).wf(),
        ensures
            final(self)@ == (ZleState { prompt: p@, ..old(self)@ }),
            final(self).wf(),
    {
        self.prompt = p;
    }

    /// The prompt.
    pub fn prompt(&self) -> (r: &str)
        ensures
            r@ == self@.prompt,
    {
        self.prompt.as_str()
    }

    /// Sets RPROMPT (the right-hand prompt).
    pub fn set_rprompt(&mut self, p: String)
        requires
            old(self).wf(),
        ensures
            final(self)@ == (ZleState { rprompt: p@, ..old(self)@ }),
            final(self).wf(),
    {
        self.rprompt = p;
    }

    /// RPROMPT.
    pub fn rprompt(&self) -> (r: &str)
        ensures
            r@ == self@.rprompt,
    {
        self.rprompt.as_str()
    }

    /// Sets the POSTDISPLAY suggestion (auto-suggestion); any edit clears it.
    pub fn set_suggestion(&mut self, s: Option<String>)
        requires
            old(self).wf(),
        ensures
            final(self)@ == (ZleState { suggestion: opt_view(s), ..old(self)@ }),
            final(self).wf(),
    {
        self.suggestion = s;
    }

    /// The current suggestion.
    pub fn suggestion(&self) -> (r: Option<&str>)
        ensures
            match r {
                Some(s) => self@.suggestion == Some(s@),
                None => self@.suggestion is None,
            },
    {
        match &self.suggestion {
            Some(s) => Some(s.as_str()),
            None => None,
        }
    }

    /// The most recently accepted line.
    pub fn accepted(&self) -> (r: Option<&str>)
        ensures
            match r {
                Some(s) => self@.accepted == Some(s@),
                None => self@.accepted is None,
            },
    {
        match &self.accepted {
            Some(s) => Some(s.as_str()),
            None => None,
        }
    }

    /// Takes the accepted line out of the engine (the next call gives
    /// `None` until another line is accepted).
    pub fn take_accepted(&mut self) -> (r: Option<String>)
        requires
            old(self).wf(),
        ensures
            opt_view(r) == old(self)@.accepted,
            final(self)@ == (ZleState { accepted: None, ..old(self)@ }),
            final(self).wf(),
    {
        self.accepted.take()
    }

    /// Starts a new line for a new prompt (see `spec::new_line`).
    pub fn new_prompt(&mut self)
        requires
            old(self).wf(),
        ensures
            final(self)@ == spec::new_line(old(self)@),
            final(self).wf(),
    {
        self.buffer = Vec::new();
        self.cursor = 0;
        self.undo_stack = Vec::new();
        self.redo_stack = Vec::new();
        self.accepted = None;
        self.suggestion = None;
        self.search_from = None;
        self.history_query = None;
        assert(self@.buffer =~= Seq::<char>::empty());
        assert(snaps_view(self.undo_stack@) =~= Seq::<(Seq<char>, nat)>::empty());
        assert(snaps_view(self.redo_stack@) =~= Seq::<(Seq<char>, nat)>::empty());
    }

    /// History lines, oldest first.
    pub fn history(&self) -> (r: &[String])
        ensures
            strings_view(r@) == self@.history,
    {
        self.history.as_slice()
    }

    /// Replaces the history (e.g. with the lines of the history file).
    pub fn set_history(&mut self, lines: Vec<String>)
        requires
            old(self).wf(),
        ensures
            final(self)@ == (ZleState { history: strings_view(lines@), ..old(self)@ }),
            final(self).wf(),
    {
        self.history = lines;
    }

    /// The bindings of the current mode as (notation, widget) pairs, ordered
    /// by notation (`bindkey` listing).
    pub fn bindings(&self) -> (r: Vec<(String, String)>)
        ensures
            sorted_by_first(pairs_view(r@)),
            pairs_view(r@).to_multiset() == binding_entries(self@.keymap).to_multiset(),
    {
        let mut v: Vec<(String, String)> = Vec::new();
        let mut i: usize = 0;
        while i < self.keymap.len()
            invariant
                i <= self.keymap@.len(),
                pairs_view(v@) == binding_entries(self@.keymap).take(i as int),
            decreases self.keymap@.len() - i,
        {
            let k = self.keymap[i].0;
            let w = self.keymap[i].1.clone();
            assert(self@.keymap[i as int] == (k, w@));
            let n = k.to_readline_notation();
            assert(binding_entries(self@.keymap)[i as int] == (n@, w@));
            let ghost old_v = pairs_view(v@);
            v.push((n, w));
            assert(pairs_view(v@) =~= old_v.push((n@, w@)));
            i = i + 1;
            assert(pairs_view(v@) =~= binding_entries(self@.keymap).take(i as int));
        }
        assert(binding_entries(self@.keymap).take(i as int) =~= binding_entries(self@.keymap));
        sort_pairs_by_first(v)
    }

    // ---------------- widgets and bindings ----------------

    /// `zle -N <name> <widget>`: registers (or replaces) a widget.
    pub fn register_widget(&mut self, name: String, widget: Widget)
        requires
            old(self).wf(),
        ensures
            final(self)@ == (ZleState { widgets: kv_put(old(self)@.widgets, name@, widget), ..old(self)@ }),
            final(self).wf(),
    {
        self.widget_put(name, widget);
    }

    /// `bindkey <key> <widget-name>`: binds a key in the current mode.
    pub fn bind_key(&mut self, key: Key, widget: String)
        requires
            old(self).wf(),
        ensures
            final(self)@ == (ZleState { keymap: kv_put(old(self)@.keymap, key, widget@), ..old(self)@ }),
            final(self).wf(),
    {
        self.keymap_put(key, widget);
    }

    /// Binds a key given in readline notation (`"^R"`); `false` when the
    /// notation names no key.
    pub fn bind_readline_notation(&mut self, notation: &str, widget: &str) -> (r: bool)
        requires
            old(self).wf(),
        ensures
            r == (key_from_notation(notation@) is Some),
            match key_from_notation(notation@) {
                Some(k) => final(self)@ == (ZleState { keymap: kv_put(old(self)@.keymap, k, widget@), ..old(self)@ }),
                None => final(self)@ == old(self)@,
            },
            final(self).wf(),
    {
        match Key::from_readline_notation(notation) {
            Some(k) => {
                self.bind_key(k, widget.to_owned());
                true
            },
            None => false,
        }
    }

    /// Runs a registered widget by name; unknown names are ignored.
    pub fn run_widget(&mut self, name: &str) -> (st: WidgetStatus)
        requires
            old(self).wf(),
            old(self)@.buffer.len() < usize::MAX,
        ensures
            final(self).wf(),
            (final(self)@, st) == spec::run_widget(old(self)@, name@),
    {
        let n = name.to_owned();
        match self.widget_get(&n) {
            Some(w) => apply_widget(self, w),
            None => WidgetStatus::Ignored,
        }
    }

    /// Handles one key press (the terminal layer calls this per key).
    pub fn handle_key(&mut self, key: Key) -> (st: WidgetStatus)
        requires
            old(self).wf(),
            old(self)@.buffer.len() < usize::MAX,
        ensures
            final(self).wf(),
            (final(self)@, st) == spec::handle_key(old(self)@, key),
    {
        self.pending_key = Some(key);
        assert(self@ =~= (ZleState { pending_key: Some(key), ..old(self)@ }));
        if let Some(widget) = self.keymap_get(key) {
            if let Some(w) = self.widget_get(&widget) {
                return apply_widget(self, w);
            }
        }
        self.default_action(key)
    }

    fn default_action(&mut self, key: Key) -> (st: WidgetStatus)
        requires
            old(self).wf(),
            old(self)@.buffer.len() < usize::MAX,
        ensures
            final(self).wf(),
            (final(self)@, st) == spec::default_action(old(self)@, key),
    {
        if self.mode == KeymapMode::ViCommand {
            return WidgetStatus::Ignored;
        }
        match key {
            Key::Char(c) => {
                self.insert_char(c);
                WidgetStatus::Continue
            },
            Key::Enter => self.run_widget("accept-line"),
            Key::Backspace => self.run_widget("backward-delete-char"),
            Key::Delete => self.run_widget("delete-char"),
            Key::Tab => WidgetStatus::Ignored,
            Key::Esc => {
                self.set_mode(KeymapMode::ViCommand);
                WidgetStatus::Continue
            },
            Key::Left => self.run_widget("backward-char"),
            Key::Right => self.run_widget("forward-char"),
            Key::Home => self.run_widget("beginning-of-line"),
            Key::End => self.run_widget("end-of-line"),
            Key::Up => self.run_widget("history-search-backward"),
            Key::Down => self.run_widget("history-search-forward"),
            _ => WidgetStatus::Ignored,
        }
    }
}

} // verus!
