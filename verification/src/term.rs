//! The terminal side of the line editor that needs no terminal: decoding
//! the bytes of a key press (control characters, ANSI escape sequences,
//! UTF-8), the display width of text, and the grey autosuggestion taken
//! from the history.  Reading bytes and drawing are left to the caller.
use vstd::prelude::*;
use crate::paths::opt_view;
use crate::sort::strings_view;
use crate::zle::engine::ZleEngine;
use crate::zle::spec::{self, ZleState};
use crate::zle::key::Key;
use crate::text::{chars_of, has_prefix, starts_with, string_of_range};

verus! {

// ---------------------------------------------------------------------------
// Key decoding
// ---------------------------------------------------------------------------

/// What the decoder needs after the bytes read so far.
#[derive(Debug, Clone, Copy, PartialEq, Eq)]
pub enum KeyRead {
    /// One more byte (or the news that there is none).
    Need,
    /// The key, or `None` at the end of input before any byte.
    Done(Option<Key>),
}

/// The text that `String::from_utf8_lossy(bytes)` gives.
pub uninterp spec fn lossy_text(bytes: Seq<u8>) -> Seq<char>;

/// Calls `String::from_utf8_lossy`.  Its documentation says that valid
/// UTF-8 is decoded as it is and that each invalid sequence becomes U+FFFD.
/// Claimed from that: the text is empty exactly when the bytes are; when a
/// non-empty prefix of the bytes is valid UTF-8, the text starts with the
/// first character that prefix decodes to; when none is, the text starts
/// with U+FFFD.  The rest of the text is left to the name `lossy_text`.
#[verifier::external_body]
fn lossy_string(bytes: &[u8]) -> (s: String)
    ensures
        s@ == lossy_text(bytes@),
        s@.len() == 0 <==> bytes@.len() == 0,
        forall|k: int|
            1 <= k <= bytes@.len() && vstd::utf8::valid_utf8(#[trigger] bytes@.take(k)) ==> s@[0]
                == vstd::utf8::decode_utf8(bytes@.take(k))[0],
        bytes@.len() > 0 && (forall|k: int|
            1 <= k <= bytes@.len() ==> !vstd::utf8::valid_utf8(#[trigger] bytes@.take(k)))
            ==> s@[0] == '\u{fffd}',
{
    String::from_utf8_lossy(bytes).into_owned()
}

/// Number of bytes of a UTF-8 character, by its first byte (4 for
/// anything that is not a leading byte of 1, 2 or 3 bytes).
pub open spec fn utf8_need(b0: u8) -> nat {
    if b0 <= 0x7f {
        1
    } else if 0xc0 <= b0 <= 0xdf {
        2
    } else if 0xe0 <= b0 <= 0xef {
        3
    } else {
        4
    }
}

/// The key of `ESC [ x` or `ESC O x`.
pub open spec fn csi_key(x: u8) -> Key {
    if x == 0x41 {
        Key::Up
    } else if x == 0x42 {
        Key::Down
    } else if x == 0x43 {
        Key::Right
    } else if x == 0x44 {
        Key::Left
    } else if x == 0x48 {
        Key::Home
    } else if x == 0x46 {
        Key::End
    } else {
        Key::Esc
    }
}

/// The decoder's answer for the bytes `b` read so far, where `eof` tells
/// that the last read found no byte.
pub open spec fn key_read(b: Seq<u8>, eof: bool) -> KeyRead {
    if b.len() == 0 {
        if eof {
            KeyRead::Done(None)
        } else {
            KeyRead::Need
        }
    } else if b[0] == 0x1b {
        if b.len() == 1 {
            if eof {
                KeyRead::Done(Some(Key::Esc))
            } else {
                KeyRead::Need
            }
        } else if b[1] == 0x5b {
            if b.len() == 2 {
                if eof {
                    KeyRead::Done(Some(Key::Esc))
                } else {
                    KeyRead::Need
                }
            } else if b[2] == 0x33 {
                // `ESC [ 3 ~`: the trailing byte is read and dropped
                if b.len() == 3 && !eof {
                    KeyRead::Need
                } else {
                    KeyRead::Done(Some(Key::Delete))
                }
            } else {
                KeyRead::Done(Some(csi_key(b[2])))
            }
        } else if b[1] == 0x4f {
            if b.len() == 2 {
                if eof {
                    KeyRead::Done(Some(Key::Esc))
                } else {
                    KeyRead::Need
                }
            } else {
                KeyRead::Done(Some(csi_key(b[2])))
            }
        } else {
            KeyRead::Done(Some(Key::Esc))
        }
    } else if b[0] == 0x0d || b[0] == 0x0a {
        KeyRead::Done(Some(Key::Enter))
    } else if b[0] == 0x09 {
        KeyRead::Done(Some(Key::Tab))
    } else if b[0] == 0x7f {
        KeyRead::Done(Some(Key::Backspace))
    } else if 0x01 <= b[0] <= 0x1a {
        KeyRead::Done(Some(Key::Ctrl(((0x61 + b[0] - 1) as u8) as char)))
    } else if 0x20 <= b[0] <= 0x7e {
        KeyRead::Done(Some(Key::Char(b[0] as char)))
    } else if b.len() < utf8_need(b[0]) && !eof {
        KeyRead::Need
    } else {
        KeyRead::Done(Some(Key::Char(lossy_text(b)[0])))
    }
}

/// Decodes a key from the bytes read so far.
pub fn decode_key(b: &[u8], eof: bool) -> (r: KeyRead)
    ensures
        r == key_read(b@, eof),
        b@.len() > 0 && b@[0] >= 0x80 ==> (r matches KeyRead::Done(Some(Key::Char(c))) ==> {
            &&& forall|k: int|
                1 <= k <= b@.len() && vstd::utf8::valid_utf8(#[trigger] b@.take(k)) ==> c
                    == vstd::utf8::decode_utf8(b@.take(k))[0]
            &&& (forall|k: int| 1 <= k <= b@.len() ==> !vstd::utf8::valid_utf8(#[trigger] b@.take(k)))
                ==> c == '\u{fffd}'
        }),
{
    let n = b.len();
    if n == 0 {
        return if eof {
            KeyRead::Done(None)
        } else {
            KeyRead::Need
        };
    }
    let b0 = b[0];
    if b0 == 0x1b {
        if n == 1 {
            return if eof {
                KeyRead::Done(Some(Key::Esc))
            } else {
                KeyRead::Need
            };
        }
        let b1 = b[1];
        if b1 == 0x5b || b1 == 0x4f {
            if n == 2 {
                return if eof {
                    KeyRead::Done(Some(Key::Esc))
                } else {
                    KeyRead::Need
                };
            }
            let b2 = b[2];
            if b1 == 0x5b && b2 == 0x33 {
                return if n == 3 && !eof {
                    KeyRead::Need
                } else {
                    KeyRead::Done(Some(Key::Delete))
                };
            }
            let k = if b2 == 0x41 {
                Key::Up
            } else if b2 == 0x42 {
                Key::Down
            } else if b2 == 0x43 {
                Key::Right
            } else if b2 == 0x44 {
                Key::Left
            } else if b2 == 0x48 {
                Key::Home
            } else if b2 == 0x46 {
                Key::End
            } else {
                Key::Esc
            };
            return KeyRead::Done(Some(k));
        }
        return KeyRead::Done(Some(Key::Esc));
    }
    if b0 == 0x0d || b0 == 0x0a {
        return KeyRead::Done(Some(Key::Enter));
    }
    if b0 == 0x09 {
        return KeyRead::Done(Some(Key::Tab));
    }
    if b0 == 0x7f {
        return KeyRead::Done(Some(Key::Backspace));
    }
    if 0x01 <= b0 && b0 <= 0x1a {
        return KeyRead::Done(Some(Key::Ctrl((0x61 + b0 - 1) as char)));
    }
    if 0x20 <= b0 && b0 <= 0x7e {
        return KeyRead::Done(Some(Key::Char(b0 as char)));
    }
    let need: usize = if b0 <= 0x7f {
        1
    } else if 0xc0 <= b0 && b0 <= 0xdf {
        2
    } else if 0xe0 <= b0 && b0 <= 0xef {
        3
    } else {
        4
    };
    if n < need && !eof {
        return KeyRead::Need;
    }
    let text = lossy_string(b);
    let c = text.as_str().get_char(0);
    KeyRead::Done(Some(Key::Char(c)))
}

// ---------------------------------------------------------------------------
// Display width
// ---------------------------------------------------------------------------

/// The columns a character takes: 2 for the common wide ranges (CJK,
/// full-width forms, Hangul), 1 otherwise.
pub open spec fn char_cols(c: char) -> nat {
    let cp = c as u32;
    if cp < 128 {
        1
    } else if (0x1100 <= cp <= 0x115f) || (0x2e80 <= cp <= 0xa4cf) || (0xac00 <= cp <= 0xd7a3) || (
    0xf900 <= cp <= 0xfaff) || (0xfe30 <= cp <= 0xfe4f) || (0xff00 <= cp <= 0xff60) || (0x20000
        <= cp <= 0x2fffd) || (0x30000 <= cp <= 0x3fffd) {
        2
    } else {
        1
    }
}

/// The columns a text takes.
pub open spec fn text_cols(s: Seq<char>) -> nat
    decreases s.len(),
{
    if s.len() == 0 {
        0
    } else {
        text_cols(s.drop_last()) + char_cols(s.last())
    }
}

/// The display width of a character (approximate: wide East Asian forms
/// count 2).
pub fn char_width(c: char) -> (w: usize)
    ensures
        w == char_cols(c),
{
    let cp = c as u32;
    if cp < 128 {
        return 1;
    }
    if (0x1100 <= cp && cp <= 0x115f) || (0x2e80 <= cp && cp <= 0xa4cf) || (0xac00 <= cp && cp
        <= 0xd7a3) || (0xf900 <= cp && cp <= 0xfaff) || (0xfe30 <= cp && cp <= 0xfe4f) || (0xff00
        <= cp && cp <= 0xff60) || (0x20000 <= cp && cp <= 0x2fffd) || (0x30000 <= cp && cp
        <= 0x3fffd) {
        2
    } else {
        1
    }
}

proof fn lemma_text_cols_bound(s: Seq<char>)
    ensures
        text_cols(s) <= 2 * s.len(),
    decreases s.len(),
{
    if s.len() > 0 {
        lemma_text_cols_bound(s.drop_last());
    }
}

/// The display width of a text.
pub fn display_width(s: &str) -> (w: usize)
    requires
        2 * s@.len() <= usize::MAX,
    ensures
        w == text_cols(s@),
{
    let cs = chars_of(s);
    let mut w: usize = 0;
    let mut i: usize = 0;
    while i < cs.len()
        invariant
            i <= cs@.len(),
            cs@ == s@,
            2 * cs@.len() <= usize::MAX,
            w == text_cols(cs@.take(i as int)),
        decreases cs@.len() - i,
    {
        proof {
            assert(cs@.take(i + 1).drop_last() =~= cs@.take(i as int));
            lemma_text_cols_bound(cs@.take(i + 1));
        }
        w = w + char_width(cs[i]);
        i = i + 1;
    }
    assert(cs@.take(i as int) =~= cs@);
    w
}

// ---------------------------------------------------------------------------
// Autosuggestion
// ---------------------------------------------------------------------------

/// The index of the newest history line before `end` that extends the
/// buffer (begins with it and is longer).
pub open spec fn suggestion_index(h: Seq<Seq<char>>, buf: Seq<char>, end: int) -> Option<int>
    decreases end,
{
    if end <= 0 {
        None
    } else if h[end - 1].len() > buf.len() && has_prefix(h[end - 1], buf) {
        Some(end - 1)
    } else {
        suggestion_index(h, buf, end - 1)
    }
}

/// The grey suggestion for a buffer: the rest of the newest history line
/// that extends it (none for an empty buffer).
pub open spec fn suggestion_for(h: Seq<Seq<char>>, buf: Seq<char>) -> Option<Seq<char>> {
    if buf.len() == 0 {
        None
    } else {
        match suggestion_index(h, buf, h.len() as int) {
            Some(i) => Some(h[i].skip(buf.len() as int)),
            None => None,
        }
    }
}

/// The suggestion for the engine's buffer.
pub fn suggest(engine: &ZleEngine) -> (r: Option<String>)
    ensures
        opt_view(r) == suggestion_for(engine@.history, engine@.buffer),
{
    let buf = engine.buffer();
    let bc = chars_of(buf.as_str());
    if bc.len() == 0 {
        return None;
    }
    let hist = engine.history();
    let ghost h = strings_view(hist@);
    let mut i: usize = hist.len();
    while i > 0
        invariant
            i <= hist@.len(),
            h == strings_view(hist@),
            h == engine@.history,
            bc@ == engine@.buffer,
            bc@.len() > 0,
            suggestion_index(h, bc@, h.len() as int) == suggestion_index(h, bc@, i as int),
        decreases i,
    {
        let lc = chars_of(hist[i - 1].as_str());
        assert(h[i - 1] == hist@[i - 1]@);
        if lc.len() > bc.len() && starts_with(lc.as_slice(), bc.as_slice()) {
            let rest = string_of_range(lc.as_slice(), bc.len(), lc.len());
            assert(rest@ =~= h[i - 1].skip(bc@.len() as int));
            return Some(rest);
        }
        i = i - 1;
    }
    None
}


// ---------------------------------------------------------------------------
// One key of an interactive editing session
// ---------------------------------------------------------------------------

/// What a key press means for the session around the editor.
pub enum EditStep {
    /// Ctrl-C: the line is cancelled (a new prompt follows).
    Cancel,
    /// Ctrl-D on an empty line: the session ends.
    EndSession,
    /// A line was accepted; it is to be run.
    Accepted(String),
    /// The line changed (or not); it is to be drawn again.
    Redraw,
}

/// The keys that take the grey suggestion at the end of the line.
pub open spec fn takes_suggestion(key: Key) -> bool {
    key == Key::Right || key == Key::End || key == Key::Ctrl('f')
}

/// The state after a key, before the session looks at it: the key is
/// handled; a suggestion-taking key at the end of the line inserts the
/// suggestion (when it fits in memory).
pub open spec fn after_key(s: ZleState, key: Key) -> ZleState {
    let s1 = spec::handle_key(s, key).0;
    if takes_suggestion(key) && s1.cursor == s1.buffer.len() {
        match suggestion_for(s1.history, s1.buffer) {
            Some(t) => if s1.buffer.len() + t.len() <= usize::MAX {
                spec::insert_str(s1, t)
            } else {
                s1
            },
            None => s1,
        }
    } else {
        s1
    }
}

/// Handles one key of an interactive session.
pub fn editor_step(engine: &mut ZleEngine, key: Key) -> (r: EditStep)
    requires
        old(engine).wf(),
        old(engine)@.buffer.len() < usize::MAX,
    ensures
        final(engine).wf(),
        key == Key::Ctrl('c') ==> r is Cancel && final(engine)@ == spec::new_line(old(engine)@),
        key != Key::Ctrl('c') && key == Key::Ctrl('d') && old(engine)@.buffer.len() == 0 ==> r is EndSession
            && final(engine)@ == old(engine)@,
        !(key == Key::Ctrl('c') || (key == Key::Ctrl('d') && old(engine)@.buffer.len() == 0)) ==> ({
            let s2 = after_key(old(engine)@, key);
            match s2.accepted {
                Some(l) => (r matches EditStep::Accepted(t) && t@ == l) && final(engine)@ == (ZleState {
                    accepted: None,
                    ..s2
                }),
                None => r is Redraw && final(engine)@ == (ZleState {
                    suggestion: suggestion_for(s2.history, s2.buffer),
                    ..s2
                }),
            }
        }),
{
    if key == Key::Ctrl('c') {
        engine.new_prompt();
        return EditStep::Cancel;
    }
    if key == Key::Ctrl('d') && engine.buffer().unicode_len() == 0 {
        return EditStep::EndSession;
    }
    engine.handle_key(key);
    let ghost s1 = engine@;
    if (key == Key::Right || key == Key::End || key == Key::Ctrl('f')) && engine.cursor()
        == engine.buffer().unicode_len() {
        match suggest(engine) {
            Some(t) => {
                let b = engine.buffer().unicode_len();
                let n = t.unicode_len();
                if b <= usize::MAX - n {
                    engine.insert_str(t.as_str());
                }
            },
            None => {},
        }
    }
    assert(engine@ == after_key(old(engine)@, key));
    match engine.take_accepted() {
        Some(line) => EditStep::Accepted(line),
        None => {
            let s = suggest(engine);
            engine.set_suggestion(s);
            EditStep::Redraw
        },
    }
}


/// The cursor keys, as terminals send them in either the `ESC [` or the
/// `ESC O` form: final byte `A` is Up, `B` Down, `C` Right, `D` Left, `H`
/// Home and `F` End, whatever bytes follow and whether or not input has
/// ended; `ESC [ 3` is Delete; any other final byte is a bare Escape.  The
/// six cursor keys are told apart.
pub proof fn lemma_cursor_keys(b: Seq<u8>, eof: bool)
    requires
        b.len() >= 3,
        b[0] == 0x1b,
        b[1] == 0x5b || b[1] == 0x4f,
    ensures
        b[2] == 0x41 ==> key_read(b, eof) == KeyRead::Done(Some(Key::Up)),
        b[2] == 0x42 ==> key_read(b, eof) == KeyRead::Done(Some(Key::Down)),
        b[2] == 0x43 ==> key_read(b, eof) == KeyRead::Done(Some(Key::Right)),
        b[2] == 0x44 ==> key_read(b, eof) == KeyRead::Done(Some(Key::Left)),
        b[2] == 0x48 ==> key_read(b, eof) == KeyRead::Done(Some(Key::Home)),
        b[2] == 0x46 ==> key_read(b, eof) == KeyRead::Done(Some(Key::End)),
        b[1] == 0x5b && b[2] == 0x33 && (b.len() > 3 || eof) ==> key_read(b, eof)
            == KeyRead::Done(Some(Key::Delete)),
        !(b[1] == 0x5b && b[2] == 0x33) && b[2] != 0x41 && b[2] != 0x42 && b[2] != 0x43 && b[2]
            != 0x44 && b[2] != 0x48 && b[2] != 0x46 ==> key_read(b, eof) == KeyRead::Done(
            Some(Key::Esc),
        ),
        forall|x: u8, y: u8|
            #![trigger csi_key(x), csi_key(y)]
            x != y && (x == 0x41 || x == 0x42 || x == 0x43 || x == 0x44 || x == 0x48 || x == 0x46)
                && (y == 0x41 || y == 0x42 || y == 0x43 || y == 0x44 || y == 0x48 || y == 0x46)
                ==> csi_key(x) != csi_key(y),
{
}

/// Single bytes below 0x80: carriage return and line feed are Enter, 0x09
/// Tab, 0x7f Backspace, the other control bytes 0x01 to 0x1a Ctrl with the
/// letter of the same place in the alphabet, and the printable characters
/// are themselves; the decoder never waits for more after them.
pub proof fn lemma_single_byte_keys(b: Seq<u8>, eof: bool)
    requires
        b.len() >= 1,
    ensures
        (b[0] == 0x0d || b[0] == 0x0a) ==> key_read(b, eof) == KeyRead::Done(Some(Key::Enter)),
        b[0] == 0x09 ==> key_read(b, eof) == KeyRead::Done(Some(Key::Tab)),
        b[0] == 0x7f ==> key_read(b, eof) == KeyRead::Done(Some(Key::Backspace)),
        1 <= b[0] <= 26 && b[0] != 0x09 && b[0] != 0x0a && b[0] != 0x0d ==> (key_read(b, eof) matches KeyRead::Done(
            Some(Key::Ctrl(c)),
        ) && c as u32 == 0x60 + b[0] && 'a' <= c <= 'z'),
        0x20 <= b[0] <= 0x7e ==> (key_read(b, eof) matches KeyRead::Done(Some(Key::Char(c)))
            && c as u32 == b[0]),
{
    if 1 <= b[0] <= 26 && b[0] != 0x09 && b[0] != 0x0a && b[0] != 0x0d {
        let x: u8 = b[0];
        assert(((0x61 + x - 1) as u8) as u32 == 0x60 + x) by (bit_vector)
            requires
                1 <= x <= 26,
        ;
    }
}

/// The decoder never asks for a fifth byte: a key is at most four bytes.
pub proof fn lemma_key_read_bounded(b: Seq<u8>, eof: bool)
    requires
        b.len() >= 4,
    ensures
        key_read(b, eof) is Done,
{
}

/// A suggestion completes the buffer to a line of the history.
pub proof fn lemma_suggestion_extends(h: Seq<Seq<char>>, buf: Seq<char>)
    requires
        suggestion_for(h, buf) is Some,
    ensures
        exists|i: int| 0 <= i < h.len() && #[trigger] h[i] == buf + suggestion_for(h, buf)->0,
{
    let i = lemma_suggestion_index(h, buf, h.len() as int);
    assert(h[i] =~= buf + h[i].skip(buf.len() as int));
}

proof fn lemma_suggestion_index(h: Seq<Seq<char>>, buf: Seq<char>, end: int) -> (i: int)
    requires
        end <= h.len(),
        suggestion_index(h, buf, end) is Some,
    ensures
        suggestion_index(h, buf, end) == Some(i),
        0 <= i < end,
        h[i].len() > buf.len(),
        has_prefix(h[i], buf),
    decreases end,
{
    if h[end - 1].len() > buf.len() && has_prefix(h[end - 1], buf) {
        end - 1
    } else {
        lemma_suggestion_index(h, buf, end - 1)
    }
}

} // verus!
