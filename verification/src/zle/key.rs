//! Key events and their readline notation (`^A`, `<Up>`, `x`, ...).
use vstd::prelude::*;
use crate::text::{chars_eq_str, chars_of, push_char};

verus! {

/// One key press, already normalised by the terminal layer.
#[derive(Clone, Copy, Debug, PartialEq, Eq, Hash, Structural)]
pub enum Key {
    /// A printable character.
    Char(char),
    /// Ctrl + a letter (stored in lower case).
    Ctrl(char),
    /// Alt/Meta + a character.
    Meta(char),
    /// Return.
    Enter,
    /// Tab (completion).
    Tab,
    /// Escape.
    Esc,
    /// Backspace.
    Backspace,
    /// The delete key.
    Delete,
    /// Arrow up.
    Up,
    /// Arrow down.
    Down,
    /// Arrow left.
    Left,
    /// Arrow right.
    Right,
    /// Home.
    Home,
    /// End.
    End,
}

/// `char::to_ascii_lowercase`.
pub open spec fn ascii_lower(c: char) -> char {
    if 65 <= (c as u32) <= 90 {
        ((c as u32) + 32) as char
    } else {
        c
    }
}

/// `char::to_ascii_uppercase`.
pub open spec fn ascii_upper(c: char) -> char {
    if 97 <= (c as u32) <= 122 {
        ((c as u32) - 32) as char
    } else {
        c
    }
}

/// ASCII lower-casing of a single character.
pub fn to_ascii_lowercase(c: char) -> (r: char)
    ensures
        r == ascii_lower(c),
{
    if 'A' <= c && c <= 'Z' {
        let b = (c as u8) + 32;
        b as char
    } else {
        c
    }
}

/// ASCII upper-casing of a single character.
pub fn to_ascii_uppercase(c: char) -> (r: char)
    ensures
        r == ascii_upper(c),
{
    if 'a' <= c && c <= 'z' {
        let b = (c as u8) - 32;
        b as char
    } else {
        c
    }
}

/// The key that a readline-style notation names, if any: a single
/// character, `<Up>`, `<Down>`, `<Left>`, `<Right>`, `<Home>`, `<End>`,
/// `<Del>`, or `^` followed by one character (`^[` Esc, `^M`/`^J` Enter,
/// `^I` Tab, `^?` Backspace, otherwise Ctrl of its ASCII lower case).
pub open spec fn key_from_notation(s: Seq<char>) -> Option<Key> {
    if s.len() == 1 {
        Some(Key::Char(s[0]))
    } else if s == "<Up>"@ {
        Some(Key::Up)
    } else if s == "<Down>"@ {
        Some(Key::Down)
    } else if s == "<Left>"@ {
        Some(Key::Left)
    } else if s == "<Right>"@ {
        Some(Key::Right)
    } else if s == "<Home>"@ {
        Some(Key::Home)
    } else if s == "<End>"@ {
        Some(Key::End)
    } else if s == "<Del>"@ {
        Some(Key::Delete)
    } else if s.len() == 2 && s[0] == '^' {
        let c = ascii_lower(s[1]);
        if c == '[' {
            Some(Key::Esc)
        } else if c == 'm' || c == 'j' {
            Some(Key::Enter)
        } else if c == 'i' {
            Some(Key::Tab)
        } else if c == '?' {
            Some(Key::Backspace)
        } else {
            Some(Key::Ctrl(c))
        }
    } else {
        None
    }
}

/// The readline notation of a key (as shown by `bindkey`).
pub open spec fn key_notation(k: Key) -> Seq<char> {
    match k {
        Key::Char(c) => seq![c],
        Key::Ctrl(c) => if c == '[' {
            seq!['^', '[']
        } else {
            seq!['^', ascii_upper(c)]
        },
        Key::Meta(c) => seq!['^', c],
        Key::Enter => seq!['^', 'M'],
        Key::Tab => seq!['^', 'I'],
        Key::Esc => seq!['^', '['],
        Key::Backspace => seq!['^', '?'],
        Key::Delete => "<Del>"@,
        Key::Up => "<Up>"@,
        Key::Down => "<Down>"@,
        Key::Left => "<Left>"@,
        Key::Right => "<Right>"@,
        Key::Home => "<Home>"@,
        Key::End => "<End>"@,
    }
}

/// The keys whose notation reads back as the same key: characters, the
/// named keys, and Ctrl of a character that is its own ASCII lower case
/// and is not one of `[`, `m`, `j`, `i`, `?` (whose notations name Esc,
/// Enter, Tab and Backspace).  Meta keys share their notation with Ctrl
/// keys and never read back.
pub open spec fn notation_round_trips(k: Key) -> bool {
    match k {
        Key::Char(_) => true,
        Key::Ctrl(c) => ascii_lower(ascii_upper(c)) == c && c != '[' && c != 'm' && c != 'j'
            && c != 'i' && c != '?',
        Key::Meta(_) => false,
        _ => true,
    }
}

impl Key {
    /// Parses a readline-style notation: `^A`, `^[`, `^M`, `^I`, `^?`,
    /// `<Up>`/`<Down>`/`<Left>`/`<Right>`/`<Home>`/`<End>`/`<Del>`, or a
    /// single character.
    pub fn from_readline_notation(s: &str) -> (r: Option<Key>)
        ensures
            r == key_from_notation(s@),
    {
        let v = chars_of(s);
        if v.len() == 1 {
            return Some(Key::Char(v[0]));
        }
        if chars_eq_str(v.as_slice(), "<Up>") {
            return Some(Key::Up);
        }
        if chars_eq_str(v.as_slice(), "<Down>") {
            return Some(Key::Down);
        }
        if chars_eq_str(v.as_slice(), "<Left>") {
            return Some(Key::Left);
        }
        if chars_eq_str(v.as_slice(), "<Right>") {
            return Some(Key::Right);
        }
        if chars_eq_str(v.as_slice(), "<Home>") {
            return Some(Key::Home);
        }
        if chars_eq_str(v.as_slice(), "<End>") {
            return Some(Key::End);
        }
        if chars_eq_str(v.as_slice(), "<Del>") {
            return Some(Key::Delete);
        }
        if v.len() == 2 && v[0] == '^' {
            let c = to_ascii_lowercase(v[1]);
            return Some(
                if c == '[' {
                    Key::Esc
                } else if c == 'm' || c == 'j' {
                    Key::Enter
                } else if c == 'i' {
                    Key::Tab
                } else if c == '?' {
                    Key::Backspace
                } else {
                    Key::Ctrl(c)
                },
            );
        }
        None
    }

    /// The readline notation of this key (used by `bindkey` listings).
    pub fn to_readline_notation(self) -> (r: String)
        ensures
            r@ == key_notation(self),
    {
        let mut s = String::new();
        match self {
            Key::Char(c) => {
                push_char(&mut s, c);
            },
            Key::Ctrl(c) => {
                push_char(&mut s, '^');
                if c == '[' {
                    push_char(&mut s, '[');
                } else {
                    push_char(&mut s, to_ascii_uppercase(c));
                }
            },
            Key::Meta(c) => {
                push_char(&mut s, '^');
                push_char(&mut s, c);
            },
            Key::Enter => {
                push_char(&mut s, '^');
                push_char(&mut s, 'M');
            },
            Key::Tab => {
                push_char(&mut s, '^');
                push_char(&mut s, 'I');
            },
            Key::Esc => {
                push_char(&mut s, '^');
                push_char(&mut s, '[');
            },
            Key::Backspace => {
                push_char(&mut s, '^');
                push_char(&mut s, '?');
            },
            Key::Delete => {
                s = "<Del>".to_owned();
            },
            Key::Up => {
                s = "<Up>".to_owned();
            },
            Key::Down => {
                s = "<Down>".to_owned();
            },
            Key::Left => {
                s = "<Left>".to_owned();
            },
            Key::Right => {
                s = "<Right>".to_owned();
            },
            Key::Home => {
                s = "<Home>".to_owned();
            },
            Key::End => {
                s = "<End>".to_owned();
            },
        }
        assert(s@ =~= key_notation(self));
        s
    }
}

/// Reading back the notation of a key gives the key again, for every key
/// that has a notation of its own (see `notation_round_trips`).
pub proof fn lemma_notation_round_trip(k: Key)
    requires
        notation_round_trips(k),
    ensures
        key_from_notation(key_notation(k)) == Some(k),
{
    reveal_strlit("<Up>");
    reveal_strlit("<Down>");
    reveal_strlit("<Left>");
    reveal_strlit("<Right>");
    reveal_strlit("<Home>");
    reveal_strlit("<End>");
    reveal_strlit("<Del>");
    let n = key_notation(k);
    match k {
        Key::Ctrl(c) => {
            assert(n.len() == 2);
            assert(n[0] == '^');
            assert(n[1] == ascii_upper(c));
            assert(ascii_lower(n[1]) == c);
            assert(n != "<Up>"@ && n != "<Down>"@ && n != "<Left>"@ && n != "<Right>"@);
            assert(n != "<Home>"@ && n != "<End>"@ && n != "<Del>"@);
            assert(n.len() != 1);
            let d = ascii_lower(n[1]);
            assert(d == c);
            assert(d != '[' && d != 'm' && d != 'j' && d != 'i' && d != '?');
            assert(key_from_notation(n) == Some(Key::Ctrl(d)));
            assert(Some(Key::Ctrl(d)) == Some(k));
        },
        Key::Enter | Key::Tab | Key::Esc | Key::Backspace => {
            assert(n.len() == 2);
            assert(n != "<Up>"@ && n != "<Down>"@ && n != "<Left>"@ && n != "<Right>"@);
            assert(n != "<Home>"@ && n != "<End>"@ && n != "<Del>"@);
        },
        _ => {
            // the named notations differ in length or in their second character
            assert("<Up>"@[1] == 'U' && "<Down>"@[1] == 'D' && "<Left>"@[1] == 'L');
            assert("<Right>"@[1] == 'R' && "<Home>"@[1] == 'H' && "<End>"@[1] == 'E');
            assert("<Del>"@[1] == 'D' && "<Del>"@[2] == 'e' && "<Down>"@[2] == 'o');
        },
    }
}

} // verus!
