//! Alias management: name validation, the alias table and the expansion of
//! a command line whose first word is an alias.
//!
//! Expansion happens before parsing, as in bash and zsh: the first word of
//! the line is replaced by the alias value, and the process repeats on the
//! new line.  A fixed number of rounds bounds alias cycles (`a -> b -> a`).
use vstd::prelude::*;
use crate::strmap::StrMap;
use crate::text::{chars_eq, chars_of, contains_char, debug_quoted, debug_str, is_alphanumeric, is_blank, push_range, push_str, skip_non_ws, skip_ws, string_of, string_of_range, trim, trim_start, unicode_alphanumeric};

verus! {

/// Maximum number of expansion rounds (guards against alias cycles).
pub const MAX_EXPANSION_DEPTH: usize = 10;

/// Characters allowed in a name: letters, digits, `_`, `-` and `.`.
pub open spec fn name_char(c: char) -> bool {
    unicode_alphanumeric(c) || c == '_' || c == '-' || c == '.'
}

/// A name is non-empty and made of name characters only.
pub open spec fn valid_name(s: Seq<char>) -> bool {
    s.len() > 0 && forall|i: int| 0 <= i < s.len() ==> name_char(#[trigger] s[i])
}

/// An alias command is not blank and holds no line break.
pub open spec fn valid_command(s: Seq<char>) -> bool {
    trim(s).len() > 0 && !s.contains('\n')
}

/// Whether every character of `s` is a name character.
pub fn all_name_chars(s: &[char]) -> (r: bool)
    ensures
        r == (forall|i: int| 0 <= i < s@.len() ==> name_char(#[trigger] s@[i])),
{
    let mut i: usize = 0;
    while i < s.len()
        invariant
            i <= s@.len(),
            forall|j: int| 0 <= j < i ==> name_char(#[trigger] s@[j]),
        decreases s@.len() - i,
    {
        let c = s[i];
        if !(is_alphanumeric(c) || c == '_' || c == '-' || c == '.') {
            assert(!name_char(s@[i as int]));
            return false;
        }
        i = i + 1;
    }
    true
}

/// Whether `name` is a valid alias name (non-empty; letters, digits, `_`,
/// `-`, `.`).
pub fn is_valid_name(name: &str) -> (r: bool)
    ensures
        r == valid_name(name@),
{
    let cs = chars_of(name);
    cs.len() > 0 && all_name_chars(cs.as_slice())
}

/// Whether `command` is a valid alias command.
pub fn is_valid_command(command: &str) -> (r: bool)
    ensures
        r == valid_command(command@),
{
    let cs = chars_of(command);
    !is_blank(cs.as_slice()) && !contains_char(cs.as_slice(), '\n')
}

/// The first word of a command line, the command name (no quoting is
/// interpreted).
pub fn first_word(line: &str) -> (w: &str)
    ensures
        w@ == crate::text::first_word(line@),
{
    let cs = chars_of(line);
    let a = skip_ws(cs.as_slice(), 0);
    let b = skip_non_ws(cs.as_slice(), a);
    proof {
        assert(cs@.skip(0) =~= cs@);
        assert(cs@.skip(a as int) =~= trim_start(line@));
        assert(cs@.subrange(a as int, b as int) =~= crate::text::first_word(line@));
    }
    line.substring_char(a, b)
}

/// The message for an invalid alias name.
pub open spec fn invalid_name_message(name: Seq<char>) -> Seq<char> {
    "invalid alias name: "@ + debug_str(name)
}

/// The message for an invalid alias command.
pub open spec fn invalid_command_message(name: Seq<char>) -> Seq<char> {
    "invalid alias command for "@ + debug_str(name)
}

/// One expansion round: when the first word of `cur` is an alias, the line
/// with that word replaced by the alias value (the rest of the line follows
/// after one space, if there is a rest).
pub open spec fn expand_step(m: Map<Seq<char>, Seq<char>>, cur: Seq<char>) -> Option<Seq<char>> {
    let t = trim_start(cur);
    let w = crate::text::first_word(cur);
    if m.contains_key(w) {
        let rest = trim_start(t.skip(w.len() as int));
        Some(
            if rest.len() == 0 {
                m[w]
            } else {
                m[w] + seq![' '] + rest
            },
        )
    } else {
        None
    }
}

/// At most `n` expansion rounds, stopping early when the first word is not
/// an alias or a round changes nothing.
pub open spec fn expand_rounds(m: Map<Seq<char>, Seq<char>>, cur: Seq<char>, n: nat) -> Seq<
    char,
>
    decreases n,
{
    if n == 0 {
        cur
    } else {
        match expand_step(m, cur) {
            Some(next) => if next == cur {
                cur
            } else {
                expand_rounds(m, next, (n - 1) as nat)
            },
            None => cur,
        }
    }
}

/// The expansion of a line: leading white space removed, then at most
/// `MAX_EXPANSION_DEPTH` rounds.
pub open spec fn expansion(m: Map<Seq<char>, Seq<char>>, line: Seq<char>) -> Seq<char> {
    expand_rounds(m, trim_start(line), MAX_EXPANSION_DEPTH as nat)
}

/// The alias table, ordered by name.
pub struct AliasTable(pub StrMap);

impl View for AliasTable {
    type V = Map<Seq<char>, Seq<char>>;

    open spec fn view(&self) -> Map<Seq<char>, Seq<char>> {
        self.0@
    }
}

impl AliasTable {
    /// The empty table.
    pub fn new() -> (t: AliasTable)
        ensures
            t@ == Map::<Seq<char>, Seq<char>>::empty(),
    {
        AliasTable(StrMap::new())
    }

    /// The table of the given pairs (a later pair overrides an earlier one
    /// with the same name).  Names are not validated.
    pub fn from_entries(entries: Vec<(String, String)>) -> (t: AliasTable)
        ensures
            t@ == crate::strmap::map_of_pairs(crate::sort::pairs_view(entries@)),
    {
        AliasTable(StrMap::from_pairs(entries))
    }

    /// Adds or replaces an alias, after checking its name and command.
    pub fn insert(&mut self, name: String, command: String) -> (r: Result<(), String>)
        ensures
            r is Ok <==> valid_name(name@) && valid_command(command@),
            match r {
                Ok(()) => final(self)@ == old(self)@.insert(name@, command@),
                Err(e) => {
                    &&& final(self)@ == old(self)@
                    &&& !valid_name(name@) ==> e@ == invalid_name_message(name@)
                    &&& valid_name(name@) ==> e@ == invalid_command_message(name@)
                },
            },
    {
        if !is_valid_name(name.as_str()) {
            let mut e = "invalid alias name: ".to_owned();
            let q = debug_quoted(name.as_str());
            push_str(&mut e, q.as_str());
            return Err(e);
        }
        if !is_valid_command(command.as_str()) {
            let mut e = "invalid alias command for ".to_owned();
            let q = debug_quoted(name.as_str());
            push_str(&mut e, q.as_str());
            return Err(e);
        }
        self.0.insert(name, command);
        Ok(())
    }

    /// Removes an alias; `true` when it existed.
    pub fn remove(&mut self, name: &str) -> (r: bool)
        ensures
            final(self)@ == old(self)@.remove(name@),
            r == old(self)@.contains_key(name@),
    {
        self.0.remove(name)
    }

    /// The value of an alias.
    pub fn get(&self, name: &str) -> (r: Option<&str>)
        ensures
            match r {
                Some(v) => self@.contains_key(name@) && self@[name@] == v@,
                None => !self@.contains_key(name@),
            },
    {
        match self.0.get(name) {
            Some(v) => Some(v.as_str()),
            None => None,
        }
    }

    /// Number of aliases.
    pub fn len(&self) -> (r: usize)
        ensures
            r == self@.len(),
    {
        self.0.len()
    }

    /// Whether there are no aliases.
    pub fn is_empty(&self) -> (r: bool)
        ensures
            r == (self@.len() == 0),
    {
        self.0.is_empty()
    }

    /// The underlying ordered map.
    pub fn inner(&self) -> (r: &StrMap)
        ensures
            r@ == self@,
    {
        &self.0
    }

    /// Expands the alias in first position of `line`, round after round
    /// (at most `MAX_EXPANSION_DEPTH` rounds).
    pub fn expand(&self, line: &str) -> (r: String)
        ensures
            r@ == expansion(self@, line@),
    {
        let lc = chars_of(line);
        let a0 = skip_ws(lc.as_slice(), 0);
        let mut cur: Vec<char> = Vec::new();
        push_range(&mut cur, lc.as_slice(), a0, lc.len());
        proof {
            assert(lc@.skip(0) =~= lc@);
            assert(cur@ =~= trim_start(line@));
        }
        let ghost m = self@;
        let mut i: usize = 0;
        let mut done = false;
        while i < MAX_EXPANSION_DEPTH && !done
            invariant
                i <= MAX_EXPANSION_DEPTH,
                m == self@,
                done ==> expansion(m, line@) == cur@,
                !done ==> expansion(m, line@) == expand_rounds(
                    m,
                    cur@,
                    (MAX_EXPANSION_DEPTH - i) as nat,
                ),
            decreases MAX_EXPANSION_DEPTH - i,
        {
            let ghost n = (MAX_EXPANSION_DEPTH - i) as nat;
            let a = skip_ws(cur.as_slice(), 0);
            let b = skip_non_ws(cur.as_slice(), a);
            let word = string_of_range(cur.as_slice(), a, b);
            let ghost t = trim_start(cur@);
            proof {
                assert(cur@.skip(0) =~= cur@);
                assert(cur@.skip(a as int) =~= t);
                assert(word@ =~= crate::text::first_word(cur@));
            }
            match self.get(word.as_str()) {
                None => {
                    done = true;
                },
                Some(rep) => {
                    let c = skip_ws(cur.as_slice(), b);
                    let mut next = chars_of(rep);
                    let ghost rest = trim_start(t.skip(word@.len() as int));
                    proof {
                        assert(t.skip(word@.len() as int) =~= cur@.skip(b as int));
                        assert(cur@.skip(c as int) =~= rest);
                    }
                    if c < cur.len() {
                        next.push(' ');
                        push_range(&mut next, cur.as_slice(), c, cur.len());
                        assert(next@ =~= m[word@] + seq![' '] + rest);
                    } else {
                        assert(rest.len() == 0);
                    }
                    assert(expand_step(m, cur@) == Some(next@));
                    if chars_eq(next.as_slice(), cur.as_slice()) {
                        done = true;
                    } else {
                        cur = next;
                    }
                },
            }
            i = i + 1;
        }
        string_of(cur.as_slice())
    }
}

/// A line whose first word is not an alias expands to itself, without its
/// leading white space.
pub proof fn lemma_non_alias_unchanged(m: Map<Seq<char>, Seq<char>>, line: Seq<char>)
    requires
        !m.contains_key(crate::text::first_word(line)),
    ensures
        expansion(m, line) == trim_start(line),
{
    crate::text::lemma_trim_start_idempotent(line);
}


/// A line whose first word is an alias for a command whose own first word
/// is not an alias expands once: the command, then the rest of the line
/// after one space.
pub proof fn lemma_single_expansion(m: Map<Seq<char>, Seq<char>>, line: Seq<char>)
    requires
        m.contains_key(crate::text::first_word(line)),
        valid_command(m[crate::text::first_word(line)]),
        !m.contains_key(crate::text::first_word(m[crate::text::first_word(line)])),
    ensures
        expansion(m, line) == ({
            let w = crate::text::first_word(line);
            let rest = trim_start(trim_start(line).skip(w.len() as int));
            if rest.len() == 0 {
                m[w]
            } else {
                m[w] + seq![' '] + rest
            }
        }),
{
    let w = crate::text::first_word(line);
    let l = trim_start(line);
    crate::text::lemma_trim_start_idempotent(line);
    let rest = trim_start(l.skip(w.len() as int));
    let c = m[w];
    let next = if rest.len() == 0 {
        c
    } else {
        c + seq![' '] + rest
    };
    assert(expand_step(m, l) == Some(next));
    if rest.len() == 0 {
        assert(crate::text::first_word(next) == crate::text::first_word(c));
    } else {
        let tail = seq![' '] + rest;
        assert(tail[0] == ' ');
        assert(c + seq![' '] + rest =~= c + tail);
        crate::text::lemma_first_word_append(c, tail);
    }
    assert(expand_step(m, next) is None);
    assert(expand_rounds(m, next, 9) == next);
    assert(expand_rounds(m, l, 10) == next);
}


/// After adding an alias, looking it up gives its command.
pub proof fn lemma_get_after_insert(m: Map<Seq<char>, Seq<char>>, name: Seq<char>, command: Seq<char>)
    ensures
        m.insert(name, command).contains_key(name),
        m.insert(name, command)[name] == command,
{
}

/// Removing an alias that was just added (and was not there before)
/// gives the table back.
pub proof fn lemma_remove_undoes_insert(
    m: Map<Seq<char>, Seq<char>>,
    name: Seq<char>,
    command: Seq<char>,
)
    requires
        !m.contains_key(name),
    ensures
        m.insert(name, command).remove(name) == m,
{
    assert(m.insert(name, command).remove(name) =~= m);
}

} // verus!
