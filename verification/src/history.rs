//! Command history: a bounded list of lines, newest last, with optional
//! suppression of consecutive duplicates and prefix search in both
//! directions.  Reading and writing the history file is left to the caller;
//! this module turns file contents into a history and back.
use vstd::prelude::*;
use crate::sort::strings_view;
use crate::text::{chars_eq_str, chars_of, has_prefix, is_blank, starts_with, string_of_range, trim};

verus! {

/// `s.trim_end_matches('\n')`: `s` without its trailing line feeds.
pub open spec fn strip_newlines(s: Seq<char>) -> Seq<char>
    decreases s.len(),
{
    if s.len() > 0 && s.last() == '\n' {
        strip_newlines(s.drop_last())
    } else {
        s
    }
}

/// An entry as a push leaves it: not blank, no trailing line feed.
pub open spec fn clean_entry(e: Seq<char>) -> bool {
    trim(e).len() > 0 && strip_newlines(e) == e
}

/// `strip_newlines` leaves no trailing line feed, so stripping twice is
/// stripping once.
pub proof fn lemma_strip_idempotent(s: Seq<char>)
    ensures
        !(strip_newlines(s).len() > 0 && strip_newlines(s).last() == '\n'),
        strip_newlines(strip_newlines(s)) == strip_newlines(s),
    decreases s.len(),
{
    if s.len() > 0 && s.last() == '\n' {
        lemma_strip_idempotent(s.drop_last());
    }
}

/// Whether a push of `line` onto `entries` adds it.
pub open spec fn push_accepts(entries: Seq<Seq<char>>, ignore_dups: bool, line: Seq<char>) -> bool {
    let l = strip_newlines(line);
    trim(l).len() > 0 && !(ignore_dups && entries.len() > 0 && entries.last() == l)
}

/// The entries after a push of `line`: unchanged when the line is refused;
/// otherwise the stripped line is appended and the oldest entries beyond
/// `max` are dropped.
pub open spec fn push_entries(
    entries: Seq<Seq<char>>,
    max: nat,
    ignore_dups: bool,
    line: Seq<char>,
) -> Seq<Seq<char>> {
    if push_accepts(entries, ignore_dups, line) {
        let e = entries.push(strip_newlines(line));
        if e.len() > max {
            e.skip(e.len() - max)
        } else {
            e
        }
    } else {
        entries
    }
}

/// The entries after pushing each of `lines` in order.
pub open spec fn push_all(
    entries: Seq<Seq<char>>,
    max: nat,
    ignore_dups: bool,
    lines: Seq<Seq<char>>,
) -> Seq<Seq<char>>
    decreases lines.len(),
{
    if lines.len() == 0 {
        entries
    } else {
        push_all(push_entries(entries, max, ignore_dups, lines[0]), max, ignore_dups, lines.drop_first())
    }
}

/// Index of the newest entry before `start` that begins with `prefix`.
pub open spec fn backward_match(entries: Seq<Seq<char>>, prefix: Seq<char>, start: int) -> Option<
    int,
>
    decreases start,
{
    if start <= 0 {
        None
    } else if has_prefix(entries[start - 1], prefix) {
        Some(start - 1)
    } else {
        backward_match(entries, prefix, start - 1)
    }
}

/// Index of the oldest entry from `start` on that begins with `prefix`.
pub open spec fn forward_match(entries: Seq<Seq<char>>, prefix: Seq<char>, start: int) -> Option<
    int,
>
    decreases entries.len() - start,
{
    if start >= entries.len() {
        None
    } else if has_prefix(entries[start], prefix) {
        Some(start)
    } else {
        forward_match(entries, prefix, start + 1)
    }
}

/// `std::io::Error`, carried through as it is.
#[verifier::external_type_specification]
#[verifier::external_body]
pub struct ExIoError(std::io::Error);

/// The errors of reading or writing the history file.
pub enum HistoryError {
    /// The file could not be read or written.
    Io(std::io::Error),
}

/// The history.
pub struct History {
    entries: Vec<String>,
    max: usize,
    ignore_dups: bool,
    file: Option<String>,
}

impl View for History {
    type V = Seq<Seq<char>>;

    /// The entries, oldest first.
    closed spec fn view(&self) -> Seq<Seq<char>> {
        strings_view(self.entries@)
    }
}

impl History {
    /// The limit on the number of entries.
    pub closed spec fn max(&self) -> nat {
        self.max as nat
    }

    /// Whether a line equal to the newest entry is refused.
    pub closed spec fn ignores_dups(&self) -> bool {
        self.ignore_dups
    }

    /// The file the history belongs to, if any.
    pub closed spec fn file_spec(&self) -> Option<Seq<char>> {
        match self.file {
            Some(f) => Some(f@),
            None => None,
        }
    }

    #[verifier::type_invariant]
    closed spec fn bounded(&self) -> bool {
        &&& self.entries@.len() <= self.max
        &&& forall|i: int| 0 <= i < self@.len() ==> clean_entry(#[trigger] self@[i])
    }

    /// A new, empty history kept in memory only.
    pub fn new(max: usize, ignore_dups: bool) -> (h: History)
        ensures
            h@ == Seq::<Seq<char>>::empty(),
            h.max() == max,
            h.ignores_dups() == ignore_dups,
            h.file_spec() is None,
    {
        let h = History { entries: Vec::new(), max, ignore_dups, file: None };
        assert(h@ =~= Seq::<Seq<char>>::empty());
        h
    }

    /// The history made from the contents of its file: each non-blank line
    /// is pushed in order.
    pub fn from_content(content: &str, max: usize, ignore_dups: bool, file: String) -> (h: History)
        ensures
            h@ == push_all(Seq::empty(), max as nat, ignore_dups, crate::text::text_lines(content@)),
            h.max() == max,
            h.ignores_dups() == ignore_dups,
            h.file_spec() == Some(file@),
    {
        let lines = crate::text::lines_of(content);
        let mut h = History::new(max, ignore_dups);
        let mut i: usize = 0;
        assert(strings_view(lines@).skip(0) =~= strings_view(lines@));
        while i < lines.len()
            invariant
                i <= lines@.len(),
                forall|k: int| 0 <= k < lines@.len() ==> !(#[trigger] lines@[k])@.contains('\n'),
                h.max() == max,
                h.ignores_dups() == ignore_dups,
                h.file_spec() is None,
                push_all(Seq::empty(), max as nat, ignore_dups, strings_view(lines@)) == push_all(
                    h@,
                    max as nat,
                    ignore_dups,
                    strings_view(lines@).skip(i as int),
                ),
            decreases lines@.len() - i,
        {
            let line = lines[i].clone();
            proof {
                let rest = strings_view(lines@).skip(i as int);
                assert(rest[0] == lines@[i as int]@);
                assert(rest.drop_first() =~= strings_view(lines@).skip(i + 1));
            }
            let lc = chars_of(line.as_str());
            if !is_blank(lc.as_slice()) {
                h.push(line);
            } else {
                proof {
                    lemma_strip_no_newline_blank(lines@[i as int]@);
                }
            }
            i = i + 1;
        }
        proof {
            assert(strings_view(lines@).skip(i as int).len() == 0);
        }
        proof {
            use_type_invariant(&h);
        }
        h.file = Some(file);
        h
    }

    /// The entries, oldest first.
    pub fn entries(&self) -> (r: &[String])
        ensures
            strings_view(r@) == self@,
            forall|i: int| 0 <= i < self@.len() ==> clean_entry(#[trigger] self@[i]),
    {
        proof {
            use_type_invariant(self);
        }
        self.entries.as_slice()
    }

    /// Number of entries.
    pub fn len(&self) -> (r: usize)
        ensures
            r == self@.len(),
            r <= self.max(),
    {
        proof {
            use_type_invariant(self);
        }
        self.entries.len()
    }

    /// Whether there are no entries.
    pub fn is_empty(&self) -> (r: bool)
        ensures
            r == (self@.len() == 0),
    {
        self.entries.len() == 0
    }

    /// The file the history was loaded from or belongs to.
    pub fn file(&self) -> (r: Option<&String>)
        ensures
            match r {
                Some(f) => self.file_spec() == Some(f@),
                None => self.file_spec() is None,
            },
    {
        match &self.file {
            Some(f) => Some(f),
            None => None,
        }
    }

    /// What saving writes: the history's file and its text, or `None` when
    /// the history has no file (then nothing is written).
    pub fn save(&self) -> (r: Option<(String, String)>)
        ensures
            match self.file_spec() {
                Some(f) => r matches Some((p, t)) && p@ == f && t@ == crate::text::join_lines(self@),
                None => r is None,
            },
    {
        match &self.file {
            Some(f) => Some((f.clone(), self.to_text())),
            None => None,
        }
    }

    /// The text of the history file: each entry followed by a line feed.
    pub fn to_text(&self) -> (r: String)
        ensures
            r@ == crate::text::join_lines(self@),
    {
        let mut out = String::new();
        let mut i: usize = 0;
        assert(self@.take(0) =~= Seq::<Seq<char>>::empty());
        while i < self.entries.len()
            invariant
                i <= self@.len(),
                self@.len() == self.entries@.len(),
                out@ == crate::text::join_lines(self@.take(i as int)),
            decreases self@.len() - i,
        {
            crate::text::push_str(&mut out, self.entries[i].as_str());
            crate::text::push_char(&mut out, '\n');
            proof {
                assert(self@.take(i + 1).drop_last() =~= self@.take(i as int));
                assert(self@[i as int] == self.entries@[i as int]@);
            }
            i = i + 1;
        }
        assert(self@.take(i as int) =~= self@);
        out
    }

    /// Appends a line: trailing line feeds are removed, a blank line is
    /// refused, and so is a repeat of the newest entry when duplicates are
    /// ignored.  The oldest entries are dropped beyond the limit.  Returns
    /// whether the line was kept: accepted, with room for at least one entry.
    pub fn push(&mut self, line: String) -> (added: bool)
        ensures
            added == (push_accepts(old(self)@, old(self).ignores_dups(), line@) && old(self).max()
                > 0),
            added <==> (final(self)@.len() > 0 && final(self)@.last() == strip_newlines(line@)
                && push_accepts(old(self)@, old(self).ignores_dups(), line@)),
            final(self)@ == push_entries(old(self)@, old(self).max(), old(self).ignores_dups(), line@),
            final(self)@.len() <= final(self).max(),
            final(self).max() == old(self).max(),
            final(self).ignores_dups() == old(self).ignores_dups(),
            final(self).file_spec() == old(self).file_spec(),
    {
        proof {
            use_type_invariant(&*self);
        }
        let lc = chars_of(line.as_str());
        let k = strip_newlines_index(lc.as_slice());
        let l = string_of_range(lc.as_slice(), 0, k);
        let lcs = chars_of(l.as_str());
        assert(lcs@ == strip_newlines(line@));
        if is_blank(lcs.as_slice()) {
            return false;
        }
        let n = self.entries.len();
        if self.ignore_dups && n > 0 {
            let same = chars_eq_str(lcs.as_slice(), self.entries[n - 1].as_str());
            if same {
                assert(self@.last() == self.entries@[n - 1]@);
                return false;
            }
            assert(self@.last() == self.entries@[n - 1]@);
        }
        let mut v: Vec<String> = Vec::new();
        std::mem::swap(&mut v, &mut self.entries);
        let ghost e0 = v@;
        v.push(l);
        let ghost e1 = v@;
        assert(strings_view(e1) =~= strings_view(e0).push(strip_newlines(line@)));
        proof {
            lemma_strip_idempotent(line@);
            assert(strings_view(e0) == old(self)@);
            assert forall|j: int| 0 <= j < strings_view(e1).len() implies clean_entry(
                #[trigger] strings_view(e1)[j],
            ) by {
                if j < strings_view(e0).len() {
                    assert(strings_view(e1)[j] == old(self)@[j]);
                }
            }
        }
        if v.len() > self.max {
            let excess = v.len() - self.max;
            let mut kept: Vec<String> = Vec::new();
            let mut j: usize = excess;
            while j < v.len()
                invariant
                    excess <= j <= v@.len(),
                    v@ == e1,
                    kept@ == e1.subrange(excess as int, j as int),
                decreases v@.len() - j,
            {
                kept.push(v[j].clone());
                j = j + 1;
                assert(kept@ =~= e1.subrange(excess as int, j as int));
            }
            assert(strings_view(kept@) =~= strings_view(e1).skip(excess as int));
            assert forall|j: int| 0 <= j < strings_view(kept@).len() implies clean_entry(
                #[trigger] strings_view(kept@)[j],
            ) by {
                assert(strings_view(kept@)[j] == strings_view(e1)[j + excess]);
            }
            v = kept;
        }
        self.entries = v;
        self.max > 0
    }

    /// Removes the newest entry equal to `line`; `true` when there was one.
    pub fn remove(&mut self, line: &str) -> (r: bool)
        ensures
            r == old(self)@.contains(line@),
            r ==> exists|p: int|
                #![trigger old(self)@[p]]
                0 <= p < old(self)@.len() && old(self)@[p] == line@ && (forall|q: int|
                    p < q < old(self)@.len() ==> old(self)@[q] != line@) && final(self)@
                    == old(self)@.remove(p),
            !r ==> final(self)@ == old(self)@,
            final(self).max() == old(self).max(),
            final(self).ignores_dups() == old(self).ignores_dups(),
            final(self).file_spec() == old(self).file_spec(),
    {
        proof {
            use_type_invariant(&*self);
        }
        let n = self.entries.len();
        let mut i: usize = n;
        while i > 0
            invariant
                i <= n == self.entries@.len(),
                *self == *old(self),
                self.entries@.len() <= self.max,
                forall|q: int| 0 <= q < self@.len() ==> clean_entry(#[trigger] self@[q]),
                forall|q: int| i <= q < n ==> self@[q] != line@,
            decreases i,
        {
            if chars_eq_str(chars_of(self.entries[i - 1].as_str()).as_slice(), line) {
                let mut v: Vec<String> = Vec::new();
                std::mem::swap(&mut v, &mut self.entries);
                let ghost e0 = v@;
                v.remove(i - 1);
                assert(strings_view(v@) =~= strings_view(e0).remove(i - 1));
                assert(strings_view(e0) == old(self)@);
                assert forall|j: int| 0 <= j < strings_view(v@).len() implies clean_entry(
                    #[trigger] strings_view(v@)[j],
                ) by {
                    if j < i - 1 {
                        assert(strings_view(v@)[j] == old(self)@[j]);
                    } else {
                        assert(strings_view(v@)[j] == old(self)@[j + 1]);
                    }
                }
                self.entries = v;
                assert(old(self)@[i - 1] == line@);
                return true;
            }
            i = i - 1;
        }
        assert forall|q: int| 0 <= q < old(self)@.len() implies old(self)@[q] != line@ by {}
        false
    }

    /// Removes every entry.
    pub fn clear(&mut self)
        ensures
            final(self)@ == Seq::<Seq<char>>::empty(),
            final(self).max() == old(self).max(),
            final(self).ignores_dups() == old(self).ignores_dups(),
            final(self).file_spec() == old(self).file_spec(),
    {
        self.entries = Vec::new();
        assert(self@ =~= Seq::<Seq<char>>::empty());
    }

    /// Searches from `from` (exclusive; the end when `None`) towards older
    /// entries for one that begins with `prefix`.
    pub fn search_backward(&self, prefix: &str, from: Option<usize>) -> (r: Option<usize>)
        requires
            from matches Some(f) ==> f <= self@.len(),
        ensures
            r == (match backward_match(self@, prefix@, (match from {
                Some(f) => f as int,
                None => self@.len() as int,
            })) {
                Some(i) => Some(i as usize),
                None => None::<usize>,
            }),
            ({
                let start: int = match from {
                    Some(f) => f as int,
                    None => self@.len() as int,
                };
                &&& r matches Some(j) ==> 0 <= j < start && has_prefix(self@[j as int], prefix@)
                    && forall|k: int| j < k < start ==> !has_prefix(#[trigger] self@[k], prefix@)
                &&& r is None ==> forall|k: int|
                    0 <= k < start ==> !has_prefix(#[trigger] self@[k], prefix@)
            }),
    {
        let pc = chars_of(prefix);
        let start = match from {
            Some(f) => f,
            None => self.entries.len(),
        };
        proof {
            lemma_backward_match(self@, prefix@, start as int);
        }
        let mut i: usize = start;
        while i > 0
            invariant
                i <= start <= self@.len() == self.entries@.len(),
                pc@ == prefix@,
                start as int == (match from {
                    Some(f) => f as int,
                    None => self@.len() as int,
                }),
                backward_match(self@, prefix@, start as int) == backward_match(
                    self@,
                    prefix@,
                    i as int,
                ),
            decreases i,
        {
            let e = chars_of(self.entries[i - 1].as_str());
            assert(self@[i - 1] == self.entries@[i - 1]@);
            if starts_with(e.as_slice(), pc.as_slice()) {
                proof {
                    lemma_backward_match(self@, prefix@, start as int);
                }
                return Some(i - 1);
            }
            i = i - 1;
        }
        None
    }

    /// Searches from `from` (exclusive; the start when `None`) towards newer
    /// entries for one that begins with `prefix`.
    pub fn search_forward(&self, prefix: &str, from: Option<usize>) -> (r: Option<usize>)
        requires
            from matches Some(f) ==> f < usize::MAX,
        ensures
            r == (match forward_match(self@, prefix@, (match from {
                Some(f) => f + 1,
                None => 1,
            })) {
                Some(i) => Some(i as usize),
                None => None::<usize>,
            }),
            ({
                let start: int = match from {
                    Some(f) => f + 1,
                    None => 1,
                };
                &&& r matches Some(j) ==> start <= j < self@.len() && has_prefix(
                    self@[j as int],
                    prefix@,
                ) && forall|k: int| start <= k < j ==> !has_prefix(#[trigger] self@[k], prefix@)
                &&& r is None ==> forall|k: int|
                    start <= k < self@.len() ==> !has_prefix(#[trigger] self@[k], prefix@)
            }),
    {
        let pc = chars_of(prefix);
        let start = match from {
            Some(f) => f + 1,
            None => 1,
        };
        proof {
            lemma_forward_match(self@, prefix@, start as int);
        }
        let mut i: usize = start;
        while i < self.entries.len()
            invariant
                start <= i,
                pc@ == prefix@,
                start as int == (match from {
                    Some(f) => f + 1,
                    None => 1,
                }),
                self@.len() == self.entries@.len(),
                forward_match(self@, prefix@, start as int) == forward_match(
                    self@,
                    prefix@,
                    i as int,
                ),
            decreases self@.len() - i,
        {
            let e = chars_of(self.entries[i].as_str());
            assert(self@[i as int] == self.entries@[i as int]@);
            if starts_with(e.as_slice(), pc.as_slice()) {
                proof {
                    lemma_forward_match(self@, prefix@, start as int);
                }
                return Some(i);
            }
            i = i + 1;
        }
        None
    }
}

/// One past the last character of `s` that is not a trailing line feed.
fn strip_newlines_index(s: &[char]) -> (k: usize)
    ensures
        k <= s@.len(),
        s@.take(k as int) == strip_newlines(s@),
{
    let mut k = s.len();
    assert(s@.take(k as int) =~= s@);
    while k > 0 && s[k - 1] == '\n'
        invariant
            k <= s@.len(),
            strip_newlines(s@.take(k as int)) == strip_newlines(s@),
        decreases k,
    {
        assert(s@.take(k as int).drop_last() =~= s@.take(k - 1));
        k = k - 1;
    }
    k
}

/// A line without line feeds is left alone by `strip_newlines`, so a blank
/// one is refused by `push`.
proof fn lemma_strip_no_newline_blank(l: Seq<char>)
    requires
        !l.contains('\n'),
    ensures
        strip_newlines(l) == l,
{
    if l.len() > 0 {
        assert(l[l.len() - 1] == l.last());
    }
}


// ---------------------------------------------------------------------------
// Laws
// ---------------------------------------------------------------------------

/// With duplicates ignored, pushing the same line twice in a row is
/// pushing it once.
pub proof fn lemma_push_twice(e: Seq<Seq<char>>, max: nat, line: Seq<char>)
    requires
        e.len() <= max,
    ensures
        push_entries(push_entries(e, max, true, line), max, true, line) == push_entries(
            e,
            max,
            true,
            line,
        ),
{
    let l = strip_newlines(line);
    let p = push_entries(e, max, true, line);
    if push_accepts(e, true, line) {
        let ep = e.push(l);
        if max > 0 {
            if ep.len() > max {
                assert(p.last() == ep.last());
            } else {
                assert(p == ep);
            }
            assert(p.last() == l);
            assert(!push_accepts(p, true, line));
        } else {
            assert(p.len() == 0);
            assert(p =~= e);
        }
    }
}

/// A forward search from `start` finds the oldest entry at or after
/// `start` that begins with the prefix: every entry between `start` and the
/// hit lacks it, and when there is no hit no entry from `start` on has it.
pub proof fn lemma_forward_match(entries: Seq<Seq<char>>, prefix: Seq<char>, start: int)
    requires
        0 <= start,
    ensures
        forward_match(entries, prefix, start) matches Some(j) ==> {
            &&& start <= j < entries.len()
            &&& has_prefix(entries[j], prefix)
            &&& forall|k: int| start <= k < j ==> !has_prefix(#[trigger] entries[k], prefix)
        },
        forward_match(entries, prefix, start) is None ==> forall|k: int|
            start <= k < entries.len() ==> !has_prefix(#[trigger] entries[k], prefix),
    decreases entries.len() - start,
{
    if start < entries.len() && !has_prefix(entries[start], prefix) {
        lemma_forward_match(entries, prefix, start + 1);
    }
}

/// A backward search before `start` finds the newest entry before `start`
/// that begins with the prefix: every entry between the hit and `start`
/// lacks it, and when there is no hit no entry before `start` has it.
pub proof fn lemma_backward_match(entries: Seq<Seq<char>>, prefix: Seq<char>, start: int)
    requires
        start <= entries.len(),
    ensures
        backward_match(entries, prefix, start) matches Some(j) ==> {
            &&& 0 <= j < start
            &&& has_prefix(entries[j], prefix)
            &&& forall|k: int| j < k < start ==> !has_prefix(#[trigger] entries[k], prefix)
        },
        backward_match(entries, prefix, start) is None ==> forall|k: int|
            0 <= k < start ==> !has_prefix(#[trigger] entries[k], prefix),
    decreases start,
{
    if start > 0 && !has_prefix(entries[start - 1], prefix) {
        lemma_backward_match(entries, prefix, start - 1);
    }
}

/// No two neighbouring entries are equal.
pub open spec fn no_adjacent_dups(es: Seq<Seq<char>>) -> bool {
    forall|i: int| 0 < i < es.len() ==> es[i - 1] != #[trigger] es[i]
}

/// What a history entry written to its file must be to come back
/// unchanged: no line feed in it, no carriage return at its end, not blank.
pub open spec fn storable(e: Seq<char>) -> bool {
    &&& !e.contains('\n')
    &&& !(e.len() > 0 && e.last() == '\r')
    &&& trim(e).len() > 0
}

proof fn lemma_join_front(es: Seq<Seq<char>>)
    requires
        es.len() > 0,
    ensures
        crate::text::join_lines(es) == es[0] + seq!['\n'] + crate::text::join_lines(es.drop_first()),
    decreases es.len(),
{
    if es.len() == 1 {
        assert(es.drop_last() =~= Seq::<Seq<char>>::empty());
        assert(es.drop_first() =~= Seq::<Seq<char>>::empty());
        assert(es.last() == es[0]);
        assert(crate::text::join_lines(es.drop_last()) == Seq::<char>::empty());
        assert(crate::text::join_lines(es.drop_first()) == Seq::<char>::empty());
        assert(crate::text::join_lines(es) =~= es[0] + seq!['\n'] + crate::text::join_lines(
            es.drop_first(),
        ));
    } else {
        lemma_join_front(es.drop_last());
        assert(es.drop_last().drop_first() =~= es.drop_first().drop_last());
        assert(es.drop_first().last() == es.last());
        assert(es.drop_last()[0] == es[0]);
        assert(crate::text::join_lines(es) =~= es[0] + seq!['\n'] + crate::text::join_lines(
            es.drop_first(),
        ));
    }
}

/// Splitting the text of storable lines gives the lines back.
pub proof fn lemma_lines_of_text(es: Seq<Seq<char>>)
    requires
        forall|i: int| 0 <= i < es.len() ==> storable(#[trigger] es[i]),
    ensures
        crate::text::text_lines(crate::text::join_lines(es)) == es,
    decreases es.len(),
{
    if es.len() == 0 {
        assert(crate::text::join_lines(es).len() == 0);
        assert(crate::text::text_lines(crate::text::join_lines(es)) =~= es);
    } else {
        let e0 = es[0];
        let rest = es.drop_first();
        assert forall|i: int| 0 <= i < rest.len() implies storable(#[trigger] rest[i]) by {
            assert(rest[i] == es[i + 1]);
        }
        lemma_lines_of_text(rest);
        lemma_join_front(es);
        let t = crate::text::join_lines(es);
        assert(storable(e0));
        assert forall|i: int| 0 <= i < e0.len() implies #[trigger] t[i] != '\n' by {
            assert(t[i] == e0[i]);
            assert(e0.contains(e0[i]));
        }
        assert(t[e0.len() as int] == '\n');
        crate::text::lemma_newline_index_at(t, e0.len());
        assert(t.take(e0.len() as int) =~= e0);
        assert(crate::text::drop_cr(e0) == e0);
        assert(t.skip(e0.len() as int + 1) =~= crate::text::join_lines(rest));
        assert(crate::text::text_lines(t) =~= seq![e0] + rest);
        assert(seq![e0] + rest =~= es);
    }
}

proof fn lemma_push_all_keeps(acc: Seq<Seq<char>>, es: Seq<Seq<char>>, max: nat, ignore_dups: bool)
    requires
        acc.len() + es.len() <= max,
        forall|i: int| 0 <= i < es.len() ==> storable(#[trigger] es[i]),
        ignore_dups ==> no_adjacent_dups(acc + es),
    ensures
        push_all(acc, max, ignore_dups, es) == acc + es,
    decreases es.len(),
{
    if es.len() == 0 {
        assert(acc + es =~= acc);
    } else {
        let e0 = es[0];
        assert(storable(e0));
        lemma_strip_no_newline_blank(e0);
        if ignore_dups && acc.len() > 0 {
            let both = acc + es;
            assert(both[acc.len() as int] == e0);
            assert(both[acc.len() - 1] == acc.last());
        }
        assert(push_accepts(acc, ignore_dups, e0));
        assert(push_entries(acc, max, ignore_dups, e0) == acc.push(e0));
        let rest = es.drop_first();
        assert forall|i: int| 0 <= i < rest.len() implies storable(#[trigger] rest[i]) by {
            assert(rest[i] == es[i + 1]);
        }
        assert(acc.push(e0) + rest =~= acc + es);
        lemma_push_all_keeps(acc.push(e0), rest, max, ignore_dups);
    }
}

/// Saving a history and loading the file gives the same entries, when
/// they are storable, within the limit, and (with duplicates ignored)
/// no two neighbours are equal.
pub proof fn lemma_file_roundtrip(es: Seq<Seq<char>>, max: nat, ignore_dups: bool)
    requires
        es.len() <= max,
        forall|i: int| 0 <= i < es.len() ==> storable(#[trigger] es[i]),
        ignore_dups ==> no_adjacent_dups(es),
    ensures
        push_all(Seq::empty(), max, ignore_dups, crate::text::text_lines(crate::text::join_lines(es)))
            == es,
{
    lemma_lines_of_text(es);
    assert(Seq::<Seq<char>>::empty() + es =~= es);
    lemma_push_all_keeps(Seq::empty(), es, max, ignore_dups);
}

} // verus!
