//! The decisions of the minimal interactive shell: what a command line
//! asks for (a builtin, the system shell, or a plain command), when a line
//! ends the session, the login-shell arguments, and the prompt text.
//! Running processes and reading the terminal is left to the caller.
use vstd::prelude::*;
use crate::alias::{expansion, AliasTable};
use crate::history::History;
use crate::text::{chars_eq_str, chars_of, has_prefix, leading_non_ws, owned, push_str, skip_non_ws, starts_with, string_of_range, trim, trimmed};

verus! {

// ---------------------------------------------------------------------------
// Integers
// ---------------------------------------------------------------------------

/// Whether every character of `s` is an ASCII digit.
pub open spec fn all_digits(s: Seq<char>) -> bool {
    forall|i: int| 0 <= i < s.len() ==> '0' <= #[trigger] s[i] <= '9'
}

/// The value of a string of decimal digits.
pub open spec fn digits_value(s: Seq<char>) -> int
    decreases s.len(),
{
    if s.len() == 0 {
        0
    } else {
        digits_value(s.drop_last()) * 10 + (s.last() as int - '0' as int)
    }
}

/// `str::parse::<i32>`: an optional `+` or `-`, then at least one decimal
/// digit, with a value in the range of `i32`.
pub open spec fn parse_i32_spec(s: Seq<char>) -> Option<i32> {
    let neg = s.len() > 0 && s[0] == '-';
    let d = if s.len() > 0 && (s[0] == '-' || s[0] == '+') {
        s.drop_first()
    } else {
        s
    };
    let v = if neg {
        -digits_value(d)
    } else {
        digits_value(d)
    };
    if d.len() > 0 && all_digits(d) && i32::MIN <= v <= i32::MAX {
        Some(v as i32)
    } else {
        None
    }
}

proof fn lemma_digits_value_grows(s: Seq<char>, k: int)
    requires
        0 <= k <= s.len(),
        all_digits(s),
    ensures
        digits_value(s.take(k)) <= digits_value(s),
        0 <= digits_value(s.take(k)),
    decreases s.len() - k,
{
    if k < s.len() {
        assert(s.take(k + 1).drop_last() =~= s.take(k));
        assert('0' <= s[k] <= '9');
        lemma_digits_value_grows(s, k + 1);
        assert(s.take(k + 1).last() == s[k]);
    } else {
        assert(s.take(k) =~= s);
        lemma_digits_nonneg(s);
    }
}

proof fn lemma_digits_nonneg(s: Seq<char>)
    requires
        all_digits(s),
    ensures
        0 <= digits_value(s),
    decreases s.len(),
{
    if s.len() > 0 {
        assert(all_digits(s.drop_last())) by {
            assert forall|i: int| 0 <= i < s.drop_last().len() implies '0' <= #[trigger] s.drop_last()[i]
                <= '9' by {
                assert(s.drop_last()[i] == s[i]);
            }
        }
        lemma_digits_nonneg(s.drop_last());
        assert('0' <= s[s.len() - 1] <= '9');
    }
}

/// Parses a decimal `i32` as `str::parse::<i32>` does.
pub fn parse_i32(s: &str) -> (r: Option<i32>)
    ensures
        r == parse_i32_spec(s@),
{
    let cs = chars_of(s);
    let n = cs.len();
    let neg = n > 0 && cs[0] == '-';
    let start: usize = if n > 0 && (cs[0] == '-' || cs[0] == '+') {
        1
    } else {
        0
    };
    let ghost d = cs@.skip(start as int);
    assert(d =~= (if s@.len() > 0 && (s@[0] == '-' || s@[0] == '+') {
        s@.drop_first()
    } else {
        s@
    }));
    if start >= n {
        return None;
    }
    let mut v: i64 = 0;
    let mut i: usize = start;
    while i < n
        invariant
            start <= i <= n == cs@.len(),
            cs@ == s@,
            d == cs@.skip(start as int),
            d == (if s@.len() > 0 && (s@[0] == '-' || s@[0] == '+') {
                s@.drop_first()
            } else {
                s@
            }),
            neg == (s@.len() > 0 && s@[0] == '-'),
            all_digits(d.take(i - start)),
            v == digits_value(d.take(i - start)),
            0 <= v <= 2147483648,
        decreases n - i,
    {
        let c = cs[i];
        if !('0' <= c && c <= '9') {
            assert(d[i - start] == c);
            return None;
        }
        proof {
            assert(d.take(i - start + 1).drop_last() =~= d.take(i - start));
            assert(d.take(i - start + 1).last() == c);
            assert(all_digits(d.take(i - start + 1))) by {
                assert forall|j: int| 0 <= j < i - start + 1 implies '0' <= #[trigger] d.take(
                    i - start + 1,
                )[j] <= '9' by {
                    if j < i - start {
                        assert(d.take(i - start + 1)[j] == d.take(i - start)[j]);
                    }
                }
            }
        }
        let digit = (c as u32 - '0' as u32) as i64;
        v = v * 10 + digit;
        i = i + 1;
        if v > 2147483648 {
            proof {
                let rest_ok = all_digits(d);
                if rest_ok {
                    lemma_digits_value_grows(d, (i - start) as int);
                }
            }
            return None;
        }
    }
    assert(d.take(n - start) =~= d);
    if neg {
        Some((0 - v) as i32)
    } else if v <= 2147483647 {
        Some(v as i32)
    } else {
        None
    }
}

// ---------------------------------------------------------------------------
// Shell meta-characters
// ---------------------------------------------------------------------------

/// The characters that need the system shell outside quotes.
pub open spec fn is_meta_char(c: char) -> bool {
    c == ';' || c == '|' || c == '&' || c == '<' || c == '>' || c == '(' || c == ')' || c == '='
}

/// Scans `s` with the quote state of a shell: a backslash escapes the next
/// character, single and double quotes nest as in sh; true when a meta
/// character stands outside quotes.
pub open spec fn meta_scan(s: Seq<char>, in_single: bool, in_double: bool, escaped: bool) -> bool
    decreases s.len(),
{
    if s.len() == 0 {
        false
    } else {
        let c = s[0];
        let rest = s.drop_first();
        if escaped {
            meta_scan(rest, in_single, in_double, false)
        } else if c == '\\' {
            meta_scan(rest, in_single, in_double, true)
        } else if c == '\'' && !in_double {
            meta_scan(rest, !in_single, in_double, false)
        } else if c == '"' && !in_single {
            meta_scan(rest, in_single, !in_double, false)
        } else if !in_single && !in_double && is_meta_char(c) {
            true
        } else {
            meta_scan(rest, in_single, in_double, false)
        }
    }
}

/// Whether a line needs the system shell: it holds `$` or a backquote
/// anywhere, or a meta character outside quotes.
pub open spec fn has_shell_meta(s: Seq<char>) -> bool {
    s.contains('$') || s.contains('`') || meta_scan(s, false, false, false)
}

/// Whether a line holds shell meta-characters (quote-aware).
pub fn contains_shell_meta(line: &str) -> (r: bool)
    ensures
        r == has_shell_meta(line@),
{
    let cs = chars_of(line);
    if crate::text::contains_char(cs.as_slice(), '$') || crate::text::contains_char(
        cs.as_slice(),
        '`',
    ) {
        return true;
    }
    let mut in_single = false;
    let mut in_double = false;
    let mut escaped = false;
    let mut i: usize = 0;
    assert(cs@.skip(0) =~= cs@);
    while i < cs.len()
        invariant
            i <= cs@.len(),
            cs@ == line@,
            meta_scan(line@, false, false, false) == meta_scan(
                cs@.skip(i as int),
                in_single,
                in_double,
                escaped,
            ),
        decreases cs@.len() - i,
    {
        let c = cs[i];
        proof {
            assert(cs@.skip(i as int)[0] == c);
            assert(cs@.skip(i as int).drop_first() =~= cs@.skip(i + 1));
        }
        if escaped {
            escaped = false;
        } else if c == '\\' {
            escaped = true;
        } else if c == '\'' && !in_double {
            in_single = !in_single;
        } else if c == '"' && !in_single {
            in_double = !in_double;
        } else if !in_single && !in_double && (c == ';' || c == '|' || c == '&' || c == '<' || c
            == '>' || c == '(' || c == ')' || c == '=') {
            return true;
        }
        i = i + 1;
    }
    false
}

/// A character that makes the system shell run a line when it stands
/// outside quotes: `;`, `|`, `&`, `<`, `>`, `(`, `)` or `=`.
pub open spec fn sh_operator(c: char) -> bool {
    ||| c == ';'
    ||| c == '|'
    ||| c == '&'
    ||| c == '<'
    ||| c == '>'
    ||| c == '('
    ||| c == ')'
    ||| c == '='
}

/// No quote or backslash.
pub open spec fn unquoted(s: Seq<char>) -> bool {
    !s.contains('\\') && !s.contains('\'') && !s.contains('"')
}

proof fn lemma_scan_finds_operator(s: Seq<char>, i: int)
    requires
        0 <= i < s.len(),
        sh_operator(s[i]),
        unquoted(s.take(i)),
    ensures
        meta_scan(s, false, false, false),
    decreases i,
{
    if i > 0 && !sh_operator(s[0]) {
        assert(s.take(i)[0] == s[0]);
        assert(s.drop_first().take(i - 1) =~= s.take(i).drop_first());
        assert forall|c: char| #[trigger] s.drop_first().take(i - 1).contains(c) implies s.take(
            i,
        ).contains(c) by {
            let k = choose|k: int| 0 <= k < i - 1 && #[trigger] s.drop_first().take(i - 1)[k] == c;
            assert(s.take(i)[k + 1] == c);
        }
        lemma_scan_finds_operator(s.drop_first(), i - 1);
    }
}

proof fn lemma_scan_plain(s: Seq<char>)
    requires
        unquoted(s),
        meta_scan(s, false, false, false),
    ensures
        exists|i: int| 0 <= i < s.len() && sh_operator(#[trigger] s[i]),
    decreases s.len(),
{
    if !sh_operator(s[0]) {
        assert forall|c: char| #[trigger] s.drop_first().contains(c) implies s.contains(c) by {
            let k = choose|k: int| 0 <= k < s.len() - 1 && #[trigger] s.drop_first()[k] == c;
            assert(s[k + 1] == c);
        }
        assert(s[0] != '\\' && s[0] != '\'' && s[0] != '"') by {
            assert(s.contains(s[0]));
        }
        lemma_scan_plain(s.drop_first());
        let i = choose|i: int| 0 <= i < s.len() - 1 && sh_operator(#[trigger] s.drop_first()[i]);
        assert(s[i + 1] == s.drop_first()[i]);
    }
}

/// A line needs the system shell when `$` or a backquote stands anywhere
/// in it, or when `;`, `|`, `&`, `<`, `>`, `(`, `)` or `=` stands with no
/// quote or backslash before it.  A line with no quote or backslash at all
/// needs it exactly when it holds one of these characters.
pub proof fn lemma_shell_meta(s: Seq<char>)
    ensures
        s.contains('$') || s.contains('`') ==> has_shell_meta(s),
        forall|i: int|
            0 <= i < s.len() && sh_operator(#[trigger] s[i]) && unquoted(s.take(i))
                ==> has_shell_meta(s),
        unquoted(s) ==> (has_shell_meta(s) <==> (s.contains('$') || s.contains('`') || exists|i: int|
            0 <= i < s.len() && sh_operator(#[trigger] s[i]))),
{
    assert forall|i: int|
        0 <= i < s.len() && sh_operator(#[trigger] s[i]) && unquoted(s.take(i)) implies has_shell_meta(
        s,
    ) by {
        lemma_scan_finds_operator(s, i);
    }
    if unquoted(s) {
        if exists|i: int| 0 <= i < s.len() && sh_operator(#[trigger] s[i]) {
            let i = choose|i: int| 0 <= i < s.len() && sh_operator(#[trigger] s[i]);
            assert forall|c: char| #[trigger] s.take(i).contains(c) implies s.contains(c) by {
                let k = choose|k: int| 0 <= k < i && #[trigger] s.take(i)[k] == c;
                assert(s[k] == c);
            }
            lemma_scan_finds_operator(s, i);
        }
        if meta_scan(s, false, false, false) {
            lemma_scan_plain(s);
        }
    }
}

/// Text in single or double quotes with no quote of its kind and no
/// backslash in it is skipped by the scan: what follows the closing quote
/// decides, as if the quoted text were not there.
pub proof fn lemma_quoted_text_skipped(t: Seq<char>, rest: Seq<char>)
    requires
        !t.contains('\\'),
    ensures
        !t.contains('\'') ==> meta_scan(t + seq!['\''] + rest, true, false, false) == meta_scan(
            rest,
            false,
            false,
            false,
        ),
        !t.contains('"') ==> meta_scan(t + seq!['"'] + rest, false, true, false) == meta_scan(
            rest,
            false,
            false,
            false,
        ),
    decreases t.len(),
{
    if t.len() == 0 {
        assert((t + seq!['\''] + rest).drop_first() =~= rest);
        assert((t + seq!['"'] + rest).drop_first() =~= rest);
    } else {
        assert(t.contains(t[0]));
        assert forall|c: char| #[trigger] t.drop_first().contains(c) implies t.contains(c) by {
            let k = choose|k: int| 0 <= k < t.len() - 1 && #[trigger] t.drop_first()[k] == c;
            assert(t[k + 1] == c);
        }
        lemma_quoted_text_skipped(t.drop_first(), rest);
        assert((t + seq!['\''] + rest).drop_first() =~= t.drop_first() + seq!['\''] + rest);
        assert((t + seq!['"'] + rest).drop_first() =~= t.drop_first() + seq!['"'] + rest);
        assert((t + seq!['\''] + rest)[0] == t[0]);
        assert((t + seq!['"'] + rest)[0] == t[0]);
    }
}

/// A word in single quotes (no quote or backslash inside) does not need
/// the system shell, whatever operator characters it holds, unless it holds
/// `$` or a backquote.
pub proof fn lemma_single_quoted_word(t: Seq<char>)
    requires
        !t.contains('\\'),
        !t.contains('\''),
    ensures
        has_shell_meta(seq!['\''] + t + seq!['\'']) == (t.contains('$') || t.contains('`')),
{
    let l = seq!['\''] + t + seq!['\''];
    lemma_quoted_text_skipped(t, Seq::<char>::empty());
    assert(l.drop_first() =~= t + seq!['\''] + Seq::<char>::empty());
    assert(l[0] == '\'');
    assert forall|c: char| c != '\'' implies (l.contains(c) <==> t.contains(c)) by {
        if l.contains(c) {
            let k = choose|k: int| 0 <= k < l.len() && #[trigger] l[k] == c;
            assert(t[k - 1] == c);
        }
        if t.contains(c) {
            let k = choose|k: int| 0 <= k < t.len() && #[trigger] t[k] == c;
            assert(l[k + 1] == c);
        }
    }
}

/// A line that is not empty, a comment, `exit...`, `cd...`, `pwd`, `help`
/// or `history` goes to the system shell when `;`, `|`, `&`, `<`, `>`, `(`,
/// `)` or `=` stands in it with no quote or backslash before it, and runs as
/// a simple command when it has no quote, no backslash and none of these
/// characters, `$` or a backquote.
pub proof fn lemma_system_lines(l: Seq<char>, last_code: i32)
    requires
        l.len() > 0,
        l[0] != '#',
        !has_prefix(l, "exit"@),
        !has_prefix(l, "cd"@),
        l != "pwd"@,
        l != "help"@,
        l != "history"@,
    ensures
        (exists|i: int| 0 <= i < l.len() && sh_operator(#[trigger] l[i]) && unquoted(l.take(i)))
            ==> line_action(l, last_code) == ActionSpec::System(l),
        unquoted(l) && !l.contains('$') && !l.contains('`') && !(exists|i: int|
            0 <= i < l.len() && sh_operator(#[trigger] l[i])) ==> line_action(l, last_code)
            == ActionSpec::Run(l),
{
    reveal_strlit("cd");
    reveal_strlit("cd ");
    lemma_shell_meta(l);
    if l == "cd"@ {
        assert(l.take(2) =~= "cd"@);
    }
    if has_prefix(l, "cd "@) {
        assert(l.take(2) =~= "cd"@);
    }
}

// ---------------------------------------------------------------------------
// Session
// ---------------------------------------------------------------------------

/// The state of a shell session.
pub struct Session {
    /// Aliases, expanded before each line runs.
    pub aliases: AliasTable,
    /// The history, when the session keeps one.
    pub history: Option<History>,
    /// The exit code of the last command.
    pub last_code: i32,
}

impl Session {
    /// The line with its aliases expanded.
    pub fn expand(&self, line: &str) -> (r: String)
        ensures
            r@ == expansion(self.aliases@, line@),
    {
        self.aliases.expand(line)
    }

    /// What a command line asks for, after alias expansion.
    pub fn classify_line(&self, line: &str) -> (r: LineAction)
        ensures
            r@ == line_action(expansion(self.aliases@, trim(line@)), self.last_code),
    {
        let tc = chars_of(line);
        let t = trimmed(tc.as_slice());
        let ts = crate::text::string_of(t.as_slice());
        let e = self.expand(ts.as_str());
        classify_expanded(e.as_str(), self.last_code)
    }
}

/// What a line of the shell asks for.
pub enum LineAction {
    /// Nothing (empty or comment); the session's exit code stays.
    Keep(i32),
    /// `exit [n]`: end with this code.
    Exit(i32),
    /// `cd` alone: go to the home directory.
    CdHome,
    /// `cd <dir>`: go to that directory (as written).
    Cd(String),
    /// `pwd`.
    Pwd,
    /// `help`.
    Help,
    /// `history`: list the history.
    ListHistory,
    /// A line for the system shell (`/bin/sh -c`).
    System(String),
    /// A simple command, to parse and run.
    Run(String),
}

/// The abstract form of a `LineAction`, with texts as character sequences.
pub enum ActionSpec {
    Keep(i32),
    Exit(i32),
    CdHome,
    Cd(Seq<char>),
    Pwd,
    Help,
    ListHistory,
    System(Seq<char>),
    Run(Seq<char>),
}

impl View for LineAction {
    type V = ActionSpec;

    open spec fn view(&self) -> ActionSpec {
        match self {
            LineAction::Keep(c) => ActionSpec::Keep(*c),
            LineAction::Exit(c) => ActionSpec::Exit(*c),
            LineAction::CdHome => ActionSpec::CdHome,
            LineAction::Cd(d) => ActionSpec::Cd(d@),
            LineAction::Pwd => ActionSpec::Pwd,
            LineAction::Help => ActionSpec::Help,
            LineAction::ListHistory => ActionSpec::ListHistory,
            LineAction::System(l) => ActionSpec::System(l@),
            LineAction::Run(l) => ActionSpec::Run(l@),
        }
    }
}

/// The action of an expanded line: empty lines and comments keep the exit
/// code; `exit...` ends the session (with the integer after `exit`, or 0);
/// then the builtins `cd`, `pwd`, `help`, `history`; then lines for the
/// system shell; then simple commands.
pub open spec fn line_action(l: Seq<char>, last_code: i32) -> ActionSpec {
    if l.len() == 0 || l[0] == '#' {
        ActionSpec::Keep(last_code)
    } else if has_prefix(l, "exit"@) {
        ActionSpec::Exit(
            match parse_i32_spec(trim(l.skip(4))) {
                Some(n) => n,
                None => 0,
            },
        )
    } else if l == "cd"@ {
        ActionSpec::CdHome
    } else if has_prefix(l, "cd "@) {
        ActionSpec::Cd(trim(l.skip(3)))
    } else if l == "pwd"@ {
        ActionSpec::Pwd
    } else if l == "help"@ {
        ActionSpec::Help
    } else if l == "history"@ {
        ActionSpec::ListHistory
    } else if has_shell_meta(l) {
        ActionSpec::System(l)
    } else {
        ActionSpec::Run(l)
    }
}

/// Classifies an expanded line.
pub fn classify_expanded(line: &str, last_code: i32) -> (r: LineAction)
    ensures
        r@ == line_action(line@, last_code),
{
    let cs = chars_of(line);
    let n = cs.len();
    if n == 0 || cs[0] == '#' {
        return LineAction::Keep(last_code);
    }
    proof {
        reveal_strlit("exit");
        reveal_strlit("cd ");
    }
    if starts_with(cs.as_slice(), chars_of("exit").as_slice()) {
        let rest = string_of_range(cs.as_slice(), 4, n);
        let rc = chars_of(rest.as_str());
        let t = trimmed(rc.as_slice());
        let ts = crate::text::string_of(t.as_slice());
        proof {
            assert(rest@ =~= line@.skip(4));
        }
        let code = match parse_i32(ts.as_str()) {
            Some(v) => v,
            None => 0,
        };
        return LineAction::Exit(code);
    }
    if chars_eq_str(cs.as_slice(), "cd") {
        return LineAction::CdHome;
    }
    if starts_with(cs.as_slice(), chars_of("cd ").as_slice()) {
        let rest = string_of_range(cs.as_slice(), 3, n);
        let rc = chars_of(rest.as_str());
        let t = trimmed(rc.as_slice());
        proof {
            assert(rest@ =~= line@.skip(3));
        }
        return LineAction::Cd(crate::text::string_of(t.as_slice()));
    }
    if chars_eq_str(cs.as_slice(), "pwd") {
        return LineAction::Pwd;
    }
    if chars_eq_str(cs.as_slice(), "help") {
        return LineAction::Help;
    }
    if chars_eq_str(cs.as_slice(), "history") {
        return LineAction::ListHistory;
    }
    if contains_shell_meta(line) {
        return LineAction::System(owned(line));
    }
    LineAction::Run(owned(line))
}

/// `~/dir` with the home directory put in place of `~` (the directory as it
/// is when it does not start with `~/` or there is no home directory).
pub open spec fn expand_home_spec(dir: Seq<char>, home: Option<Seq<char>>) -> Seq<char> {
    if has_prefix(dir, "~/"@) {
        match home {
            Some(h) => h + dir.skip(1),
            None => dir,
        }
    } else {
        dir
    }
}

/// Puts the home directory in place of a leading `~` in a `cd` argument.
pub fn expand_home(dir: &str, home: Option<String>) -> (r: String)
    ensures
        r@ == expand_home_spec(dir@, crate::paths::opt_view(home)),
{
    let dc = chars_of(dir);
    proof {
        reveal_strlit("~/");
    }
    if starts_with(dc.as_slice(), chars_of("~/").as_slice()) {
        match home {
            Some(h) => {
                let mut r = h;
                let tail = string_of_range(dc.as_slice(), 1, dc.len());
                push_str(&mut r, tail.as_str());
                proof {
                    assert(tail@ =~= dir@.skip(1));
                }
                r
            },
            None => owned(dir),
        }
    } else {
        owned(dir)
    }
}

// ---------------------------------------------------------------------------
// End of session
// ---------------------------------------------------------------------------

/// Whether a line ends the session: `exit` alone, or `exit` and an integer.
pub open spec fn ends_session(line: Seq<char>) -> bool {
    let t = trim(line);
    let k = leading_non_ws(t);
    t.take(k as int) == "exit"@ && (k == t.len() || parse_i32_spec(trim(t.skip(k as int + 1))) is Some)
}

/// Whether `line` is `exit` or `exit <n>`.
pub fn should_exit(line: &str) -> (r: bool)
    ensures
        r == ends_session(line@),
{
    let lc = chars_of(line);
    let t = trimmed(lc.as_slice());
    let k = skip_non_ws(t.as_slice(), 0);
    proof {
        assert(t@.skip(0) =~= t@);
    }
    let first = string_of_range(t.as_slice(), 0, k);
    proof {
        assert(first@ =~= t@.take(k as int));
    }
    if !chars_eq_str(chars_of(first.as_str()).as_slice(), "exit") {
        return false;
    }
    if k == t.len() {
        return true;
    }
    let rest = string_of_range(t.as_slice(), k + 1, t.len());
    let rc = chars_of(rest.as_str());
    let rt = trimmed(rc.as_slice());
    proof {
        assert(rest@ =~= t@.skip(k + 1));
    }
    parse_i32(crate::text::string_of(rt.as_slice()).as_str()).is_some()
}

/// Whether an accepted line of the line editor ends the session: `exit`,
/// or `exit ` followed by an integer.
pub open spec fn is_exit_line(line: Seq<char>) -> bool {
    let t = trim(line);
    t == "exit"@ || (has_prefix(t, "exit "@) && parse_i32_spec(trim(t.skip(5))) is Some)
}

/// Whether an accepted line ends the interactive session.
pub fn exits_interactive(line: &str) -> (r: bool)
    ensures
        r == is_exit_line(line@),
{
    let lc = chars_of(line);
    let t = trimmed(lc.as_slice());
    if chars_eq_str(t.as_slice(), "exit") {
        return true;
    }
    proof {
        reveal_strlit("exit ");
    }
    if !starts_with(t.as_slice(), chars_of("exit ").as_slice()) {
        return false;
    }
    let rest = string_of_range(t.as_slice(), 5, t.len());
    let rc = chars_of(rest.as_str());
    let rt = trimmed(rc.as_slice());
    proof {
        assert(rest@ =~= t@.skip(5));
    }
    parse_i32(crate::text::string_of(rt.as_slice()).as_str()).is_some()
}

// ---------------------------------------------------------------------------
// Login shell arguments
// ---------------------------------------------------------------------------

/// Arguments of `utsh shell` (also used for the login shell).
#[derive(Debug, Clone)]
pub struct ShellArgs {
    /// The command of `-c`.
    pub command: Option<String>,
    /// A script file.
    pub file: Option<String>,
    /// The configuration file to use instead of the default one.
    pub config: Option<String>,
}

impl Default for ShellArgs {
    fn default() -> (a: ShellArgs)
        ensures
            a.command is None,
            a.file is None,
            a.config is None,
    {
        ShellArgs { command: None, file: None, config: None }
    }
}

/// The `(command, file)` that the login-shell arguments `rest` give, on top
/// of `acc`: `-c`/`--command` takes the next argument as the command (none
/// when it is missing), other options are ignored, and anything else is the
/// script file.
pub open spec fn login_args(
    rest: Seq<Seq<char>>,
    acc: (Option<Seq<char>>, Option<Seq<char>>),
) -> (Option<Seq<char>>, Option<Seq<char>>)
    decreases rest.len(),
{
    if rest.len() == 0 {
        acc
    } else if rest[0] == "-c"@ || rest[0] == "--command"@ {
        if rest.len() == 1 {
            (None, acc.1)
        } else {
            login_args(rest.skip(2), (Some(rest[1]), acc.1))
        }
    } else if rest[0].len() > 0 && rest[0][0] == '-' {
        login_args(rest.drop_first(), acc)
    } else {
        login_args(rest.drop_first(), (acc.0, Some(rest[0])))
    }
}

/// The arguments of a login shell, from the arguments after `argv[0]`.
pub fn login_shell_args(rest: Vec<String>) -> (a: ShellArgs)
    ensures
        (crate::paths::opt_view(a.command), crate::paths::opt_view(a.file)) == login_args(
            crate::sort::strings_view(rest@),
            (None, None),
        ),
        a.config is None,
{
    let mut args = ShellArgs::default();
    let ghost all = crate::sort::strings_view(rest@);
    let mut i: usize = 0;
    assert(all.skip(0) =~= all);
    while i < rest.len()
        invariant
            i <= rest@.len(),
            all == crate::sort::strings_view(rest@),
            args.config is None,
            login_args(all, (None, None)) == login_args(
                all.skip(i as int),
                (crate::paths::opt_view(args.command), crate::paths::opt_view(args.file)),
            ),
        decreases rest@.len() - i,
    {
        let a = rest[i].as_str();
        let ac = chars_of(a);
        let ghost r = all.skip(i as int);
        assert(r[0] == rest@[i as int]@);
        if chars_eq_str(ac.as_slice(), "-c") || chars_eq_str(ac.as_slice(), "--command") {
            if i + 1 < rest.len() {
                args.command = Some(rest[i + 1].clone());
                assert(r[1] == rest@[i + 1]@);
                assert(r.skip(2) =~= all.skip(i + 2));
                i = i + 2;
            } else {
                args.command = None;
                assert(r.len() == 1);
                i = rest.len();
                assert(all.skip(i as int).len() == 0);
            }
        } else if ac.len() > 0 && ac[0] == '-' {
            assert(r.drop_first() =~= all.skip(i + 1));
            i = i + 1;
        } else {
            args.file = Some(rest[i].clone());
            assert(r.drop_first() =~= all.skip(i + 1));
            i = i + 1;
        }
    }
    args
}

// ---------------------------------------------------------------------------
// Prompt
// ---------------------------------------------------------------------------

/// Where the path component that ends at `i` starts: just after the last
/// `/` before `i` (0 when there is none).
pub open spec fn segment_start(p: Seq<char>, i: nat) -> nat
    decreases i,
{
    if i == 0 || i > p.len() {
        0
    } else if p[i - 1] == '/' {
        i
    } else {
        segment_start(p, (i - 1) as nat)
    }
}

/// The last component of `p.take(end)` on Unix, as `Path::file_name` gives
/// it: `/` separators (repeated or trailing) and `.` components are
/// skipped; a final `..` or no component at all gives `None`.
pub open spec fn file_name_upto(p: Seq<char>, end: nat) -> Option<Seq<char>>
    decreases end,
{
    if end == 0 || end > p.len() {
        None
    } else if p[end - 1] == '/' {
        file_name_upto(p, (end - 1) as nat)
    } else {
        let st = segment_start(p, end);
        if end - st == 1 && p[st as int] == '.' {
            file_name_upto(p, (end - 1) as nat)
        } else if end - st == 2 && p[st as int] == '.' && p[st + 1int] == '.' {
            None
        } else {
            Some(p.subrange(st as int, end as int))
        }
    }
}

/// The last component of a path (`Path::file_name` on Unix).
pub open spec fn path_file_name(p: Seq<char>) -> Option<Seq<char>> {
    file_name_upto(p, p.len())
}

proof fn lemma_segment_start_bound(p: Seq<char>, i: nat)
    ensures
        segment_start(p, i) <= i,
    decreases i,
{
    if i > 0 && i <= p.len() && p[i - 1] != '/' {
        lemma_segment_start_bound(p, (i - 1) as nat);
    }
}

/// The start of the path component that ends at `end`.
fn find_segment_start(s: &[char], end: usize) -> (st: usize)
    requires
        end <= s@.len(),
    ensures
        st == segment_start(s@, end as nat),
        st <= end,
{
    proof {
        lemma_segment_start_bound(s@, end as nat);
    }
    let mut i: usize = end;
    while i > 0 && s[i - 1] != '/'
        invariant
            i <= end <= s@.len(),
            segment_start(s@, i as nat) == segment_start(s@, end as nat),
        decreases i,
    {
        i = i - 1;
    }
    i
}

/// The last component of a path.
fn file_name_of(path: &str) -> (r: Option<String>)
    ensures
        crate::paths::opt_view(r) == path_file_name(path@),
{
    let cs = chars_of(path);
    let mut end: usize = cs.len();
    loop
        invariant
            end <= cs@.len(),
            cs@ == path@,
            file_name_upto(cs@, end as nat) == path_file_name(path@),
        decreases end,
    {
        if end == 0 {
            return None;
        }
        if cs[end - 1] == '/' {
            end = end - 1;
        } else {
            let st = find_segment_start(cs.as_slice(), end);
            if end - st == 1 && cs[st] == '.' {
                end = end - 1;
            } else if end - st == 2 && cs[st] == '.' && cs[st + 1] == '.' {
                return None;
            } else {
                return Some(string_of_range(cs.as_slice(), st, end));
            }
        }
    }
}

/// The directory shown in the prompt: `~` for the home directory, `~/...`
/// inside it, otherwise the last component of the path (or the whole path
/// when it has none).
pub open spec fn short_dir(cwd: Seq<char>, home: Seq<char>) -> Seq<char> {
    if home.len() > 0 && cwd == home {
        "~"@
    } else if home.len() > 0 && has_prefix(cwd, home) {
        "~"@ + cwd.skip(home.len() as int)
    } else {
        match path_file_name(cwd) {
            Some(n) => n,
            None => cwd,
        }
    }
}

/// The prompt: the short directory and `$`, in bold green unless colour
/// is off.
pub open spec fn prompt_spec(cwd: Seq<char>, home: Seq<char>, no_color: bool) -> Seq<char> {
    if no_color {
        short_dir(cwd, home) + "$ "@
    } else {
        "\x1b[1;32m"@ + short_dir(cwd, home) + "\x1b[0m$ "@
    }
}

/// The prompt text for the working directory `cwd` and home `home`.
pub fn prompt_text(cwd: &str, home: &str, no_color: bool) -> (r: String)
    ensures
        r@ == prompt_spec(cwd@, home@, no_color),
{
    let cc = chars_of(cwd);
    let hc = chars_of(home);
    let short = if hc.len() > 0 && crate::text::chars_eq(cc.as_slice(), hc.as_slice()) {
        owned("~")
    } else if hc.len() > 0 && starts_with(cc.as_slice(), hc.as_slice()) {
        let mut s = owned("~");
        let tail = string_of_range(cc.as_slice(), hc.len(), cc.len());
        push_str(&mut s, tail.as_str());
        proof {
            assert(tail@ =~= cwd@.skip(home@.len() as int));
        }
        s
    } else {
        match file_name_of(cwd) {
            Some(n) => n,
            None => owned(cwd),
        }
    };
    if no_color {
        let mut r = short;
        push_str(&mut r, "$ ");
        r
    } else {
        let mut r = owned("\x1b[1;32m");
        push_str(&mut r, short.as_str());
        push_str(&mut r, "\x1b[0m$ ");
        r
    }
}

} // verus!
