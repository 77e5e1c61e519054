//! Character and string primitives shared by the whole library.
//!
//! Strings are modelled by their views (`Seq<char>`).  The Unicode
//! `Alphabetic`/`Numeric` classes come from `char::is_alphanumeric`; white
//! space, and everything built on top of the classes (trimming, prefixes,
//! words, ordering) is verified here.
use vstd::prelude::*;
use vstd::string::StringExecFns;

verus! {

// ---------------------------------------------------------------------------
// Unicode character classes
// ---------------------------------------------------------------------------

/// Whether `c` has the Unicode `Alphabetic` or `Numeric` property, as
/// `char::is_alphanumeric` decides it.
pub uninterp spec fn unicode_alphanumeric(c: char) -> bool;

/// Whether `c` has the Unicode `White_Space` property (the property that
/// `char::is_whitespace` tests): tab, line feed, vertical tab, form feed,
/// carriage return, space, next line, no-break space, Ogham space mark, the
/// spaces from en quad to hair space, line and paragraph separators, narrow
/// no-break space, medium mathematical space and ideographic space.
pub open spec fn unicode_white_space(c: char) -> bool {
    let n = c as u32;
    ||| 9 <= n <= 13
    ||| n == 0x20
    ||| n == 0x85
    ||| n == 0xA0
    ||| n == 0x1680
    ||| 0x2000 <= n <= 0x200A
    ||| n == 0x2028
    ||| n == 0x2029
    ||| n == 0x202F
    ||| n == 0x205F
    ||| n == 0x3000
}

/// ASCII letters and digits.
pub open spec fn ascii_alphanumeric(c: char) -> bool {
    ||| 48 <= (c as u32) <= 57
    ||| 65 <= (c as u32) <= 90
    ||| 97 <= (c as u32) <= 122
}

/// The ASCII characters with the `White_Space` property: tab, line feed,
/// vertical tab, form feed, carriage return and space.
pub open spec fn ascii_white_space(c: char) -> bool {
    ||| 9 <= (c as u32) <= 13
    ||| (c as u32) == 32
}

/// Calls `char::is_alphanumeric`.  Its documentation defines the result as
/// "alphabetic or numeric"; for ASCII input that is exactly the letters and
/// digits, which the contract states.  The rest of Unicode is left to the
/// name `unicode_alphanumeric`.
#[verifier::external_body]
pub(crate) fn is_alphanumeric(c: char) -> (r: bool)
    ensures
        r == unicode_alphanumeric(c),
        (c as u32) < 128 ==> (r <==> ascii_alphanumeric(c)),
{
    c.is_alphanumeric()
}

/// Whether `c` is alphabetic or numeric (`char::is_alphanumeric`): for
/// ASCII exactly the letters and digits.
pub fn is_alphanumeric_char(c: char) -> (r: bool)
    ensures
        r == unicode_alphanumeric(c),
        (c as u32) < 128 ==> (r <==> ascii_alphanumeric(c)),
{
    is_alphanumeric(c)
}

/// Whether `c` is white space (`char::is_whitespace`).
pub(crate) fn is_whitespace(c: char) -> (r: bool)
    ensures
        r == unicode_white_space(c),
        (c as u32) < 128 ==> (r <==> ascii_white_space(c)),
{
    let n = c as u32;
    (9 <= n && n <= 13) || n == 0x20 || n == 0x85 || n == 0xA0 || n == 0x1680 || (0x2000 <= n && n
        <= 0x200A) || n == 0x2028 || n == 0x2029 || n == 0x202F || n == 0x205F || n == 0x3000
}

/// Calls `String::push`, which appends one character.
#[verifier::external_body]
pub(crate) fn push_char(s: &mut String, c: char)
    ensures
        final(s)@ == old(s)@.push(c),
{
    s.push(c)
}

/// Appends a string slice.
pub(crate) fn push_str(s: &mut String, t: &str)
    ensures
        final(s)@ == old(s)@ + t@,
{
    s.append(t)
}

/// The text that `{:?}` writes for a string: the string in double quotes,
/// with quotes, backslashes and control characters escaped.
pub uninterp spec fn debug_str(s: Seq<char>) -> Seq<char>;

/// Formats a string slice with `<str as Debug>::fmt` (`format!("{:?}", s)`).
#[verifier::external_body]
pub(crate) fn debug_quoted(s: &str) -> (r: String)
    ensures
        r@ == debug_str(s@),
{
    format!("{:?}", s)
}

// ---------------------------------------------------------------------------
// Conversions between `&str`, `String` and `Vec<char>`
// ---------------------------------------------------------------------------

/// The characters of a string slice, in order.
pub fn chars_of(s: &str) -> (v: Vec<char>)
    ensures
        v@ == s@,
{
    let mut v: Vec<char> = Vec::new();
    for c in it: s.chars()
        invariant
            v@ == it.seq().take(it.index() as int),
            it.seq() == s@,
    {
        v.push(c);
    }
    v
}

/// A `String` holding exactly the given characters.
pub fn string_of(v: &[char]) -> (s: String)
    ensures
        s@ == v@,
{
    let mut s = String::new();
    let mut i: usize = 0;
    while i < v.len()
        invariant
            i <= v@.len(),
            s@ == v@.take(i as int),
        decreases v@.len() - i,
    {
        push_char(&mut s, v[i]);
        i = i + 1;
        assert(s@ =~= v@.take(i as int));
    }
    assert(v@.take(v@.len() as int) =~= v@);
    s
}

/// A `String` holding the characters of `v[from..to]`.
pub fn string_of_range(v: &[char], from: usize, to: usize) -> (s: String)
    requires
        from <= to <= v@.len(),
    ensures
        s@ == v@.subrange(from as int, to as int),
{
    let mut s = String::new();
    let mut i: usize = from;
    while i < to
        invariant
            from <= i <= to <= v@.len(),
            s@ == v@.subrange(from as int, i as int),
        decreases to - i,
    {
        push_char(&mut s, v[i]);
        i = i + 1;
        assert(s@ =~= v@.subrange(from as int, i as int));
    }
    s
}

/// Appends `src[from..to]` to `dst`.
pub fn push_range(dst: &mut Vec<char>, src: &[char], from: usize, to: usize)
    requires
        from <= to <= src@.len(),
    ensures
        final(dst)@ == old(dst)@ + src@.subrange(from as int, to as int),
{
    let ghost d0 = dst@;
    let mut i: usize = from;
    while i < to
        invariant
            from <= i <= to <= src@.len(),
            dst@ == d0 + src@.subrange(from as int, i as int),
        decreases to - i,
    {
        dst.push(src[i]);
        i = i + 1;
        assert(dst@ =~= d0 + src@.subrange(from as int, i as int));
    }
}

/// An owned copy of a string slice.
pub fn owned(s: &str) -> (r: String)
    ensures
        r@ == s@,
{
    s.to_owned()
}

// ---------------------------------------------------------------------------
// Whitespace trimming
// ---------------------------------------------------------------------------

/// Number of leading white-space characters of `s`.
pub open spec fn leading_ws(s: Seq<char>) -> nat
    decreases s.len(),
{
    if s.len() > 0 && unicode_white_space(s[0]) {
        1 + leading_ws(s.drop_first())
    } else {
        0
    }
}

/// Number of trailing white-space characters of `s`.
pub open spec fn trailing_ws(s: Seq<char>) -> nat
    decreases s.len(),
{
    if s.len() > 0 && unicode_white_space(s.last()) {
        1 + trailing_ws(s.drop_last())
    } else {
        0
    }
}

/// `str::trim_start`: `s` without its leading white space.
pub open spec fn trim_start(s: Seq<char>) -> Seq<char> {
    s.skip(leading_ws(s) as int)
}

/// `str::trim_end`: `s` without its trailing white space.
pub open spec fn trim_end(s: Seq<char>) -> Seq<char> {
    s.take(s.len() - trailing_ws(s))
}

/// `str::trim`: `s` without leading and trailing white space.
pub open spec fn trim(s: Seq<char>) -> Seq<char> {
    trim_end(trim_start(s))
}

/// Whether every character of `s` is white space.
pub open spec fn all_white_space(s: Seq<char>) -> bool {
    forall|i: int| 0 <= i < s.len() ==> unicode_white_space(#[trigger] s[i])
}

pub proof fn lemma_leading_ws(s: Seq<char>)
    ensures
        leading_ws(s) <= s.len(),
        forall|i: int| 0 <= i < leading_ws(s) ==> unicode_white_space(#[trigger] s[i]),
        leading_ws(s) < s.len() ==> !unicode_white_space(s[leading_ws(s) as int]),
    decreases s.len(),
{
    if s.len() > 0 && unicode_white_space(s[0]) {
        lemma_leading_ws(s.drop_first());
        assert forall|i: int| 0 <= i < leading_ws(s) implies unicode_white_space(
            #[trigger] s[i],
        ) by {
            if i > 0 {
                assert(s[i] == s.drop_first()[i - 1]);
            }
        }
    }
}

pub proof fn lemma_trailing_ws(s: Seq<char>)
    ensures
        trailing_ws(s) <= s.len(),
        forall|i: int|
            s.len() - trailing_ws(s) <= i < s.len() ==> unicode_white_space(#[trigger] s[i]),
        trailing_ws(s) < s.len() ==> !unicode_white_space(s[s.len() - trailing_ws(s) - 1]),
    decreases s.len(),
{
    if s.len() > 0 && unicode_white_space(s.last()) {
        lemma_trailing_ws(s.drop_last());
        assert forall|i: int|
            s.len() - trailing_ws(s) <= i < s.len() implies unicode_white_space(
            #[trigger] s[i],
        ) by {
            if i < s.len() - 1 {
                assert(s[i] == s.drop_last()[i]);
            }
        }
    }
}

/// A white-space-only sequence trims to nothing, and only such a sequence.
pub proof fn lemma_trim_empty(s: Seq<char>)
    ensures
        (trim(s).len() == 0) <==> all_white_space(s),
        (trim_start(s).len() == 0) <==> all_white_space(s),
{
    lemma_leading_ws(s);
    let t = trim_start(s);
    lemma_trailing_ws(t);
    if all_white_space(s) && leading_ws(s) < s.len() {
        assert(unicode_white_space(s[leading_ws(s) as int]));
    }
    if t.len() == 0 {
        assert forall|i: int| 0 <= i < s.len() implies unicode_white_space(#[trigger] s[i]) by {}
    } else {
        assert(t[0] == s[leading_ws(s) as int]);
        if trailing_ws(t) == t.len() {
            assert(unicode_white_space(t[0]));
        }
    }
}

/// Index of the first character of `s[from..]` that is not white space
/// (`s.len()` if there is none).
pub fn skip_ws(s: &[char], from: usize) -> (i: usize)
    requires
        from <= s@.len(),
    ensures
        i == from + leading_ws(s@.skip(from as int)),
        from <= i <= s@.len(),
{
    let mut i = from;
    proof {
        lemma_leading_ws(s@.skip(from as int));
    }
    while i < s.len() && is_whitespace(s[i])
        invariant
            from <= i <= s@.len(),
            forall|j: int| from <= j < i ==> unicode_white_space(#[trigger] s@[j]),
            leading_ws(s@.skip(from as int)) >= i - from,
        decreases s@.len() - i,
    {
        i = i + 1;
        proof {
            lemma_leading_ws_bounds(s@.skip(from as int), (i - from) as nat);
        }
    }
    proof {
        lemma_leading_ws_exact(s@.skip(from as int), (i - from) as nat);
    }
    i
}

proof fn lemma_leading_ws_bounds(s: Seq<char>, k: nat)
    requires
        k <= s.len(),
        forall|j: int| 0 <= j < k ==> unicode_white_space(#[trigger] s[j]),
    ensures
        leading_ws(s) >= k,
    decreases k,
{
    if k > 0 {
        assert(unicode_white_space(s[0]));
        assert forall|j: int| 0 <= j < k - 1 implies unicode_white_space(
            #[trigger] s.drop_first()[j],
        ) by {
            assert(s.drop_first()[j] == s[j + 1]);
        }
        lemma_leading_ws_bounds(s.drop_first(), (k - 1) as nat);
    }
}

proof fn lemma_leading_ws_exact(s: Seq<char>, k: nat)
    requires
        k <= s.len(),
        leading_ws(s) >= k,
        k == s.len() || !unicode_white_space(s[k as int]),
    ensures
        leading_ws(s) == k,
{
    lemma_leading_ws(s);
    if leading_ws(s) > k {
        assert(unicode_white_space(s[k as int]));
    }
}

/// One past the last character of `s[..to]` that is not white space
/// (0 if there is none).
pub fn trim_end_index(s: &[char], to: usize) -> (i: usize)
    requires
        to <= s@.len(),
    ensures
        i == to - trailing_ws(s@.take(to as int)),
        i <= to,
{
    let mut i = to;
    proof {
        lemma_trailing_ws(s@.take(to as int));
    }
    while i > 0 && is_whitespace(s[i - 1])
        invariant
            i <= to <= s@.len(),
            forall|j: int| i <= j < to ==> unicode_white_space(#[trigger] s@[j]),
            trailing_ws(s@.take(to as int)) >= to - i,
        decreases i,
    {
        i = i - 1;
        proof {
            lemma_trailing_ws_bounds(s@.take(to as int), (to - i) as nat);
        }
    }
    proof {
        lemma_trailing_ws_exact(s@.take(to as int), (to - i) as nat);
    }
    i
}

proof fn lemma_trailing_ws_bounds(s: Seq<char>, k: nat)
    requires
        k <= s.len(),
        forall|j: int| s.len() - k <= j < s.len() ==> unicode_white_space(#[trigger] s[j]),
    ensures
        trailing_ws(s) >= k,
    decreases k,
{
    if k > 0 {
        assert(unicode_white_space(s[s.len() - 1]));
        assert forall|j: int|
            s.drop_last().len() - (k - 1) <= j < s.drop_last().len() implies unicode_white_space(
            #[trigger] s.drop_last()[j],
        ) by {
            assert(s.drop_last()[j] == s[j]);
        }
        lemma_trailing_ws_bounds(s.drop_last(), (k - 1) as nat);
    }
}

proof fn lemma_trailing_ws_exact(s: Seq<char>, k: nat)
    requires
        k <= s.len(),
        trailing_ws(s) >= k,
        k == s.len() || !unicode_white_space(s[s.len() - k - 1]),
    ensures
        trailing_ws(s) == k,
{
    lemma_trailing_ws(s);
    if trailing_ws(s) > k {
        assert(unicode_white_space(s[s.len() - k - 1]));
    }
}

/// Whether `s` is empty once trimmed (`s.trim().is_empty()`).
pub fn is_blank(s: &[char]) -> (r: bool)
    ensures
        r == (trim(s@).len() == 0),
        r == all_white_space(s@),
{
    let i = skip_ws(s, 0);
    proof {
        assert(s@.skip(0) =~= s@);
        lemma_trim_empty(s@);
    }
    i == s.len()
}

/// `line.trim()` as characters.
pub fn trimmed(s: &[char]) -> (r: Vec<char>)
    ensures
        r@ == trim(s@),
{
    let a = skip_ws(s, 0);
    let b = trim_end_index(s, s.len());
    assert(s@.skip(0) =~= s@);
    assert(s@.take(s@.len() as int) =~= s@);
    let ghost t = trim_start(s@);
    proof {
        lemma_leading_ws(s@);
        lemma_trailing_ws(s@);
        lemma_trailing_ws(t);
        lemma_trim_tail(s@);
    }
    let mut r: Vec<char> = Vec::new();
    if a < b {
        let mut i = a;
        while i < b
            invariant
                a <= i <= b <= s@.len(),
                r@ == s@.subrange(a as int, i as int),
            decreases b - i,
        {
            r.push(s[i]);
            i = i + 1;
            assert(r@ =~= s@.subrange(a as int, i as int));
        }
        assert(r@ =~= trim(s@));
    } else {
        assert(trim(s@).len() == 0);
        assert(r@ =~= trim(s@));
    }
    r
}

/// Trimming the front never touches the trailing white space unless the
/// whole sequence is white space.
proof fn lemma_trim_tail(s: Seq<char>)
    ensures
        leading_ws(s) < s.len() - trailing_ws(s) ==> trailing_ws(trim_start(s)) == trailing_ws(
            s,
        ),
        leading_ws(s) >= s.len() - trailing_ws(s) ==> trim(s).len() == 0,
    decreases s.len(),
{
    lemma_leading_ws(s);
    lemma_trailing_ws(s);
    let t = trim_start(s);
    lemma_trailing_ws(t);
    let k = leading_ws(s);
    let n = trailing_ws(s);
    if k < s.len() - n {
        // the suffix of white space lies inside t
        assert forall|j: int| t.len() - n <= j < t.len() implies unicode_white_space(
            #[trigger] t[j],
        ) by {
            assert(t[j] == s[j + k]);
        }
        lemma_trailing_ws_bounds(t, n);
        if trailing_ws(t) > n {
            assert(t[t.len() - n - 1] == s[s.len() - n - 1]);
        }
    } else {
        assert forall|j: int| 0 <= j < t.len() implies unicode_white_space(#[trigger] t[j]) by {
            assert(t[j] == s[j + k]);
        }
        lemma_trailing_ws_bounds(t, t.len());
    }
}

// ---------------------------------------------------------------------------
// Prefixes and searches
// ---------------------------------------------------------------------------

/// `str::starts_with` on views.
pub open spec fn has_prefix(s: Seq<char>, p: Seq<char>) -> bool {
    p.len() <= s.len() && s.take(p.len() as int) == p
}

/// Whether `s` starts with `p`.
pub fn starts_with(s: &[char], p: &[char]) -> (r: bool)
    ensures
        r == has_prefix(s@, p@),
{
    if p.len() > s.len() {
        return false;
    }
    let mut i: usize = 0;
    while i < p.len()
        invariant
            i <= p@.len() <= s@.len(),
            forall|j: int| 0 <= j < i ==> s@[j] == p@[j],
        decreases p@.len() - i,
    {
        if s[i] != p[i] {
            assert(s@.take(p@.len() as int)[i as int] != p@[i as int]);
            return false;
        }
        i = i + 1;
    }
    assert(s@.take(p@.len() as int) =~= p@);
    true
}

/// Whether two character sequences are equal.
pub fn chars_eq(a: &[char], b: &[char]) -> (r: bool)
    ensures
        r == (a@ == b@),
{
    if a.len() != b.len() {
        return false;
    }
    let r = starts_with(a, b);
    assert(a@.take(b@.len() as int) =~= a@);
    r
}

/// Whether the characters `v` spell the string `s`.
pub fn chars_eq_str(v: &[char], s: &str) -> (r: bool)
    ensures
        r == (v@ == s@),
{
    let w = chars_of(s);
    chars_eq(v, w.as_slice())
}

/// Whether `s` contains the character `c`.
pub fn contains_char(s: &[char], c: char) -> (r: bool)
    ensures
        r == s@.contains(c),
{
    let mut i: usize = 0;
    while i < s.len()
        invariant
            i <= s@.len(),
            forall|j: int| 0 <= j < i ==> s@[j] != c,
        decreases s@.len() - i,
    {
        if s[i] == c {
            return true;
        }
        i = i + 1;
    }
    false
}

// ---------------------------------------------------------------------------
// Code-point order
// ---------------------------------------------------------------------------

/// Lexicographic order on character sequences by code point.  For strings
/// this is the order of `String`'s `Ord` (UTF-8 preserves code-point order
/// byte by byte).
pub open spec fn lex_lt(a: Seq<char>, b: Seq<char>) -> bool
    decreases a.len(),
{
    if a.len() == 0 {
        b.len() > 0
    } else if b.len() == 0 {
        false
    } else if a[0] != b[0] {
        (a[0] as u32) < (b[0] as u32)
    } else {
        lex_lt(a.drop_first(), b.drop_first())
    }
}

/// Non-strict code-point order.
pub open spec fn lex_le(a: Seq<char>, b: Seq<char>) -> bool {
    lex_lt(a, b) || a == b
}

pub proof fn lemma_lex_irreflexive(a: Seq<char>)
    ensures
        !lex_lt(a, a),
    decreases a.len(),
{
    if a.len() > 0 {
        lemma_lex_irreflexive(a.drop_first());
    }
}

pub proof fn lemma_lex_trichotomy(a: Seq<char>, b: Seq<char>)
    ensures
        lex_lt(a, b) || a == b || lex_lt(b, a),
        !(lex_lt(a, b) && lex_lt(b, a)),
    decreases a.len(),
{
    if a.len() == 0 {
        if b.len() == 0 {
            assert(a =~= b);
        }
    } else if b.len() == 0 {
    } else if a[0] != b[0] {
        if (a[0] as u32) == (b[0] as u32) {
            vstd::utf8::char_u32_cast(a[0], a[0] as u32);
            vstd::utf8::char_u32_cast(b[0], b[0] as u32);
        }
    } else {
        lemma_lex_trichotomy(a.drop_first(), b.drop_first());
        if a.drop_first() == b.drop_first() {
            assert forall|i: int| 0 <= i < a.len() implies a[i] == b[i] by {
                if i > 0 {
                    assert(a[i] == a.drop_first()[i - 1]);
                    assert(b[i] == b.drop_first()[i - 1]);
                }
            }
            assert(a =~= b);
        }
    }
}

pub proof fn lemma_lex_transitive(a: Seq<char>, b: Seq<char>, c: Seq<char>)
    requires
        lex_lt(a, b),
        lex_lt(b, c),
    ensures
        lex_lt(a, c),
    decreases a.len(),
{
    if a.len() > 0 && b.len() > 0 && c.len() > 0 {
        if a[0] == b[0] && b[0] == c[0] {
            lemma_lex_transitive(a.drop_first(), b.drop_first(), c.drop_first());
        }
    }
}

/// Result of a three-way comparison.
#[derive(Clone, Copy, Debug, PartialEq, Eq, Structural)]
pub enum Order {
    Less,
    Equal,
    Greater,
}

/// Three-way code-point comparison of two character sequences.
pub fn compare_chars(a: &[char], b: &[char]) -> (r: Order)
    ensures
        r == Order::Less <==> lex_lt(a@, b@),
        r == Order::Equal <==> a@ == b@,
        r == Order::Greater <==> lex_lt(b@, a@),
{
    proof {
        lemma_lex_trichotomy(a@, b@);
        assert(a@.skip(0) =~= a@);
        assert(b@.skip(0) =~= b@);
        assert(a@.take(0) =~= b@.take(0));
    }
    let mut i: usize = 0;
    while i < a.len() && i < b.len()
        invariant
            i <= a@.len(),
            i <= b@.len(),
            a@.take(i as int) == b@.take(i as int),
            lex_lt(a@, b@) == lex_lt(a@.skip(i as int), b@.skip(i as int)),
            lex_lt(b@, a@) == lex_lt(b@.skip(i as int), a@.skip(i as int)),
        decreases a@.len() - i,
    {
        let x = a[i];
        let y = b[i];
        proof {
            assert(a@.skip(i as int)[0] == x);
            assert(b@.skip(i as int)[0] == y);
            assert(a@.skip(i as int).drop_first() =~= a@.skip(i + 1));
            assert(b@.skip(i as int).drop_first() =~= b@.skip(i + 1));
        }
        if x != y {
            let xu = x as u32;
            let yu = y as u32;
            proof {
                vstd::utf8::char_u32_cast(x, xu);
                vstd::utf8::char_u32_cast(y, yu);
                if a@ == b@ {
                    assert(a@[i as int] == b@[i as int]);
                }
            }
            if xu < yu {
                return Order::Less;
            } else {
                return Order::Greater;
            }
        }
        i = i + 1;
        assert(a@.take(i as int) =~= a@.take(i - 1).push(x));
        assert(b@.take(i as int) =~= b@.take(i - 1).push(y));
    }
    if a.len() == b.len() {
        assert(a@ =~= a@.take(i as int));
        assert(b@ =~= b@.take(i as int));
        Order::Equal
    } else if a.len() < b.len() {
        proof {
            if a@ == b@ {
                assert(false);
            }
        }
        Order::Less
    } else {
        assert(b@.skip(i as int).len() == 0);
        Order::Greater
    }
}


// ---------------------------------------------------------------------------
// Words
// ---------------------------------------------------------------------------

/// Number of leading characters of `s` that are not white space.
pub open spec fn leading_non_ws(s: Seq<char>) -> nat
    decreases s.len(),
{
    if s.len() > 0 && !unicode_white_space(s[0]) {
        1 + leading_non_ws(s.drop_first())
    } else {
        0
    }
}

/// The first white-space-delimited word of `s` (after leading white space).
pub open spec fn first_word(s: Seq<char>) -> Seq<char> {
    trim_start(s).take(leading_non_ws(trim_start(s)) as int)
}

pub proof fn lemma_leading_non_ws(s: Seq<char>)
    ensures
        leading_non_ws(s) <= s.len(),
        forall|i: int| 0 <= i < leading_non_ws(s) ==> !unicode_white_space(#[trigger] s[i]),
        leading_non_ws(s) < s.len() ==> unicode_white_space(s[leading_non_ws(s) as int]),
    decreases s.len(),
{
    if s.len() > 0 && !unicode_white_space(s[0]) {
        lemma_leading_non_ws(s.drop_first());
        assert forall|i: int| 0 <= i < leading_non_ws(s) implies !unicode_white_space(
            #[trigger] s[i],
        ) by {
            if i > 0 {
                assert(s[i] == s.drop_first()[i - 1]);
            }
        }
    }
}

proof fn lemma_leading_non_ws_bounds(s: Seq<char>, k: nat)
    requires
        k <= s.len(),
        forall|j: int| 0 <= j < k ==> !unicode_white_space(#[trigger] s[j]),
    ensures
        leading_non_ws(s) >= k,
    decreases k,
{
    if k > 0 {
        assert(!unicode_white_space(s[0]));
        assert forall|j: int| 0 <= j < k - 1 implies !unicode_white_space(
            #[trigger] s.drop_first()[j],
        ) by {
            assert(s.drop_first()[j] == s[j + 1]);
        }
        lemma_leading_non_ws_bounds(s.drop_first(), (k - 1) as nat);
    }
}

/// Index one past the run of non-white-space characters starting at `from`.
pub fn skip_non_ws(s: &[char], from: usize) -> (i: usize)
    requires
        from <= s@.len(),
    ensures
        i == from + leading_non_ws(s@.skip(from as int)),
        from <= i <= s@.len(),
{
    let mut i = from;
    proof {
        lemma_leading_non_ws(s@.skip(from as int));
    }
    while i < s.len() && !is_whitespace(s[i])
        invariant
            from <= i <= s@.len(),
            forall|j: int| from <= j < i ==> !unicode_white_space(#[trigger] s@[j]),
            leading_non_ws(s@.skip(from as int)) >= i - from,
        decreases s@.len() - i,
    {
        i = i + 1;
        proof {
            let t = s@.skip(from as int);
            assert forall|j: int| 0 <= j < i - from implies !unicode_white_space(#[trigger] t[j]) by {
                assert(t[j] == s@[j + from]);
            }
            lemma_leading_non_ws_bounds(t, (i - from) as nat);
        }
    }
    proof {
        let t = s@.skip(from as int);
        lemma_leading_non_ws(t);
        if leading_non_ws(t) > i - from {
            assert(t[i - from] == s@[i as int]);
        }
    }
    i
}


/// Trimming the front twice is trimming it once, and the first word does
/// not depend on leading white space.
pub proof fn lemma_trim_start_idempotent(s: Seq<char>)
    ensures
        trim_start(trim_start(s)) == trim_start(s),
        first_word(trim_start(s)) == first_word(s),
{
    lemma_leading_ws(s);
    let t = trim_start(s);
    if t.len() > 0 {
        assert(t[0] == s[leading_ws(s) as int]);
    }
    assert(leading_ws(t) == 0);
    assert(t.skip(0) =~= t);
}


// ---------------------------------------------------------------------------
// Lines
// ---------------------------------------------------------------------------

/// Index of the first line feed of `s` (`s.len()` when there is none).
pub open spec fn newline_index(s: Seq<char>) -> nat
    decreases s.len(),
{
    if s.len() == 0 || s[0] == '\n' {
        0
    } else {
        1 + newline_index(s.drop_first())
    }
}

/// `l` without one trailing carriage return.
pub open spec fn drop_cr(l: Seq<char>) -> Seq<char> {
    if l.len() > 0 && l.last() == '\r' {
        l.drop_last()
    } else {
        l
    }
}

/// `str::lines`: the lines of `s`, split at `\n` or `\r\n`; a final line
/// ending adds no empty line.
pub open spec fn text_lines(s: Seq<char>) -> Seq<Seq<char>>
    decreases s.len(),
{
    if s.len() == 0 {
        Seq::empty()
    } else if newline_index(s) >= s.len() {
        seq![s]
    } else {
        seq![drop_cr(s.take(newline_index(s) as int))] + text_lines(
            s.skip(newline_index(s) as int + 1),
        )
    }
}

/// The text of a list of lines, each followed by a line feed.
pub open spec fn join_lines(ls: Seq<Seq<char>>) -> Seq<char>
    decreases ls.len(),
{
    if ls.len() == 0 {
        Seq::empty()
    } else {
        join_lines(ls.drop_last()) + ls.last() + seq!['\n']
    }
}

pub proof fn lemma_newline_index(s: Seq<char>)
    ensures
        newline_index(s) <= s.len(),
        forall|i: int| 0 <= i < newline_index(s) ==> #[trigger] s[i] != '\n',
        newline_index(s) < s.len() ==> s[newline_index(s) as int] == '\n',
    decreases s.len(),
{
    if s.len() > 0 && s[0] != '\n' {
        lemma_newline_index(s.drop_first());
        assert forall|i: int| 0 <= i < newline_index(s) implies #[trigger] s[i] != '\n' by {
            if i > 0 {
                assert(s[i] == s.drop_first()[i - 1]);
            }
        }
    }
}

pub proof fn lemma_newline_index_at(s: Seq<char>, k: nat)
    requires
        k <= s.len(),
        forall|i: int| 0 <= i < k ==> #[trigger] s[i] != '\n',
        k == s.len() || s[k as int] == '\n',
    ensures
        newline_index(s) == k,
    decreases k,
{
    if k > 0 {
        assert(s[0] != '\n');
        assert forall|i: int| 0 <= i < k - 1 implies #[trigger] s.drop_first()[i] != '\n' by {
            assert(s.drop_first()[i] == s[i + 1]);
        }
        lemma_newline_index_at(s.drop_first(), (k - 1) as nat);
    }
}

/// Index of the first line feed of `s[from..]` (`s.len()` when none).
pub fn find_newline(s: &[char], from: usize) -> (j: usize)
    requires
        from <= s@.len(),
    ensures
        j == from + newline_index(s@.skip(from as int)),
        from <= j <= s@.len(),
{
    let mut j = from;
    while j < s.len() && s[j] != '\n'
        invariant
            from <= j <= s@.len(),
            forall|i: int| from <= i < j ==> #[trigger] s@[i] != '\n',
        decreases s@.len() - j,
    {
        j = j + 1;
    }
    proof {
        let t = s@.skip(from as int);
        assert forall|i: int| 0 <= i < j - from implies #[trigger] t[i] != '\n' by {
            assert(t[i] == s@[i + from]);
        }
        if j < s@.len() {
            assert(t[j - from] == s@[j as int]);
        }
        lemma_newline_index_at(t, (j - from) as nat);
    }
    j
}

/// The lines of a text, as `str::lines` yields them.
pub fn lines_of(s: &str) -> (r: Vec<String>)
    ensures
        crate::sort::strings_view(r@) == text_lines(s@),
        forall|i: int| 0 <= i < r@.len() ==> !(#[trigger] r@[i])@.contains('\n'),
{
    let cs = chars_of(s);
    let mut out: Vec<String> = Vec::new();
    let mut i: usize = 0;
    assert(cs@.skip(0) =~= cs@);
    while i < cs.len()
        invariant
            i <= cs@.len(),
            cs@ == s@,
            crate::sort::strings_view(out@) + text_lines(cs@.skip(i as int)) == text_lines(s@),
            forall|k: int| 0 <= k < out@.len() ==> !(#[trigger] out@[k])@.contains('\n'),
        decreases cs@.len() - i,
    {
        let j = find_newline(cs.as_slice(), i);
        let ghost t = cs@.skip(i as int);
        proof {
            lemma_newline_index(t);
        }
        if j == cs.len() {
            let line = string_of_range(cs.as_slice(), i, j);
            proof {
                assert(line@ =~= t);
                assert(text_lines(t) == seq![t]);
                assert forall|c: int| 0 <= c < line@.len() implies line@[c] != '\n' by {
                    assert(line@[c] == t[c]);
                }
            }
            let ghost before = crate::sort::strings_view(out@);
            out.push(line);
            proof {
                assert(crate::sort::strings_view(out@) =~= before.push(line@));
                assert(cs@.skip(j as int).len() == 0);
                assert(text_lines(cs@.skip(j as int)) =~= Seq::<Seq<char>>::empty());
                assert(before + text_lines(t) =~= crate::sort::strings_view(out@) + text_lines(
                    cs@.skip(j as int),
                ));
            }
            i = j;
        } else {
            let mut e = j;
            if e > i && cs[e - 1] == '\r' {
                e = e - 1;
            }
            let line = string_of_range(cs.as_slice(), i, e);
            proof {
                let k = newline_index(t);
                assert(k == j - i);
                assert(line@ =~= drop_cr(t.take(k as int)));
                assert(t.skip(k as int + 1) =~= cs@.skip(j + 1));
                assert forall|c: int| 0 <= c < line@.len() implies line@[c] != '\n' by {
                    assert(line@[c] == t[c]);
                }
            }
            let ghost before = crate::sort::strings_view(out@);
            out.push(line);
            proof {
                assert(crate::sort::strings_view(out@) =~= before.push(line@));
                assert(before + text_lines(t) =~= crate::sort::strings_view(out@) + text_lines(
                    cs@.skip(j + 1),
                ));
            }
            i = j + 1;
        }
    }
    proof {
        assert(cs@.skip(i as int).len() == 0);
        assert(text_lines(cs@.skip(i as int)) =~= Seq::<Seq<char>>::empty());
        assert(crate::sort::strings_view(out@) =~= text_lines(s@));
    }
    out
}


/// Appending after a character that is not white space does not change
/// the leading white space.
pub proof fn lemma_leading_ws_append(a: Seq<char>, b: Seq<char>)
    requires
        leading_ws(a) < a.len(),
    ensures
        leading_ws(a + b) == leading_ws(a),
    decreases a.len(),
{
    if unicode_white_space(a[0]) {
        assert((a + b).drop_first() =~= a.drop_first() + b);
        lemma_leading_ws_append(a.drop_first(), b);
    } else {
        assert((a + b)[0] == a[0]);
    }
}

/// Appending text that starts with white space (or nothing) does not
/// change the leading word; nor does anything after a word that ends
/// inside `a`.
pub proof fn lemma_leading_non_ws_append(a: Seq<char>, b: Seq<char>)
    requires
        leading_non_ws(a) < a.len() || b.len() == 0 || unicode_white_space(b[0]),
    ensures
        leading_non_ws(a + b) == leading_non_ws(a),
    decreases a.len(),
{
    if a.len() == 0 {
        assert(a + b =~= b);
    } else if !unicode_white_space(a[0]) {
        assert((a + b).drop_first() =~= a.drop_first() + b);
        lemma_leading_non_ws_append(a.drop_first(), b);
    } else {
        assert((a + b)[0] == a[0]);
    }
}

/// The first word of `c + s` is that of `c`, when `c` is not blank and
/// `s` is empty or starts with white space.
pub proof fn lemma_first_word_append(c: Seq<char>, s: Seq<char>)
    requires
        trim(c).len() > 0,
        s.len() == 0 || unicode_white_space(s[0]),
    ensures
        first_word(c + s) == first_word(c),
{
    lemma_trim_empty(c);
    lemma_leading_ws(c);
    if leading_ws(c) >= c.len() {
        assert(trim_start(c).len() == 0);
    }
    lemma_leading_ws_append(c, s);
    let t = trim_start(c);
    assert(trim_start(c + s) =~= t + s);
    lemma_leading_non_ws(t);
    lemma_leading_non_ws_append(t, s);
    assert((t + s).take(leading_non_ws(t) as int) =~= t.take(leading_non_ws(t) as int));
}

} // verus!
