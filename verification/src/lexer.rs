//! Character classes and the lexical layer of the Zet grammar: blanks and
//! comments, keywords, identifiers, numbers, character and string literals.
//! Positions count characters; every function works on the characters of the
//! whole source and a position in it.
use vstd::prelude::*;
use crate::ast::BinaryOp;
use crate::text::{str_eq, string_from_chars};

verus! {

// ───────────────────────── character classes ─────────────────────────

/// The result of `char::is_alphanumeric` (Unicode `Alphabetic` or `Numeric`).
pub uninterp spec fn unicode_alphanumeric(c: char) -> bool;

/// The result of `char::is_alphabetic` (Unicode `Alphabetic`).
pub uninterp spec fn unicode_alphabetic(c: char) -> bool;

/// Calls `char::is_alphanumeric`; its result is named, not stated.
#[verifier::external_body]
pub(crate) fn char_is_alphanumeric(c: char) -> (r: bool)
    ensures
        r == unicode_alphanumeric(c),
{
    c.is_alphanumeric()
}

/// Calls `char::is_alphabetic`; its result is named, not stated.
#[verifier::external_body]
pub(crate) fn char_is_alphabetic(c: char) -> (r: bool)
    ensures
        r == unicode_alphabetic(c),
{
    c.is_alphabetic()
}

/// The blanks that the grammar skips: space, tab, carriage return, newline.
pub open spec fn is_blank(c: char) -> bool {
    c == ' ' || c == '\t' || c == '\r' || c == '\n'
}

/// Unicode `White_Space`, as `char::is_whitespace` and `str::trim_start` use it.
pub open spec fn is_unicode_space(c: char) -> bool {
    ||| ('\u{9}' <= c && c <= '\u{d}')
    ||| c == ' '
    ||| c == '\u{85}'
    ||| c == '\u{a0}'
    ||| c == '\u{1680}'
    ||| ('\u{2000}' <= c && c <= '\u{200a}')
    ||| c == '\u{2028}'
    ||| c == '\u{2029}'
    ||| c == '\u{202f}'
    ||| c == '\u{205f}'
    ||| c == '\u{3000}'
}

pub open spec fn is_ascii_alpha(c: char) -> bool {
    ('a' <= c && c <= 'z') || ('A' <= c && c <= 'Z')
}

pub open spec fn is_digit(c: char) -> bool {
    '0' <= c && c <= '9'
}

/// Characters that may continue an identifier.
pub open spec fn is_ident_char(c: char) -> bool {
    unicode_alphanumeric(c) || c == '_'
}

pub fn blank(c: char) -> (r: bool)
    ensures
        r == is_blank(c),
{
    c == ' ' || c == '\t' || c == '\r' || c == '\n'
}

pub fn unicode_space(c: char) -> (r: bool)
    ensures
        r == is_unicode_space(c),
{
    ('\u{9}' <= c && c <= '\u{d}') || c == ' ' || c == '\u{85}' || c == '\u{a0}' || c == '\u{1680}'
        || ('\u{2000}' <= c && c <= '\u{200a}') || c == '\u{2028}' || c == '\u{2029}' || c
        == '\u{202f}' || c == '\u{205f}' || c == '\u{3000}'
}

pub fn ascii_alpha(c: char) -> (r: bool)
    ensures
        r == is_ascii_alpha(c),
{
    ('a' <= c && c <= 'z') || ('A' <= c && c <= 'Z')
}

pub fn digit(c: char) -> (r: bool)
    ensures
        r == is_digit(c),
{
    '0' <= c && c <= '9'
}

pub fn ident_char(c: char) -> (r: bool)
    ensures
        r == is_ident_char(c),
{
    char_is_alphanumeric(c) || c == '_'
}

// ───────────────────────── blanks and comments ─────────────────────────

/// Where a `//` comment whose text starts at `q` ends: at the first newline,
/// or at a carriage return that a newline follows, or at the end of the
/// source. A carriage return without a newline after it makes the comment
/// unreadable.
pub open spec fn line_end(s: Seq<char>, q: int) -> Option<int>
    decreases s.len() - q,
{
    if q < 0 {
        None
    } else if q >= s.len() {
        Some(s.len() as int)
    } else if s[q] == '\n' {
        Some(q)
    } else if s[q] == '\r' {
        if q + 1 < s.len() && s[q + 1] == '\n' {
            Some(q)
        } else {
            None
        }
    } else {
        line_end(s, q + 1)
    }
}

/// The position after the blanks and comments that start at `p`.
pub open spec fn skip(s: Seq<char>, p: int) -> int
    decreases s.len() - p,
{
    if p < 0 || p >= s.len() {
        p
    } else if is_blank(s[p]) {
        skip(s, p + 1)
    } else if p + 1 < s.len() && s[p] == '/' && s[p + 1] == '/' {
        match line_end(s, p + 2) {
            Some(e) => if p < e <= s.len() {
                skip(s, e)
            } else {
                p
            },
            None => p,
        }
    } else {
        p
    }
}

/// The position after the leading Unicode white space at `p`.
pub open spec fn trim(s: Seq<char>, p: int) -> int
    decreases s.len() - p,
{
    if p < 0 || p >= s.len() {
        p
    } else if is_unicode_space(s[p]) {
        trim(s, p + 1)
    } else {
        p
    }
}

pub proof fn lemma_line_end(s: Seq<char>, q: int)
    requires
        q <= s.len(),
    ensures
        line_end(s, q) matches Some(e) ==> q <= e <= s.len(),
    decreases s.len() - q,
{
    if 0 <= q < s.len() && s[q] != '\n' && s[q] != '\r' {
        lemma_line_end(s, q + 1);
    }
}

pub proof fn lemma_skip(s: Seq<char>, p: int)
    requires
        0 <= p <= s.len(),
    ensures
        p <= skip(s, p) <= s.len(),
    decreases s.len() - p,
{
    if p < s.len() {
        if is_blank(s[p]) {
            lemma_skip(s, p + 1);
        } else if p + 1 < s.len() && s[p] == '/' && s[p + 1] == '/' {
            lemma_line_end(s, p + 2);
            if let Some(e) = line_end(s, p + 2) {
                if p < e <= s.len() {
                    lemma_skip(s, e);
                }
            }
        }
    }
}

fn line_end_exec(s: &Vec<char>, q: usize) -> (r: Option<usize>)
    requires
        q <= s.len(),
    ensures
        match r {
            Some(e) => line_end(s@, q as int) == Some(e as int),
            None => line_end(s@, q as int) is None,
        },
{
    let mut i = q;
    while i < s.len()
        invariant
            q <= i <= s.len(),
            line_end(s@, q as int) == line_end(s@, i as int),
        decreases s.len() - i,
    {
        if s[i] == '\n' {
            return Some(i);
        }
        if s[i] == '\r' {
            if i + 1 < s.len() && s[i + 1] == '\n' {
                return Some(i);
            }
            return None;
        }
        i += 1;
    }
    Some(s.len())
}

/// Skips blanks and comments.
pub fn skip_exec(s: &Vec<char>, p: usize) -> (r: usize)
    requires
        p <= s.len(),
    ensures
        r == skip(s@, p as int),
        p <= r <= s.len(),
{
    let mut i = p;
    proof {
        lemma_skip(s@, p as int);
    }
    while i < s.len()
        invariant
            p <= i <= s.len(),
            skip(s@, p as int) == skip(s@, i as int),
        decreases s.len() - i,
    {
        if blank(s[i]) {
            i += 1;
        } else if i + 1 < s.len() && s[i] == '/' && s[i + 1] == '/' {
            match line_end_exec(s, i + 2) {
                Some(e) => {
                    proof {
                        lemma_line_end(s@, i + 2);
                    }
                    i = e;
                },
                None => {
                    return i;
                },
            }
        } else {
            return i;
        }
    }
    i
}

/// Skips Unicode white space.
pub fn trim_exec(s: &Vec<char>, p: usize) -> (r: usize)
    requires
        p <= s.len(),
    ensures
        r == trim(s@, p as int),
        p <= r <= s.len(),
{
    let mut i = p;
    while i < s.len()
        invariant
            p <= i <= s.len(),
            trim(s@, p as int) == trim(s@, i as int),
        decreases s.len() - i,
    {
        if !unicode_space(s[i]) {
            return i;
        }
        i += 1;
    }
    i
}

// ───────────────────────── tags, characters, keywords ─────────────────────────

/// The text `t` stands at position `p`.
pub open spec fn at(s: Seq<char>, p: int, t: Seq<char>) -> bool {
    0 <= p && p + t.len() <= s.len() && s.subrange(p, p + t.len()) == t
}

/// A keyword: its text, not followed by a character that may continue an identifier.
pub open spec fn kw(s: Seq<char>, p: int, w: Seq<char>) -> Option<int> {
    if at(s, p, w) && !(p + w.len() < s.len() && is_ident_char(s[p + w.len()])) {
        Some(p + w.len())
    } else {
        None
    }
}

/// Blanks, the character `c`, blanks.
pub open spec fn ws_char(s: Seq<char>, p: int, c: char) -> Option<int> {
    let a = skip(s, p);
    if 0 <= a < s.len() && s[a] == c {
        Some(skip(s, a + 1))
    } else {
        None
    }
}

/// Blanks, the text `t`, blanks.
pub open spec fn ws_tag(s: Seq<char>, p: int, t: Seq<char>) -> Option<int> {
    let a = skip(s, p);
    if at(s, a, t) {
        Some(skip(s, a + t.len()))
    } else {
        None
    }
}

/// Blanks, the keyword `w`, blanks.
pub open spec fn ws_kw(s: Seq<char>, p: int, w: Seq<char>) -> Option<int> {
    match kw(s, skip(s, p), w) {
        Some(q) => Some(skip(s, q)),
        None => None,
    }
}

pub fn at_exec(s: &Vec<char>, p: usize, t: &str) -> (r: bool)
    requires
        p <= s.len(),
    ensures
        r == at(s@, p as int, t@),
{
    let tv = crate::text::chars_of(t);
    if tv.len() > s.len() - p {
        return false;
    }
    let mut i: usize = 0;
    while i < tv.len()
        invariant
            i <= tv.len(),
            tv@ == t@,
            p + tv.len() <= s.len(),
            forall|j: int| 0 <= j < i ==> s@[p + j] == tv@[j],
        decreases tv.len() - i,
    {
        if s[p + i] != tv[i] {
            assert(s@.subrange(p as int, p + tv.len())[i as int] != t@[i as int]);
            return false;
        }
        i += 1;
    }
    assert(s@.subrange(p as int, p + tv.len()) =~= t@);
    true
}

pub fn kw_exec(s: &Vec<char>, p: usize, w: &str) -> (r: Option<usize>)
    requires
        p <= s.len(),
    ensures
        match r {
            Some(q) => kw(s@, p as int, w@) == Some(q as int),
            None => kw(s@, p as int, w@) is None,
        },
        r matches Some(q) ==> p <= q <= s.len(),
{
    if !at_exec(s, p, w) {
        return None;
    }
    let q = p + w.unicode_len();
    if q < s.len() && ident_char(s[q]) {
        return None;
    }
    Some(q)
}

pub fn ws_char_exec(s: &Vec<char>, p: usize, c: char) -> (r: Option<usize>)
    requires
        p <= s.len(),
    ensures
        match r {
            Some(q) => ws_char(s@, p as int, c) == Some(q as int),
            None => ws_char(s@, p as int, c) is None,
        },
        r matches Some(q) ==> p < q <= s.len(),
{
    let a = skip_exec(s, p);
    if a < s.len() && s[a] == c {
        let q = skip_exec(s, a + 1);
        Some(q)
    } else {
        None
    }
}

pub fn ws_tag_exec(s: &Vec<char>, p: usize, t: &str) -> (r: Option<usize>)
    requires
        p <= s.len(),
    ensures
        match r {
            Some(q) => ws_tag(s@, p as int, t@) == Some(q as int),
            None => ws_tag(s@, p as int, t@) is None,
        },
        r matches Some(q) ==> p <= q <= s.len(),
{
    let a = skip_exec(s, p);
    if at_exec(s, a, t) {
        let q = skip_exec(s, a + t.unicode_len());
        Some(q)
    } else {
        None
    }
}

pub fn ws_kw_exec(s: &Vec<char>, p: usize, w: &str) -> (r: Option<usize>)
    requires
        p <= s.len(),
    ensures
        match r {
            Some(q) => ws_kw(s@, p as int, w@) == Some(q as int),
            None => ws_kw(s@, p as int, w@) is None,
        },
        r matches Some(q) ==> p <= q <= s.len(),
{
    let a = skip_exec(s, p);
    match kw_exec(s, a, w) {
        Some(q) => Some(skip_exec(s, q)),
        None => None,
    }
}

// ───────────────────────── identifiers ─────────────────────────

/// The end of the run of characters satisfying `f` that starts at `p`.
pub open spec fn run_end(s: Seq<char>, p: int, f: spec_fn(char) -> bool) -> int
    decreases s.len() - p,
{
    if p < 0 || p >= s.len() || !f(s[p]) {
        p
    } else {
        run_end(s, p + 1, f)
    }
}

pub proof fn lemma_run_end(s: Seq<char>, p: int, f: spec_fn(char) -> bool)
    requires
        0 <= p <= s.len(),
    ensures
        p <= run_end(s, p, f) <= s.len(),
        forall|j: int| p <= j < run_end(s, p, f) ==> f(#[trigger] s[j]),
    decreases s.len() - p,
{
    if p < s.len() && f(s[p]) {
        lemma_run_end(s, p + 1, f);
    }
}

/// The words that cannot be identifiers.
pub open spec fn reserved(w: Seq<char>) -> bool {
    ||| w == "if"@ ||| w == "else"@ ||| w == "let"@ ||| w == "const"@ ||| w == "mut"@
    ||| w == "while"@ ||| w == "for"@ ||| w == "in"@ ||| w == "by"@ ||| w == "scope"@
    ||| w == "spawn"@ ||| w == "call"@ ||| w == "json"@ ||| w == "validate"@ ||| w == "true"@
    ||| w == "false"@ ||| w == "return"@ ||| w == "break"@ ||| w == "continue"@
    ||| w == "nondeterministic"@ ||| w == "deterministic"@ ||| w == "nondet"@ ||| w == "det"@
    ||| w == "fn"@ ||| w == "Untrusted"@ ||| w == "i64"@ ||| w == "f64"@ ||| w == "bool"@
    ||| w == "char"@ ||| w == "u8"@ ||| w == "Void"@ ||| w == "print"@ ||| w == "println"@
    ||| w == "input"@ ||| w == "inputln"@
}

/// An identifier: ASCII letters or `_`, then letters, digits and `_`; not a
/// reserved word.
pub open spec fn ident(s: Seq<char>, p: int) -> Option<(int, Seq<char>)> {
    if 0 <= p < s.len() && (is_ascii_alpha(s[p]) || s[p] == '_') {
        let a = if is_ascii_alpha(s[p]) {
            run_end(s, p, |c: char| is_ascii_alpha(c))
        } else {
            p + 1
        };
        let e = run_end(s, a, |c: char| is_ident_char(c));
        if reserved(s.subrange(p, e)) {
            None
        } else {
            Some((e, s.subrange(p, e)))
        }
    } else {
        None
    }
}

fn is_reserved(s: &Vec<char>, p: usize, e: usize) -> (r: bool)
    requires
        p <= e <= s.len(),
    ensures
        r == reserved(s@.subrange(p as int, e as int)),
{
    let w = string_from_chars(s, p, e);
    let ws = w.as_str();
    str_eq(ws, "if")
        || str_eq(ws, "else")
        || str_eq(ws, "let")
        || str_eq(ws, "const")
        || str_eq(ws, "mut")
        || str_eq(ws, "while")
        || str_eq(ws, "for")
        || str_eq(ws, "in")
        || str_eq(ws, "by")
        || str_eq(ws, "scope")
        || str_eq(ws, "spawn")
        || str_eq(ws, "call")
        || str_eq(ws, "json")
        || str_eq(ws, "validate")
        || str_eq(ws, "true")
        || str_eq(ws, "false")
        || str_eq(ws, "return")
        || str_eq(ws, "break")
        || str_eq(ws, "continue")
        || str_eq(ws, "nondeterministic")
        || str_eq(ws, "deterministic")
        || str_eq(ws, "nondet")
        || str_eq(ws, "det")
        || str_eq(ws, "fn")
        || str_eq(ws, "Untrusted")
        || str_eq(ws, "i64")
        || str_eq(ws, "f64")
        || str_eq(ws, "bool")
        || str_eq(ws, "char")
        || str_eq(ws, "u8")
        || str_eq(ws, "Void")
        || str_eq(ws, "print")
        || str_eq(ws, "println")
        || str_eq(ws, "input")
        || str_eq(ws, "inputln")
}

pub fn ident_exec(s: &Vec<char>, p: usize) -> (r: Option<(usize, String)>)
    requires
        p <= s.len(),
    ensures
        match r {
            Some((q, w)) => ident(s@, p as int) == Some((q as int, w@)),
            None => ident(s@, p as int) is None,
        },
        r matches Some((q, _)) ==> p < q <= s.len(),
{
    if !(p < s.len() && (ascii_alpha(s[p]) || s[p] == '_')) {
        return None;
    }
    let mut a = p + 1;
    if ascii_alpha(s[p]) {
        proof {
            lemma_run_end(s@, p as int, |c: char| is_ascii_alpha(c));
        }
        while a < s.len() && ascii_alpha(s[a])
            invariant
                p < a <= s.len(),
                run_end(s@, p as int, |c: char| is_ascii_alpha(c)) == run_end(
                    s@,
                    a as int,
                    |c: char| is_ascii_alpha(c),
                ),
            decreases s.len() - a,
        {
            a += 1;
        }
    }
    let mut e = a;
    while e < s.len() && ident_char(s[e])
        invariant
            a <= e <= s.len(),
            run_end(s@, a as int, |c: char| is_ident_char(c)) == run_end(
                s@,
                e as int,
                |c: char| is_ident_char(c),
            ),
        decreases s.len() - e,
    {
        e += 1;
    }
    if is_reserved(s, p, e) {
        return None;
    }
    Some((e, string_from_chars(s, p, e)))
}

// ───────────────────────── numbers ─────────────────────────

pub open spec fn digit_value(c: char) -> nat {
    ((c as int) - ('0' as int)) as nat
}

/// The number that a string of decimal digits denotes.
pub open spec fn digits_value(d: Seq<char>) -> nat
    decreases d.len(),
{
    if d.len() == 0 {
        0
    } else {
        digits_value(d.drop_last()) * 10 + digit_value(d.last())
    }
}

/// One or more decimal digits: their end.
pub open spec fn digits(s: Seq<char>, p: int) -> Option<int> {
    let e = run_end(s, p, |c: char| is_digit(c));
    if e > p {
        Some(e)
    } else {
        None
    }
}

/// A decimal integer that fits in `i64`.
pub open spec fn number(s: Seq<char>, p: int) -> Option<(int, i64)> {
    match digits(s, p) {
        Some(e) => if digits_value(s.subrange(p, e)) <= i64::MAX {
            Some((e, digits_value(s.subrange(p, e)) as i64))
        } else {
            None
        },
        None => None,
    }
}

/// A decimal index; a value too large for `usize` becomes 0.
pub open spec fn index_number(s: Seq<char>, p: int) -> Option<(int, usize)> {
    match digits(s, p) {
        Some(e) => if digits_value(s.subrange(p, e)) <= usize::MAX {
            Some((e, digits_value(s.subrange(p, e)) as usize))
        } else {
            Some((e, 0usize))
        },
        None => None,
    }
}

/// A floating-point literal `digits.digits`, kept as its text.
pub open spec fn float_number(s: Seq<char>, p: int) -> Option<(int, Seq<char>)> {
    match digits(s, p) {
        Some(a) => if 0 <= a < s.len() && s[a] == '.' {
            match digits(s, a + 1) {
                Some(e) => Some((e, s.subrange(p, e))),
                None => None,
            }
        } else {
            None
        },
        None => None,
    }
}

pub fn digits_exec(s: &Vec<char>, p: usize) -> (r: Option<usize>)
    requires
        p <= s.len(),
    ensures
        match r {
            Some(e) => digits(s@, p as int) == Some(e as int),
            None => digits(s@, p as int) is None,
        },
        r matches Some(e) ==> p < e <= s.len(),
{
    let mut e = p;
    while e < s.len() && digit(s[e])
        invariant
            p <= e <= s.len(),
            run_end(s@, p as int, |c: char| is_digit(c)) == run_end(s@, e as int, |c: char| is_digit(c)),
        decreases s.len() - e,
    {
        e += 1;
    }
    if e > p {
        Some(e)
    } else {
        None
    }
}

proof fn lemma_digits_value_grows(d: Seq<char>, k: int)
    requires
        0 <= k <= d.len(),
    ensures
        digits_value(d.take(k)) <= digits_value(d),
    decreases d.len(),
{
    if k < d.len() {
        assert(d.drop_last().take(k) == d.take(k));
        lemma_digits_value_grows(d.drop_last(), k);
    } else {
        assert(d.take(k) == d);
    }
}

/// The value of the digits `s[p..e]`, or `None` when it exceeds `limit`.
pub(crate) fn digits_value_exec(s: &Vec<char>, p: usize, e: usize, limit: u64) -> (r: Option<u64>)
    requires
        p <= e <= s.len(),
        forall|j: int| p <= j < e ==> is_digit(#[trigger] s@[j]),
        limit >= 9,
    ensures
        match r {
            Some(v) => v as nat == digits_value(s@.subrange(p as int, e as int)) && v <= limit,
            None => digits_value(s@.subrange(p as int, e as int)) > limit,
        },
{
    let ghost d = s@.subrange(p as int, e as int);
    let mut v: u64 = 0;
    let mut i = p;
    while i < e
        invariant
            p <= i <= e <= s.len(),
            d == s@.subrange(p as int, e as int),
            forall|j: int| p <= j < e ==> is_digit(#[trigger] s@[j]),
            limit >= 9,
            v as nat == digits_value(d.take(i - p)),
            v <= limit,
        decreases e - i,
    {
        let c = s[i];
        assert(is_digit(s@[i as int]));
        let dv: u64 = (c as u32 - '0' as u32) as u64;
        proof {
            assert(d.take(i - p + 1).drop_last() == d.take(i - p));
            assert(d.take(i - p + 1).last() == c);
        }
        if v > (limit - dv) / 10 {
            proof {
                assert(v * 10 + dv > limit) by (nonlinear_arith)
                    requires
                        v > (limit - dv) / 10,
                        dv <= 9,
                        dv <= limit || v > 0,
                ;
                lemma_digits_value_grows(d, i - p + 1);
            }
            return None;
        }
        proof {
            assert(v * 10 + dv <= limit) by (nonlinear_arith)
                requires
                    v <= (limit - dv) / 10,
                    dv <= limit,
            ;
        }
        v = v * 10 + dv;
        i += 1;
    }
    proof {
        assert(d.take(e - p) == d);
    }
    Some(v)
}

pub fn number_exec(s: &Vec<char>, p: usize) -> (r: Option<(usize, i64)>)
    requires
        p <= s.len(),
    ensures
        match r {
            Some((e, v)) => number(s@, p as int) == Some((e as int, v)),
            None => number(s@, p as int) is None,
        },
        r matches Some((e, _)) ==> p < e <= s.len(),
{
    match digits_exec(s, p) {
        Some(e) => {
            proof {
                lemma_run_end(s@, p as int, |c: char| is_digit(c));
            }
            match digits_value_exec(s, p, e, 9223372036854775807u64) {
                Some(v) => Some((e, v as i64)),
                None => None,
            }
        },
        None => None,
    }
}

pub fn index_number_exec(s: &Vec<char>, p: usize) -> (r: Option<(usize, usize)>)
    requires
        p <= s.len(),
    ensures
        match r {
            Some((e, v)) => index_number(s@, p as int) == Some((e as int, v)),
            None => index_number(s@, p as int) is None,
        },
        r matches Some((e, _)) ==> p < e <= s.len(),
{
    match digits_exec(s, p) {
        Some(e) => {
            proof {
                lemma_run_end(s@, p as int, |c: char| is_digit(c));
            }
            match digits_value_exec(s, p, e, usize::MAX as u64) {
                Some(v) => Some((e, v as usize)),
                None => Some((e, 0)),
            }
        },
        None => None,
    }
}

pub fn float_exec(s: &Vec<char>, p: usize) -> (r: Option<(usize, String)>)
    requires
        p <= s.len(),
    ensures
        match r {
            Some((e, t)) => float_number(s@, p as int) == Some((e as int, t@)),
            None => float_number(s@, p as int) is None,
        },
        r matches Some((e, _)) ==> p < e <= s.len(),
{
    match digits_exec(s, p) {
        Some(a) => {
            if a < s.len() && s[a] == '.' {
                match digits_exec(s, a + 1) {
                    Some(e) => Some((e, string_from_chars(s, p, e))),
                    None => None,
                }
            } else {
                None
            }
        },
        None => None,
    }
}

// ───────────────────────── character and string literals ─────────────────────────

/// A character literal `'c'`, with the escapes `\n`, `\t`, `\\`, `\'`, `\0`.
pub open spec fn char_lit(s: Seq<char>, p: int) -> Option<(int, char)> {
    if 0 <= p < s.len() && s[p] == '\'' {
        let q = p + 1;
        let (r, c) = if at(s, q, "\\n"@) {
            (q + 2, '\n')
        } else if at(s, q, "\\t"@) {
            (q + 2, '\t')
        } else if at(s, q, "\\\\"@) {
            (q + 2, '\\')
        } else if at(s, q, "\\'"@) {
            (q + 2, '\'')
        } else if at(s, q, "\\0"@) {
            (q + 2, '\0')
        } else if q < s.len() {
            (q + 1, s[q])
        } else {
            (-1, ' ')
        };
        if 0 <= r < s.len() && s[r] == '\'' {
            Some((r + 1, c))
        } else {
            None
        }
    } else {
        None
    }
}

pub fn char_lit_exec(s: &Vec<char>, p: usize) -> (r: Option<(usize, char)>)
    requires
        p <= s.len(),
    ensures
        match r {
            Some((e, c)) => char_lit(s@, p as int) == Some((e as int, c)),
            None => char_lit(s@, p as int) is None,
        },
        r matches Some((e, _)) ==> p < e <= s.len(),
{
    proof {
        reveal_strlit("\\n");
        reveal_strlit("\\t");
        reveal_strlit("\\\\");
        reveal_strlit("\\'");
        reveal_strlit("\\0");
    }
    if !(p < s.len() && s[p] == '\'') {
        return None;
    }
    let q = p + 1;
    let (r, c) = if at_exec(s, q, "\\n") {
        (q + 2, '\n')
    } else if at_exec(s, q, "\\t") {
        (q + 2, '\t')
    } else if at_exec(s, q, "\\\\") {
        (q + 2, '\\')
    } else if at_exec(s, q, "\\'") {
        (q + 2, '\'')
    } else if at_exec(s, q, "\\0") {
        (q + 2, '\0')
    } else if q < s.len() {
        (q + 1, s[q])
    } else {
        return None;
    };
    if r < s.len() && s[r] == '\'' {
        Some((r + 1, c))
    } else {
        None
    }
}

/// The character that an escape `\x` inside a string stands for, if `x` is
/// one of `"`, `\`, `n`, `t`.
pub open spec fn str_escape(x: char) -> Option<char> {
    if x == '"' {
        Some('"')
    } else if x == '\\' {
        Some('\\')
    } else if x == 'n' {
        Some('\n')
    } else if x == 't' {
        Some('\t')
    } else {
        None
    }
}

/// The rest of a plain string literal from `q`, the text read so far being `acc`.
pub open spec fn plain_body(s: Seq<char>, q: int, acc: Seq<char>) -> Option<(int, Seq<char>)>
    decreases s.len() - q,
{
    if q < 0 || q >= s.len() {
        None
    } else if s[q] == '"' {
        Some((q + 1, acc))
    } else if s[q] == '\\' && q + 1 < s.len() && str_escape(s[q + 1]) is Some {
        plain_body(s, q + 2, acc.push(str_escape(s[q + 1])->0))
    } else {
        plain_body(s, q + 1, acc.push(s[q]))
    }
}

/// A string literal without interpolation.
pub open spec fn plain_string(s: Seq<char>, p: int) -> Option<(int, Seq<char>)> {
    if 0 <= p < s.len() && s[p] == '"' {
        plain_body(s, p + 1, Seq::empty())
    } else {
        None
    }
}

pub fn escape_exec(x: char) -> (r: Option<char>)
    ensures
        r == str_escape(x),
{
    if x == '"' {
        Some('"')
    } else if x == '\\' {
        Some('\\')
    } else if x == 'n' {
        Some('\n')
    } else if x == 't' {
        Some('\t')
    } else {
        None
    }
}

pub proof fn lemma_plain_body(s: Seq<char>, q: int, acc: Seq<char>)
    ensures
        plain_body(s, q, acc) matches Some((e, _)) ==> q < e <= s.len(),
    decreases s.len() - q,
{
    if 0 <= q < s.len() && s[q] != '"' {
        if s[q] == '\\' && q + 1 < s.len() && str_escape(s[q + 1]) is Some {
            lemma_plain_body(s, q + 2, acc.push(str_escape(s[q + 1])->0));
        } else {
            lemma_plain_body(s, q + 1, acc.push(s[q]));
        }
    }
}

pub fn plain_string_exec(s: &Vec<char>, p: usize) -> (r: Option<(usize, String)>)
    requires
        p <= s.len(),
    ensures
        match r {
            Some((e, t)) => plain_string(s@, p as int) == Some((e as int, t@)),
            None => plain_string(s@, p as int) is None,
        },
        r matches Some((e, _)) ==> p < e <= s.len(),
{
    if !(p < s.len() && s[p] == '"') {
        return None;
    }
    let mut acc = String::new();
    let mut q = p + 1;
    while q < s.len()
        invariant
            p < q <= s.len(),
            plain_string(s@, p as int) == plain_body(s@, q as int, acc@),
        decreases s.len() - q,
    {
        if s[q] == '"' {
            return Some((q + 1, acc));
        }
        if s[q] == '\\' && q + 1 < s.len() {
            if let Some(c) = escape_exec(s[q + 1]) {
                acc.push(c);
                q += 2;
                continue;
            }
        }
        acc.push(s[q]);
        q += 1;
    }
    None
}

// ───────────────────────── bounds ─────────────────────────

proof fn lemma_trim(s: Seq<char>, p: int)
    requires
        0 <= p <= s.len(),
    ensures
        p <= trim(s, p) <= s.len(),
    decreases s.len() - p,
{
    if p < s.len() && is_unicode_space(s[p]) {
        lemma_trim(s, p + 1);
    }
}

pub broadcast proof fn lemma_skip_bounds(s: Seq<char>, p: int)
    ensures
        p <= #[trigger] skip(s, p),
        p < skip(s, p) ==> skip(s, p) <= s.len(),
{
    if 0 <= p <= s.len() {
        lemma_skip(s, p);
    }
}

pub broadcast proof fn lemma_trim_bounds(s: Seq<char>, p: int)
    ensures
        p <= #[trigger] trim(s, p),
        p < trim(s, p) ==> trim(s, p) <= s.len(),
{
    if 0 <= p <= s.len() {
        lemma_trim(s, p);
    }
}

pub broadcast proof fn lemma_kw_bounds(s: Seq<char>, p: int, w: Seq<char>)
    ensures
        #[trigger] kw(s, p, w) is Some ==> kw(s, p, w)->0 == p + w.len() && 0 <= p && p
            + w.len() <= s.len(),
{
}

pub broadcast proof fn lemma_ws_char_bounds(s: Seq<char>, p: int, c: char)
    ensures
        #[trigger] ws_char(s, p, c) is Some ==> p < ws_char(s, p, c)->0 <= s.len(),
{
    let a = skip(s, p);
    lemma_skip_bounds(s, p);
    if 0 <= a < s.len() {
        lemma_skip_bounds(s, a + 1);
    }
}

pub broadcast proof fn lemma_ws_tag_bounds(s: Seq<char>, p: int, t: Seq<char>)
    ensures
        #[trigger] ws_tag(s, p, t) is Some ==> p + t.len() <= ws_tag(s, p, t)->0 <= s.len(),
{
    let a = skip(s, p);
    lemma_skip_bounds(s, p);
    if at(s, a, t) {
        lemma_skip_bounds(s, a + t.len());
    }
}

pub broadcast proof fn lemma_ws_kw_bounds(s: Seq<char>, p: int, w: Seq<char>)
    ensures
        #[trigger] ws_kw(s, p, w) is Some ==> p + w.len() <= ws_kw(s, p, w)->0 <= s.len(),
{
    let a = skip(s, p);
    lemma_skip_bounds(s, p);
    if let Some(q) = kw(s, a, w) {
        lemma_skip_bounds(s, q);
    }
}

pub broadcast proof fn lemma_ident_bounds(s: Seq<char>, p: int)
    ensures
        #[trigger] ident(s, p) is Some ==> p < (ident(s, p)->0).0 <= s.len(),
{
    if 0 <= p < s.len() && (is_ascii_alpha(s[p]) || s[p] == '_') {
        let a = if is_ascii_alpha(s[p]) {
            run_end(s, p, |c: char| is_ascii_alpha(c))
        } else {
            p + 1
        };
        if is_ascii_alpha(s[p]) {
            lemma_run_end(s, p, |c: char| is_ascii_alpha(c));
            assert(run_end(s, p, |c: char| is_ascii_alpha(c)) == run_end(
                s,
                p + 1,
                |c: char| is_ascii_alpha(c),
            ));
            lemma_run_end(s, p + 1, |c: char| is_ascii_alpha(c));
        }
        lemma_run_end(s, a, |c: char| is_ident_char(c));
    }
}

pub broadcast proof fn lemma_digits_bounds(s: Seq<char>, p: int)
    ensures
        #[trigger] digits(s, p) is Some ==> p < digits(s, p)->0 <= s.len(),
{
    if 0 <= p <= s.len() {
        lemma_run_end(s, p, |c: char| is_digit(c));
    }
}

pub broadcast proof fn lemma_number_bounds(s: Seq<char>, p: int)
    ensures
        #[trigger] number(s, p) is Some ==> p < (number(s, p)->0).0 <= s.len(),
{
    lemma_digits_bounds(s, p);
}

pub broadcast proof fn lemma_index_number_bounds(s: Seq<char>, p: int)
    ensures
        #[trigger] index_number(s, p) is Some ==> p < (index_number(s, p)->0).0 <= s.len(),
{
    lemma_digits_bounds(s, p);
}

pub broadcast proof fn lemma_float_bounds(s: Seq<char>, p: int)
    ensures
        #[trigger] float_number(s, p) is Some ==> p < (float_number(s, p)->0).0 <= s.len(),
{
    lemma_digits_bounds(s, p);
    if let Some(a) = digits(s, p) {
        lemma_digits_bounds(s, a + 1);
    }
}

pub broadcast proof fn lemma_char_lit_bounds(s: Seq<char>, p: int)
    ensures
        #[trigger] char_lit(s, p) is Some ==> p < (char_lit(s, p)->0).0 <= s.len(),
{
}

pub broadcast proof fn lemma_plain_string_bounds(s: Seq<char>, p: int)
    ensures
        #[trigger] plain_string(s, p) is Some ==> p < (plain_string(s, p)->0).0 <= s.len(),
{
    lemma_plain_body(s, p + 1, Seq::empty());
}

pub broadcast group group_lexer_bounds {
    lemma_skip_bounds,
    lemma_trim_bounds,
    lemma_kw_bounds,
    lemma_ws_char_bounds,
    lemma_ws_tag_bounds,
    lemma_ws_kw_bounds,
    lemma_ident_bounds,
    lemma_digits_bounds,
    lemma_number_bounds,
    lemma_index_number_bounds,
    lemma_float_bounds,
    lemma_char_lit_bounds,
    lemma_plain_string_bounds,
}

// ───────────────────────── operators and other tokens ─────────────────────────

/// `q` lies after `p` and inside the source.
pub open spec fn forward(s: Seq<char>, p: int, q: int) -> bool {
    p < q && q <= s.len()
}

/// The first of two alternatives that matched.
pub open spec fn either<A>(a: Option<A>, b: Option<A>) -> Option<A> {
    if a is Some {
        a
    } else {
        b
    }
}


/// Blanks, the text `t`, blanks: the operator `op`.
pub open spec fn tag_op(s: Seq<char>, p: int, t: Seq<char>, op: BinaryOp) -> Option<(int, BinaryOp)> {
    match ws_tag(s, p, t) {
        Some(q) => Some((q, op)),
        None => None,
    }
}

/// Blanks, the character `c`, blanks: the operator `op`.
pub open spec fn char_op(s: Seq<char>, p: int, c: char, op: BinaryOp) -> Option<(int, BinaryOp)> {
    match ws_char(s, p, c) {
        Some(q) => Some((q, op)),
        None => None,
    }
}

/// White space, a single `c` not followed by a second `c`, white space: the
/// operator `op` (`&` and `|`, which must not be read as `&&` and `||`).
pub open spec fn single_op(s: Seq<char>, p: int, c: char, op: BinaryOp) -> Option<(int, BinaryOp)> {
    let t = trim(s, p);
    if 0 <= t < s.len() && s[t] == c && !(t + 1 < s.len() && s[t + 1] == c) {
        Some((trim(s, t + 1), op))
    } else {
        None
    }
}

/// The binary operator of precedence level `lvl` at `p`, and where its right
/// operand starts. Levels from loosest to tightest: `||`; `&&`; comparisons;
/// `|`; `^`; `&`; shifts; `+ -`; `* / %`.
pub open spec fn binop(s: Seq<char>, p: int, lvl: nat) -> Option<(int, BinaryOp)> {
    if lvl == 0 {
        tag_op(s, p, "||"@, BinaryOp::Or)
    } else if lvl == 1 {
        tag_op(s, p, "&&"@, BinaryOp::And)
    } else if lvl == 2 {
        either(
            tag_op(s, p, "=="@, BinaryOp::Eq),
            either(
                tag_op(s, p, "!="@, BinaryOp::Neq),
                either(
                    tag_op(s, p, ">="@, BinaryOp::Gte),
                    either(
                        tag_op(s, p, "<="@, BinaryOp::Lte),
                        either(char_op(s, p, '>', BinaryOp::Gt), char_op(s, p, '<', BinaryOp::Lt)),
                    ),
                ),
            ),
        )
    } else if lvl == 3 {
        single_op(s, p, '|', BinaryOp::BitOr)
    } else if lvl == 4 {
        char_op(s, p, '^', BinaryOp::BitXor)
    } else if lvl == 5 {
        single_op(s, p, '&', BinaryOp::BitAnd)
    } else if lvl == 6 {
        either(tag_op(s, p, "<<"@, BinaryOp::Shl), tag_op(s, p, ">>"@, BinaryOp::Shr))
    } else if lvl == 7 {
        either(char_op(s, p, '+', BinaryOp::Add), char_op(s, p, '-', BinaryOp::Sub))
    } else if lvl == 8 {
        either(
            char_op(s, p, '*', BinaryOp::Mul),
            either(char_op(s, p, '/', BinaryOp::Div), char_op(s, p, '%', BinaryOp::Mod)),
        )
    } else {
        None
    }
}

pub broadcast proof fn lemma_binop_bounds(s: Seq<char>, p: int, lvl: nat)
    ensures
        #[trigger] binop(s, p, lvl) is Some ==> forward(s, p, (binop(s, p, lvl)->0).0),
{
    broadcast use group_lexer_bounds;

    reveal_strlit("||");
    reveal_strlit("&&");
    reveal_strlit("==");
    reveal_strlit("!=");
    reveal_strlit(">=");
    reveal_strlit("<=");
    reveal_strlit("<<");
    reveal_strlit(">>");
    let t = trim(s, p);
    if 0 <= t < s.len() {
        assert(t + 1 <= trim(s, t + 1));
    }
}


/// The text `t` at `p`, and the position after it.
pub open spec fn tag(s: Seq<char>, p: int, t: Seq<char>) -> Option<int> {
    if at(s, p, t) {
        Some(p + t.len())
    } else {
        None
    }
}

/// Blanks, then the keyword `w1` or else `w2`, then blanks: which one, and the
/// position after.
pub open spec fn ws_kw_either(s: Seq<char>, p: int, w1: Seq<char>, w2: Seq<char>) -> Option<
    (int, Seq<char>),
> {
    let a = skip(s, p);
    match kw(s, a, w1) {
        Some(b) => Some((skip(s, b), w1)),
        None => match kw(s, a, w2) {
            Some(b) => Some((skip(s, b), w2)),
            None => None,
        },
    }
}

/// The first occurrence of `c` at or after `q`.
pub open spec fn find_char(s: Seq<char>, q: int, c: char) -> Option<int>
    decreases s.len() - q,
{
    if q < 0 || q >= s.len() {
        None
    } else if s[q] == c {
        Some(q)
    } else {
        find_char(s, q + 1, c)
    }
}

pub broadcast proof fn lemma_find_char(s: Seq<char>, q: int, c: char)
    ensures
        #[trigger] find_char(s, q, c) is Some ==> q <= find_char(s, q, c)->0 < s.len() && s[find_char(s, q, c)->0] == c,
    decreases s.len() - q,
{
    if 0 <= q < s.len() && s[q] != c {
        lemma_find_char(s, q + 1, c);
    }
}


fn tag_op_exec(s: &Vec<char>, p: usize, t: &str, op: BinaryOp) -> (r: Option<(usize, BinaryOp)>)
    requires
        p <= s.len(),
    ensures
        match r {
            Some((q, o)) => tag_op(s@, p as int, t@, op) == Some((q as int, o)),
            None => tag_op(s@, p as int, t@, op) is None,
        },
{
    match ws_tag_exec(s, p, t) {
        Some(q) => Some((q, op)),
        None => None,
    }
}

fn char_op_exec(s: &Vec<char>, p: usize, c: char, op: BinaryOp) -> (r: Option<(usize, BinaryOp)>)
    requires
        p <= s.len(),
    ensures
        match r {
            Some((q, o)) => char_op(s@, p as int, c, op) == Some((q as int, o)),
            None => char_op(s@, p as int, c, op) is None,
        },
{
    match ws_char_exec(s, p, c) {
        Some(q) => Some((q, op)),
        None => None,
    }
}

fn single_op_exec(s: &Vec<char>, p: usize, c: char, op: BinaryOp) -> (r: Option<(usize, BinaryOp)>)
    requires
        p <= s.len(),
    ensures
        match r {
            Some((q, o)) => single_op(s@, p as int, c, op) == Some((q as int, o)),
            None => single_op(s@, p as int, c, op) is None,
        },
{
    let t = trim_exec(s, p);
    if t < s.len() && s[t] == c && !(t + 1 < s.len() && s[t + 1] == c) {
        Some((trim_exec(s, t + 1), op))
    } else {
        None
    }
}

/// The binary operator of level `lvl` at `p`.
pub fn binop_exec(s: &Vec<char>, p: usize, lvl: usize) -> (r: Option<(usize, BinaryOp)>)
    requires
        p <= s.len(),
    ensures
        match r {
            Some((q, op)) => binop(s@, p as int, lvl as nat) == Some((q as int, op)) && forward(
                s@,
                p as int,
                q as int,
            ),
            None => binop(s@, p as int, lvl as nat) is None,
        },
{
    broadcast use group_token_bounds;

    if lvl == 0 {
        tag_op_exec(s, p, "||", BinaryOp::Or)
    } else if lvl == 1 {
        tag_op_exec(s, p, "&&", BinaryOp::And)
    } else if lvl == 2 {
        let r = tag_op_exec(s, p, "==", BinaryOp::Eq);
        if r.is_some() {
            return r;
        }
        let r = tag_op_exec(s, p, "!=", BinaryOp::Neq);
        if r.is_some() {
            return r;
        }
        let r = tag_op_exec(s, p, ">=", BinaryOp::Gte);
        if r.is_some() {
            return r;
        }
        let r = tag_op_exec(s, p, "<=", BinaryOp::Lte);
        if r.is_some() {
            return r;
        }
        let r = char_op_exec(s, p, '>', BinaryOp::Gt);
        if r.is_some() {
            return r;
        }
        char_op_exec(s, p, '<', BinaryOp::Lt)
    } else if lvl == 3 {
        single_op_exec(s, p, '|', BinaryOp::BitOr)
    } else if lvl == 4 {
        char_op_exec(s, p, '^', BinaryOp::BitXor)
    } else if lvl == 5 {
        single_op_exec(s, p, '&', BinaryOp::BitAnd)
    } else if lvl == 6 {
        let r = tag_op_exec(s, p, "<<", BinaryOp::Shl);
        if r.is_some() {
            return r;
        }
        tag_op_exec(s, p, ">>", BinaryOp::Shr)
    } else if lvl == 7 {
        let r = char_op_exec(s, p, '+', BinaryOp::Add);
        if r.is_some() {
            return r;
        }
        char_op_exec(s, p, '-', BinaryOp::Sub)
    } else if lvl == 8 {
        let r = char_op_exec(s, p, '*', BinaryOp::Mul);
        if r.is_some() {
            return r;
        }
        let r = char_op_exec(s, p, '/', BinaryOp::Div);
        if r.is_some() {
            return r;
        }
        char_op_exec(s, p, '%', BinaryOp::Mod)
    } else {
        None
    }
}

/// The text `t` at `p`.
pub fn tag_exec(s: &Vec<char>, p: usize, t: &str) -> (r: Option<usize>)
    requires
        p <= s.len(),
    ensures
        match r {
            Some(q) => tag(s@, p as int, t@) == Some(q as int) && q <= s.len(),
            None => tag(s@, p as int, t@) is None,
        },
{
    if at_exec(s, p, t) {
        Some(p + t.unicode_len())
    } else {
        None
    }
}

/// Blanks, the keyword `w1` or else `w2`, blanks.
pub fn ws_kw_either_exec(s: &Vec<char>, p: usize, w1: &str, w2: &str) -> (r: Option<
    (usize, String),
>)
    requires
        p <= s.len(),
    ensures
        match r {
            Some((q, w)) => ws_kw_either(s@, p as int, w1@, w2@) == Some((q as int, w@)) && p
                <= q <= s.len(),
            None => ws_kw_either(s@, p as int, w1@, w2@) is None,
        },
{
    broadcast use group_lexer_bounds;

    let a = skip_exec(s, p);
    match kw_exec(s, a, w1) {
        Some(b) => Some((skip_exec(s, b), crate::text::str_to_string(w1))),
        None => match kw_exec(s, a, w2) {
            Some(b) => Some((skip_exec(s, b), crate::text::str_to_string(w2))),
            None => None,
        },
    }
}

/// The first `c` at or after `q`.
pub fn find_char_exec(s: &Vec<char>, q: usize, c: char) -> (r: Option<usize>)
    requires
        q <= s.len(),
    ensures
        match r {
            Some(e) => find_char(s@, q as int, c) == Some(e as int),
            None => find_char(s@, q as int, c) is None,
        },
{
    let mut i = q;
    while i < s.len()
        invariant
            q <= i <= s.len(),
            find_char(s@, q as int, c) == find_char(s@, i as int, c),
        decreases s.len() - i,
    {
        if s[i] == c {
            return Some(i);
        }
        i += 1;
    }
    None
}

pub broadcast group group_token_bounds {
    lemma_binop_bounds,
    lemma_find_char,
}

} // verus!
