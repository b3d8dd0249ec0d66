//! Lexical scanning primitives shared by every section parser: whitespace
//! skipping, word (keyword) scanning, string literals and punctuation.
//!
//! All scanners are pure functions of the text and a start offset; each
//! executable scanner is proved to return exactly what its specification
//! counterpart denotes.

use vstd::prelude::*;

verus! {

use crate::diag::ErrorKind;
use crate::diag::ErrorKindV;
use crate::diag::ErrorV;
use crate::diag::ParseError;

/// Whitespace between tokens.
pub open spec fn is_ws(c: char) -> bool {
    c == ' ' || c == '\t' || c == '\n' || c == '\r'
}

/// Characters a keyword word is made of.
pub open spec fn is_word_char(c: char) -> bool {
    ('a' <= c && c <= 'z') || ('A' <= c && c <= 'Z') || ('0' <= c && c <= '9') || c == '_'
}

/// Offset of the first non-whitespace character at or after `pos`.
pub open spec fn spec_skip_ws(s: Seq<char>, pos: int) -> int
    decreases s.len() - pos,
    when 0 <= pos <= s.len()
{
    if pos < s.len() && is_ws(s[pos]) {
        spec_skip_ws(s, pos + 1)
    } else {
        pos
    }
}

/// End of the word starting at `pos`: the first offset at or after `pos`
/// holding no word character.
pub open spec fn spec_word_end(s: Seq<char>, pos: int) -> int
    decreases s.len() - pos,
    when 0 <= pos <= s.len()
{
    if pos < s.len() && is_word_char(s[pos]) {
        spec_word_end(s, pos + 1)
    } else {
        pos
    }
}

/// Offset of the first `"` at or after `pos`, if any.
pub open spec fn spec_find_quote(s: Seq<char>, pos: int) -> Option<int>
    decreases s.len() - pos,
    when 0 <= pos <= s.len()
{
    if pos >= s.len() {
        None
    } else if s[pos] == '"' {
        Some(pos)
    } else {
        spec_find_quote(s, pos + 1)
    }
}

/// A string literal at `pos` (after whitespace): `"` then literal text up
/// to the next `"`. On success: the literal text and the offset just past
/// the closing quote. The text is taken verbatim, with no escapes.
pub open spec fn spec_parse_string(s: Seq<char>, pos: int) -> Result<(Seq<char>, int), ErrorV> {
    let p = spec_skip_ws(s, pos);
    if p < s.len() && s[p] == '"' {
        match spec_find_quote(s, p + 1) {
            Some(q) => Ok((s.subrange(p + 1, q), q + 1)),
            None => Err(ErrorV { kind: ErrorKindV::Grammar, pos: p }),
        }
    } else {
        Err(ErrorV { kind: ErrorKindV::Grammar, pos: p })
    }
}

/// A single punctuation character at `pos` (after whitespace).
pub open spec fn spec_expect(s: Seq<char>, pos: int, c: char) -> Result<int, ErrorV> {
    let p = spec_skip_ws(s, pos);
    if p < s.len() && s[p] == c {
        Ok(p + 1)
    } else {
        Err(ErrorV { kind: ErrorKindV::Grammar, pos: p })
    }
}

/// The two-character arrow `=>` at `pos` (after whitespace).
pub open spec fn spec_expect_arrow(s: Seq<char>, pos: int) -> Result<int, ErrorV> {
    let p = spec_skip_ws(s, pos);
    if p + 1 < s.len() && s[p] == '=' && s[p + 1] == '>' {
        Ok(p + 2)
    } else {
        Err(ErrorV { kind: ErrorKindV::Grammar, pos: p })
    }
}

/// The reserved word opening a `cargo` section.
pub open spec fn kw_cargo() -> Seq<char> {
    seq!['c', 'a', 'r', 'g', 'o']
}

/// The reserved word opening an `ensure` section.
pub open spec fn kw_ensure() -> Seq<char> {
    seq!['e', 'n', 's', 'u', 'r', 'e']
}

/// The reserved word opening a script section.
pub open spec fn kw_exec() -> Seq<char> {
    seq!['e', 'x', 'e', 'c']
}

/// The reserved word opening a `packages` section.
pub open spec fn kw_packages() -> Seq<char> {
    seq!['p', 'a', 'c', 'k', 'a', 'g', 'e', 's']
}

/// The reserved word opening a `symlinks` section.
pub open spec fn kw_symlinks() -> Seq<char> {
    seq!['s', 'y', 'm', 'l', 'i', 'n', 'k', 's']
}

/// The reserved word of an apt override.
pub open spec fn kw_apt() -> Seq<char> {
    seq!['a', 'p', 't']
}

/// The reserved word of a pacman override.
pub open spec fn kw_pacman() -> Seq<char> {
    seq!['p', 'a', 'c', 'm', 'a', 'n']
}

/// The reserved word of a brew override.
pub open spec fn kw_brew() -> Seq<char> {
    seq!['b', 'r', 'e', 'w']
}

/// The word found after whitespace at `pos`: its start, end, and text.
pub open spec fn spec_word_at(s: Seq<char>, pos: int) -> (int, int) {
    let p = spec_skip_ws(s, pos);
    (p, spec_word_end(s, p))
}

/// Consume the reserved word `w`, failing with a grammar error at the
/// word's start when a different word (or none) is found.
pub open spec fn spec_expect_kw(s: Seq<char>, pos: int, w: Seq<char>) -> Result<int, ErrorV> {
    let (p, e) = spec_word_at(s, pos);
    if s.subrange(p, e) == w {
        Ok(e)
    } else {
        Err(ErrorV { kind: ErrorKindV::Grammar, pos: p })
    }
}

fn ws_char(c: char) -> (r: bool)
    ensures
        r == is_ws(c),
{
    c == ' ' || c == '\t' || c == '\n' || c == '\r'
}

fn word_char(c: char) -> (r: bool)
    ensures
        r == is_word_char(c),
{
    ('a' <= c && c <= 'z') || ('A' <= c && c <= 'Z') || ('0' <= c && c <= '9') || c == '_'
}

/// Does the word at `[p, e)` spell `cargo`?
pub fn word_is_cargo(s: &Vec<char>, p: usize, e: usize) -> (r: bool)
    requires
        p <= e <= s@.len(),
    ensures
        r == (s@.subrange(p as int, e as int) == kw_cargo()),
{
    let r = e - p == 5 && s[p] == 'c' && s[p + 1] == 'a' && s[p + 2] == 'r' && s[p + 3] == 'g'
        && s[p + 4] == 'o';
    proof {
        let sub = s@.subrange(p as int, e as int);
        if r {
            assert(sub =~= kw_cargo());
        } else if sub == kw_cargo() {
            assert(kw_cargo().len() == 5 && kw_cargo()[0] == 'c' && kw_cargo()[1] == 'a' && kw_cargo()[2] == 'r' && kw_cargo()[3] == 'g' && kw_cargo()[4] == 'o');
            assert(sub[0] == s@[p + 0] && sub[1] == s@[p + 1] && sub[2] == s@[p + 2] && sub[3] == s@[p + 3] && sub[4] == s@[p + 4]);
        }
    }
    r
}

/// Does the word at `[p, e)` spell `ensure`?
pub fn word_is_ensure(s: &Vec<char>, p: usize, e: usize) -> (r: bool)
    requires
        p <= e <= s@.len(),
    ensures
        r == (s@.subrange(p as int, e as int) == kw_ensure()),
{
    let r = e - p == 6 && s[p] == 'e' && s[p + 1] == 'n' && s[p + 2] == 's' && s[p + 3] == 'u'
        && s[p + 4] == 'r' && s[p + 5] == 'e';
    proof {
        let sub = s@.subrange(p as int, e as int);
        if r {
            assert(sub =~= kw_ensure());
        } else if sub == kw_ensure() {
            assert(kw_ensure().len() == 6 && kw_ensure()[0] == 'e' && kw_ensure()[1] == 'n' && kw_ensure()[2] == 's' && kw_ensure()[3] == 'u' && kw_ensure()[4] == 'r' && kw_ensure()[5] == 'e');
            assert(sub[0] == s@[p + 0] && sub[1] == s@[p + 1] && sub[2] == s@[p + 2] && sub[3] == s@[p + 3] && sub[4] == s@[p + 4] && sub[5] == s@[p + 5]);
        }
    }
    r
}

/// Does the word at `[p, e)` spell `exec`?
pub fn word_is_exec(s: &Vec<char>, p: usize, e: usize) -> (r: bool)
    requires
        p <= e <= s@.len(),
    ensures
        r == (s@.subrange(p as int, e as int) == kw_exec()),
{
    let r = e - p == 4 && s[p] == 'e' && s[p + 1] == 'x' && s[p + 2] == 'e' && s[p + 3] == 'c';
    proof {
        let sub = s@.subrange(p as int, e as int);
        if r {
            assert(sub =~= kw_exec());
        } else if sub == kw_exec() {
            assert(kw_exec().len() == 4 && kw_exec()[0] == 'e' && kw_exec()[1] == 'x' && kw_exec()[2] == 'e' && kw_exec()[3] == 'c');
            assert(sub[0] == s@[p + 0] && sub[1] == s@[p + 1] && sub[2] == s@[p + 2] && sub[3] == s@[p + 3]);
        }
    }
    r
}

/// Does the word at `[p, e)` spell `packages`?
pub fn word_is_packages(s: &Vec<char>, p: usize, e: usize) -> (r: bool)
    requires
        p <= e <= s@.len(),
    ensures
        r == (s@.subrange(p as int, e as int) == kw_packages()),
{
    let r = e - p == 8 && s[p] == 'p' && s[p + 1] == 'a' && s[p + 2] == 'c' && s[p + 3] == 'k'
        && s[p + 4] == 'a' && s[p + 5] == 'g' && s[p + 6] == 'e' && s[p + 7] == 's';
    proof {
        let sub = s@.subrange(p as int, e as int);
        if r {
            assert(sub =~= kw_packages());
        } else if sub == kw_packages() {
            assert(kw_packages().len() == 8 && kw_packages()[0] == 'p' && kw_packages()[1] == 'a' && kw_packages()[2] == 'c' && kw_packages()[3] == 'k' && kw_packages()[4] == 'a' && kw_packages()[5] == 'g' && kw_packages()[6] == 'e' && kw_packages()[7] == 's');
            assert(sub[0] == s@[p + 0] && sub[1] == s@[p + 1] && sub[2] == s@[p + 2] && sub[3] == s@[p + 3] && sub[4] == s@[p + 4] && sub[5] == s@[p + 5] && sub[6] == s@[p + 6] && sub[7] == s@[p + 7]);
        }
    }
    r
}

/// Does the word at `[p, e)` spell `symlinks`?
pub fn word_is_symlinks(s: &Vec<char>, p: usize, e: usize) -> (r: bool)
    requires
        p <= e <= s@.len(),
    ensures
        r == (s@.subrange(p as int, e as int) == kw_symlinks()),
{
    let r = e - p == 8 && s[p] == 's' && s[p + 1] == 'y' && s[p + 2] == 'm' && s[p + 3] == 'l'
        && s[p + 4] == 'i' && s[p + 5] == 'n' && s[p + 6] == 'k' && s[p + 7] == 's';
    proof {
        let sub = s@.subrange(p as int, e as int);
        if r {
            assert(sub =~= kw_symlinks());
        } else if sub == kw_symlinks() {
            assert(kw_symlinks().len() == 8 && kw_symlinks()[0] == 's' && kw_symlinks()[1] == 'y' && kw_symlinks()[2] == 'm' && kw_symlinks()[3] == 'l' && kw_symlinks()[4] == 'i' && kw_symlinks()[5] == 'n' && kw_symlinks()[6] == 'k' && kw_symlinks()[7] == 's');
            assert(sub[0] == s@[p + 0] && sub[1] == s@[p + 1] && sub[2] == s@[p + 2] && sub[3] == s@[p + 3] && sub[4] == s@[p + 4] && sub[5] == s@[p + 5] && sub[6] == s@[p + 6] && sub[7] == s@[p + 7]);
        }
    }
    r
}

/// Does the word at `[p, e)` spell `apt`?
pub fn word_is_apt(s: &Vec<char>, p: usize, e: usize) -> (r: bool)
    requires
        p <= e <= s@.len(),
    ensures
        r == (s@.subrange(p as int, e as int) == kw_apt()),
{
    let r = e - p == 3 && s[p] == 'a' && s[p + 1] == 'p' && s[p + 2] == 't';
    proof {
        let sub = s@.subrange(p as int, e as int);
        if r {
            assert(sub =~= kw_apt());
        } else if sub == kw_apt() {
            assert(kw_apt().len() == 3 && kw_apt()[0] == 'a' && kw_apt()[1] == 'p' && kw_apt()[2] == 't');
            assert(sub[0] == s@[p + 0] && sub[1] == s@[p + 1] && sub[2] == s@[p + 2]);
        }
    }
    r
}

/// Does the word at `[p, e)` spell `pacman`?
pub fn word_is_pacman(s: &Vec<char>, p: usize, e: usize) -> (r: bool)
    requires
        p <= e <= s@.len(),
    ensures
        r == (s@.subrange(p as int, e as int) == kw_pacman()),
{
    let r = e - p == 6 && s[p] == 'p' && s[p + 1] == 'a' && s[p + 2] == 'c' && s[p + 3] == 'm'
        && s[p + 4] == 'a' && s[p + 5] == 'n';
    proof {
        let sub = s@.subrange(p as int, e as int);
        if r {
            assert(sub =~= kw_pacman());
        } else if sub == kw_pacman() {
            assert(kw_pacman().len() == 6 && kw_pacman()[0] == 'p' && kw_pacman()[1] == 'a' && kw_pacman()[2] == 'c' && kw_pacman()[3] == 'm' && kw_pacman()[4] == 'a' && kw_pacman()[5] == 'n');
            assert(sub[0] == s@[p + 0] && sub[1] == s@[p + 1] && sub[2] == s@[p + 2] && sub[3] == s@[p + 3] && sub[4] == s@[p + 4] && sub[5] == s@[p + 5]);
        }
    }
    r
}

/// Does the word at `[p, e)` spell `brew`?
pub fn word_is_brew(s: &Vec<char>, p: usize, e: usize) -> (r: bool)
    requires
        p <= e <= s@.len(),
    ensures
        r == (s@.subrange(p as int, e as int) == kw_brew()),
{
    let r = e - p == 4 && s[p] == 'b' && s[p + 1] == 'r' && s[p + 2] == 'e' && s[p + 3] == 'w';
    proof {
        let sub = s@.subrange(p as int, e as int);
        if r {
            assert(sub =~= kw_brew());
        } else if sub == kw_brew() {
            assert(kw_brew().len() == 4 && kw_brew()[0] == 'b' && kw_brew()[1] == 'r' && kw_brew()[2] == 'e' && kw_brew()[3] == 'w');
            assert(sub[0] == s@[p + 0] && sub[1] == s@[p + 1] && sub[2] == s@[p + 2] && sub[3] == s@[p + 3]);
        }
    }
    r
}

/// Skip whitespace, returning the offset of the next token.
pub fn skip_ws(s: &Vec<char>, pos: usize) -> (r: usize)
    requires
        pos <= s@.len(),
    ensures
        r == spec_skip_ws(s@, pos as int),
        pos <= r <= s@.len(),
{
    let mut i: usize = pos;
    while i < s.len() && ws_char(s[i])
        invariant
            pos <= i <= s@.len(),
            spec_skip_ws(s@, pos as int) == spec_skip_ws(s@, i as int),
        decreases s@.len() - i,
    {
        i = i + 1;
    }
    i
}

/// Scan to the end of the word starting at `pos`.
pub fn word_end(s: &Vec<char>, pos: usize) -> (r: usize)
    requires
        pos <= s@.len(),
    ensures
        r == spec_word_end(s@, pos as int),
        pos <= r <= s@.len(),
{
    let mut i: usize = pos;
    while i < s.len() && word_char(s[i])
        invariant
            pos <= i <= s@.len(),
            spec_word_end(s@, pos as int) == spec_word_end(s@, i as int),
        decreases s@.len() - i,
    {
        i = i + 1;
    }
    i
}

/// Parse a string literal.
pub fn parse_string(s: &Vec<char>, pos: usize) -> (r: Result<(Vec<char>, usize), ParseError>)
    requires
        pos <= s@.len(),
    ensures
        match r {
            Ok(t) => spec_parse_string(s@, pos as int) == Ok::<(Seq<char>, int), ErrorV>(
                (t.0@, t.1 as int),
            ) && pos < t.1 <= s@.len(),
            Err(e) => spec_parse_string(s@, pos as int) == Err::<(Seq<char>, int), ErrorV>(e@),
        },
{
    let p = skip_ws(s, pos);
    if p < s.len() && s[p] == '"' {
        let mut q: usize = p + 1;
        while q < s.len() && s[q] != '"'
            invariant
                p + 1 <= q <= s@.len(),
                spec_find_quote(s@, (p + 1) as int) == spec_find_quote(s@, q as int),
            decreases s@.len() - q,
        {
            q = q + 1;
        }
        if q < s.len() {
            let mut v: Vec<char> = Vec::new();
            let mut i: usize = p + 1;
            while i < q
                invariant
                    p + 1 <= i <= q <= s@.len(),
                    v@ == s@.subrange((p + 1) as int, i as int),
                decreases q - i,
            {
                v.push(s[i]);
                assert(v@ =~= s@.subrange((p + 1) as int, (i + 1) as int));
                i = i + 1;
            }
            Ok((v, q + 1))
        } else {
            Err(ParseError { kind: ErrorKind::Grammar, pos: p })
        }
    } else {
        Err(ParseError { kind: ErrorKind::Grammar, pos: p })
    }
}

/// Consume the punctuation character `c`.
pub fn expect(s: &Vec<char>, pos: usize, c: char) -> (r: Result<usize, ParseError>)
    requires
        pos <= s@.len(),
    ensures
        match r {
            Ok(p) => spec_expect(s@, pos as int, c) == Ok::<int, ErrorV>(p as int) && pos < p
                <= s@.len(),
            Err(e) => spec_expect(s@, pos as int, c) == Err::<int, ErrorV>(e@),
        },
{
    let p = skip_ws(s, pos);
    if p < s.len() && s[p] == c {
        Ok(p + 1)
    } else {
        Err(ParseError { kind: ErrorKind::Grammar, pos: p })
    }
}

/// Consume the arrow `=>`.
pub fn expect_arrow(s: &Vec<char>, pos: usize) -> (r: Result<usize, ParseError>)
    requires
        pos <= s@.len(),
    ensures
        match r {
            Ok(p) => spec_expect_arrow(s@, pos as int) == Ok::<int, ErrorV>(p as int) && pos < p
                <= s@.len(),
            Err(e) => spec_expect_arrow(s@, pos as int) == Err::<int, ErrorV>(e@),
        },
{
    let p = skip_ws(s, pos);
    if p < s.len() && p + 1 < s.len() && s[p] == '=' && s[p + 1] == '>' {
        Ok(p + 2)
    } else {
        Err(ParseError { kind: ErrorKind::Grammar, pos: p })
    }
}

/// A comma-separated list of string literals closed by `}`, with an
/// optional trailing comma, as inside `cargo { ... }` and `ensure { ... }`.
/// `acc` holds the strings parsed so far; parsing starts after the opening
/// brace and consumes the closing brace.
pub open spec fn spec_parse_string_list(s: Seq<char>, pos: int, acc: Seq<Seq<char>>) -> Result<
    (Seq<Seq<char>>, int),
    ErrorV,
>
    decreases s.len() - pos,
    when 0 <= pos <= s.len()
{
    let p = spec_skip_ws(s, pos);
    if p < s.len() && s[p] == '}' {
        Ok((acc, p + 1))
    } else {
        match spec_parse_string(s, pos) {
            Ok((v, p2)) => {
                let p3 = spec_skip_ws(s, p2);
                if p3 < s.len() && s[p3] == ',' {
                    // the bound check keeps the recursion well-founded; a
                    // successful scan always advances, so it cannot fail
                    if pos < p3 + 1 <= s.len() {
                        spec_parse_string_list(s, p3 + 1, acc.push(v))
                    } else {
                        Err(ErrorV { kind: ErrorKindV::Grammar, pos: pos })
                    }
                } else if p3 < s.len() && s[p3] == '}' {
                    Ok((acc.push(v), p3 + 1))
                } else {
                    Err(ErrorV { kind: ErrorKindV::Grammar, pos: p3 })
                }
            },
            Err(e) => Err(e),
        }
    }
}

/// Parse a brace-closed, comma-separated list of string literals.
pub fn parse_string_list(s: &Vec<char>, pos: usize) -> (r: Result<
    (Vec<Vec<char>>, usize),
    ParseError,
>)
    requires
        pos <= s@.len(),
    ensures
        match r {
            Ok(t) => spec_parse_string_list(s@, pos as int, Seq::empty()) == Ok::<
                (Seq<Seq<char>>, int),
                ErrorV,
            >((t.0.deep_view(), t.1 as int)) && pos < t.1 <= s@.len(),
            Err(e) => spec_parse_string_list(s@, pos as int, Seq::empty()) == Err::<
                (Seq<Seq<char>>, int),
                ErrorV,
            >(e@),
        },
{
    let mut acc: Vec<Vec<char>> = Vec::new();
    let mut cur: usize = pos;
    proof {
        assert(acc.deep_view() =~~= Seq::<Seq<char>>::empty());
    }
    loop
        invariant
            pos <= cur <= s@.len(),
            spec_parse_string_list(s@, pos as int, Seq::empty()) == spec_parse_string_list(
                s@,
                cur as int,
                acc.deep_view(),
            ),
        decreases s@.len() - cur,
    {
        let p = skip_ws(s, cur);
        if p < s.len() && s[p] == '}' {
            return Ok((acc, p + 1));
        }
        match parse_string(s, cur) {
            Err(e) => {
                return Err(e);
            },
            Ok((v, p2)) => {
                let p3 = skip_ws(s, p2);
                if p3 < s.len() && s[p3] == ',' {
                    let ghost old_acc = acc.deep_view();
                    acc.push(v);
                    proof {
                        assert(acc.deep_view() =~~= old_acc.push(v@));
                    }
                    cur = p3 + 1;
                } else if p3 < s.len() && s[p3] == '}' {
                    let ghost old_acc = acc.deep_view();
                    acc.push(v);
                    proof {
                        assert(acc.deep_view() =~~= old_acc.push(v@));
                    }
                    return Ok((acc, p3 + 1));
                } else {
                    return Err(ParseError { kind: ErrorKind::Grammar, pos: p3 });
                }
            },
        }
    }
}

/// Character-for-character equality of two strings.
pub fn chars_eq(a: &Vec<char>, b: &Vec<char>) -> (r: bool)
    ensures
        r == (a@ == b@),
{
    if a.len() != b.len() {
        return false;
    }
    let mut i: usize = 0;
    while i < a.len()
        invariant
            i <= a@.len(),
            a@.len() == b@.len(),
            forall|k: int| 0 <= k < i ==> a@[k] == b@[k],
        decreases a@.len() - i,
    {
        if a[i] != b[i] {
            return false;
        }
        i = i + 1;
    }
    assert(a@ =~= b@);
    true
}

/// An owned copy of a string.
pub fn copy_chars(v: &Vec<char>) -> (r: Vec<char>)
    ensures
        r@ == v@,
{
    let mut out: Vec<char> = Vec::new();
    let mut i: usize = 0;
    while i < v.len()
        invariant
            i <= v@.len(),
            out@ == v@.subrange(0, i as int),
        decreases v@.len() - i,
    {
        out.push(v[i]);
        assert(out@ =~= v@.subrange(0, (i + 1) as int));
        i = i + 1;
    }
    assert(out@ =~= v@);
    out
}

} // verus!
