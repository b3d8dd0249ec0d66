//! The `packages` section: a list of packages, each either a bare name or
//! a name with a block of per-manager name overrides. Grammar:
//! `packages { <package>, ... }` where a package is
//! `<string>` or `<string> => { <override>, ... }` and an override is
//! `[apt|pacman|brew] = <string>`. For one package, each manager may be
//! overridden at most once; a second override of the same kind fails with
//! a duplicate-override diagnostic pointing at the second occurrence.

use vstd::prelude::*;

verus! {

use crate::diag::ErrorKind;
use crate::diag::ErrorKindV;
use crate::diag::ErrorV;
use crate::diag::OverrideKind;
use crate::diag::ParseError;
use crate::lex::copy_chars;
use crate::lex::expect;
use crate::lex::expect_arrow;
use crate::lex::kw_apt;
use crate::lex::kw_brew;
use crate::lex::kw_pacman;
use crate::lex::kw_packages;
use crate::lex::parse_string;
use crate::lex::skip_ws;
use crate::lex::spec_expect;
use crate::lex::spec_expect_arrow;
use crate::lex::spec_expect_kw;
use crate::lex::spec_parse_string;
use crate::lex::spec_skip_ws;
use crate::lex::spec_word_end;
use crate::lex::word_end;
use crate::lex::word_is_apt;
use crate::lex::word_is_brew;
use crate::lex::word_is_pacman;
use crate::lex::word_is_packages;

/// One parsed override: which manager it names, the offset of its keyword
/// (for diagnostics), and the substituted package name. Overrides exist
/// only while a package entry is parsed; they are collapsed into the
/// [`Package`] fields afterwards.
#[derive(Debug, PartialEq, Eq)]
pub struct Override {
    pub kind: OverrideKind,
    pub pos: usize,
    pub value: Vec<char>,
}

/// Mathematical model of an [`Override`].
pub ghost struct OverrideV {
    pub kind: OverrideKind,
    pub pos: int,
    pub value: Seq<char>,
}

impl View for Override {
    type V = OverrideV;

    open spec fn view(&self) -> OverrideV {
        OverrideV { kind: self.kind, pos: self.pos as int, value: self.value@ }
    }
}

impl DeepView for Override {
    type V = OverrideV;

    open spec fn deep_view(&self) -> OverrideV {
        self.view()
    }
}

impl Override {
    /// Is this a pacman override?
    pub fn is_pacman(&self) -> (r: bool)
        ensures
            r == (self.kind == OverrideKind::Pacman),
    {
        self.kind == OverrideKind::Pacman
    }

    /// Is this an apt override?
    pub fn is_apt(&self) -> (r: bool)
        ensures
            r == (self.kind == OverrideKind::Apt),
    {
        self.kind == OverrideKind::Apt
    }

    /// Is this a brew override?
    pub fn is_brew(&self) -> (r: bool)
        ensures
            r == (self.kind == OverrideKind::Brew),
    {
        self.kind == OverrideKind::Brew
    }
}

/// `[apt|pacman|brew] = <string>`: exactly one manager keyword, `=`, and
/// the substituted name. A missing or unknown keyword is a grammar error
/// at the word's start.
pub open spec fn spec_parse_override(s: Seq<char>, pos: int) -> Result<(OverrideV, int), ErrorV> {
    let p = spec_skip_ws(s, pos);
    let e = spec_word_end(s, p);
    let w = s.subrange(p, e);
    if w == kw_apt() || w == kw_pacman() || w == kw_brew() {
        let k = if w == kw_apt() {
            OverrideKind::Apt
        } else if w == kw_pacman() {
            OverrideKind::Pacman
        } else {
            OverrideKind::Brew
        };
        match spec_expect(s, e, '=') {
            Ok(p2) => match spec_parse_string(s, p2) {
                Ok((v, p3)) => Ok((OverrideV { kind: k, pos: p, value: v }, p3)),
                Err(err) => Err(err),
            },
            Err(err) => Err(err),
        }
    } else {
        Err(ErrorV { kind: ErrorKindV::Grammar, pos: p })
    }
}

impl Override {
    /// Parse one override starting at `pos`.
    pub fn parse(s: &Vec<char>, pos: usize) -> (r: Result<(Override, usize), ParseError>)
        requires
            pos <= s@.len(),
        ensures
            match r {
                Ok(t) => spec_parse_override(s@, pos as int) == Ok::<(OverrideV, int), ErrorV>(
                    (t.0@, t.1 as int),
                ) && pos < t.1 <= s@.len(),
                Err(e) => spec_parse_override(s@, pos as int) == Err::<(OverrideV, int), ErrorV>(
                    e@,
                ),
            },
    {
        let p = skip_ws(s, pos);
        let e = word_end(s, p);
        let kind: OverrideKind;
        if word_is_apt(s, p, e) {
            kind = OverrideKind::Apt;
        } else if word_is_pacman(s, p, e) {
            kind = OverrideKind::Pacman;
        } else if word_is_brew(s, p, e) {
            kind = OverrideKind::Brew;
        } else {
            return Err(ParseError { kind: ErrorKind::Grammar, pos: p });
        }
        let p2 = match expect(s, e, '=') {
            Ok(p2) => p2,
            Err(err) => {
                return Err(err);
            },
        };
        match parse_string(s, p2) {
            Ok((value, p3)) => Ok((Override { kind, pos: p, value }, p3)),
            Err(err) => Err(err),
        }
    }
}

/// A comma-separated override list closed by `}`, with an optional
/// trailing comma. `acc` holds the overrides parsed so far.
pub open spec fn spec_parse_override_list(s: Seq<char>, pos: int, acc: Seq<OverrideV>) -> Result<
    (Seq<OverrideV>, int),
    ErrorV,
>
    decreases s.len() - pos,
    when 0 <= pos <= s.len()
{
    let p = spec_skip_ws(s, pos);
    if p < s.len() && s[p] == '}' {
        Ok((acc, p + 1))
    } else {
        match spec_parse_override(s, pos) {
            Ok((v, p2)) => {
                let p3 = spec_skip_ws(s, p2);
                if p3 < s.len() && s[p3] == ',' {
                    // the bound check keeps the recursion well-founded; a
                    // successful scan always advances, so it cannot fail
                    if pos < p3 + 1 <= s.len() {
                        spec_parse_override_list(s, p3 + 1, acc.push(v))
                    } else {
                        Err(ErrorV { kind: ErrorKindV::Grammar, pos: pos })
                    }
                } else if p3 < s.len() && s[p3] == '}' {
                    Ok((acc.push(v), p3 + 1))
                } else {
                    Err(ErrorV { kind: ErrorKindV::Grammar, pos: p3 })
                }
            },
            Err(e) => Err(e),
        }
    }
}

/// Parse a brace-closed, comma-separated override list.
pub fn parse_override_list(s: &Vec<char>, pos: usize) -> (r: Result<
    (Vec<Override>, usize),
    ParseError,
>)
    requires
        pos <= s@.len(),
    ensures
        match r {
            Ok(t) => spec_parse_override_list(s@, pos as int, Seq::empty()) == Ok::<
                (Seq<OverrideV>, int),
                ErrorV,
            >((t.0.deep_view(), t.1 as int)) && pos < t.1 <= s@.len(),
            Err(e) => spec_parse_override_list(s@, pos as int, Seq::empty()) == Err::<
                (Seq<OverrideV>, int),
                ErrorV,
            >(e@),
        },
{
    let mut acc: Vec<Override> = Vec::new();
    let mut cur: usize = pos;
    proof {
        assert(acc.deep_view() =~~= Seq::<OverrideV>::empty());
    }
    loop
        invariant
            pos <= cur <= s@.len(),
            spec_parse_override_list(s@, pos as int, Seq::empty()) == spec_parse_override_list(
                s@,
                cur as int,
                acc.deep_view(),
            ),
        decreases s@.len() - cur,
    {
        let p = skip_ws(s, cur);
        if p < s.len() && s[p] == '}' {
            return Ok((acc, p + 1));
        }
        match Override::parse(s, cur) {
            Err(e) => {
                return Err(e);
            },
            Ok((v, p2)) => {
                let p3 = skip_ws(s, p2);
                if p3 < s.len() && s[p3] == ',' {
                    let ghost old_acc = acc.deep_view();
                    let ghost vv = v@;
                    acc.push(v);
                    proof {
                        assert(acc.deep_view() =~~= old_acc.push(vv));
                    }
                    cur = p3 + 1;
                } else if p3 < s.len() && s[p3] == '}' {
                    let ghost old_acc = acc.deep_view();
                    let ghost vv = v@;
                    acc.push(v);
                    proof {
                        assert(acc.deep_view() =~~= old_acc.push(vv));
                    }
                    return Ok((acc, p3 + 1));
                } else {
                    return Err(ParseError { kind: ErrorKind::Grammar, pos: p3 });
                }
            },
        }
    }
}

/// Scan `ovs` from `i` for overrides of `kind`, with `found` the index of
/// the single match seen so far: the value of the unique match, `None`
/// for no match, or the index of the second match.
pub open spec fn spec_single_loop(
    ovs: Seq<OverrideV>,
    kind: OverrideKind,
    i: int,
    found: Option<int>,
) -> Result<Seq<char>, Option<int>>
    decreases ovs.len() - i,
    when 0 <= i <= ovs.len()
{
    if i >= ovs.len() {
        match found {
            Some(j) => Ok(ovs[j].value),
            None => Err(None),
        }
    } else if ovs[i].kind == kind {
        match found {
            Some(_) => Err(Some(i)),
            None => spec_single_loop(ovs, kind, i + 1, Some(i)),
        }
    } else {
        spec_single_loop(ovs, kind, i + 1, found)
    }
}

/// The single-match check over a package's override block: `Ok(value)`
/// when exactly one override of `kind` occurs, `Err(None)` when none
/// does, and `Err(Some(i))` with `i` the index of the second occurrence
/// when two or more do.
pub open spec fn spec_single(ovs: Seq<OverrideV>, kind: OverrideKind) -> Result<
    Seq<char>,
    Option<int>,
> {
    spec_single_loop(ovs, kind, 0, None)
}

proof fn lemma_single_loop(ovs: Seq<OverrideV>, kind: OverrideKind, i: int, found: Option<int>)
    requires
        0 <= i <= ovs.len(),
        match found {
            None => forall|k: int| 0 <= k < i ==> (#[trigger] ovs[k]).kind != kind,
            Some(j) => 0 <= j < i && ovs[j].kind == kind && forall|k: int|
                0 <= k < i && k != j ==> (#[trigger] ovs[k]).kind != kind,
        },
    ensures
        match spec_single_loop(ovs, kind, i, found) {
            Ok(v) => exists|j: int|
                0 <= j < ovs.len() && (#[trigger] ovs[j]).kind == kind && v == ovs[j].value
                    && (forall|k: int|
                    0 <= k < ovs.len() && k != j ==> (#[trigger] ovs[k]).kind != kind),
            Err(f) => match f {
                None => forall|k: int| 0 <= k < ovs.len() ==> (#[trigger] ovs[k]).kind != kind,
                Some(m) => 0 <= m < ovs.len() && ovs[m].kind == kind && (exists|j: int|
                    0 <= j < m && (#[trigger] ovs[j]).kind == kind) && (forall|k1: int, k2: int|
                    0 <= k1 < k2 < m ==> !((#[trigger] ovs[k1]).kind == kind && (
                    #[trigger] ovs[k2]).kind == kind)),
            },
        },
    decreases ovs.len() - i,
{
    if i >= ovs.len() {
    } else if ovs[i].kind == kind {
        match found {
            Some(j) => {
            },
            None => {
                lemma_single_loop(ovs, kind, i + 1, Some(i));
            },
        }
    } else {
        lemma_single_loop(ovs, kind, i + 1, found);
    }
}

/// At most one override of each manager kind is accepted for one package.
/// `spec_single` returns the unique match's value when exactly one
/// override of `kind` occurs, reports no match when none occurs, and
/// otherwise fails naming exactly the second occurrence of `kind` —
/// the first index at which an earlier occurrence already exists.
pub proof fn lemma_single_characterization(ovs: Seq<OverrideV>, kind: OverrideKind)
    ensures
        match spec_single(ovs, kind) {
            Ok(v) => exists|j: int|
                0 <= j < ovs.len() && (#[trigger] ovs[j]).kind == kind && v == ovs[j].value
                    && (forall|k: int|
                    0 <= k < ovs.len() && k != j ==> (#[trigger] ovs[k]).kind != kind),
            Err(f) => match f {
                None => forall|k: int| 0 <= k < ovs.len() ==> (#[trigger] ovs[k]).kind != kind,
                Some(m) => 0 <= m < ovs.len() && ovs[m].kind == kind && (exists|j: int|
                    0 <= j < m && (#[trigger] ovs[j]).kind == kind) && (forall|k1: int, k2: int|
                    0 <= k1 < k2 < m ==> !((#[trigger] ovs[k1]).kind == kind && (
                    #[trigger] ovs[k2]).kind == kind)),
            },
        },
{
    lemma_single_loop(ovs, kind, 0, None);
}

/// Of the overrides in `overrides` whose kind is `kind`: `Ok` with the
/// value of the only one, `Err(None)` when there is none, and
/// `Err(Some(i))` with `i` the index of the second when there are two or
/// more.
pub fn single(overrides: &Vec<Override>, kind: OverrideKind) -> (r: Result<
    Vec<char>,
    Option<usize>,
>)
    ensures
        match r {
            Ok(v) => spec_single(overrides.deep_view(), kind) == Ok::<Seq<char>, Option<int>>(v@),
            Err(f) => match f {
                None => spec_single(overrides.deep_view(), kind) == Err::<Seq<char>, Option<int>>(
                    None,
                ),
                Some(i) => i < overrides@.len() && spec_single(overrides.deep_view(), kind)
                    == Err::<Seq<char>, Option<int>>(Some(i as int)),
            },
        },
{
    let ghost dv = overrides.deep_view();
    let mut found: Option<usize> = None;
    let mut i: usize = 0;
    while i < overrides.len()
        invariant
            i <= overrides@.len(),
            dv == overrides.deep_view(),
            (match found {
                Some(j) => j < i && spec_single(dv, kind) == spec_single_loop(
                    dv,
                    kind,
                    i as int,
                    Some(j as int),
                ),
                None => spec_single(dv, kind) == spec_single_loop(dv, kind, i as int, None),
            }),
        decreases overrides@.len() - i,
    {
        proof {
            assert(dv[i as int] == overrides@[i as int]@);
        }
        if overrides[i].kind == kind {
            match found {
                Some(_) => {
                    return Err(Some(i));
                },
                None => {
                    found = Some(i);
                },
            }
        }
        i = i + 1;
    }
    match found {
        Some(j) => {
            proof {
                assert(dv[j as int] == overrides@[j as int]@);
            }
            Ok(copy_chars(&overrides[j].value))
        },
        None => Err(None),
    }
}

/// One package: its canonical name and the optional per-manager name
/// overrides; an absent override means the canonical name is used.
#[derive(Debug, PartialEq, Eq)]
pub struct Package {
    pub name: Vec<char>,
    pub pacman: Option<Vec<char>>,
    pub apt: Option<Vec<char>>,
    pub brew: Option<Vec<char>>,
}

/// Mathematical model of a [`Package`].
pub ghost struct PackageV {
    pub name: Seq<char>,
    pub pacman: Option<Seq<char>>,
    pub apt: Option<Seq<char>>,
    pub brew: Option<Seq<char>>,
}

impl View for Package {
    type V = PackageV;

    open spec fn view(&self) -> PackageV {
        PackageV {
            name: self.name@,
            pacman: match self.pacman {
                Some(v) => Some(v@),
                None => None,
            },
            apt: match self.apt {
                Some(v) => Some(v@),
                None => None,
            },
            brew: match self.brew {
                Some(v) => Some(v@),
                None => None,
            },
        }
    }
}

impl DeepView for Package {
    type V = PackageV;

    open spec fn deep_view(&self) -> PackageV {
        self.view()
    }
}

/// Collapse the overrides of `kind` into one optional field, failing with
/// a duplicate-override diagnostic at the second occurrence's keyword.
pub open spec fn spec_collect(ovs: Seq<OverrideV>, kind: OverrideKind) -> Result<
    Option<Seq<char>>,
    ErrorV,
> {
    match spec_single(ovs, kind) {
        Ok(v) => Ok(Some(v)),
        Err(f) => match f {
            None => Ok(None),
            Some(i) => Err(ErrorV { kind: ErrorKindV::DuplicateOverride(kind), pos: ovs[i].pos }),
        },
    }
}

/// `<string>` or `<string> => { <override>, ... }`: a bare package name,
/// or a name with an override block whose overrides are collapsed in the
/// order apt, brew, pacman — each kind at most once.
pub open spec fn spec_parse_package(s: Seq<char>, pos: int) -> Result<(PackageV, int), ErrorV> {
    match spec_parse_string(s, pos) {
        Ok((name, p)) => match spec_expect_arrow(s, p) {
            Err(_) => Ok((PackageV { name, pacman: None, apt: None, brew: None }, p)),
            Ok(p2) => match spec_expect(s, p2, '{') {
                Ok(p3) => match spec_parse_override_list(s, p3, Seq::empty()) {
                    Ok((ovs, p4)) => match spec_collect(ovs, OverrideKind::Apt) {
                        Ok(apt) => match spec_collect(ovs, OverrideKind::Brew) {
                            Ok(brew) => match spec_collect(ovs, OverrideKind::Pacman) {
                                Ok(pacman) => Ok((PackageV { name, pacman, apt, brew }, p4)),
                                Err(e) => Err(e),
                            },
                            Err(e) => Err(e),
                        },
                        Err(e) => Err(e),
                    },
                    Err(e) => Err(e),
                },
                Err(e) => Err(e),
            },
        },
        Err(e) => Err(e),
    }
}

impl Package {
    /// Parse one package entry starting at `pos`.
    pub fn parse(s: &Vec<char>, pos: usize) -> (r: Result<(Package, usize), ParseError>)
        requires
            pos <= s@.len(),
        ensures
            match r {
                Ok(t) => spec_parse_package(s@, pos as int) == Ok::<(PackageV, int), ErrorV>(
                    (t.0@, t.1 as int),
                ) && pos < t.1 <= s@.len(),
                Err(e) => spec_parse_package(s@, pos as int) == Err::<(PackageV, int), ErrorV>(e@),
            },
    {
        let (name, p) = match parse_string(s, pos) {
            Ok(t) => t,
            Err(e) => {
                return Err(e);
            },
        };
        let p2 = match expect_arrow(s, p) {
            Err(_) => {
                return Ok((Package { name, pacman: None, apt: None, brew: None }, p));
            },
            Ok(p2) => p2,
        };
        let p3 = match expect(s, p2, '{') {
            Ok(p3) => p3,
            Err(e) => {
                return Err(e);
            },
        };
        let (ovs, p4) = match parse_override_list(s, p3) {
            Ok(t) => t,
            Err(e) => {
                return Err(e);
            },
        };
        let apt = match single(&ovs, OverrideKind::Apt) {
            Ok(v) => Some(v),
            Err(f) => match f {
                None => None,
                Some(i) => {
                    return Err(
                        ParseError {
                            kind: ErrorKind::DuplicateOverride(OverrideKind::Apt),
                            pos: ovs[i].pos,
                        },
                    );
                },
            },
        };
        let brew = match single(&ovs, OverrideKind::Brew) {
            Ok(v) => Some(v),
            Err(f) => match f {
                None => None,
                Some(i) => {
                    return Err(
                        ParseError {
                            kind: ErrorKind::DuplicateOverride(OverrideKind::Brew),
                            pos: ovs[i].pos,
                        },
                    );
                },
            },
        };
        let pacman = match single(&ovs, OverrideKind::Pacman) {
            Ok(v) => Some(v),
            Err(f) => match f {
                None => None,
                Some(i) => {
                    return Err(
                        ParseError {
                            kind: ErrorKind::DuplicateOverride(OverrideKind::Pacman),
                            pos: ovs[i].pos,
                        },
                    );
                },
            },
        };
        Ok((Package { name, pacman, apt, brew }, p4))
    }
}

/// A parsed `packages` section.
#[derive(Debug, PartialEq, Eq)]
pub struct Packages {
    pub packages: Vec<Package>,
}

/// Mathematical model of a [`Packages`] section.
pub ghost struct PackagesV {
    pub packages: Seq<PackageV>,
}

impl View for Packages {
    type V = PackagesV;

    open spec fn view(&self) -> PackagesV {
        PackagesV { packages: self.packages.deep_view() }
    }
}

impl DeepView for Packages {
    type V = PackagesV;

    open spec fn deep_view(&self) -> PackagesV {
        self.view()
    }
}

/// A comma-separated package list closed by `}`, with an optional
/// trailing comma. `acc` holds the packages parsed so far.
pub open spec fn spec_parse_package_list(s: Seq<char>, pos: int, acc: Seq<PackageV>) -> Result<
    (Seq<PackageV>, int),
    ErrorV,
>
    decreases s.len() - pos,
    when 0 <= pos <= s.len()
{
    let p = spec_skip_ws(s, pos);
    if p < s.len() && s[p] == '}' {
        Ok((acc, p + 1))
    } else {
        match spec_parse_package(s, pos) {
            Ok((v, p2)) => {
                let p3 = spec_skip_ws(s, p2);
                if p3 < s.len() && s[p3] == ',' {
                    // the bound check keeps the recursion well-founded; a
                    // successful scan always advances, so it cannot fail
                    if pos < p3 + 1 <= s.len() {
                        spec_parse_package_list(s, p3 + 1, acc.push(v))
                    } else {
                        Err(ErrorV { kind: ErrorKindV::Grammar, pos: pos })
                    }
                } else if p3 < s.len() && s[p3] == '}' {
                    Ok((acc.push(v), p3 + 1))
                } else {
                    Err(ErrorV { kind: ErrorKindV::Grammar, pos: p3 })
                }
            },
            Err(e) => Err(e),
        }
    }
}

/// Parse a brace-closed, comma-separated package list.
pub fn parse_package_list(s: &Vec<char>, pos: usize) -> (r: Result<
    (Vec<Package>, usize),
    ParseError,
>)
    requires
        pos <= s@.len(),
    ensures
        match r {
            Ok(t) => spec_parse_package_list(s@, pos as int, Seq::empty()) == Ok::<
                (Seq<PackageV>, int),
                ErrorV,
            >((t.0.deep_view(), t.1 as int)) && pos < t.1 <= s@.len(),
            Err(e) => spec_parse_package_list(s@, pos as int, Seq::empty()) == Err::<
                (Seq<PackageV>, int),
                ErrorV,
            >(e@),
        },
{
    let mut acc: Vec<Package> = Vec::new();
    let mut cur: usize = pos;
    proof {
        assert(acc.deep_view() =~~= Seq::<PackageV>::empty());
    }
    loop
        invariant
            pos <= cur <= s@.len(),
            spec_parse_package_list(s@, pos as int, Seq::empty()) == spec_parse_package_list(
                s@,
                cur as int,
                acc.deep_view(),
            ),
        decreases s@.len() - cur,
    {
        let p = skip_ws(s, cur);
        if p < s.len() && s[p] == '}' {
            return Ok((acc, p + 1));
        }
        match Package::parse(s, cur) {
            Err(e) => {
                return Err(e);
            },
            Ok((v, p2)) => {
                let p3 = skip_ws(s, p2);
                if p3 < s.len() && s[p3] == ',' {
                    let ghost old_acc = acc.deep_view();
                    let ghost vv = v@;
                    acc.push(v);
                    proof {
                        assert(acc.deep_view() =~~= old_acc.push(vv));
                    }
                    cur = p3 + 1;
                } else if p3 < s.len() && s[p3] == '}' {
                    let ghost old_acc = acc.deep_view();
                    let ghost vv = v@;
                    acc.push(v);
                    proof {
                        assert(acc.deep_view() =~~= old_acc.push(vv));
                    }
                    return Ok((acc, p3 + 1));
                } else {
                    return Err(ParseError { kind: ErrorKind::Grammar, pos: p3 });
                }
            },
        }
    }
}

/// `packages { <package>, ... }`: the keyword, an opening brace, the
/// package entries in source order, and the closing brace.
pub open spec fn spec_parse_packages(s: Seq<char>, pos: int) -> Result<(PackagesV, int), ErrorV> {
    match spec_expect_kw(s, pos, kw_packages()) {
        Ok(p) => match spec_expect(s, p, '{') {
            Ok(p2) => match spec_parse_package_list(s, p2, Seq::empty()) {
                Ok((l, p3)) => Ok((PackagesV { packages: l }, p3)),
                Err(e) => Err(e),
            },
            Err(e) => Err(e),
        },
        Err(e) => Err(e),
    }
}

impl Packages {
    /// Parse a `packages` section starting at `pos`.
    pub fn parse(s: &Vec<char>, pos: usize) -> (r: Result<(Packages, usize), ParseError>)
        requires
            pos <= s@.len(),
        ensures
            match r {
                Ok(t) => spec_parse_packages(s@, pos as int) == Ok::<(PackagesV, int), ErrorV>(
                    (t.0@, t.1 as int),
                ) && pos < t.1 <= s@.len(),
                Err(e) => spec_parse_packages(s@, pos as int) == Err::<(PackagesV, int), ErrorV>(
                    e@,
                ),
            },
    {
        let p0 = skip_ws(s, pos);
        let e0 = word_end(s, p0);
        if !word_is_packages(s, p0, e0) {
            return Err(ParseError { kind: ErrorKind::Grammar, pos: p0 });
        }
        let p = match expect(s, e0, '{') {
            Ok(p) => p,
            Err(e) => {
                return Err(e);
            },
        };
        match parse_package_list(s, p) {
            Ok((packages, p2)) => Ok((Packages { packages }, p2)),
            Err(e) => Err(e),
        }
    }
}

} // verus!
