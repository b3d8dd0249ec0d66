//! The manifest parser: section dispatch by leading reserved word, and
//! the accumulate-until-empty loop over `;`-separated sections. Section
//! order is preserved: it becomes execution order.

use vstd::prelude::*;

verus! {

use crate::cargo::Cargo;
use crate::cargo::CargoV;
use crate::cargo::spec_parse_cargo;
use crate::diag::ErrorKind;
use crate::diag::ErrorKindV;
use crate::diag::ErrorV;
use crate::diag::ParseError;
use crate::ensure::Ensure;
use crate::ensure::EnsureV;
use crate::ensure::spec_parse_ensure;
use crate::lex::kw_cargo;
use crate::lex::kw_ensure;
use crate::lex::kw_exec;
use crate::lex::kw_packages;
use crate::lex::kw_symlinks;
use crate::lex::skip_ws;
use crate::lex::spec_skip_ws;
use crate::lex::spec_word_end;
use crate::lex::word_end;
use crate::lex::word_is_cargo;
use crate::lex::word_is_ensure;
use crate::lex::word_is_exec;
use crate::lex::word_is_packages;
use crate::lex::word_is_symlinks;
use crate::package::Packages;
use crate::package::PackagesV;
use crate::package::spec_parse_packages;
use crate::script::Script;
use crate::script::ScriptV;
use crate::script::spec_parse_script;
use crate::symlinks::Symlinks;
use crate::symlinks::SymlinksV;
use crate::symlinks::spec_parse_symlinks;

/// One top-level declarative block of a manifest.
#[derive(Debug, PartialEq, Eq)]
pub enum Section {
    Cargo(Cargo),
    Ensure(Ensure),
    Packages(Packages),
    Script(Script),
    Symlinks(Symlinks),
}

/// Mathematical model of a [`Section`].
pub ghost enum SectionV {
    Cargo(CargoV),
    Ensure(EnsureV),
    Packages(PackagesV),
    Script(ScriptV),
    Symlinks(SymlinksV),
}

impl View for Section {
    type V = SectionV;

    open spec fn view(&self) -> SectionV {
        match self {
            Section::Cargo(c) => SectionV::Cargo(c@),
            Section::Ensure(c) => SectionV::Ensure(c@),
            Section::Packages(c) => SectionV::Packages(c@),
            Section::Script(c) => SectionV::Script(c@),
            Section::Symlinks(c) => SectionV::Symlinks(c@),
        }
    }
}

impl DeepView for Section {
    type V = SectionV;

    open spec fn deep_view(&self) -> SectionV {
        self.view()
    }
}

/// Section dispatch: classify the next section by its leading reserved
/// word — lookahead only, the matched parser re-reads the word — and
/// delegate; a word matching no reserved keyword is an unknown-section
/// error at the word's start.
pub open spec fn spec_parse_section(s: Seq<char>, pos: int) -> Result<(SectionV, int), ErrorV> {
    let p = spec_skip_ws(s, pos);
    let e = spec_word_end(s, p);
    let w = s.subrange(p, e);
    if w == kw_cargo() {
        match spec_parse_cargo(s, pos) {
            Ok((c, p2)) => Ok((SectionV::Cargo(c), p2)),
            Err(err) => Err(err),
        }
    } else if w == kw_ensure() {
        match spec_parse_ensure(s, pos) {
            Ok((c, p2)) => Ok((SectionV::Ensure(c), p2)),
            Err(err) => Err(err),
        }
    } else if w == kw_exec() {
        match spec_parse_script(s, pos) {
            Ok((c, p2)) => Ok((SectionV::Script(c), p2)),
            Err(err) => Err(err),
        }
    } else if w == kw_packages() {
        match spec_parse_packages(s, pos) {
            Ok((c, p2)) => Ok((SectionV::Packages(c), p2)),
            Err(err) => Err(err),
        }
    } else if w == kw_symlinks() {
        match spec_parse_symlinks(s, pos) {
            Ok((c, p2)) => Ok((SectionV::Symlinks(c), p2)),
            Err(err) => Err(err),
        }
    } else {
        Err(ErrorV { kind: ErrorKindV::UnknownSection, pos: p })
    }
}

impl Section {
    /// Parse the next section starting at `pos`.
    pub fn parse(s: &Vec<char>, pos: usize) -> (r: Result<(Section, usize), ParseError>)
        requires
            pos <= s@.len(),
        ensures
            match r {
                Ok(t) => spec_parse_section(s@, pos as int) == Ok::<(SectionV, int), ErrorV>(
                    (t.0@, t.1 as int),
                ) && pos < t.1 <= s@.len(),
                Err(e) => spec_parse_section(s@, pos as int) == Err::<(SectionV, int), ErrorV>(e@),
            },
    {
        let p = skip_ws(s, pos);
        let e = word_end(s, p);
        if word_is_cargo(s, p, e) {
            match Cargo::parse(s, pos) {
                Ok((c, p2)) => Ok((Section::Cargo(c), p2)),
                Err(err) => Err(err),
            }
        } else if word_is_ensure(s, p, e) {
            match Ensure::parse(s, pos) {
                Ok((c, p2)) => Ok((Section::Ensure(c), p2)),
                Err(err) => Err(err),
            }
        } else if word_is_exec(s, p, e) {
            match Script::parse(s, pos) {
                Ok((c, p2)) => Ok((Section::Script(c), p2)),
                Err(err) => Err(err),
            }
        } else if word_is_packages(s, p, e) {
            match Packages::parse(s, pos) {
                Ok((c, p2)) => Ok((Section::Packages(c), p2)),
                Err(err) => Err(err),
            }
        } else if word_is_symlinks(s, p, e) {
            match Symlinks::parse(s, pos) {
                Ok((c, p2)) => Ok((Section::Symlinks(c), p2)),
                Err(err) => Err(err),
            }
        } else {
            Err(ParseError { kind: ErrorKind::UnknownSection, pos: p })
        }
    }

    /// The `cargo` payload, if this is a `cargo` section.
    pub fn as_cargo(&self) -> (r: Option<&Cargo>)
        ensures
            match r {
                Some(c) => self matches Section::Cargo(c2) && c2 == *c,
                None => !(self matches Section::Cargo(_)),
            },
    {
        match self {
            Section::Cargo(c) => Some(c),
            _ => None,
        }
    }

    /// The `ensure` payload, if this is an `ensure` section.
    pub fn as_ensure(&self) -> (r: Option<&Ensure>)
        ensures
            match r {
                Some(c) => self matches Section::Ensure(c2) && c2 == *c,
                None => !(self matches Section::Ensure(_)),
            },
    {
        match self {
            Section::Ensure(c) => Some(c),
            _ => None,
        }
    }

    /// The `packages` payload, if this is a `packages` section.
    pub fn as_packages(&self) -> (r: Option<&Packages>)
        ensures
            match r {
                Some(c) => self matches Section::Packages(c2) && c2 == *c,
                None => !(self matches Section::Packages(_)),
            },
    {
        match self {
            Section::Packages(c) => Some(c),
            _ => None,
        }
    }

    /// The script payload, if this is a script section.
    pub fn as_script(&self) -> (r: Option<&Script>)
        ensures
            match r {
                Some(c) => self matches Section::Script(c2) && c2 == *c,
                None => !(self matches Section::Script(_)),
            },
    {
        match self {
            Section::Script(c) => Some(c),
            _ => None,
        }
    }

    /// The `symlinks` payload, if this is a `symlinks` section.
    pub fn as_symlinks(&self) -> (r: Option<&Symlinks>)
        ensures
            match r {
                Some(c) => self matches Section::Symlinks(c2) && c2 == *c,
                None => !(self matches Section::Symlinks(_)),
            },
    {
        match self {
            Section::Symlinks(c) => Some(c),
            _ => None,
        }
    }
}

/// A fully parsed manifest: its sections in source order.
#[derive(Debug, PartialEq, Eq)]
pub struct Installer {
    pub sections: Vec<Section>,
}

/// Mathematical model of an [`Installer`].
pub ghost struct InstallerV {
    pub sections: Seq<SectionV>,
}

impl View for Installer {
    type V = InstallerV;

    open spec fn view(&self) -> InstallerV {
        InstallerV { sections: self.sections.deep_view() }
    }
}

impl DeepView for Installer {
    type V = InstallerV;

    open spec fn deep_view(&self) -> InstallerV {
        self.view()
    }
}

/// The manifest grammar `(section ';')*`: sections separated by `;`,
/// with the separator after the last section optional; parsing succeeds
/// exactly when the whole input is consumed. `acc` holds the sections
/// parsed so far, in source order.
pub open spec fn spec_parse_manifest(s: Seq<char>, pos: int, acc: Seq<SectionV>) -> Result<
    (Seq<SectionV>, int),
    ErrorV,
>
    decreases s.len() - pos,
    when 0 <= pos <= s.len()
{
    let p = spec_skip_ws(s, pos);
    if p >= s.len() {
        Ok((acc, p))
    } else {
        match spec_parse_section(s, pos) {
            Ok((sec, p2)) => {
                let p3 = spec_skip_ws(s, p2);
                if p3 >= s.len() {
                    Ok((acc.push(sec), p3))
                } else if s[p3] == ';' {
                    // the bound check keeps the recursion well-founded; a
                    // successful scan always advances, so it cannot fail
                    if pos < p3 + 1 <= s.len() {
                        spec_parse_manifest(s, p3 + 1, acc.push(sec))
                    } else {
                        Err(ErrorV { kind: ErrorKindV::Grammar, pos: pos })
                    }
                } else {
                    Err(ErrorV { kind: ErrorKindV::Grammar, pos: p3 })
                }
            },
            Err(e) => Err(e),
        }
    }
}

/// A whole manifest text: the ordered sections it declares, or the first
/// diagnostic encountered.
pub open spec fn spec_parse_installer(s: Seq<char>) -> Result<Seq<SectionV>, ErrorV> {
    match spec_parse_manifest(s, 0, Seq::empty()) {
        Ok((secs, _)) => Ok(secs),
        Err(e) => Err(e),
    }
}

impl Installer {
    /// Parse a whole manifest: sections in source order until the input
    /// is exhausted, failing fast on the first violation.
    pub fn parse(s: &Vec<char>) -> (r: Result<Installer, ParseError>)
        ensures
            match r {
                Ok(inst) => spec_parse_installer(s@) == Ok::<Seq<SectionV>, ErrorV>(
                    inst@.sections,
                ),
                Err(e) => spec_parse_installer(s@) == Err::<Seq<SectionV>, ErrorV>(e@),
            },
    {
        let mut acc: Vec<Section> = Vec::new();
        let mut cur: usize = 0;
        proof {
            assert(acc.deep_view() =~~= Seq::<SectionV>::empty());
        }
        loop
            invariant
                cur <= s@.len(),
                spec_parse_manifest(s@, 0, Seq::empty()) == spec_parse_manifest(
                    s@,
                    cur as int,
                    acc.deep_view(),
                ),
            decreases s@.len() - cur,
        {
            let p = skip_ws(s, cur);
            if p >= s.len() {
                return Ok(Installer { sections: acc });
            }
            match Section::parse(s, cur) {
                Err(e) => {
                    return Err(e);
                },
                Ok((sec, p2)) => {
                    let p3 = skip_ws(s, p2);
                    let ghost old_acc = acc.deep_view();
                    let ghost sv = sec@;
                    if p3 >= s.len() {
                        acc.push(sec);
                        proof {
                            assert(acc.deep_view() =~~= old_acc.push(sv));
                        }
                        return Ok(Installer { sections: acc });
                    } else if s[p3] == ';' {
                        acc.push(sec);
                        proof {
                            assert(acc.deep_view() =~~= old_acc.push(sv));
                        }
                        cur = p3 + 1;
                    } else {
                        return Err(ParseError { kind: ErrorKind::Grammar, pos: p3 });
                    }
                },
            }
        }
    }
}

} // verus!
