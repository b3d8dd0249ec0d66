//! The `cargo` section: a list of crate identifiers to install via the
//! language package manager. Grammar: `cargo { <string>, <string>, ... }`
//! with an optional trailing comma. Duplicate names are permitted.

use vstd::prelude::*;

verus! {

use crate::diag::ErrorKind;
use crate::diag::ErrorV;
use crate::diag::ParseError;
use crate::lex::kw_cargo;
use crate::lex::parse_string_list;
use crate::lex::skip_ws;
use crate::lex::spec_expect;
use crate::lex::spec_expect_kw;
use crate::lex::spec_parse_string_list;
use crate::lex::expect;
use crate::lex::word_end;
use crate::lex::word_is_cargo;

/// A parsed `cargo` section.
#[derive(Debug, PartialEq, Eq)]
pub struct Cargo {
    pub crates: Vec<Vec<char>>,
}

/// Mathematical model of a [`Cargo`] section.
pub ghost struct CargoV {
    pub crates: Seq<Seq<char>>,
}

impl View for Cargo {
    type V = CargoV;

    open spec fn view(&self) -> CargoV {
        CargoV { crates: self.crates.deep_view() }
    }
}

impl DeepView for Cargo {
    type V = CargoV;

    open spec fn deep_view(&self) -> CargoV {
        self.view()
    }
}

/// `cargo { <string>, ... }`: the keyword, an opening brace, the crate
/// names in source order, and the closing brace.
pub open spec fn spec_parse_cargo(s: Seq<char>, pos: int) -> Result<(CargoV, int), ErrorV> {
    match spec_expect_kw(s, pos, kw_cargo()) {
        Ok(p) => match spec_expect(s, p, '{') {
            Ok(p2) => match spec_parse_string_list(s, p2, Seq::empty()) {
                Ok((l, p3)) => Ok((CargoV { crates: l }, p3)),
                Err(e) => Err(e),
            },
            Err(e) => Err(e),
        },
        Err(e) => Err(e),
    }
}

impl Cargo {
    /// Parse a `cargo` section starting at `pos`.
    pub fn parse(s: &Vec<char>, pos: usize) -> (r: Result<(Cargo, usize), ParseError>)
        requires
            pos <= s@.len(),
        ensures
            match r {
                Ok(t) => spec_parse_cargo(s@, pos as int) == Ok::<(CargoV, int), ErrorV>(
                    (t.0@, t.1 as int),
                ) && pos < t.1 <= s@.len(),
                Err(e) => spec_parse_cargo(s@, pos as int) == Err::<(CargoV, int), ErrorV>(e@),
            },
    {
        let p0 = skip_ws(s, pos);
        let e0 = word_end(s, p0);
        if !word_is_cargo(s, p0, e0) {
            return Err(ParseError { kind: ErrorKind::Grammar, pos: p0 });
        }
        let p = match expect(s, e0, '{') {
            Ok(p) => p,
            Err(e) => {
                return Err(e);
            },
        };
        match parse_string_list(s, p) {
            Ok((crates, p2)) => Ok((Cargo { crates }, p2)),
            Err(e) => Err(e),
        }
    }
}

} // verus!
