//! The script section: a single executable path to run. Grammar:
//! `exec <string>` — no braces, one path literal.

use vstd::prelude::*;

verus! {

use crate::diag::ErrorKind;
use crate::diag::ErrorV;
use crate::diag::ParseError;
use crate::lex::kw_exec;
use crate::lex::parse_string;
use crate::lex::skip_ws;
use crate::lex::spec_expect_kw;
use crate::lex::spec_parse_string;
use crate::lex::word_end;
use crate::lex::word_is_exec;

/// A parsed script section.
#[derive(Debug, PartialEq, Eq)]
pub struct Script {
    pub path: Vec<char>,
}

/// Mathematical model of a [`Script`] section.
pub ghost struct ScriptV {
    pub path: Seq<char>,
}

impl View for Script {
    type V = ScriptV;

    open spec fn view(&self) -> ScriptV {
        ScriptV { path: self.path@ }
    }
}

impl DeepView for Script {
    type V = ScriptV;

    open spec fn deep_view(&self) -> ScriptV {
        self.view()
    }
}

/// `exec <string>`: the keyword followed by the script path.
pub open spec fn spec_parse_script(s: Seq<char>, pos: int) -> Result<(ScriptV, int), ErrorV> {
    match spec_expect_kw(s, pos, kw_exec()) {
        Ok(p) => match spec_parse_string(s, p) {
            Ok((path, p2)) => Ok((ScriptV { path }, p2)),
            Err(e) => Err(e),
        },
        Err(e) => Err(e),
    }
}

impl Script {
    /// Parse a script section starting at `pos`.
    pub fn parse(s: &Vec<char>, pos: usize) -> (r: Result<(Script, usize), ParseError>)
        requires
            pos <= s@.len(),
        ensures
            match r {
                Ok(t) => spec_parse_script(s@, pos as int) == Ok::<(ScriptV, int), ErrorV>(
                    (t.0@, t.1 as int),
                ) && pos < t.1 <= s@.len(),
                Err(e) => spec_parse_script(s@, pos as int) == Err::<(ScriptV, int), ErrorV>(e@),
            },
    {
        let p0 = skip_ws(s, pos);
        let e0 = word_end(s, p0);
        if !word_is_exec(s, p0, e0) {
            return Err(ParseError { kind: ErrorKind::Grammar, pos: p0 });
        }
        match parse_string(s, e0) {
            Ok((path, p)) => Ok((Script { path }, p)),
            Err(e) => Err(e),
        }
    }
}

} // verus!
