//! Compiler for a small declarative manifest language describing
//! machine-setup steps: package installs, directory creation, script
//! execution and symlink creation.
//!
//! Manifest text is parsed into a validated intermediate representation
//! (an ordered sequence of sections) and then lowered into an ordered
//! sequence of typed action descriptors, meant to be executed later by a
//! separate runtime component.

use vstd::prelude::*;

pub mod cargo;
pub mod codegen;
pub mod diag;
pub mod ensure;
pub mod lex;
pub mod package;
pub mod parse;
pub mod script;
pub mod symlinks;

verus! {

pub use crate::cargo::Cargo;
pub use crate::codegen::Action;
pub use crate::codegen::generate_installer;
pub use crate::codegen::generate_section;
pub use crate::diag::ErrorKind;
pub use crate::diag::OverrideKind;
pub use crate::diag::ParseError;
pub use crate::ensure::Ensure;
pub use crate::package::Override;
pub use crate::package::Package;
pub use crate::package::Packages;
pub use crate::package::single;
pub use crate::parse::Installer;
pub use crate::parse::Section;
pub use crate::script::Script;
pub use crate::symlinks::Symlink;
pub use crate::symlinks::Symlinks;

use crate::codegen::ActionV;
use crate::codegen::lemma_lower_preserves_order;
use crate::codegen::spec_lower;
use crate::codegen::spec_lower_section;
use crate::diag::ErrorV;
use crate::parse::spec_parse_installer;

/// A whole compile: parse the manifest text into its ordered sections
/// and lower them into the action-descriptor sequence, or stop at the
/// first diagnostic.
pub open spec fn spec_compile(s: Seq<char>) -> Result<Seq<ActionV>, ErrorV> {
    match spec_parse_installer(s) {
        Ok(sections) => Ok(spec_lower(sections)),
        Err(e) => Err(e),
    }
}

/// Compile one manifest text into the ordered action-descriptor
/// sequence understood by the external runtime, or the first diagnostic
/// encountered. Stateless: every call is a fresh full compile.
pub fn installer(text: &Vec<char>) -> (r: Result<Vec<Action>, ParseError>)
    ensures
        match r {
            Ok(actions) => spec_compile(text@) == Ok::<Seq<ActionV>, ErrorV>(actions.deep_view()),
            Err(e) => spec_compile(text@) == Err::<Seq<ActionV>, ErrorV>(e@),
        },
{
    match Installer::parse(text) {
        Ok(inst) => Ok(generate_installer(inst)),
        Err(e) => Err(e),
    }
}

/// A manifest of N sections, in source order, compiles to exactly N
/// action descriptors in the same order: the action at each position is
/// the lowering of the section parsed at that position.
pub proof fn lemma_compile_preserves_sections(s: Seq<char>)
    ensures
        match spec_parse_installer(s) {
            Ok(sections) => spec_compile(s) == Ok::<Seq<ActionV>, ErrorV>(spec_lower(sections))
                && spec_lower(sections).len() == sections.len() && forall|i: int|
                0 <= i < sections.len() ==> #[trigger] spec_lower(sections)[i]
                    == spec_lower_section(sections[i]),
            Err(e) => spec_compile(s) == Err::<Seq<ActionV>, ErrorV>(e),
        },
{
    match spec_parse_installer(s) {
        Ok(sections) => {
            lemma_lower_preserves_order(sections);
        },
        Err(_) => {},
    }
}

/// Compiling is a pure function of the manifest text: two compiles of
/// equal text denote structurally identical outcomes — there is no
/// hidden nondeterminism anywhere in the pipeline.
pub proof fn lemma_compile_deterministic(a: Seq<char>, b: Seq<char>)
    requires
        a == b,
    ensures
        spec_compile(a) == spec_compile(b),
{
}

} // verus!
