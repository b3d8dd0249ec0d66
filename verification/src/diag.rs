//! Diagnostics: every compile failure carries a structured kind and the
//! offset of the offending token in the manifest text.

use vstd::prelude::*;

verus! {

/// The three package managers a package entry may override the name for.
#[derive(Clone, Copy, PartialEq, Eq, Structural, Debug)]
pub enum OverrideKind {
    Pacman,
    Apt,
    Brew,
}

/// What went wrong during a compile.
#[derive(Debug, PartialEq, Eq)]
pub enum ErrorKind {
    /// The leading word of a section matches none of the reserved keywords.
    UnknownSection,
    /// Malformed punctuation or literal inside a recognized section.
    Grammar,
    /// A package declares the same manager override twice.
    DuplicateOverride(OverrideKind),
    /// A `symlinks` section declares the same link path twice.
    DuplicateSymlink(Vec<char>),
}

/// Mathematical model of an [`ErrorKind`].
pub ghost enum ErrorKindV {
    UnknownSection,
    Grammar,
    DuplicateOverride(OverrideKind),
    DuplicateSymlink(Seq<char>),
}

impl View for ErrorKind {
    type V = ErrorKindV;

    open spec fn view(&self) -> ErrorKindV {
        match self {
            ErrorKind::UnknownSection => ErrorKindV::UnknownSection,
            ErrorKind::Grammar => ErrorKindV::Grammar,
            ErrorKind::DuplicateOverride(k) => ErrorKindV::DuplicateOverride(*k),
            ErrorKind::DuplicateSymlink(key) => ErrorKindV::DuplicateSymlink(key@),
        }
    }
}

/// A structured diagnostic: the kind of failure together with the offset
/// into the manifest text of the token it points at.
#[derive(Debug, PartialEq, Eq)]
pub struct ParseError {
    pub kind: ErrorKind,
    pub pos: usize,
}

/// Mathematical model of a [`ParseError`].
pub ghost struct ErrorV {
    pub kind: ErrorKindV,
    pub pos: int,
}

impl View for ParseError {
    type V = ErrorV;

    open spec fn view(&self) -> ErrorV {
        ErrorV { kind: self.kind@, pos: self.pos as int }
    }
}

} // verus!
