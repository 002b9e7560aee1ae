//! Structural errors of a graph build.
use vstd::prelude::*;

verus! {

/// What went wrong.
#[derive(PartialEq, Eq, Structural, Debug, Clone, Copy)]
pub enum CFGErrorKind {
    /// A node was inserted at an identifier that is already present.
    DuplicateIdentifier,
    /// A scope was closed or looked at while too few scopes were open.
    NoOpenContext,
    /// The walk ended with a scope other than the file scope still open.
    UnclosedContext,
    /// The target of an export cannot be written as text.
    InvalidOutputPath,
    /// Writing an export failed.
    Export,
}

/// An error of the graph build, with a human-readable cause.
#[derive(Debug, Clone)]
pub struct CFGError {
    pub kind: CFGErrorKind,
    pub cause: String,
}

impl CFGError {
    pub fn cause(kind: CFGErrorKind, txt: &str) -> (r: CFGError)
        ensures
            r.kind == kind,
            r.cause@ == txt@,
    {
        CFGError { kind, cause: txt.to_owned() }
    }
}

/// The result of one step of a build.
pub type CFGStep<T = ()> = Result<T, CFGError>;

} // verus!
