//! The diagnostic model: one reported problem and the ordered sink that
//! collects all problems found in a design unit.

use vstd::prelude::*;
use crate::ast::Position;

verus! {

/// How serious a diagnostic is.  The homograph check only ever produces
/// errors, but the severity travels with each diagnostic so that the caller
/// can merge sinks from other analyses.
#[derive(Clone, Copy, PartialEq, Eq, Structural, Debug)]
pub enum Severity {
    Error,
}

/// One reported homograph: a declaration that binds a name already bound in
/// the same scope.  The primary position points at the duplicate; the
/// related position points at the first declaration of the same name, the
/// one every later duplicate is reported against.  Rendering the message
/// text ("Duplicate declaration of ...") is the caller's business, since
/// only the caller's interner can turn `name` back into its spelling.
#[derive(Clone, Copy, PartialEq, Eq, Structural, Debug)]
pub struct Diagnostic {
    pub severity: Severity,
    /// The interned name that is declared twice.
    pub name: u64,
    /// Where the duplicate declaration occurs.
    pub pos: Position,
    /// Where the name was first declared in this scope ("previously defined
    /// here").
    pub related: Position,
}

impl Diagnostic {
    /// The duplicate-declaration diagnostic for `name` at `pos`, reported
    /// against the first declaration at `related`.
    pub open spec fn spec_duplicate(name: u64, pos: Position, related: Position) -> Diagnostic {
        Diagnostic { severity: Severity::Error, name, pos, related }
    }

    /// Executable form of [`Self::spec_duplicate`].
    pub fn duplicate(name: u64, pos: Position, related: Position) -> (r: Diagnostic)
        ensures
            r == Diagnostic::spec_duplicate(name, pos, related),
    {
        Diagnostic { severity: Severity::Error, name, pos, related }
    }
}

} // verus!
