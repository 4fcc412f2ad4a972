//! Homograph detection for VHDL declarative regions.
//!
//! Given the abstract syntax of a design unit, this library finds every pair
//! of declarations that bind the same identifier inside one declarative
//! scope and reports each collision as a diagnostic.  Interface lists
//! (generics, ports, subprogram parameters), record element lists and nested
//! declarative parts each form their own independent scope.

pub mod ast;
pub mod diagnostic;
pub mod scope;
pub mod walker;
