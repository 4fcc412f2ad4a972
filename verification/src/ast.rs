//! Abstract syntax for the declaration taxonomy of a design unit.
//!
//! The nodes model exactly what the homograph check reads: the defining
//! identifier of each declaration, the interface lists and declarative parts
//! that open nested scopes, and nothing else.  Identifiers carry an interned
//! name: the upstream interner guarantees that two identifiers spell the same
//! name (after case folding) exactly when their `name` fields are equal.

use vstd::prelude::*;

verus! {

/// A source position, attached to every defining identifier so that a
/// diagnostic can point back into the source text.  The analysis never
/// interprets it; it only copies it into diagnostics.
#[derive(Clone, Copy, PartialEq, Eq, Structural, Debug)]
pub struct Position {
    /// Byte offset of the identifier in its source file.
    pub offset: u64,
}

/// A defining identifier: an interned name together with the position where
/// it is written.  Two identifiers bind the same name iff their `name`
/// fields are equal.
#[derive(Clone, Copy, PartialEq, Eq, Structural, Debug)]
pub struct Ident {
    /// The interned name, an opaque key handed out by the symbol interner.
    pub name: u64,
    /// Where the identifier occurs in the source.
    pub pos: Position,
}

/// An object declaration (constant, signal, variable or shared variable).
pub struct ObjectDeclaration {
    pub ident: Ident,
}

/// A file declaration.
pub struct FileDeclaration {
    pub ident: Ident,
}

/// An alias declaration.  Aliases are not yet part of the homograph check,
/// so only the designator is kept.
pub struct AliasDeclaration {
    pub designator: Ident,
}

/// An attribute declaration or specification; not yet checked.
pub struct AttributeDeclaration {
    pub ident: Ident,
}

/// A component declaration with its generic and port interface lists, each
/// of which forms an independent scope.
pub struct ComponentDeclaration {
    pub ident: Ident,
    pub generic_list: Vec<InterfaceDeclaration>,
    pub port_list: Vec<InterfaceDeclaration>,
}

/// A function specification: designator plus parameter interface list.
pub struct FunctionSpecification {
    pub designator: Ident,
    pub parameter_list: Vec<InterfaceDeclaration>,
}

/// A procedure specification: designator plus parameter interface list.
pub struct ProcedureSpecification {
    pub designator: Ident,
    pub parameter_list: Vec<InterfaceDeclaration>,
}

/// A subprogram declaration (specification without a body).  Subprograms may
/// be overloaded, so their designators never take part in the homograph
/// check; only their parameter lists are checked, as scopes of their own.
pub enum SubprogramDeclaration {
    Function(FunctionSpecification),
    Procedure(ProcedureSpecification),
}

/// A subprogram body: its specification plus its local declarative part,
/// which is a scope independent of the enclosing one.
pub struct SubprogramBody {
    pub specification: SubprogramDeclaration,
    pub declarations: Vec<Declaration>,
}

/// A declarative item of a protected type declaration.  The language allows
/// only subprogram specifications here.
pub enum ProtectedTypeDeclarativeItem {
    Subprogram(SubprogramDeclaration),
}

/// The forward (specification) part of a protected type: a list of method
/// specifications.
pub struct ProtectedTypeDeclaration {
    pub items: Vec<ProtectedTypeDeclarativeItem>,
}

/// The body of a protected type, carrying its own declarative part.
pub struct ProtectedTypeBody {
    pub decl: Vec<Declaration>,
}

/// A record field; always carries a defining identifier.
pub struct ElementDeclaration {
    pub ident: Ident,
}

/// The definition attached to a type declaration.  Only the variants that
/// matter to the homograph check are distinguished; every other definition
/// form (scalar, array, access, ...) is `Other`.
pub enum TypeDefinition {
    /// An incomplete type declaration, the forward part of a two-part
    /// declaration; it never collides with anything, including its own
    /// completion.
    Incomplete,
    /// The forward (specification) part of a protected type.
    Protected(ProtectedTypeDeclaration),
    /// The body of a protected type; it never collides with anything,
    /// in particular not with the forward declaration of the same name.
    ProtectedBody(ProtectedTypeBody),
    /// A record definition with its field list, a scope of its own.
    Record(Vec<ElementDeclaration>),
    /// Any other definition form; irrelevant to this check.
    Other,
}

/// A type declaration: a defining identifier plus its definition.
pub struct TypeDeclaration {
    pub ident: Ident,
    pub def: TypeDefinition,
}

/// A use clause; not a defining declaration.
pub struct UseClause {}

/// A configuration declaration nested in a declarative part; not yet
/// checked.
pub struct ConfigurationDeclaration {
    pub ident: Ident,
}

/// A declaration as it occurs in a declarative part.
pub enum Declaration {
    Object(ObjectDeclaration),
    File(FileDeclaration),
    Alias(AliasDeclaration),
    Attribute(AttributeDeclaration),
    Component(ComponentDeclaration),
    SubprogramBody(SubprogramBody),
    SubprogramDeclaration(SubprogramDeclaration),
    Use(UseClause),
    Package(PackageDeclaration),
    Configuration(ConfigurationDeclaration),
    Type(TypeDeclaration),
}

/// An interface declaration, as it occurs in generic clauses, port clauses
/// and subprogram parameter lists.
pub enum InterfaceDeclaration {
    File(InterfaceFileDeclaration),
    Object(InterfaceObjectDeclaration),
    Type(Ident),
    /// An interface subprogram; exempt from the check because subprograms
    /// may be overloaded.
    Subprogram(SubprogramDeclaration),
}

/// A file parameter or generic.
pub struct InterfaceFileDeclaration {
    pub ident: Ident,
}

/// An object parameter, generic or port.
pub struct InterfaceObjectDeclaration {
    pub ident: Ident,
}

/// A package declaration: its defining identifier and its declarative part.
pub struct PackageDeclaration {
    pub ident: Ident,
    pub decl: Vec<Declaration>,
}

/// A package body: its defining identifier and its declarative part.
pub struct PackageBody {
    pub ident: Ident,
    pub decl: Vec<Declaration>,
}

/// An entity declaration: optional generic and port clauses plus its
/// declarative part.
pub struct EntityDeclaration {
    pub ident: Ident,
    pub generic_clause: Option<Vec<InterfaceDeclaration>>,
    pub port_clause: Option<Vec<InterfaceDeclaration>>,
    pub decl: Vec<Declaration>,
}

/// An architecture body with its declarative part.  Declarative parts nested
/// inside its concurrent statements are not modelled: they are outside the
/// scope of this check.
pub struct ArchitectureBody {
    pub ident: Ident,
    pub decl: Vec<Declaration>,
}

/// A design unit, the compilation unit handed to the analysis.
pub enum DesignUnit {
    PackageDeclaration(PackageDeclaration),
    PackageBody(PackageBody),
    EntityDeclaration(EntityDeclaration),
    Architecture(ArchitectureBody),
    Configuration(ConfigurationDeclaration),
}

impl Declaration {
    /// The identifier this declaration contributes to its enclosing scope's
    /// uniqueness set, or `None` when it is exempt.
    ///
    /// Exempt are: aliases, attributes, use clauses, nested packages and
    /// configurations (not yet checked); subprogram declarations and bodies
    /// (overloading makes same-name repetition legal); incomplete type
    /// declarations and protected type bodies (the second part of a two-part
    /// declaration completes the first rather than colliding with it).
    pub open spec fn spec_ident(self) -> Option<Ident> {
        match self {
            Declaration::Object(d) => Some(d.ident),
            Declaration::File(d) => Some(d.ident),
            Declaration::Alias(_) => None,
            Declaration::Attribute(_) => None,
            Declaration::Component(d) => Some(d.ident),
            Declaration::SubprogramBody(_) => None,
            Declaration::SubprogramDeclaration(_) => None,
            Declaration::Use(_) => None,
            Declaration::Package(_) => None,
            Declaration::Configuration(_) => None,
            Declaration::Type(t) => match t.def {
                TypeDefinition::Incomplete => None,
                TypeDefinition::ProtectedBody(_) => None,
                _ => Some(t.ident),
            },
        }
    }

    /// Executable form of [`Self::spec_ident`].
    pub fn ident(&self) -> (r: Option<Ident>)
        ensures
            r == self.spec_ident(),
    {
        match self {
            Declaration::Object(d) => Some(d.ident),
            Declaration::File(d) => Some(d.ident),
            Declaration::Alias(_) => None,
            Declaration::Attribute(_) => None,
            Declaration::Component(d) => Some(d.ident),
            Declaration::SubprogramBody(_) => None,
            Declaration::SubprogramDeclaration(_) => None,
            Declaration::Use(_) => None,
            Declaration::Package(_) => None,
            Declaration::Configuration(_) => None,
            Declaration::Type(t) => match &t.def {
                TypeDefinition::Incomplete => None,
                TypeDefinition::ProtectedBody(_) => None,
                _ => Some(t.ident),
            },
        }
    }
}

impl InterfaceDeclaration {
    /// The identifier this interface declaration contributes to its list's
    /// scope; interface subprograms are exempt because of overloading.
    pub open spec fn spec_ident(self) -> Option<Ident> {
        match self {
            InterfaceDeclaration::File(d) => Some(d.ident),
            InterfaceDeclaration::Object(d) => Some(d.ident),
            InterfaceDeclaration::Type(ident) => Some(ident),
            InterfaceDeclaration::Subprogram(_) => None,
        }
    }

    /// Executable form of [`Self::spec_ident`].
    pub fn ident(&self) -> (r: Option<Ident>)
        ensures
            r == self.spec_ident(),
    {
        match self {
            InterfaceDeclaration::File(d) => Some(d.ident),
            InterfaceDeclaration::Object(d) => Some(d.ident),
            InterfaceDeclaration::Type(ident) => Some(*ident),
            InterfaceDeclaration::Subprogram(_) => None,
        }
    }
}

impl SubprogramDeclaration {
    /// The parameter interface list of the declared subprogram.
    pub open spec fn spec_interface_list(self) -> Seq<InterfaceDeclaration> {
        match self {
            SubprogramDeclaration::Function(fun) => fun.parameter_list@,
            SubprogramDeclaration::Procedure(proc) => proc.parameter_list@,
        }
    }

    /// Executable form of [`Self::spec_interface_list`].
    pub fn interface_list(&self) -> (r: &Vec<InterfaceDeclaration>)
        ensures
            r@ == self.spec_interface_list(),
    {
        match self {
            SubprogramDeclaration::Function(fun) => &fun.parameter_list,
            SubprogramDeclaration::Procedure(proc) => &proc.parameter_list,
        }
    }
}

} // verus!
