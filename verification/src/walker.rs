//! The declarative region walker: maps declaration nodes to the identifiers
//! they contribute to their enclosing scope and descends into nested scopes
//! (interface lists, record element lists, subprogram and protected-type
//! bodies), each of which gets its own independent uniqueness check.
//!
//! The spec functions in this module are the mathematical model of the
//! walk: for every scope they give the exact sequence of diagnostics, in
//! declaration order, with nested-scope diagnostics interleaved at the
//! point the nested declaration is visited.

use vstd::prelude::*;
use crate::ast::{
    ArchitectureBody, ComponentDeclaration, Declaration, DesignUnit, ElementDeclaration,
    EntityDeclaration, Ident, InterfaceDeclaration, PackageBody, PackageDeclaration,
    ProtectedTypeDeclarativeItem, SubprogramBody, TypeDefinition,
};
use crate::diagnostic::Diagnostic;
use crate::scope::{
    declares, lemma_exempt_entry_inert, lemma_scope_upto_first_seen, reports_upto,
    scope_diagnostics, scope_report, scope_upto, unique_names, Scope,
};

verus! {

/// The scope entries of an interface list: one entry per declaration,
/// `None` for the exempt interface subprograms.
pub open spec fn interface_entries(l: Seq<InterfaceDeclaration>) -> Seq<Option<Ident>> {
    l.map_values(|d: InterfaceDeclaration| d.spec_ident())
}

/// The scope entries of a record element list; every element contributes.
pub open spec fn element_entries(l: Seq<ElementDeclaration>) -> Seq<Option<Ident>> {
    l.map_values(|e: ElementDeclaration| Some(e.ident))
}

/// The scope entries of a declarative part: one entry per declaration,
/// `None` for the exempt kinds.
pub open spec fn declaration_entries(l: Seq<Declaration>) -> Seq<Option<Ident>> {
    l.map_values(|d: Declaration| d.spec_ident())
}

/// All diagnostics of one interface list, checked as a single flat scope.
pub open spec fn interface_list_diagnostics(l: Seq<InterfaceDeclaration>) -> Seq<Diagnostic> {
    scope_diagnostics(interface_entries(l))
}

/// All diagnostics of one record element list, checked as a single flat
/// scope.
pub open spec fn element_list_diagnostics(l: Seq<ElementDeclaration>) -> Seq<Diagnostic> {
    scope_diagnostics(element_entries(l))
}

/// The diagnostics of the parameter-list scopes of the first `i` items of a
/// protected type declaration, in item order.
pub open spec fn protected_items_diagnostics_upto(
    items: Seq<ProtectedTypeDeclarativeItem>,
    i: int,
) -> Seq<Diagnostic>
    decreases i,
{
    if i <= 0 {
        Seq::empty()
    } else {
        let step = match items[i - 1] {
            ProtectedTypeDeclarativeItem::Subprogram(s) => interface_list_diagnostics(
                s.spec_interface_list(),
            ),
        };
        protected_items_diagnostics_upto(items, i - 1) + step
    }
}

/// The diagnostics of the nested scopes a declaration introduces, each an
/// independent scope unrelated to the enclosing one:
/// a component's generic and port lists, a subprogram's parameter list and
/// (for a body) its local declarative part, a protected type's method
/// parameter lists, a protected-type body's declarative part, and a record
/// definition's element list.
pub open spec fn nested_diagnostics(d: Declaration) -> Seq<Diagnostic>
    decreases d, 0int,
{
    match d {
        Declaration::Component(c) => interface_list_diagnostics(c.generic_list@)
            + interface_list_diagnostics(c.port_list@),
        Declaration::SubprogramBody(b) => interface_list_diagnostics(
            b.specification.spec_interface_list(),
        ) + declarative_part_diagnostics(b.declarations@),
        Declaration::SubprogramDeclaration(s) => interface_list_diagnostics(
            s.spec_interface_list(),
        ),
        Declaration::Type(t) => match t.def {
            TypeDefinition::ProtectedBody(body) => declarative_part_diagnostics(body.decl@),
            TypeDefinition::Protected(p) => protected_items_diagnostics_upto(
                p.items@,
                p.items@.len() as int,
            ),
            TypeDefinition::Record(els) => element_list_diagnostics(els@),
            _ => Seq::empty(),
        },
        _ => Seq::empty(),
    }
}

/// The diagnostics emitted while walking the first `i` declarations of a
/// declarative part: for each declaration, first its own duplicate report
/// (if any) against the scope built from the declarations before it, then
/// the diagnostics of the nested scopes it introduces.
pub open spec fn declarative_part_diagnostics_upto(decls: Seq<Declaration>, i: int) -> Seq<
    Diagnostic,
>
    decreases decls, i,
{
    if i <= 0 || i > decls.len() {
        Seq::empty()
    } else {
        let own = match decls[i - 1].spec_ident() {
            Some(id) => scope_report(scope_upto(declaration_entries(decls), i - 1), id),
            None => Seq::empty(),
        };
        declarative_part_diagnostics_upto(decls, i - 1) + own + nested_diagnostics(decls[i - 1])
    }
}

/// All diagnostics of one declarative part: its own flat scope interleaved
/// with every nested scope, depth first, in declaration order.
pub open spec fn declarative_part_diagnostics(decls: Seq<Declaration>) -> Seq<Diagnostic>
    decreases decls, decls.len() + 1,
{
    declarative_part_diagnostics_upto(decls, decls.len() as int)
}

/// All diagnostics of an entity declaration: its generic clause, its port
/// clause and its declarative part, three independent scopes in that order.
pub open spec fn entity_diagnostics(e: EntityDeclaration) -> Seq<Diagnostic> {
    let generics = match e.generic_clause {
        Some(l) => interface_list_diagnostics(l@),
        None => Seq::empty(),
    };
    let ports = match e.port_clause {
        Some(l) => interface_list_diagnostics(l@),
        None => Seq::empty(),
    };
    generics + ports + declarative_part_diagnostics(e.decl@)
}

/// All diagnostics of a design unit.  Unit kinds that are not yet checked
/// produce none.
pub open spec fn design_unit_diagnostics(u: DesignUnit) -> Seq<Diagnostic> {
    match u {
        DesignUnit::PackageDeclaration(p) => declarative_part_diagnostics(p.decl@),
        DesignUnit::PackageBody(p) => declarative_part_diagnostics(p.decl@),
        DesignUnit::EntityDeclaration(e) => entity_diagnostics(e),
        DesignUnit::Architecture(a) => declarative_part_diagnostics(a.decl@),
        DesignUnit::Configuration(_) => Seq::empty(),
    }
}

/// Scope independence: a declarative part whose own contributing names are
/// pairwise distinct, and whose nested scopes are each clean on their own,
/// produces no diagnostics at all — no matter how the names of the nested
/// scopes relate to the names of the enclosing part or to each other.
/// Reusing an enclosing name inside a subprogram body, a parameter list or
/// a record is therefore never reported.
pub proof fn lemma_scope_independence(decls: Seq<Declaration>)
    requires
        unique_names(declaration_entries(decls)),
        forall|j: int|
            0 <= j < decls.len() ==> #[trigger] nested_diagnostics(decls[j]) == Seq::<
                Diagnostic,
            >::empty(),
    ensures
        declarative_part_diagnostics(decls) == Seq::<Diagnostic>::empty(),
{
    lemma_clean_part_upto(decls, decls.len() as int);
}

/// The prefix form of [`lemma_scope_independence`].
proof fn lemma_clean_part_upto(decls: Seq<Declaration>, i: int)
    requires
        0 <= i <= decls.len(),
        unique_names(declaration_entries(decls)),
        forall|j: int|
            0 <= j < decls.len() ==> #[trigger] nested_diagnostics(decls[j]) == Seq::<
                Diagnostic,
            >::empty(),
    ensures
        declarative_part_diagnostics_upto(decls, i) == Seq::<Diagnostic>::empty(),
    decreases i,
{
    let entries = declaration_entries(decls);
    if i > 0 {
        lemma_clean_part_upto(decls, i - 1);
        assert(nested_diagnostics(decls[i - 1]) == Seq::<Diagnostic>::empty());
        match decls[i - 1].spec_ident() {
            Some(id) => {
                assert(entries[i - 1] == Some(id));
                assert(declares(entries, i - 1, id.name));
                lemma_scope_upto_first_seen(entries, i - 1);
                if scope_upto(entries, i - 1).contains_key(id.name) {
                    let j = choose|j: int|
                        0 <= j < i - 1 && #[trigger] declares(entries, j, id.name);
                    assert(false);
                }
                assert(declarative_part_diagnostics_upto(decls, i) =~= Seq::<
                    Diagnostic,
                >::empty());
            },
            None => {
                assert(declarative_part_diagnostics_upto(decls, i) =~= Seq::<
                    Diagnostic,
                >::empty());
            },
        }
    }
}

/// Forward-declaration exemption: a type declaration whose definition is
/// incomplete (the forward part of a two-part type declaration) or a
/// protected-type body contributes nothing to its scope, so the scope
/// reports exactly as if the declaration were absent — in particular it
/// never collides with the completing declaration, or with the protected
/// type's forward declaration, of the same name.
pub proof fn lemma_forward_declaration_exempt(decls: Seq<Declaration>, j: int)
    requires
        0 <= j < decls.len(),
        decls[j] matches Declaration::Type(t) && (t.def is Incomplete || t.def is ProtectedBody),
    ensures
        declaration_entries(decls)[j] is None,
        scope_diagnostics(declaration_entries(decls)) == scope_diagnostics(
            declaration_entries(decls.remove(j)),
        ),
{
    let entries = declaration_entries(decls);
    assert(entries[j] is None);
    lemma_exempt_entry_inert(entries, j);
    decls.remove_ensures(j);
    entries.remove_ensures(j);
    assert(entries.remove(j) =~= declaration_entries(decls.remove(j)));
}

/// Nested scope independence: a subprogram body's parameter list and its
/// local declarative part are checked as two unrelated scopes; the reports
/// of both appear, each computed from its own declarations alone, so a
/// duplicate in one neither suppresses nor is suppressed by a duplicate in
/// the other.
pub proof fn lemma_nested_scopes_independent(b: SubprogramBody)
    ensures
        nested_diagnostics(Declaration::SubprogramBody(b)) == interface_list_diagnostics(
            b.specification.spec_interface_list(),
        ) + declarative_part_diagnostics(b.declarations@),
{
}

/// A component's generic list and port list are likewise two independent
/// scopes, each reported on its own.
pub proof fn lemma_component_lists_independent(c: ComponentDeclaration)
    ensures
        nested_diagnostics(Declaration::Component(c)) == interface_list_diagnostics(
            c.generic_list@,
        ) + interface_list_diagnostics(c.port_list@),
{
}

/// Checks that no homographs are declared in one interface list (a generic
/// clause, a port clause or a subprogram parameter list), appending one
/// diagnostic per duplicate to the sink.
pub fn check_interface_list_unique_ident(
    declarations: &Vec<InterfaceDeclaration>,
    diagnostics: &mut Vec<Diagnostic>,
)
    ensures
        final(diagnostics)@ == old(diagnostics)@ + interface_list_diagnostics(declarations@),
{
    let ghost pre = diagnostics@;
    let ghost entries = interface_entries(declarations@);
    let mut scope = Scope::new();
    let mut i: usize = 0;
    while i < declarations.len()
        invariant
            i <= declarations.len(),
            entries == interface_entries(declarations@),
            scope@ == scope_upto(entries, i as int),
            diagnostics@ == pre + reports_upto(entries, i as int),
        decreases declarations.len() - i,
    {
        proof {
            assert(entries[i as int] == declarations@[i as int].spec_ident());
        }
        if let Some(id) = declarations[i].ident() {
            scope.check_unique(&id, diagnostics);
        }
        proof {
            assert(diagnostics@ =~= pre + reports_upto(entries, i as int + 1));
        }
        i += 1;
    }
    proof {
        assert(entries.len() == declarations@.len());
    }
}

/// Checks that no homographs are declared among the fields of one record
/// definition.
pub fn check_element_declaration_unique_ident(
    declarations: &Vec<ElementDeclaration>,
    diagnostics: &mut Vec<Diagnostic>,
)
    ensures
        final(diagnostics)@ == old(diagnostics)@ + element_list_diagnostics(declarations@),
{
    let ghost pre = diagnostics@;
    let ghost entries = element_entries(declarations@);
    let mut scope = Scope::new();
    let mut i: usize = 0;
    while i < declarations.len()
        invariant
            i <= declarations.len(),
            entries == element_entries(declarations@),
            scope@ == scope_upto(entries, i as int),
            diagnostics@ == pre + reports_upto(entries, i as int),
        decreases declarations.len() - i,
    {
        proof {
            assert(entries[i as int] == Some(declarations@[i as int].ident));
        }
        let id = declarations[i].ident;
        scope.check_unique(&id, diagnostics);
        proof {
            assert(diagnostics@ =~= pre + reports_upto(entries, i as int + 1));
        }
        i += 1;
    }
    proof {
        assert(entries.len() == declarations@.len());
    }
}

/// Checks that no homographs are declared in one declarative part, and
/// recurses into every nested scope: each component's generic and port
/// lists, each subprogram's parameter list and local declarations, each
/// protected type's method parameter lists and body declarations, and each
/// record definition's fields.  Diagnostics are appended in declaration
/// order, nested scopes interleaved depth first.
pub fn check_declarative_part_unique_ident(
    declarations: &Vec<Declaration>,
    diagnostics: &mut Vec<Diagnostic>,
)
    ensures
        final(diagnostics)@ == old(diagnostics)@ + declarative_part_diagnostics(declarations@),
    decreases declarations@,
{
    let ghost pre = diagnostics@;
    let ghost entries = declaration_entries(declarations@);
    let mut scope = Scope::new();
    let mut i: usize = 0;
    while i < declarations.len()
        invariant
            i <= declarations.len(),
            entries == declaration_entries(declarations@),
            scope@ == scope_upto(entries, i as int),
            diagnostics@ == pre + declarative_part_diagnostics_upto(declarations@, i as int),
        decreases declarations.len() - i,
    {
        proof {
            assert(entries[i as int] == declarations@[i as int].spec_ident());
        }
        let ghost mid0 = diagnostics@;
        let decl = &declarations[i];
        if let Some(id) = decl.ident() {
            scope.check_unique(&id, diagnostics);
        }
        let ghost own = (match declarations@[i as int].spec_ident() {
            Some(id) => scope_report(scope_upto(entries, i as int), id),
            None => Seq::empty(),
        });
        proof {
            assert(diagnostics@ =~= mid0 + own);
        }
        let ghost mid1 = diagnostics@;
        match decl {
            Declaration::Component(component) => {
                check_interface_list_unique_ident(&component.generic_list, diagnostics);
                check_interface_list_unique_ident(&component.port_list, diagnostics);
            },
            Declaration::SubprogramBody(body) => {
                check_interface_list_unique_ident(body.specification.interface_list(), diagnostics);
                proof {
                    assert(decreases_to!(declarations@ => declarations@[i as int]));
                    assert(declarations@[i as int] == Declaration::SubprogramBody(*body));
                    assert(decreases_to!(declarations@[i as int] => *body));
                    assert(decreases_to!(*body => body.declarations));
                    assert(decreases_to!(body.declarations => body.declarations@));
                }
                check_declarative_part_unique_ident(&body.declarations, diagnostics);
            },
            Declaration::SubprogramDeclaration(subprogram) => {
                check_interface_list_unique_ident(subprogram.interface_list(), diagnostics);
            },
            Declaration::Type(type_decl) => match &type_decl.def {
                TypeDefinition::ProtectedBody(body) => {
                    proof {
                        assert(decreases_to!(declarations@ => declarations@[i as int]));
                        assert(decreases_to!(declarations@[i as int] => *type_decl));
                        assert(decreases_to!(*type_decl => type_decl.def));
                        assert(decreases_to!(type_decl.def => *body));
                        assert(decreases_to!(*body => body.decl));
                        assert(decreases_to!(body.decl => body.decl@));
                    }
                    check_declarative_part_unique_ident(&body.decl, diagnostics);
                },
                TypeDefinition::Protected(prot_decl) => {
                    let ghost items = prot_decl.items@;
                    let mut j: usize = 0;
                    while j < prot_decl.items.len()
                        invariant
                            j <= prot_decl.items.len(),
                            items == prot_decl.items@,
                            diagnostics@ == mid1 + protected_items_diagnostics_upto(
                                items,
                                j as int,
                            ),
                        decreases prot_decl.items.len() - j,
                    {
                        match &prot_decl.items[j] {
                            ProtectedTypeDeclarativeItem::Subprogram(subprogram) => {
                                check_interface_list_unique_ident(
                                    subprogram.interface_list(),
                                    diagnostics,
                                );
                            },
                        }
                        proof {
                            assert(diagnostics@ =~= mid1 + protected_items_diagnostics_upto(
                                items,
                                j as int + 1,
                            ));
                        }
                        j += 1;
                    }
                },
                TypeDefinition::Record(decls) => {
                    check_element_declaration_unique_ident(decls, diagnostics);
                },
                _ => {},
            },
            _ => {},
        }
        proof {
            assert(diagnostics@ =~= mid1 + nested_diagnostics(declarations@[i as int]));
            assert(diagnostics@ =~= pre + declarative_part_diagnostics_upto(
                declarations@,
                i as int + 1,
            ));
        }
        i += 1;
    }
    proof {
        assert(entries.len() == declarations@.len());
    }
}

/// Checks the declarative part of a package declaration.
pub fn check_package_declaration(package: &PackageDeclaration, diagnostics: &mut Vec<Diagnostic>)
    ensures
        final(diagnostics)@ == old(diagnostics)@ + declarative_part_diagnostics(package.decl@),
{
    check_declarative_part_unique_ident(&package.decl, diagnostics);
}

/// Checks the declarative part of a package body.
pub fn check_package_body(package: &PackageBody, diagnostics: &mut Vec<Diagnostic>)
    ensures
        final(diagnostics)@ == old(diagnostics)@ + declarative_part_diagnostics(package.decl@),
{
    check_declarative_part_unique_ident(&package.decl, diagnostics);
}

/// Checks the declarative part of an architecture body.  Declarative parts
/// nested inside its concurrent statements are out of scope for this check.
pub fn check_architecture_body(architecture: &ArchitectureBody, diagnostics: &mut Vec<Diagnostic>)
    ensures
        final(diagnostics)@ == old(diagnostics)@ + declarative_part_diagnostics(architecture.decl@),
{
    check_declarative_part_unique_ident(&architecture.decl, diagnostics);
}

/// Checks an entity declaration: its generic clause, its port clause and
/// its declarative part, each as an independent scope.
pub fn check_entity_declaration(entity: &EntityDeclaration, diagnostics: &mut Vec<Diagnostic>)
    ensures
        final(diagnostics)@ == old(diagnostics)@ + entity_diagnostics(*entity),
{
    let ghost pre = diagnostics@;
    match &entity.generic_clause {
        Some(list) => check_interface_list_unique_ident(list, diagnostics),
        None => {},
    }
    match &entity.port_clause {
        Some(list) => check_interface_list_unique_ident(list, diagnostics),
        None => {},
    }
    check_declarative_part_unique_ident(&entity.decl, diagnostics);
    proof {
        assert(diagnostics@ =~= pre + entity_diagnostics(*entity));
    }
}

/// The sole public entry point of the analysis: dispatches on the design
/// unit kind and runs every check that applies.  It is total: a unit kind
/// that is not yet checked silently produces no diagnostics.
pub fn check_design_unit(design_unit: &DesignUnit, diagnostics: &mut Vec<Diagnostic>)
    ensures
        final(diagnostics)@ == old(diagnostics)@ + design_unit_diagnostics(*design_unit),
{
    match design_unit {
        DesignUnit::PackageDeclaration(package) => check_package_declaration(package, diagnostics),
        DesignUnit::Architecture(architecture) => check_architecture_body(
            architecture,
            diagnostics,
        ),
        DesignUnit::PackageBody(package) => check_package_body(package, diagnostics),
        DesignUnit::EntityDeclaration(entity) => check_entity_declaration(entity, diagnostics),
        DesignUnit::Configuration(_) => {
            proof {
                assert(diagnostics@ =~= diagnostics@ + design_unit_diagnostics(*design_unit));
            }
        },
    }
}

} // verus!
