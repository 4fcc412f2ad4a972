//! Homograph detection over declarative parts, interface lists and design
//! units, driven through hand-built syntax trees.

use vhdl_semantic::ast::{
    ComponentDeclaration, Declaration, ElementDeclaration, EntityDeclaration, FunctionSpecification,
    Ident, InterfaceDeclaration, InterfaceObjectDeclaration, ObjectDeclaration, Position,
    ProcedureSpecification, ProtectedTypeDeclaration, ProtectedTypeBody,
    ProtectedTypeDeclarativeItem, SubprogramBody, SubprogramDeclaration, TypeDeclaration,
    TypeDefinition,
};
use vhdl_semantic::diagnostic::Diagnostic;
use vhdl_semantic::walker::{
    check_declarative_part_unique_ident, check_entity_declaration,
};

// Interned names, as the upstream symbol interner would hand them out.
const A1: u64 = 11;
const A: u64 = 10;
const B1: u64 = 21;
const B: u64 = 20;
const C1: u64 = 31;
const C: u64 = 30;
const D1: u64 = 41;
const D: u64 = 40;
const PROC: u64 = 100;
const NESTED_PROC: u64 = 101;
const FUN: u64 = 102;
const COMP: u64 = 103;
const PROT_T: u64 = 104;
const REC_T: u64 = 105;
const ENT: u64 = 106;

fn pos(offset: u64) -> Position {
    Position { offset }
}

fn ident(name: u64, offset: u64) -> Ident {
    Ident { name, pos: pos(offset) }
}

fn constant(name: u64, offset: u64) -> Declaration {
    Declaration::Object(ObjectDeclaration { ident: ident(name, offset) })
}

fn param(name: u64, offset: u64) -> InterfaceDeclaration {
    InterfaceDeclaration::Object(InterfaceObjectDeclaration { ident: ident(name, offset) })
}

fn element(name: u64, offset: u64) -> ElementDeclaration {
    ElementDeclaration { ident: ident(name, offset) }
}

fn procedure_spec(
    name: u64,
    offset: u64,
    parameter_list: Vec<InterfaceDeclaration>,
) -> SubprogramDeclaration {
    SubprogramDeclaration::Procedure(ProcedureSpecification {
        designator: ident(name, offset),
        parameter_list,
    })
}

fn function_spec(
    name: u64,
    offset: u64,
    parameter_list: Vec<InterfaceDeclaration>,
) -> SubprogramDeclaration {
    SubprogramDeclaration::Function(FunctionSpecification {
        designator: ident(name, offset),
        parameter_list,
    })
}

/// The diagnostic for a duplicate of `name` at `offset`, first declared at
/// `first_offset`.
fn dup(name: u64, offset: u64, first_offset: u64) -> Diagnostic {
    Diagnostic::duplicate(name, pos(offset), pos(first_offset))
}

#[test]
fn allows_unique_names() {
    let declarations = vec![constant(A, 1), constant(B, 2), constant(C, 3)];

    let mut messages = Vec::new();
    check_declarative_part_unique_ident(&declarations, &mut messages);
    assert!(messages.is_empty());
}

#[test]
fn forbid_homographs() {
    let declarations = vec![constant(A1, 1), constant(A, 2), constant(A1, 3)];

    let mut messages = Vec::new();
    check_declarative_part_unique_ident(&declarations, &mut messages);
    assert_eq!(messages, vec![dup(A1, 3, 1)]);
}

#[test]
fn allows_protected_type_and_body_with_same_name() {
    let declarations = vec![
        Declaration::Type(TypeDeclaration {
            ident: ident(PROT_T, 1),
            def: TypeDefinition::Protected(ProtectedTypeDeclaration { items: vec![] }),
        }),
        Declaration::Type(TypeDeclaration {
            ident: ident(PROT_T, 2),
            def: TypeDefinition::ProtectedBody(ProtectedTypeBody { decl: vec![] }),
        }),
    ];

    let mut messages = Vec::new();
    check_declarative_part_unique_ident(&declarations, &mut messages);
    assert!(messages.is_empty());
}

#[test]
fn allows_incomplete_type_definition() {
    let declarations = vec![
        Declaration::Type(TypeDeclaration {
            ident: ident(REC_T, 1),
            def: TypeDefinition::Incomplete,
        }),
        Declaration::Type(TypeDeclaration {
            ident: ident(REC_T, 2),
            def: TypeDefinition::Record(vec![]),
        }),
    ];

    let mut messages = Vec::new();
    check_declarative_part_unique_ident(&declarations, &mut messages);
    assert!(messages.is_empty());
}

#[test]
fn forbid_homographs_in_subprogram_bodies() {
    let nested = SubprogramBody {
        specification: procedure_spec(
            NESTED_PROC,
            7,
            vec![param(C1, 8), param(C, 9), param(C1, 10)],
        ),
        declarations: vec![constant(D1, 11), constant(D, 12), constant(D1, 13)],
    };
    let proc = SubprogramBody {
        specification: procedure_spec(PROC, 0, vec![param(A1, 1), param(A, 2), param(A1, 3)]),
        declarations: vec![
            constant(B1, 4),
            constant(B, 5),
            constant(B1, 6),
            Declaration::SubprogramBody(nested),
        ],
    };
    let declarations = vec![Declaration::SubprogramBody(proc)];

    let mut messages = Vec::new();
    check_declarative_part_unique_ident(&declarations, &mut messages);
    assert_eq!(
        messages,
        vec![dup(A1, 3, 1), dup(B1, 6, 4), dup(C1, 10, 8), dup(D1, 13, 11)]
    );
}

#[test]
fn forbid_homographs_in_component_declarations() {
    let declarations = vec![Declaration::Component(ComponentDeclaration {
        ident: ident(COMP, 0),
        generic_list: vec![param(A1, 1), param(A, 2), param(A1, 3)],
        port_list: vec![param(B1, 4), param(B, 5), param(B1, 6)],
    })];

    let mut messages = Vec::new();
    check_declarative_part_unique_ident(&declarations, &mut messages);
    assert_eq!(messages, vec![dup(A1, 3, 1), dup(B1, 6, 4)]);
}

#[test]
fn forbid_homographs_in_record_type_declarations() {
    let declarations = vec![Declaration::Type(TypeDeclaration {
        ident: ident(REC_T, 0),
        def: TypeDefinition::Record(vec![element(A1, 1), element(A, 2), element(A1, 3)]),
    })];

    let mut messages = Vec::new();
    check_declarative_part_unique_ident(&declarations, &mut messages);
    assert_eq!(messages, vec![dup(A1, 3, 1)]);
}

#[test]
fn forbid_homographs_in_proteced_type_declarations() {
    let declarations = vec![
        Declaration::Type(TypeDeclaration {
            ident: ident(PROT_T, 0),
            def: TypeDefinition::Protected(ProtectedTypeDeclaration {
                items: vec![ProtectedTypeDeclarativeItem::Subprogram(procedure_spec(
                    PROC,
                    1,
                    vec![param(A1, 2), param(A, 3), param(A1, 4)],
                ))],
            }),
        }),
        Declaration::Type(TypeDeclaration {
            ident: ident(PROT_T, 5),
            def: TypeDefinition::ProtectedBody(ProtectedTypeBody {
                decl: vec![constant(B1, 6), constant(B, 7), constant(B1, 8)],
            }),
        }),
    ];

    let mut messages = Vec::new();
    check_declarative_part_unique_ident(&declarations, &mut messages);
    assert_eq!(messages, vec![dup(A1, 4, 2), dup(B1, 8, 6)]);
}

#[test]
fn forbid_homographs_in_subprogram_declarations() {
    let declarations = vec![
        Declaration::SubprogramDeclaration(procedure_spec(
            PROC,
            0,
            vec![param(A1, 1), param(A, 2), param(A1, 3)],
        )),
        Declaration::SubprogramDeclaration(function_spec(
            FUN,
            4,
            vec![param(B1, 5), param(A, 6), param(B1, 7)],
        )),
    ];

    let mut messages = Vec::new();
    check_declarative_part_unique_ident(&declarations, &mut messages);
    assert_eq!(messages, vec![dup(A1, 3, 1), dup(B1, 7, 5)]);
}

#[test]
fn forbid_homographs_in_entity_declarations() {
    let entity = EntityDeclaration {
        ident: ident(ENT, 0),
        generic_clause: Some(vec![param(A1, 1), param(A, 2), param(A1, 3)]),
        port_clause: Some(vec![param(B1, 4), param(B, 5), param(B1, 6)]),
        decl: vec![constant(C1, 7), constant(C, 8), constant(C1, 9)],
    };

    let mut messages = Vec::new();
    check_entity_declaration(&entity, &mut messages);
    assert_eq!(messages, vec![dup(A1, 3, 1), dup(B1, 6, 4), dup(C1, 9, 7)]);
}
