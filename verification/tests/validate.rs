use interoptopus_c::model::{
    Argument, Array, Field, Function, Inventory, Primitive, Signature, Struct, Type, TypeKind,
    TypePattern,
};
use interoptopus_c::validate::{
    distinct_ids, is_well_formed, keys_ascending, names_resolve, signature_ok,
};

fn ty(name: &str, kind: TypeKind) -> Type {
    Type { name: name.to_string(), kind }
}

fn strukt(fields: &[(&str, u128)]) -> TypeKind {
    TypeKind::Struct(Struct {
        fields: fields.iter().map(|(n, t)| Field { name: n.to_string(), ty: *t }).collect(),
    })
}

#[test]
fn closed_inventory_is_well_formed() {
    let inv = Inventory {
        types: vec![
            (1, ty("u8", TypeKind::Primitive(Primitive::U8))),
            (2, ty("[u8; 2]", TypeKind::Array(Array { ty: 1, len: 2 }))),
            (3, ty("Pair", strukt(&[("a", 2), ("b", 1)]))),
            (4, ty("*const Pair", TypeKind::ReadPointer(3))),
        ],
        functions: vec![Function {
            name: "f".to_string(),
            signature: Signature { arguments: vec![Argument { name: "p".to_string(), ty: 4 }], rval: 1 },
        }],
    };
    assert!(is_well_formed(&inv));
    assert!(keys_ascending(&inv));
    assert!(distinct_ids(&inv));
    assert!(names_resolve(&inv, 4));
}

#[test]
fn missing_field_type_is_rejected() {
    let inv = Inventory {
        types: vec![(3, ty("Pair", strukt(&[("a", 9)])))],
        functions: vec![],
    };
    assert!(!is_well_formed(&inv));
}

#[test]
fn missing_argument_type_is_rejected() {
    let inv = Inventory {
        types: vec![(1, ty("u8", TypeKind::Primitive(Primitive::U8)))],
        functions: vec![Function {
            name: "f".to_string(),
            signature: Signature { arguments: vec![Argument { name: "p".to_string(), ty: 7 }], rval: 1 },
        }],
    };
    assert!(!is_well_formed(&inv));
    assert!(!signature_ok(&inv, &inv.functions[0].signature));
}

#[test]
fn duplicate_keys_are_rejected() {
    let inv = Inventory {
        types: vec![
            (1, ty("u8", TypeKind::Primitive(Primitive::U8))),
            (1, ty("u16", TypeKind::Primitive(Primitive::U16))),
        ],
        functions: vec![],
    };
    assert!(!distinct_ids(&inv));
    assert!(!keys_ascending(&inv));
    assert!(!is_well_formed(&inv));
}

#[test]
fn named_pointer_cycle_is_rejected_unnamed_one_accepted() {
    let cycle = vec![
        (1, ty("*mut A", TypeKind::ReadWritePointer(2))),
        (2, ty("*mut B", TypeKind::ReadWritePointer(1))),
    ];
    let unnamed = Inventory { types: cycle.clone(), functions: vec![] };
    assert!(is_well_formed(&unnamed));
    assert!(!names_resolve(&unnamed, 1));
    let mut named = Inventory { types: cycle, functions: vec![] };
    named.types.push((3, ty("Option<*mut A>", TypeKind::TypePattern(TypePattern::Option(1)))));
    assert!(!is_well_formed(&named));
}

#[test]
fn dangling_unnamed_pointer_is_accepted() {
    let inv = Inventory {
        types: vec![(1, ty("*const X", TypeKind::ReadPointer(42)))],
        functions: vec![],
    };
    assert!(is_well_formed(&inv));
}

#[test]
fn keys_out_of_order_are_rejected() {
    let inv = Inventory {
        types: vec![
            (2, ty("u8", TypeKind::Primitive(Primitive::U8))),
            (1, ty("u16", TypeKind::Primitive(Primitive::U16))),
        ],
        functions: vec![],
    };
    assert!(distinct_ids(&inv));
    assert!(!keys_ascending(&inv));
    assert!(!is_well_formed(&inv));
    let empty = Inventory { types: vec![], functions: vec![] };
    assert!(keys_ascending(&empty));
}
