use interoptopus_c::model::{
    Argument, Array, Enum, Field, Function, Inventory, Primitive, Signature, Struct, Type, TypeId, TypeKind,
    TypePattern, Variant, VariantKind,
};
use interoptopus_c::sorting::sorted_functions;
use interoptopus_c::text::{
    c_name, chars_of, is_ascii_alphanumeric, push_decimal, sanitize_c_name, str_lt,
    to_ascii_uppercase,
};
use interoptopus_c::topo::{sort_types, type_deps};

fn ty(name: &str, kind: TypeKind) -> Type {
    Type { name: name.to_string(), kind }
}

fn strukt(ids: &[TypeId]) -> TypeKind {
    TypeKind::Struct(Struct {
        fields: ids.iter().map(|t| Field { name: format!("f{}", t), ty: *t }).collect(),
    })
}

fn func(name: &str) -> Function {
    Function { name: name.to_string(), signature: Signature { arguments: vec![], rval: 1 } }
}

#[test]
fn dependencies_come_first() {
    // 1 depends on 3, 3 depends on 2; 4 stands alone.
    let inv = Inventory {
        types: vec![
            (1, ty("A", strukt(&[3]))),
            (2, ty("u8", TypeKind::Primitive(Primitive::U8))),
            (3, ty("B", strukt(&[2, 2]))),
            (4, ty("C", strukt(&[]))),
        ],
        functions: vec![],
    };
    assert_eq!(sort_types(&inv), vec![2, 3, 1, 4]);
}

#[test]
fn unknown_dependencies_are_skipped() {
    let inv = Inventory {
        types: vec![(5, ty("A", strukt(&[99, 7]))), (7, ty("B", strukt(&[])))],
        functions: vec![],
    };
    assert_eq!(sort_types(&inv), vec![7, 5]);
}

#[test]
fn cycles_are_broken_and_every_type_listed_once() {
    // 1 -> 2 -> 1 through a pointer; 3 -> 1.
    let inv = Inventory {
        types: vec![
            (1, ty("Node", strukt(&[2]))),
            (2, ty("*mut Node", TypeKind::ReadWritePointer(1))),
            (3, ty("List", strukt(&[1]))),
        ],
        functions: vec![],
    };
    let order = sort_types(&inv);
    assert_eq!(order, vec![2, 1, 3]);
}

#[test]
fn dependencies_of_each_kind() {
    let sig = Signature {
        arguments: vec![
            Argument { name: "a".to_string(), ty: 4 },
            Argument { name: "b".to_string(), ty: 5 },
        ],
        rval: 6,
    };
    assert_eq!(type_deps(&ty("S", strukt(&[3, 1, 3]))), vec![3, 1, 3]);
    let e = Enum {
        variants: vec![
            Variant { name: "A".to_string(), kind: VariantKind::Unit(0) },
            Variant { name: "B".to_string(), kind: VariantKind::Tuple(9) },
            Variant { name: "C".to_string(), kind: VariantKind::Tuple(8) },
        ],
    };
    assert_eq!(type_deps(&ty("E", TypeKind::Enum(e))), vec![9, 8]);
    assert_eq!(type_deps(&ty("O", TypeKind::TypePattern(TypePattern::Option(2)))), vec![2]);
    assert_eq!(type_deps(&ty("R", TypeKind::TypePattern(TypePattern::Result(2, 3)))), vec![2, 3]);
    assert_eq!(type_deps(&ty("F", TypeKind::FnPointer(sig.clone()))), vec![4, 5, 6]);
    assert_eq!(
        type_deps(&ty("C", TypeKind::TypePattern(TypePattern::NamedCallback(sig)))),
        vec![4, 5, 6]
    );
    assert_eq!(type_deps(&ty("P", TypeKind::ReadPointer(7))), vec![7]);
    assert_eq!(type_deps(&ty("A", TypeKind::Array(Array { ty: 3, len: 4 }))), Vec::<TypeId>::new());
    assert_eq!(type_deps(&ty("Q", TypeKind::Primitive(Primitive::Bool))), Vec::<TypeId>::new());
    assert_eq!(type_deps(&ty("O", TypeKind::Opaque)), Vec::<TypeId>::new());
}

#[test]
fn pointer_to_array_comes_after_the_array() {
    // A = [E; 2] (key 1), E has a field of type P (key 2), P = *const A (key 3).
    let inv = Inventory {
        types: vec![
            (1, ty("[E; 2]", TypeKind::Array(Array { ty: 2, len: 2 }))),
            (2, ty("E", strukt(&[3]))),
            (3, ty("*const [E; 2]", TypeKind::ReadPointer(1))),
        ],
        functions: vec![],
    };
    assert_eq!(sort_types(&inv), vec![1, 3, 2]);
}

#[test]
fn array_field_element_comes_before_the_struct() {
    // S (key 1) has a field of type [T; 4] (key 2); T (key 3) has a u8 field (key 4).
    let inv = Inventory {
        types: vec![
            (1, ty("S", strukt(&[2]))),
            (2, ty("[T; 4]", TypeKind::Array(Array { ty: 3, len: 4 }))),
            (3, ty("T", strukt(&[4]))),
            (4, ty("u8", TypeKind::Primitive(Primitive::U8))),
        ],
        functions: vec![],
    };
    assert_eq!(sort_types(&inv), vec![2, 4, 3, 1]);
}

#[test]
fn functions_sorted_by_name_stably() {
    let inv = Inventory {
        types: vec![(1, ty("()", TypeKind::Primitive(Primitive::Void)))],
        functions: vec![func("b"), func("a"), func("b"), func("ab"), func("B"), func("")],
    };
    assert_eq!(sorted_functions(&inv), vec![5, 4, 1, 3, 0, 2]);
}

#[test]
fn c_names_keep_identifier_characters() {
    assert_eq!(c_name("Option<Vec2>"), "OPTIONVEC2");
    assert_eq!(c_name("my_type<'a, [u8; 4]>"), "MY_TYPEAU84");
    assert_eq!(c_name("Größe"), "GRE");
    assert_eq!(c_name(""), "");
    assert_eq!(sanitize_c_name("Option<Vec2>"), "OPTIONVEC2");
    assert_eq!(sanitize_c_name("my_type<'a, [u8; 4]>"), "MY_TYPEAU84");
    assert_eq!(sanitize_c_name("Größe"), "GRE");
}

#[test]
fn ascii_helpers() {
    assert!(is_ascii_alphanumeric('a'));
    assert!(is_ascii_alphanumeric('Z'));
    assert!(is_ascii_alphanumeric('7'));
    assert!(!is_ascii_alphanumeric('_'));
    assert!(!is_ascii_alphanumeric('é'));
    assert_eq!(to_ascii_uppercase('q'), 'Q');
    assert_eq!(to_ascii_uppercase('Q'), 'Q');
    assert_eq!(to_ascii_uppercase('é'), 'é');
    assert_eq!(to_ascii_uppercase('1'), '1');
}

#[test]
fn decimal_rendering() {
    let mut s = String::from("n=");
    push_decimal(&mut s, 0);
    s.push(' ');
    push_decimal(&mut s, 9);
    s.push(' ');
    push_decimal(&mut s, 10);
    s.push(' ');
    push_decimal(&mut s, 18446744073709551615);
    assert_eq!(s, "n=0 9 10 18446744073709551615");
}

#[test]
fn string_order() {
    assert!(str_lt("a", "b"));
    assert!(str_lt("a", "ab"));
    assert!(!str_lt("ab", "a"));
    assert!(!str_lt("a", "a"));
    assert!(str_lt("", "a"));
    assert!(str_lt("B", "a"));
    assert!(str_lt("z", "é"));
    assert_eq!(chars_of("hé!"), vec!['h', 'é', '!']);
}
