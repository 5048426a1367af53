use interoptopus_c::codegen::{
    c_type_name, emit_dispatch_table, emit_dynamic_loader, emit_function_decl, emit_header,
    emit_static_loader, emit_static_loader_with_guard, emit_tag_line, emit_type,
    emit_union_member, generate, param_decl, param_list, param_types, primitive_name, type_spec,
};
use interoptopus_c::topo::sort_types;
use interoptopus_c::model::{
    Argument, Array, Enum, Field, Function, Inventory, Primitive, Signature, Struct, Type, TypeId,
    TypeKind, TypePattern, Variant, VariantKind,
};

fn ty(name: &str, kind: TypeKind) -> Type {
    Type { name: name.to_string(), kind }
}

fn field(name: &str, ty: TypeId) -> Field {
    Field { name: name.to_string(), ty }
}

fn arg(name: &str, ty: TypeId) -> Argument {
    Argument { name: name.to_string(), ty }
}

fn func(name: &str, arguments: Vec<Argument>, rval: TypeId) -> Function {
    Function { name: name.to_string(), signature: Signature { arguments, rval } }
}

fn tuple(name: &str, t: TypeId) -> Variant {
    Variant { name: name.to_string(), kind: VariantKind::Tuple(t) }
}

fn unit(name: &str, d: isize) -> Variant {
    Variant { name: name.to_string(), kind: VariantKind::Unit(d) }
}

/// The types and functions of the hello world example: shapes, draw
/// commands, a slice and a vector of them.
fn hello_world_inventory() -> Inventory {
    Inventory {
        types: vec![
            (1, ty("f32", TypeKind::Primitive(Primitive::F32))),
            (2, ty("Vec2", TypeKind::Struct(Struct { fields: vec![field("x", 1), field("y", 1)] }))),
            (
                3,
                ty(
                    "Shape",
                    TypeKind::Enum(Enum { variants: vec![tuple("Circle", 1), tuple("Rectangle", 2)] }),
                ),
            ),
            (
                4,
                ty(
                    "DrawCommand",
                    TypeKind::Struct(Struct { fields: vec![field("shape", 3), field("position", 2)] }),
                ),
            ),
            (5, ty("Slice<DrawCommand>", TypeKind::TypePattern(TypePattern::Slice(4)))),
            (6, ty("Vec<DrawCommand>", TypeKind::TypePattern(TypePattern::Vec(4)))),
        ],
        functions: vec![
            func("shape_area", vec![arg("shape", 3)], 1),
            func("total_area", vec![arg("commands", 5)], 1),
            func("create_default_commands", vec![], 6),
        ],
    }
}

fn hello_world_header() -> String {
    let lines = [
        "#ifndef interoptopus_generated",
        "#define interoptopus_generated",
        "",
        "#ifdef __cplusplus",
        "extern \"C\" {",
        "#endif",
        "",
        "#include <stdint.h>",
        "#include <stdbool.h>",
        "",
        "typedef struct VEC2",
        "{",
        "    float x;",
        "    float y;",
        "} VEC2;",
        "",
        "typedef enum SHAPE_TAG",
        "{",
        "    SHAPE_CIRCLE = 0,",
        "    SHAPE_RECTANGLE = 1,",
        "} SHAPE_TAG;",
        "",
        "typedef struct SHAPE",
        "{",
        "    SHAPE_TAG tag;",
        "    union",
        "    {",
        "        float circle;",
        "        VEC2 rectangle;",
        "    };",
        "} SHAPE;",
        "",
        "typedef struct DRAWCOMMAND",
        "{",
        "    SHAPE shape;",
        "    VEC2 position;",
        "} DRAWCOMMAND;",
        "",
        "typedef struct SLICEDRAWCOMMAND",
        "{",
        "    const DRAWCOMMAND* data;",
        "    uint64_t len;",
        "} SLICEDRAWCOMMAND;",
        "",
        "typedef struct VECDRAWCOMMAND",
        "{",
        "    DRAWCOMMAND* ptr;",
        "    uint64_t len;",
        "    uint64_t capacity;",
        "} VECDRAWCOMMAND;",
        "",
        "",
        "VECDRAWCOMMAND create_default_commands(void);",
        "float shape_area(SHAPE SHAPE);",
        "float total_area(SLICEDRAWCOMMAND COMMANDS);",
        "",
        "typedef struct hello_world_c_api_t",
        "{",
        "    VECDRAWCOMMAND (*create_default_commands)(void);",
        "    float (*shape_area)(SHAPE);",
        "    float (*total_area)(SLICEDRAWCOMMAND);",
        "} hello_world_c_api_t;",
        "",
        "#if defined(_WIN32)",
        "#include <windows.h>",
        "static int hello_world_c_load(const char* path, hello_world_c_api_t* api)",
        "{",
        "    HMODULE lib = LoadLibraryA(path);",
        "    if (!lib) return -1;",
        "    api->create_default_commands = (VECDRAWCOMMAND (*)(void))(void*)GetProcAddress(lib, \"create_default_commands\");",
        "    if (!api->create_default_commands) return -1;",
        "    api->shape_area = (float (*)(SHAPE))(void*)GetProcAddress(lib, \"shape_area\");",
        "    if (!api->shape_area) return -1;",
        "    api->total_area = (float (*)(SLICEDRAWCOMMAND))(void*)GetProcAddress(lib, \"total_area\");",
        "    if (!api->total_area) return -1;",
        "    return 0;",
        "}",
        "#else",
        "#include <dlfcn.h>",
        "#include <string.h>",
        "static int hello_world_c_load(const char* path, hello_world_c_api_t* api)",
        "{",
        "    void* lib = dlopen(path, RTLD_NOW);",
        "    if (!lib) return -1;",
        "    void* sym;",
        "    sym = dlsym(lib, \"create_default_commands\");",
        "    if (!sym) return -1;",
        "    memcpy(&api->create_default_commands, &sym, sizeof(sym));",
        "    sym = dlsym(lib, \"shape_area\");",
        "    if (!sym) return -1;",
        "    memcpy(&api->shape_area, &sym, sizeof(sym));",
        "    sym = dlsym(lib, \"total_area\");",
        "    if (!sym) return -1;",
        "    memcpy(&api->total_area, &sym, sizeof(sym));",
        "    return 0;",
        "}",
        "#endif",
        "",
        "#ifdef HELLO_WORLD_C_STATIC",
        "static int hello_world_c_load_static(hello_world_c_api_t* api)",
        "{",
        "    api->create_default_commands = create_default_commands;",
        "    api->shape_area = shape_area;",
        "    api->total_area = total_area;",
        "    return 0;",
        "}",
        "#endif /* HELLO_WORLD_C_STATIC */",
        "",
        "#ifdef __cplusplus",
        "}",
        "#endif",
        "",
        "#endif /* interoptopus_generated */",
    ];
    let mut s = String::new();
    for l in lines.iter() {
        s.push_str(l);
        s.push('\n');
    }
    s
}

#[test]
fn interop() {
    let header = generate("hello_world_c", &hello_world_inventory());
    assert_eq!(header, hello_world_header());
}

#[test]
fn emit_header_uses_given_guard() {
    let inv = hello_world_inventory();
    let header = emit_header(&inv, "hello_world_c", "MY_GUARD_H");
    assert!(header.starts_with("#ifndef MY_GUARD_H\n#define MY_GUARD_H\n\n"));
    assert!(header.ends_with("#endif\n\n#endif /* MY_GUARD_H */\n"));
    let expected = hello_world_header()
        .replace("#ifndef interoptopus_generated", "#ifndef MY_GUARD_H")
        .replace("#define interoptopus_generated", "#define MY_GUARD_H")
        .replace("/* interoptopus_generated */", "/* MY_GUARD_H */");
    assert_eq!(header, expected);
}

#[test]
fn loader_name_sets_table_and_loader_names() {
    let header = generate("my_library", &hello_world_inventory());
    assert!(header.contains("typedef struct my_library_api_t\n"));
    assert!(header.contains("} my_library_api_t;\n"));
    assert!(header.contains("static int my_library_load(const char* path, my_library_api_t* api)\n"));
    assert!(header.contains("#ifdef MY_LIBRARY_STATIC\nstatic int my_library_load_static(my_library_api_t* api)\n"));
    assert!(header.contains("#endif /* MY_LIBRARY_STATIC */\n"));
}

#[test]
fn empty_inventory_header() {
    let inv = Inventory { types: vec![], functions: vec![] };
    let header = generate("x", &inv);
    let expected = "#ifndef interoptopus_generated\n#define interoptopus_generated\n\n#ifdef __cplusplus\nextern \"C\" {\n#endif\n\n#include <stdint.h>\n#include <stdbool.h>\n\n\n\ntypedef struct x_api_t\n{\n} x_api_t;\n\n#if defined(_WIN32)\n#include <windows.h>\nstatic int x_load(const char* path, x_api_t* api)\n{\n    HMODULE lib = LoadLibraryA(path);\n    if (!lib) return -1;\n    return 0;\n}\n#else\n#include <dlfcn.h>\n#include <string.h>\nstatic int x_load(const char* path, x_api_t* api)\n{\n    void* lib = dlopen(path, RTLD_NOW);\n    if (!lib) return -1;\n    void* sym;\n    return 0;\n}\n#endif\n\n#ifdef X_STATIC\nstatic int x_load_static(x_api_t* api)\n{\n    return 0;\n}\n#endif /* X_STATIC */\n\n#ifdef __cplusplus\n}\n#endif\n\n#endif /* interoptopus_generated */\n";
    assert_eq!(header, expected);
}

fn patterns_inventory() -> Inventory {
    Inventory {
        types: vec![
            (10, ty("u32", TypeKind::Primitive(Primitive::U32))),
            (11, ty("()", TypeKind::Primitive(Primitive::Void))),
            (12, ty("Inner", TypeKind::Struct(Struct { fields: vec![field("v", 10)] }))),
            (13, ty("Option<Inner>", TypeKind::TypePattern(TypePattern::Option(12)))),
            (14, ty("Error", TypeKind::Enum(Enum { variants: vec![unit("Fail", 0), unit("Busy", 1)] }))),
            (15, ty("Result<Inner, Error>", TypeKind::TypePattern(TypePattern::Result(12, 14)))),
            (16, ty("c_char", TypeKind::TypePattern(TypePattern::CChar))),
            (17, ty("*const c_char", TypeKind::ReadPointer(16))),
            (18, ty("*mut Inner", TypeKind::ReadWritePointer(12))),
            (
                19,
                ty(
                    "MyCallback",
                    TypeKind::TypePattern(TypePattern::NamedCallback(Signature {
                        arguments: vec![arg("value", 10)],
                        rval: 11,
                    })),
                ),
            ),
            (
                20,
                ty(
                    "fn(u32) -> u32",
                    TypeKind::FnPointer(Signature { arguments: vec![arg("x", 10)], rval: 10 }),
                ),
            ),
            (21, ty("Opaque", TypeKind::Opaque)),
            (22, ty("Service", TypeKind::Service)),
            (23, ty("String", TypeKind::TypePattern(TypePattern::Utf8String))),
            (24, ty("SliceMut<u32>", TypeKind::TypePattern(TypePattern::SliceMut(10)))),
            (25, ty("[u32; 4]", TypeKind::Array(Array { ty: 10, len: 4 }))),
            (26, ty("WithArray", TypeKind::Struct(Struct { fields: vec![field("values", 25), field("name", 17)] }))),
            (27, ty("bool", TypeKind::TypePattern(TypePattern::Bool))),
            (28, ty("c_void", TypeKind::TypePattern(TypePattern::CVoid))),
            (29, ty("*const *mut Inner", TypeKind::ReadPointer(18))),
        ],
        functions: vec![func("noop", vec![], 11)],
    }
}

fn emit_of(inv: &Inventory, tid: TypeId) -> String {
    let mut out = String::new();
    let ty = &inv.types.iter().find(|(k, _)| *k == tid).expect("type in inventory").1;
    emit_type(&mut out, inv, ty);
    out
}

#[test]
fn option_is_tagged_union_with_some_first() {
    let inv = patterns_inventory();
    assert_eq!(
        emit_of(&inv, 13),
        "typedef enum OPTIONINNER_TAG\n{\n    OPTIONINNER_SOME = 0,\n    OPTIONINNER_NONE = 1,\n} OPTIONINNER_TAG;\n\ntypedef struct OPTIONINNER\n{\n    OPTIONINNER_TAG tag;\n    union\n    {\n        INNER some;\n    };\n} OPTIONINNER;\n\n"
    );
}

#[test]
fn result_is_tagged_union_with_ok_first() {
    let inv = patterns_inventory();
    assert_eq!(
        emit_of(&inv, 15),
        "typedef enum RESULTINNERERROR_TAG\n{\n    RESULTINNERERROR_OK = 0,\n    RESULTINNERERROR_ERR = 1,\n} RESULTINNERERROR_TAG;\n\ntypedef struct RESULTINNERERROR\n{\n    RESULTINNERERROR_TAG tag;\n    union\n    {\n        INNER ok;\n        ERROR err;\n    };\n} RESULTINNERERROR;\n\n"
    );
}

#[test]
fn unit_only_enum_is_plain_enum() {
    let inv = patterns_inventory();
    assert_eq!(
        emit_of(&inv, 14),
        "typedef enum ERROR\n{\n    ERROR_FAIL = 0,\n    ERROR_BUSY = 1,\n} ERROR;\n\n"
    );
}

#[test]
fn mixed_enum_lists_unit_variants_only_in_tag() {
    let inv = Inventory {
        types: vec![
            (1, ty("u8", TypeKind::Primitive(Primitive::U8))),
            (2, ty("Payload", TypeKind::Enum(Enum { variants: vec![unit("A", 0), tuple("B", 1), tuple("c", 1)] }))),
        ],
        functions: vec![],
    };
    assert_eq!(
        emit_of(&inv, 2),
        "typedef enum PAYLOAD_TAG\n{\n    PAYLOAD_A = 0,\n    PAYLOAD_B = 1,\n    PAYLOAD_C = 2,\n} PAYLOAD_TAG;\n\ntypedef struct PAYLOAD\n{\n    PAYLOAD_TAG tag;\n    union\n    {\n        uint8_t b;\n        uint8_t c;\n    };\n} PAYLOAD;\n\n"
    );
}

#[test]
fn callback_has_data_and_destructor() {
    let inv = patterns_inventory();
    assert_eq!(
        emit_of(&inv, 19),
        "typedef void (*MYCALLBACK_fn)(uint32_t, const void*);\n\ntypedef struct MYCALLBACK\n{\n    MYCALLBACK_fn callback;\n    const void* data;\n    void (*destructor)(const void*);\n} MYCALLBACK;\n\n"
    );
}

#[test]
fn callback_without_arguments_takes_only_data() {
    let inv = Inventory {
        types: vec![
            (1, ty("()", TypeKind::Primitive(Primitive::Void))),
            (
                2,
                ty(
                    "Tick",
                    TypeKind::TypePattern(TypePattern::NamedCallback(Signature { arguments: vec![], rval: 1 })),
                ),
            ),
        ],
        functions: vec![],
    };
    assert!(emit_of(&inv, 2).starts_with("typedef void (*TICK_fn)(const void*);\n\n"));
}

#[test]
fn fn_pointer_typedef() {
    let inv = patterns_inventory();
    assert_eq!(emit_of(&inv, 20), "typedef uint32_t (*FNU32U32)(uint32_t);\n\n");
}

#[test]
fn opaque_and_service_are_incomplete_structs() {
    let inv = patterns_inventory();
    assert_eq!(emit_of(&inv, 21), "typedef struct OPAQUE OPAQUE;\n\n");
    assert_eq!(emit_of(&inv, 22), "typedef struct SERVICE SERVICE;\n\n");
}

#[test]
fn utf8_string_and_mutable_slice() {
    let inv = patterns_inventory();
    assert_eq!(
        emit_of(&inv, 23),
        "typedef struct STRING\n{\n    uint8_t* ptr;\n    uint64_t len;\n    uint64_t capacity;\n} STRING;\n\n"
    );
    assert_eq!(
        emit_of(&inv, 24),
        "typedef struct SLICEMUTU32\n{\n    uint32_t* data;\n    uint64_t len;\n} SLICEMUTU32;\n\n"
    );
}

#[test]
fn array_field_and_pointer_field() {
    let inv = patterns_inventory();
    assert_eq!(
        emit_of(&inv, 26),
        "typedef struct WITHARRAY\n{\n    uint32_t values[4];\n    const char* name;\n} WITHARRAY;\n\n"
    );
}

#[test]
fn array_element_struct_is_defined_before_its_holder() {
    // S (key 1) holds an array (key 2) of T (key 3).
    let inv = Inventory {
        types: vec![
            (1, ty("S", TypeKind::Struct(Struct { fields: vec![field("items", 2)] }))),
            (2, ty("[T; 4]", TypeKind::Array(Array { ty: 3, len: 4 }))),
            (3, ty("T", TypeKind::Struct(Struct { fields: vec![field("x", 4)] }))),
            (4, ty("u8", TypeKind::Primitive(Primitive::U8))),
        ],
        functions: vec![],
    };
    assert_eq!(sort_types(&inv), vec![2, 4, 3, 1]);
    let header = generate("arr", &inv);
    let t_def = "typedef struct T\n{\n    uint8_t x;\n} T;\n\n";
    let s_def = "typedef struct S\n{\n    T items[4];\n} S;\n\n";
    let t_at = header.find(t_def).expect("T is defined");
    let s_at = header.find(s_def).expect("S is defined");
    assert!(t_at < s_at);
    assert!(header.contains(&format!("{}{}", t_def, s_def)));
}

#[test]
fn types_without_definition_emit_nothing() {
    let inv = patterns_inventory();
    for tid in [10u128, 11, 16, 17, 18, 25, 27, 28] {
        assert_eq!(emit_of(&inv, tid), "");
    }
}

#[test]
fn type_names_and_specifiers() {
    let inv = patterns_inventory();
    assert_eq!(c_type_name(&inv, 10), "uint32_t");
    assert_eq!(c_type_name(&inv, 11), "void");
    assert_eq!(type_spec(&inv, 11), "void");
    assert_eq!(c_type_name(&inv, 16), "char");
    assert_eq!(c_type_name(&inv, 17), "const char*");
    assert_eq!(c_type_name(&inv, 18), "INNER*");
    assert_eq!(c_type_name(&inv, 29), "const INNER**");
    assert_eq!(c_type_name(&inv, 27), "bool");
    assert_eq!(c_type_name(&inv, 28), "void");
    assert_eq!(c_type_name(&inv, 13), "OPTIONINNER");
    assert_eq!(type_spec(&inv, 25), "U324");
}

#[test]
fn primitive_c_names() {
    assert_eq!(primitive_name(Primitive::Void), "void");
    assert_eq!(primitive_name(Primitive::Bool), "bool");
    assert_eq!(primitive_name(Primitive::U8), "uint8_t");
    assert_eq!(primitive_name(Primitive::U16), "uint16_t");
    assert_eq!(primitive_name(Primitive::U32), "uint32_t");
    assert_eq!(primitive_name(Primitive::U64), "uint64_t");
    assert_eq!(primitive_name(Primitive::Usize), "size_t");
    assert_eq!(primitive_name(Primitive::I8), "int8_t");
    assert_eq!(primitive_name(Primitive::I16), "int16_t");
    assert_eq!(primitive_name(Primitive::I32), "int32_t");
    assert_eq!(primitive_name(Primitive::I64), "int64_t");
    assert_eq!(primitive_name(Primitive::Isize), "ptrdiff_t");
    assert_eq!(primitive_name(Primitive::F32), "float");
    assert_eq!(primitive_name(Primitive::F64), "double");
}

#[test]
fn parameters_with_and_without_names() {
    let inv = patterns_inventory();
    let sig = Signature { arguments: vec![arg("value", 10), arg("straße", 17)], rval: 11 };
    assert_eq!(param_types(&inv, &sig), "uint32_t, const char*");
    assert_eq!(param_list(&inv, &sig), "uint32_t VALUE, const char* STRASSE");
    let none = Signature { arguments: vec![], rval: 11 };
    assert_eq!(param_types(&inv, &none), "void");
    assert_eq!(param_list(&inv, &none), "void");
    assert_eq!(param_decl("float", "X"), "float X");
}

#[test]
fn function_declaration_upper_cases_parameters() {
    let inv = hello_world_inventory();
    let mut out = String::new();
    emit_function_decl(&mut out, &inv, 1);
    assert_eq!(out, "float total_area(SLICEDRAWCOMMAND COMMANDS);\n");
}

#[test]
fn tag_line_and_union_member() {
    let mut out = String::new();
    emit_tag_line(&mut out, "SHAPE", "CIRCLE", 12);
    emit_union_member(&mut out, "float", "circle");
    assert_eq!(out, "    SHAPE_CIRCLE = 12,\n        float circle;\n");
}

#[test]
fn variant_names_go_through_unicode_case_mapping() {
    let inv = Inventory {
        types: vec![
            (1, ty("u8", TypeKind::Primitive(Primitive::U8))),
            (2, ty("E", TypeKind::Enum(Enum { variants: vec![tuple("Größe", 1)] }))),
        ],
        functions: vec![],
    };
    let out = emit_of(&inv, 2);
    assert!(out.contains("    E_GRÖSSE = 0,\n"));
    assert!(out.contains("        uint8_t größe;\n"));
}

#[test]
fn dispatch_table_and_loaders_for_selected_functions() {
    let inv = hello_world_inventory();
    let mut out = String::new();
    emit_dispatch_table(&mut out, &inv, "lib", &vec![0]);
    assert_eq!(out, "typedef struct lib_api_t\n{\n    float (*shape_area)(SHAPE);\n} lib_api_t;\n");
    let mut out = String::new();
    emit_static_loader(&mut out, &inv, "lib", &vec![2, 0]);
    assert_eq!(
        out,
        "#ifdef LIB_STATIC\nstatic int lib_load_static(lib_api_t* api)\n{\n    api->create_default_commands = create_default_commands;\n    api->shape_area = shape_area;\n    return 0;\n}\n#endif /* LIB_STATIC */\n\n"
    );
    let mut out = String::new();
    emit_static_loader_with_guard(&mut out, &inv, "lib", "G", &vec![]);
    assert_eq!(out, "#ifdef G\nstatic int lib_load_static(lib_api_t* api)\n{\n    return 0;\n}\n#endif /* G */\n\n");
    let mut out = String::new();
    emit_dynamic_loader(&mut out, &inv, "lib", &vec![0]);
    assert!(out.contains("    api->shape_area = (float (*)(SHAPE))(void*)GetProcAddress(lib, \"shape_area\");\n"));
    assert!(out.contains("    memcpy(&api->shape_area, &sym, sizeof(sym));\n"));
}

#[test]
fn static_guard_uses_unicode_upper_case() {
    let inv = Inventory { types: vec![], functions: vec![] };
    let mut out = String::new();
    emit_static_loader(&mut out, &inv, "straße", &vec![]);
    assert!(out.starts_with("#ifdef STRASSE_STATIC\n"));
}
