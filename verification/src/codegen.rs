//! Emitting the constructs of a C header: type names, type definitions,
//! function declarations, the dispatch table and the two loaders.
use vstd::prelude::*;
use crate::model::{
    Argument, Enum, Field, Function,
    Inventory, Primitive, Signature, Struct, Type, TypeId, TypeKind, TypePattern, Variant,
    VariantKind,
};
use crate::sorting::{name_order, sorted_functions};
use crate::text::{
    c_name, c_name_of, decimal, join, push_decimal, to_lower, to_upper, unicode_lower,
    unicode_upper,
};
use crate::topo::{sort_types, topo_order};

verus! {

// ---------------------------------------------------------------------------
// What the header says: type names
// ---------------------------------------------------------------------------

/// The C name of a primitive type.
pub open spec fn primitive_text(p: Primitive) -> Seq<char> {
    match p {
        Primitive::Void => "void"@,
        Primitive::Bool => "bool"@,
        Primitive::U8 => "uint8_t"@,
        Primitive::U16 => "uint16_t"@,
        Primitive::U32 => "uint32_t"@,
        Primitive::U64 => "uint64_t"@,
        Primitive::Usize => "size_t"@,
        Primitive::I8 => "int8_t"@,
        Primitive::I16 => "int16_t"@,
        Primitive::I32 => "int32_t"@,
        Primitive::I64 => "int64_t"@,
        Primitive::Isize => "ptrdiff_t"@,
        Primitive::F32 => "float"@,
        Primitive::F64 => "double"@,
    }
}

/// The C name of the type `tid`: primitives by their C names, pointers as
/// `const T*` and `T*`, the C-like patterns as `char`, `bool` and `void`, and
/// every other type by the C identifier made of its Rust name. `fuel` bounds
/// the number of pointers followed.
pub open spec fn type_name_of(inv: Inventory, tid: TypeId, fuel: nat) -> Seq<char>
    decreases fuel,
{
    let ty = inv.type_of(tid);
    match ty.kind {
        TypeKind::Primitive(p) => primitive_text(p),
        TypeKind::ReadPointer(inner) => if fuel == 0 {
            Seq::empty()
        } else {
            "const "@ + type_name_of(inv, inner, (fuel - 1) as nat) + "*"@
        },
        TypeKind::ReadWritePointer(inner) => if fuel == 0 {
            Seq::empty()
        } else {
            type_name_of(inv, inner, (fuel - 1) as nat) + "*"@
        },
        TypeKind::TypePattern(TypePattern::CChar) => "char"@,
        TypeKind::TypePattern(TypePattern::Bool) => "bool"@,
        TypeKind::TypePattern(TypePattern::CVoid) => "void"@,
        _ => c_name_of(ty.name@),
    }
}

/// The C type specifier of the type `tid`: `void` for the void primitive,
/// its C name otherwise.
pub open spec fn type_spec_of(inv: Inventory, tid: TypeId) -> Seq<char> {
    if inv.type_of(tid).kind matches TypeKind::Primitive(Primitive::Void) {
        "void"@
    } else {
        type_name_of(inv, tid, inv.n_types())
    }
}

/// The type specifiers of the arguments.
pub open spec fn arg_types_of(inv: Inventory, args: Seq<Argument>) -> Seq<Seq<char>> {
    args.map_values(|a: Argument| type_spec_of(inv, a.ty))
}

/// An argument as a C parameter: its type, a space, its name upper-cased.
pub open spec fn param_decl_of(inv: Inventory, a: Argument) -> Seq<char> {
    type_spec_of(inv, a.ty) + " "@ + unicode_upper(a.name@)
}

/// The parameter types of a signature, `void` when it has none.
pub open spec fn param_types_of(inv: Inventory, sig: Signature) -> Seq<char> {
    if sig.arguments@.len() == 0 {
        "void"@
    } else {
        join(arg_types_of(inv, sig.arguments@), ", "@)
    }
}

/// The parameter list of a signature, with names, `void` when it has none.
pub open spec fn param_list_of(inv: Inventory, sig: Signature) -> Seq<char> {
    if sig.arguments@.len() == 0 {
        "void"@
    } else {
        join(sig.arguments@.map_values(|a: Argument| param_decl_of(inv, a)), ", "@)
    }
}

// ---------------------------------------------------------------------------
// What the header says: type definitions
// ---------------------------------------------------------------------------

/// The member line of a struct field; an array field is written `T name[N];`.
pub open spec fn field_line_of(inv: Inventory, f: Field) -> Seq<char> {
    match inv.type_of(f.ty).kind {
        TypeKind::Array(a) => "    "@ + type_spec_of(inv, a.ty) + " "@ + f.name@ + "["@ + decimal(
            a.len as nat,
        ) + "];\n"@,
        _ => "    "@ + type_spec_of(inv, f.ty) + " "@ + f.name@ + ";\n"@,
    }
}

/// The member lines of the fields, in order.
pub open spec fn field_lines_of(inv: Inventory, fs: Seq<Field>) -> Seq<char>
    decreases fs.len(),
{
    if fs.len() == 0 {
        Seq::empty()
    } else {
        field_lines_of(inv, fs.drop_last()) + field_line_of(inv, fs.last())
    }
}

/// A struct: a `typedef struct` with one member per field.
pub open spec fn struct_text_of(inv: Inventory, name: Seq<char>, s: Struct) -> Seq<char> {
    "typedef struct "@ + name + "\n{\n"@ + field_lines_of(inv, s.fields@) + "} "@ + name + ";\n\n"@
}

/// Some variant carries a value.
pub open spec fn has_data_of(vs: Seq<Variant>) -> bool {
    exists|i: int| 0 <= i < vs.len() && #[trigger] vs[i].kind is Tuple
}

/// The enumerator line of variant number `i`: `NAME_VARIANT = i,`.
pub open spec fn tag_line_of(name: Seq<char>, upper_variant: Seq<char>, i: nat) -> Seq<char> {
    "    "@ + name + "_"@ + upper_variant + " = "@ + decimal(i) + ",\n"@
}

/// The enumerator lines of all variants, numbered from 0.
pub open spec fn tag_lines_of(name: Seq<char>, vs: Seq<Variant>) -> Seq<char>
    decreases vs.len(),
{
    if vs.len() == 0 {
        Seq::empty()
    } else {
        tag_lines_of(name, vs.drop_last()) + tag_line_of(
            name,
            unicode_upper(vs.last().name@),
            (vs.len() - 1) as nat,
        )
    }
}

/// The union member of a variant that carries a value, named after the
/// variant in lower case; a unit variant has none.
pub open spec fn union_line_of(inv: Inventory, v: Variant) -> Seq<char> {
    match v.kind {
        VariantKind::Tuple(t) => union_member_of(type_spec_of(inv, t), unicode_lower(v.name@)),
        VariantKind::Unit(_) => Seq::empty(),
    }
}

/// A union member line.
pub open spec fn union_member_of(type_spec: Seq<char>, member: Seq<char>) -> Seq<char> {
    "        "@ + type_spec + " "@ + member + ";\n"@
}

/// The union members of the variants, in order.
pub open spec fn union_lines_of(inv: Inventory, vs: Seq<Variant>) -> Seq<char>
    decreases vs.len(),
{
    if vs.len() == 0 {
        Seq::empty()
    } else {
        union_lines_of(inv, vs.drop_last()) + union_line_of(inv, vs.last())
    }
}

/// A `typedef enum` named `tag` with the enumerators of the variants.
pub open spec fn tag_enum_of(tag: Seq<char>, name: Seq<char>, vs: Seq<Variant>) -> Seq<char> {
    "typedef enum "@ + tag + "\n{\n"@ + tag_lines_of(name, vs) + "} "@ + tag + ";\n\n"@
}

/// A struct of the tag and an anonymous union of the variants' values.
pub open spec fn union_struct_of(
    inv: Inventory,
    name: Seq<char>,
    tag: Seq<char>,
    vs: Seq<Variant>,
) -> Seq<char> {
    "typedef struct "@ + name + "\n{\n    "@ + tag + " tag;\n    union\n    {\n"@ + union_lines_of(
        inv,
        vs,
    ) + "    };\n"@ + "} "@ + name + ";\n\n"@
}

/// An enum: a plain `typedef enum` when no variant carries a value; otherwise
/// a tag enum `NAME_TAG` and a struct of the tag and an anonymous union.
pub open spec fn enum_text_of(inv: Inventory, name: Seq<char>, e: Enum) -> Seq<char> {
    let vs = e.variants@;
    if has_data_of(vs) {
        tag_enum_of(name + "_TAG"@, name, vs) + union_struct_of(inv, name, name + "_TAG"@, vs)
    } else {
        tag_enum_of(name, name, vs)
    }
}

/// `Option<T>`: a tag enum with `SOME = 0` and `NONE = 1`, and a struct of
/// the tag and a union holding `some`.
pub open spec fn option_text_of(name: Seq<char>, inner: Seq<char>) -> Seq<char> {
    let tag = name + "_TAG"@;
    "typedef enum "@ + tag + "\n{\n    "@ + name + "_SOME = 0,\n    "@ + name + "_NONE = 1,\n} "@
        + tag + ";\n\n"@ + "typedef struct "@ + name + "\n{\n    "@ + tag
        + " tag;\n    union\n    {\n        "@ + inner + " some;\n    };\n} "@ + name + ";\n\n"@
}

/// `Result<T, E>`: a tag enum with `OK = 0` and `ERR = 1`, and a struct of
/// the tag and a union holding `ok` and `err`.
pub open spec fn result_text_of(name: Seq<char>, ok: Seq<char>, err: Seq<char>) -> Seq<char> {
    let tag = name + "_TAG"@;
    "typedef enum "@ + tag + "\n{\n    "@ + name + "_OK = 0,\n    "@ + name + "_ERR = 1,\n} "@ + tag
        + ";\n\n"@ + "typedef struct "@ + name + "\n{\n    "@ + tag
        + " tag;\n    union\n    {\n        "@ + ok + " ok;\n        "@ + err + " err;\n    };\n} "@
        + name + ";\n\n"@
}

/// A named callback: a function pointer type `NAME_fn` taking the arguments
/// and a `const void*`, and a struct of that pointer, its data and a destructor.
pub open spec fn callback_text_of(inv: Inventory, name: Seq<char>, sig: Signature) -> Seq<char> {
    let fn_typedef = name + "_fn"@;
    "typedef "@ + type_spec_of(inv, sig.rval) + " (*"@ + fn_typedef + ")("@ + join(
        arg_types_of(inv, sig.arguments@).push("const void*"@),
        ", "@,
    ) + ");\n\n"@ + "typedef struct "@ + name + "\n{\n    "@ + fn_typedef
        + " callback;\n    const void* data;\n    void (*destructor)(const void*);\n} "@ + name
        + ";\n\n"@
}

/// A slice: a pointer to the data (`const` unless mutable) and a length.
pub open spec fn slice_text_of(name: Seq<char>, is_mut: bool, inner: Seq<char>) -> Seq<char> {
    "typedef struct "@ + name + "\n{\n    "@ + (if is_mut {
        Seq::empty()
    } else {
        "const "@
    }) + inner + "* data;\n    uint64_t len;\n} "@ + name + ";\n\n"@
}

/// A vector: pointer, length and capacity.
pub open spec fn vec_text_of(name: Seq<char>, inner: Seq<char>) -> Seq<char> {
    "typedef struct "@ + name + "\n{\n    "@ + inner
        + "* ptr;\n    uint64_t len;\n    uint64_t capacity;\n} "@ + name + ";\n\n"@
}

/// A UTF-8 string: byte pointer, length and capacity.
pub open spec fn string_text_of(name: Seq<char>) -> Seq<char> {
    "typedef struct "@ + name + "\n{\n    uint8_t* ptr;\n    uint64_t len;\n    uint64_t capacity;\n} "@
        + name + ";\n\n"@
}

/// A function pointer type.
pub open spec fn fn_pointer_text_of(inv: Inventory, name: Seq<char>, sig: Signature) -> Seq<char> {
    "typedef "@ + type_spec_of(inv, sig.rval) + " (*"@ + name + ")("@ + param_types_of(inv, sig)
        + ");\n\n"@
}

/// An opaque type or a service: an incomplete struct type.
pub open spec fn opaque_text_of(name: Seq<char>) -> Seq<char> {
    "typedef struct "@ + name + " "@ + name + ";\n\n"@
}

/// The definition a header gives a type; primitives, pointers, the C-like
/// patterns, arrays and the remaining patterns get none.
pub open spec fn type_def_of(inv: Inventory, ty: Type) -> Seq<char> {
    let name = c_name_of(ty.name@);
    match ty.kind {
        TypeKind::Struct(s) => struct_text_of(inv, name, s),
        TypeKind::Enum(e) => enum_text_of(inv, name, e),
        TypeKind::TypePattern(TypePattern::NamedCallback(sig)) => callback_text_of(inv, name, sig),
        TypeKind::TypePattern(TypePattern::Slice(inner)) => slice_text_of(
            name,
            false,
            type_spec_of(inv, inner),
        ),
        TypeKind::TypePattern(TypePattern::SliceMut(inner)) => slice_text_of(
            name,
            true,
            type_spec_of(inv, inner),
        ),
        TypeKind::TypePattern(TypePattern::Vec(inner)) => vec_text_of(name, type_spec_of(inv, inner)),
        TypeKind::TypePattern(TypePattern::Utf8String) => string_text_of(name),
        TypeKind::TypePattern(TypePattern::Option(inner)) => option_text_of(
            name,
            type_spec_of(inv, inner),
        ),
        TypeKind::TypePattern(TypePattern::Result(ok, err)) => result_text_of(
            name,
            type_spec_of(inv, ok),
            type_spec_of(inv, err),
        ),
        TypeKind::FnPointer(sig) => fn_pointer_text_of(inv, name, sig),
        TypeKind::Opaque => opaque_text_of(name),
        TypeKind::Service => opaque_text_of(name),
        _ => Seq::empty(),
    }
}

/// The definitions of the types, in the given order.
pub open spec fn type_defs_of(inv: Inventory, order: Seq<TypeId>) -> Seq<char>
    decreases order.len(),
{
    if order.len() == 0 {
        Seq::empty()
    } else {
        type_defs_of(inv, order.drop_last()) + type_def_of(inv, inv.type_of(order.last()))
    }
}

// ---------------------------------------------------------------------------
// What the header says: functions, dispatch table and loaders
// ---------------------------------------------------------------------------

/// The functions at the given positions.
pub open spec fn fns_at(inv: Inventory, ks: Seq<usize>) -> Seq<Function> {
    ks.map_values(|k: usize| inv.functions@[k as int])
}

/// The functions of the inventory in header order.
pub open spec fn sorted_fns(inv: Inventory) -> Seq<Function> {
    fns_at(inv, name_order(inv))
}

/// The declaration of a function.
pub open spec fn decl_of(inv: Inventory, f: Function) -> Seq<char> {
    type_spec_of(inv, f.signature.rval) + " "@ + f.name@ + "("@ + param_list_of(inv, f.signature)
        + ");\n"@
}

/// The declarations of the functions, in order.
pub open spec fn decls_of(inv: Inventory, fs: Seq<Function>) -> Seq<char>
    decreases fs.len(),
{
    if fs.len() == 0 {
        Seq::empty()
    } else {
        decls_of(inv, fs.drop_last()) + decl_of(inv, fs.last())
    }
}

/// The function pointer member of a function in the dispatch table.
pub open spec fn table_line_of(inv: Inventory, f: Function) -> Seq<char> {
    "    "@ + type_spec_of(inv, f.signature.rval) + " (*"@ + f.name@ + ")("@ + param_types_of(
        inv,
        f.signature,
    ) + ");\n"@
}

/// The dispatch table members, in order.
pub open spec fn table_lines_of(inv: Inventory, fs: Seq<Function>) -> Seq<char>
    decreases fs.len(),
{
    if fs.len() == 0 {
        Seq::empty()
    } else {
        table_lines_of(inv, fs.drop_last()) + table_line_of(inv, fs.last())
    }
}

/// The dispatch table `LOADER_api_t`: one function pointer per function.
pub open spec fn dispatch_table_of(inv: Inventory, loader: Seq<char>, fs: Seq<Function>) -> Seq<
    char,
> {
    "typedef struct "@ + loader + "_api_t"@ + "\n{\n"@ + table_lines_of(inv, fs) + "} "@ + loader
        + "_api_t"@ + ";\n"@
}

/// Resolving one function with `GetProcAddress`.
pub open spec fn win_lines_of_fn(inv: Inventory, f: Function) -> Seq<char> {
    "    api->"@ + f.name@ + " = ("@ + type_spec_of(inv, f.signature.rval) + " (*)("@
        + param_types_of(inv, f.signature) + "))"@ + "(void*)GetProcAddress(lib, \""@ + f.name@
        + "\");\n    if (!api->"@ + f.name@ + ") return -1;\n"@
}

/// Resolving every function with `GetProcAddress`, in order.
pub open spec fn win_lines_of(inv: Inventory, fs: Seq<Function>) -> Seq<char>
    decreases fs.len(),
{
    if fs.len() == 0 {
        Seq::empty()
    } else {
        win_lines_of(inv, fs.drop_last()) + win_lines_of_fn(inv, fs.last())
    }
}

/// Resolving one function with `dlsym` and copying the pointer with `memcpy`.
pub open spec fn posix_lines_of_fn(f: Function) -> Seq<char> {
    "    sym = dlsym(lib, \""@ + f.name@ + "\");\n    if (!sym) return -1;\n    memcpy(&api->"@
        + f.name@ + ", &sym, sizeof(sym));\n"@
}

/// Resolving every function with `dlsym`, in order.
pub open spec fn posix_lines_of(fs: Seq<Function>) -> Seq<char>
    decreases fs.len(),
{
    if fs.len() == 0 {
        Seq::empty()
    } else {
        posix_lines_of(fs.drop_last()) + posix_lines_of_fn(fs.last())
    }
}

/// The opening of the Windows loader: load the library, fail with -1 when it is missing.
pub open spec fn win_head_of(loader: Seq<char>) -> Seq<char> {
    "#if defined(_WIN32)\n#include <windows.h>\nstatic int "@ + loader + "_load"@
        + "(const char* path, "@ + loader + "_api_t"@
        + "* api)\n{\n    HMODULE lib = LoadLibraryA(path);\n    if (!lib) return -1;\n"@
}

/// The opening of the POSIX loader: open the library, fail with -1 when it is missing.
pub open spec fn posix_head_of(loader: Seq<char>) -> Seq<char> {
    "#else\n#include <dlfcn.h>\n#include <string.h>\nstatic int "@ + loader + "_load"@
        + "(const char* path, "@ + loader + "_api_t"@
        + "* api)\n{\n    void* lib = dlopen(path, RTLD_NOW);\n    if (!lib) return -1;\n    void* sym;\n"@
}

/// The Windows loader.
pub open spec fn win_loader_of(inv: Inventory, loader: Seq<char>, fs: Seq<Function>) -> Seq<char> {
    win_head_of(loader) + win_lines_of(inv, fs) + "    return 0;\n}\n"@
}

/// The POSIX loader.
pub open spec fn posix_loader_of(loader: Seq<char>, fs: Seq<Function>) -> Seq<char> {
    posix_head_of(loader) + posix_lines_of(fs) + "    return 0;\n}\n#endif\n\n"@
}

/// The dynamic loader `LOADER_load`: `LoadLibraryA` and `GetProcAddress` on
/// Windows, `dlopen` and `dlsym` elsewhere; it returns -1 as soon as a
/// library or a symbol is missing, 0 otherwise.
pub open spec fn dynamic_loader_of(inv: Inventory, loader: Seq<char>, fs: Seq<Function>) -> Seq<
    char,
> {
    win_loader_of(inv, loader, fs) + posix_loader_of(loader, fs)
}

/// Assigning every function to its table entry, in order.
pub open spec fn static_lines_of(fs: Seq<Function>) -> Seq<char>
    decreases fs.len(),
{
    if fs.len() == 0 {
        Seq::empty()
    } else {
        static_lines_of(fs.drop_last()) + "    api->"@ + fs.last().name@ + " = "@ + fs.last().name@
            + ";\n"@
    }
}

/// The static loader `LOADER_load_static`, compiled in under `guard`.
pub open spec fn static_loader_with_guard_of(
    loader: Seq<char>,
    guard: Seq<char>,
    fs: Seq<Function>,
) -> Seq<char> {
    "#ifdef "@ + guard + "\nstatic int "@ + loader + "_load_static"@ + "("@ + loader + "_api_t"@
        + "* api)\n{\n"@ + static_lines_of(fs) + "    return 0;\n}\n#endif /* "@ + guard
        + " */\n\n"@
}

/// The static loader, compiled in when `LOADER_STATIC` (the loader name upper-cased) is defined.
pub open spec fn static_loader_of(loader: Seq<char>, fs: Seq<Function>) -> Seq<char> {
    static_loader_with_guard_of(loader, unicode_upper(loader) + "_STATIC"@, fs)
}

/// The opening of the header: the include guard, `extern "C"` for C++ and
/// the standard includes.
pub open spec fn prologue_of(ifndef: Seq<char>) -> Seq<char> {
    "#ifndef "@ + ifndef + "\n#define "@ + ifndef
        + "\n\n#ifdef __cplusplus\nextern \"C\" {\n#endif\n\n#include <stdint.h>\n#include <stdbool.h>\n\n"@
}

/// The closing of the header.
pub open spec fn epilogue_of(ifndef: Seq<char>) -> Seq<char> {
    "#ifdef __cplusplus\n}\n#endif\n\n#endif /* "@ + ifndef + " */\n"@
}

/// The complete header, guarded by `ifndef`: the type definitions in
/// dependency order, the function declarations, the dispatch table and the
/// loaders, with the functions in header order.
pub open spec fn header_of(inv: Inventory, loader: Seq<char>, ifndef: Seq<char>) -> Seq<char> {
    let fs = sorted_fns(inv);
    prologue_of(ifndef) + type_defs_of(inv, topo_order(inv)) + "\n"@ + decls_of(inv, fs) + "\n"@
        + dispatch_table_of(inv, loader, fs) + "\n"@ + dynamic_loader_of(inv, loader, fs)
        + static_loader_of(loader, fs) + epilogue_of(ifndef)
}

// ---------------------------------------------------------------------------
// Facts about well-formed inventories
// ---------------------------------------------------------------------------

/// The definition of a type of a well-formed inventory can be written.
pub proof fn lemma_wf_type(inv: Inventory, tid: TypeId)
    requires
        inv.well_formed(),
        inv.has_type(tid),
    ensures
        inv.definable(inv.type_of(tid)),
{
    let i = inv.type_index(tid);
    assert(inv.types@[i].0 == tid);
    assert(inv.definable(inv.types@[i].1));
}

/// The signature of a function of a well-formed inventory can be written.
pub proof fn lemma_wf_function(inv: Inventory, i: int)
    requires
        inv.well_formed(),
        0 <= i < inv.functions@.len(),
    ensures
        inv.signature_ok(inv.functions@[i].signature),
{
    assert(inv.signature_ok(inv.functions@[i].signature));
}

/// The type specifier of a type is its C name: the void primitive is
/// named `void` either way.
pub proof fn lemma_type_spec_is_type_name(inv: Inventory, tid: TypeId)
    ensures
        type_spec_of(inv, tid) == type_name_of(inv, tid, inv.n_types()),
{
}

/// A type that the header defines is referred to by the name its definition
/// gives it: the C identifier made of its Rust name, whatever its fields or
/// variants are.
pub proof fn lemma_defined_types_keep_their_name(inv: Inventory, tid: TypeId)
    requires
        type_def_of(inv, inv.type_of(tid)).len() > 0,
    ensures
        type_spec_of(inv, tid) == c_name_of(inv.type_of(tid).name@),
{
}

// ---------------------------------------------------------------------------
// Type names
// ---------------------------------------------------------------------------

/// The C name of a primitive type.
pub fn primitive_name(p: Primitive) -> (r: &'static str)
    ensures
        r@ == primitive_text(p),
{
    match p {
        Primitive::Void => "void",
        Primitive::Bool => "bool",
        Primitive::U8 => "uint8_t",
        Primitive::U16 => "uint16_t",
        Primitive::U32 => "uint32_t",
        Primitive::U64 => "uint64_t",
        Primitive::Usize => "size_t",
        Primitive::I8 => "int8_t",
        Primitive::I16 => "int16_t",
        Primitive::I32 => "int32_t",
        Primitive::I64 => "int64_t",
        Primitive::Isize => "ptrdiff_t",
        Primitive::F32 => "float",
        Primitive::F64 => "double",
    }
}

fn type_name_fuel(inv: &Inventory, tid: TypeId, Ghost(fuel): Ghost<nat>) -> (r: String)
    requires
        inv.distinct_ids(),
        inv.pointer_chain_ends(tid, fuel),
    ensures
        r@ == type_name_of(*inv, tid, fuel),
    decreases fuel,
{
    let ty = inv.resolve(tid);
    match &ty.kind {
        TypeKind::Primitive(p) => primitive_name(*p).to_owned(),
        TypeKind::ReadPointer(inner) => {
            let mut s = String::new();
            s.append("const ");
            let n = type_name_fuel(inv, *inner, Ghost((fuel - 1) as nat));
            s.append(n.as_str());
            s.append("*");
            s
        },
        TypeKind::ReadWritePointer(inner) => {
            let mut s = type_name_fuel(inv, *inner, Ghost((fuel - 1) as nat));
            s.append("*");
            s
        },
        TypeKind::TypePattern(TypePattern::CChar) => "char".to_owned(),
        TypeKind::TypePattern(TypePattern::Bool) => "bool".to_owned(),
        TypeKind::TypePattern(TypePattern::CVoid) => "void".to_owned(),
        _ => c_name(ty.name.as_str()),
    }
}

/// The C name of the type `tid`.
pub fn c_type_name(inv: &Inventory, tid: TypeId) -> (r: String)
    requires
        inv.distinct_ids(),
        inv.names_resolve(tid),
    ensures
        r@ == type_name_of(*inv, tid, inv.n_types()),
{
    type_name_fuel(inv, tid, Ghost(inv.n_types()))
}

/// Returns the C type specifier, mapping `Primitive::Void` to `"void"`.
pub fn type_spec(inv: &Inventory, tid: TypeId) -> (r: String)
    requires
        inv.distinct_ids(),
        inv.names_resolve(tid),
    ensures
        r@ == type_spec_of(*inv, tid),
{
    let ty = inv.resolve(tid);
    if let TypeKind::Primitive(Primitive::Void) = &ty.kind {
        "void".to_owned()
    } else {
        c_type_name(inv, tid)
    }
}

/// The parameter types of a signature, separated by `, `, or `void`.
pub fn param_types(inv: &Inventory, sig: &Signature) -> (r: String)
    requires
        inv.distinct_ids(),
        forall|k: int| 0 <= k < sig.arguments@.len() ==> inv.names_resolve(#[trigger] sig.arguments@[k].ty),
    ensures
        r@ == param_types_of(*inv, *sig),
{
    if sig.arguments.len() == 0 {
        return "void".to_owned();
    }
    let ghost items = arg_types_of(*inv, sig.arguments@);
    let mut out = String::new();
    for i in 0..sig.arguments.len()
        invariant
            inv.distinct_ids(),
            items == arg_types_of(*inv, sig.arguments@),
            forall|k: int| 0 <= k < sig.arguments@.len() ==> inv.names_resolve(#[trigger] sig.arguments@[k].ty),
            out@ == join(items.take(i as int), ", "@),
    {
        proof {
            assert(items.take(i + 1).drop_last() =~= items.take(i as int));
        }
        let ts = type_spec(inv, sig.arguments[i].ty);
        if i > 0 {
            out.append(", ");
        }
        out.append(ts.as_str());
        proof {
            if i == 0 {
                assert(out@ =~= items.take(1)[0]);
            }
        }
    }
    proof {
        assert(items.take(sig.arguments@.len() as int) =~= items);
    }
    out
}

/// An argument as a C parameter, given its type specifier and its upper-cased name.
pub fn param_decl(type_spec: &str, upper_name: &str) -> (r: String)
    ensures
        r@ == type_spec@ + " "@ + upper_name@,
{
    let mut s = type_spec.to_owned();
    s.append(" ");
    s.append(upper_name);
    s
}

/// The parameter list of a signature, with upper-cased names, or `void`.
pub fn param_list(inv: &Inventory, sig: &Signature) -> (r: String)
    requires
        inv.distinct_ids(),
        forall|k: int| 0 <= k < sig.arguments@.len() ==> inv.names_resolve(#[trigger] sig.arguments@[k].ty),
    ensures
        r@ == param_list_of(*inv, *sig),
{
    if sig.arguments.len() == 0 {
        return "void".to_owned();
    }
    let ghost items = sig.arguments@.map_values(|a: Argument| param_decl_of(*inv, a));
    let mut out = String::new();
    for i in 0..sig.arguments.len()
        invariant
            inv.distinct_ids(),
            items == sig.arguments@.map_values(|a: Argument| param_decl_of(*inv, a)),
            forall|k: int| 0 <= k < sig.arguments@.len() ==> inv.names_resolve(#[trigger] sig.arguments@[k].ty),
            out@ == join(items.take(i as int), ", "@),
    {
        proof {
            assert(items.take(i + 1).drop_last() =~= items.take(i as int));
        }
        let ts = type_spec(inv, sig.arguments[i].ty);
        let up = to_upper(sig.arguments[i].name.as_str());
        let item = param_decl(ts.as_str(), up.as_str());
        if i > 0 {
            out.append(", ");
        }
        out.append(item.as_str());
        proof {
            if i == 0 {
                assert(out@ =~= items.take(1)[0]);
            }
        }
    }
    proof {
        assert(items.take(sig.arguments@.len() as int) =~= items);
    }
    out
}


// ---------------------------------------------------------------------------
// Type definitions
// ---------------------------------------------------------------------------

fn emit_struct(out: &mut String, inv: &Inventory, name: &str, s: &Struct)
    requires
        inv.distinct_ids(),
        forall|k: int| 0 <= k < s.fields@.len() ==> inv.field_ok(#[trigger] s.fields@[k]),
    ensures
        final(out)@ == old(out)@ + struct_text_of(*inv, name@, *s),
{
    out.append("typedef struct ");
    out.append(name);
    out.append("\n{\n");
    let ghost start = out@;
    for i in 0..s.fields.len()
        invariant
            inv.distinct_ids(),
            forall|k: int| 0 <= k < s.fields@.len() ==> inv.field_ok(#[trigger] s.fields@[k]),
            out@ == start + field_lines_of(*inv, s.fields@.take(i as int)),
    {
        proof {
            assert(s.fields@.take(i + 1).drop_last() =~= s.fields@.take(i as int));
        }
        let f = &s.fields[i];
        let fty = inv.resolve(f.ty);
        let ghost before = out@;
        if let TypeKind::Array(arr) = &fty.kind {
            proof {
                assert(inv.field_ok(*f));
            }
            let elem = type_spec(inv, arr.ty);
            out.append("    ");
            out.append(elem.as_str());
            out.append(" ");
            out.append(f.name.as_str());
            out.append("[");
            push_decimal(out, arr.len);
            out.append("];\n");
        } else {
            let ts = type_spec(inv, f.ty);
            out.append("    ");
            out.append(ts.as_str());
            out.append(" ");
            out.append(f.name.as_str());
            out.append(";\n");
        }
        proof {
            assert(out@ =~= before + field_line_of(*inv, *f));
        }
    }
    proof {
        assert(s.fields@.take(s.fields@.len() as int) =~= s.fields@);
    }
    out.append("} ");
    out.append(name);
    out.append(";\n\n");
}

/// Writes the enumerator line of variant number `i`, given the variant name
/// upper-cased.
pub fn emit_tag_line(out: &mut String, name: &str, upper_variant: &str, i: usize)
    ensures
        final(out)@ == old(out)@ + tag_line_of(name@, upper_variant@, i as nat),
{
    out.append("    ");
    out.append(name);
    out.append("_");
    out.append(upper_variant);
    out.append(" = ");
    push_decimal(out, i);
    out.append(",\n");
}

/// Writes a union member line, given its type specifier and its name.
pub fn emit_union_member(out: &mut String, type_spec: &str, member: &str)
    ensures
        final(out)@ == old(out)@ + union_member_of(type_spec@, member@),
{
    out.append("        ");
    out.append(type_spec);
    out.append(" ");
    out.append(member);
    out.append(";\n");
}

fn emit_tag_lines(out: &mut String, name: &str, vs: &Vec<Variant>)
    ensures
        final(out)@ == old(out)@ + tag_lines_of(name@, vs@),
{
    let ghost start = out@;
    for i in 0..vs.len()
        invariant
            out@ == start + tag_lines_of(name@, vs@.take(i as int)),
    {
        proof {
            assert(vs@.take(i + 1).drop_last() =~= vs@.take(i as int));
        }
        let up = to_upper(vs[i].name.as_str());
        emit_tag_line(out, name, up.as_str(), i);
    }
    proof {
        assert(vs@.take(vs@.len() as int) =~= vs@);
    }
}

fn emit_tag_enum(out: &mut String, tag: &str, name: &str, vs: &Vec<Variant>)
    ensures
        final(out)@ == old(out)@ + tag_enum_of(tag@, name@, vs@),
{
    out.append("typedef enum ");
    out.append(tag);
    out.append("\n{\n");
    emit_tag_lines(out, name, vs);
    out.append("} ");
    out.append(tag);
    out.append(";\n\n");
}

fn emit_union_lines(out: &mut String, inv: &Inventory, vs: &Vec<Variant>)
    requires
        inv.distinct_ids(),
        forall|k: int| 0 <= k < vs@.len() ==> inv.variant_ok(#[trigger] vs@[k]),
    ensures
        final(out)@ == old(out)@ + union_lines_of(*inv, vs@),
{
    let ghost start = out@;
    for i in 0..vs.len()
        invariant
            inv.distinct_ids(),
            forall|k: int| 0 <= k < vs@.len() ==> inv.variant_ok(#[trigger] vs@[k]),
            out@ == start + union_lines_of(*inv, vs@.take(i as int)),
    {
        proof {
            assert(vs@.take(i + 1).drop_last() =~= vs@.take(i as int));
        }
        let ghost before = out@;
        if let VariantKind::Tuple(t) = &vs[i].kind {
            proof {
                assert(inv.variant_ok(vs@[i as int]));
            }
            let ts = type_spec(inv, *t);
            let low = to_lower(vs[i].name.as_str());
            emit_union_member(out, ts.as_str(), low.as_str());
        }
        proof {
            assert(out@ =~= before + union_line_of(*inv, vs@[i as int]));
        }
    }
    proof {
        assert(vs@.take(vs@.len() as int) =~= vs@);
    }
}

fn emit_union_struct(out: &mut String, inv: &Inventory, name: &str, tag: &str, vs: &Vec<Variant>)
    requires
        inv.distinct_ids(),
        forall|k: int| 0 <= k < vs@.len() ==> inv.variant_ok(#[trigger] vs@[k]),
    ensures
        final(out)@ == old(out)@ + union_struct_of(*inv, name@, tag@, vs@),
{
    out.append("typedef struct ");
    out.append(name);
    out.append("\n{\n    ");
    out.append(tag);
    out.append(" tag;\n    union\n    {\n");
    emit_union_lines(out, inv, vs);
    out.append("    };\n");
    out.append("} ");
    out.append(name);
    out.append(";\n\n");
}

fn emit_enum(out: &mut String, inv: &Inventory, name: &str, e: &Enum)
    requires
        inv.distinct_ids(),
        forall|k: int| 0 <= k < e.variants@.len() ==> inv.variant_ok(#[trigger] e.variants@[k]),
    ensures
        final(out)@ == old(out)@ + enum_text_of(*inv, name@, *e),
{
    let vs = &e.variants;
    let mut has_data = false;
    for i in 0..vs.len()
        invariant
            has_data == exists|k: int| 0 <= k < i && #[trigger] vs@[k].kind is Tuple,
    {
        if let VariantKind::Tuple(_) = &vs[i].kind {
            has_data = true;
        }
    }
    if has_data {
        let mut tag = name.to_owned();
        tag.append("_TAG");
        emit_tag_enum(out, tag.as_str(), name, vs);
        emit_union_struct(out, inv, name, tag.as_str(), vs);
    } else {
        emit_tag_enum(out, name, name, vs);
    }
}

fn emit_option(out: &mut String, name: &str, inner: &str)
    ensures
        final(out)@ == old(out)@ + option_text_of(name@, inner@),
{
    let mut tag = name.to_owned();
    tag.append("_TAG");
    out.append("typedef enum ");
    out.append(tag.as_str());
    out.append("\n{\n    ");
    out.append(name);
    out.append("_SOME = 0,\n    ");
    out.append(name);
    out.append("_NONE = 1,\n} ");
    out.append(tag.as_str());
    out.append(";\n\n");
    out.append("typedef struct ");
    out.append(name);
    out.append("\n{\n    ");
    out.append(tag.as_str());
    out.append(" tag;\n    union\n    {\n        ");
    out.append(inner);
    out.append(" some;\n    };\n} ");
    out.append(name);
    out.append(";\n\n");
}

fn emit_result(out: &mut String, name: &str, ok: &str, err: &str)
    ensures
        final(out)@ == old(out)@ + result_text_of(name@, ok@, err@),
{
    let mut tag = name.to_owned();
    tag.append("_TAG");
    out.append("typedef enum ");
    out.append(tag.as_str());
    out.append("\n{\n    ");
    out.append(name);
    out.append("_OK = 0,\n    ");
    out.append(name);
    out.append("_ERR = 1,\n} ");
    out.append(tag.as_str());
    out.append(";\n\n");
    out.append("typedef struct ");
    out.append(name);
    out.append("\n{\n    ");
    out.append(tag.as_str());
    out.append(" tag;\n    union\n    {\n        ");
    out.append(ok);
    out.append(" ok;\n        ");
    out.append(err);
    out.append(" err;\n    };\n} ");
    out.append(name);
    out.append(";\n\n");
}

fn callback_params(inv: &Inventory, sig: &Signature) -> (r: String)
    requires
        inv.distinct_ids(),
        forall|k: int| 0 <= k < sig.arguments@.len() ==> inv.names_resolve(#[trigger] sig.arguments@[k].ty),
    ensures
        r@ == join(arg_types_of(*inv, sig.arguments@).push("const void*"@), ", "@),
{
    let ghost items = arg_types_of(*inv, sig.arguments@).push("const void*"@);
    let mut params = String::new();
    for i in 0..sig.arguments.len()
        invariant
            inv.distinct_ids(),
            items == arg_types_of(*inv, sig.arguments@).push("const void*"@),
            forall|k: int| 0 <= k < sig.arguments@.len() ==> inv.names_resolve(#[trigger] sig.arguments@[k].ty),
            params@ == join(items.take(i as int), ", "@),
    {
        proof {
            assert(items.take(i + 1).drop_last() =~= items.take(i as int));
        }
        let ts = type_spec(inv, sig.arguments[i].ty);
        if i > 0 {
            params.append(", ");
        }
        params.append(ts.as_str());
        proof {
            if i == 0 {
                assert(params@ =~= items.take(1)[0]);
            }
        }
    }
    proof {
        let n = sig.arguments@.len() as int;
        assert(items.take(n + 1).drop_last() =~= items.take(n));
        assert(items.take(n + 1) =~= items);
    }
    if sig.arguments.len() > 0 {
        params.append(", ");
    }
    params.append("const void*");
    proof {
        if sig.arguments@.len() == 0 {
            assert(params@ =~= items.take(1)[0]);
        }
    }
    params
}

fn emit_callback(out: &mut String, inv: &Inventory, name: &str, sig: &Signature)
    requires
        inv.distinct_ids(),
        forall|k: int| 0 <= k < sig.arguments@.len() ==> inv.names_resolve(#[trigger] sig.arguments@[k].ty),
        inv.names_resolve(sig.rval),
    ensures
        final(out)@ == old(out)@ + callback_text_of(*inv, name@, *sig),
{
    let rval = type_spec(inv, sig.rval);
    let params = callback_params(inv, sig);
    let mut fn_typedef = name.to_owned();
    fn_typedef.append("_fn");
    out.append("typedef ");
    out.append(rval.as_str());
    out.append(" (*");
    out.append(fn_typedef.as_str());
    out.append(")(");
    out.append(params.as_str());
    out.append(");\n\n");
    out.append("typedef struct ");
    out.append(name);
    out.append("\n{\n    ");
    out.append(fn_typedef.as_str());
    out.append(" callback;\n    const void* data;\n    void (*destructor)(const void*);\n} ");
    out.append(name);
    out.append(";\n\n");
}

/// Writes the definition a header gives the type `ty`, whose names are
/// looked up in `inv`.
pub fn emit_type(out: &mut String, inv: &Inventory, ty: &Type)
    requires
        inv.distinct_ids(),
        inv.definable(*ty),
    ensures
        final(out)@ == old(out)@ + type_def_of(*inv, *ty),
{
    let name = c_name(ty.name.as_str());
    match &ty.kind {
        TypeKind::Struct(s) => {
            emit_struct(out, inv, name.as_str(), s);
        },
        TypeKind::Enum(e) => {
            emit_enum(out, inv, name.as_str(), e);
        },
        TypeKind::TypePattern(TypePattern::NamedCallback(sig)) => {
            emit_callback(out, inv, name.as_str(), sig);
        },
        TypeKind::TypePattern(TypePattern::Slice(inner)) => {
            let inner = type_spec(inv, *inner);
            out.append("typedef struct ");
            out.append(name.as_str());
            out.append("\n{\n    ");
            out.append("const ");
            out.append(inner.as_str());
            out.append("* data;\n    uint64_t len;\n} ");
            out.append(name.as_str());
            out.append(";\n\n");
        },
        TypeKind::TypePattern(TypePattern::SliceMut(inner)) => {
            let inner = type_spec(inv, *inner);
            out.append("typedef struct ");
            out.append(name.as_str());
            out.append("\n{\n    ");
            out.append(inner.as_str());
            out.append("* data;\n    uint64_t len;\n} ");
            out.append(name.as_str());
            out.append(";\n\n");
        },
        TypeKind::TypePattern(TypePattern::Vec(inner)) => {
            let inner = type_spec(inv, *inner);
            out.append("typedef struct ");
            out.append(name.as_str());
            out.append("\n{\n    ");
            out.append(inner.as_str());
            out.append("* ptr;\n    uint64_t len;\n    uint64_t capacity;\n} ");
            out.append(name.as_str());
            out.append(";\n\n");
        },
        TypeKind::TypePattern(TypePattern::Utf8String) => {
            out.append("typedef struct ");
            out.append(name.as_str());
            out.append("\n{\n    uint8_t* ptr;\n    uint64_t len;\n    uint64_t capacity;\n} ");
            out.append(name.as_str());
            out.append(";\n\n");
        },
        TypeKind::TypePattern(TypePattern::Option(inner)) => {
            let inner = type_spec(inv, *inner);
            emit_option(out, name.as_str(), inner.as_str());
        },
        TypeKind::TypePattern(TypePattern::Result(ok, err)) => {
            let ok = type_spec(inv, *ok);
            let err = type_spec(inv, *err);
            emit_result(out, name.as_str(), ok.as_str(), err.as_str());
        },
        TypeKind::FnPointer(sig) => {
            let rval = type_spec(inv, sig.rval);
            let params = param_types(inv, sig);
            out.append("typedef ");
            out.append(rval.as_str());
            out.append(" (*");
            out.append(name.as_str());
            out.append(")(");
            out.append(params.as_str());
            out.append(");\n\n");
        },
        TypeKind::Opaque | TypeKind::Service => {
            out.append("typedef struct ");
            out.append(name.as_str());
            out.append(" ");
            out.append(name.as_str());
            out.append(";\n\n");
        },
        _ => {
        },
    }
}


// ---------------------------------------------------------------------------
// Functions, dispatch table, loaders
// ---------------------------------------------------------------------------

/// Positions of functions of the inventory.
pub open spec fn positions_in_range(inv: Inventory, ks: Seq<usize>) -> bool {
    forall|i: int| 0 <= i < ks.len() ==> #[trigger] ks[i] < inv.functions@.len()
}

/// Positions of functions of the inventory whose signatures can be written.
pub open spec fn valid_positions(inv: Inventory, ks: Seq<usize>) -> bool {
    &&& positions_in_range(inv, ks)
    &&& forall|i: int|
        0 <= i < ks.len() ==> inv.signature_ok(#[trigger] inv.functions@[ks[i] as int].signature)
}

proof fn lemma_fns_at_step(inv: Inventory, ks: Seq<usize>, i: int)
    requires
        positions_in_range(inv, ks),
        0 <= i < ks.len(),
    ensures
        fns_at(inv, ks).take(i + 1).drop_last() == fns_at(inv, ks).take(i),
        fns_at(inv, ks).take(i + 1).last() == inv.functions@[ks[i] as int],
{
    assert(fns_at(inv, ks).take(i + 1).drop_last() =~= fns_at(inv, ks).take(i));
}

/// Writes the declaration of the function at position `k`.
pub fn emit_function_decl(out: &mut String, inv: &Inventory, k: usize)
    requires
        inv.distinct_ids(),
        k < inv.functions@.len(),
        inv.signature_ok(inv.functions@[k as int].signature),
    ensures
        final(out)@ == old(out)@ + decl_of(*inv, inv.functions@[k as int]),
{
    let f = &inv.functions[k];
    let rval = type_spec(inv, f.signature.rval);
    let params = param_list(inv, &f.signature);
    out.append(rval.as_str());
    out.append(" ");
    out.append(f.name.as_str());
    out.append("(");
    out.append(params.as_str());
    out.append(");\n");
}

fn emit_function_decls(out: &mut String, inv: &Inventory, ks: &Vec<usize>)
    requires
        inv.distinct_ids(),
        valid_positions(*inv, ks@),
    ensures
        final(out)@ == old(out)@ + decls_of(*inv, fns_at(*inv, ks@)),
{
    let ghost start = out@;
    let ghost fs = fns_at(*inv, ks@);
    for i in 0..ks.len()
        invariant
            inv.distinct_ids(),
            valid_positions(*inv, ks@),
            fs == fns_at(*inv, ks@),
            out@ == start + decls_of(*inv, fs.take(i as int)),
    {
        proof {
            lemma_fns_at_step(*inv, ks@, i as int);
        }
        emit_function_decl(out, inv, ks[i]);
    }
    proof {
        assert(fs.take(ks@.len() as int) =~= fs);
    }
}

fn emit_table_line(out: &mut String, inv: &Inventory, k: usize)
    requires
        inv.distinct_ids(),
        k < inv.functions@.len(),
        inv.signature_ok(inv.functions@[k as int].signature),
    ensures
        final(out)@ == old(out)@ + table_line_of(*inv, inv.functions@[k as int]),
{
    let f = &inv.functions[k];
    let rval = type_spec(inv, f.signature.rval);
    let params = param_types(inv, &f.signature);
    out.append("    ");
    out.append(rval.as_str());
    out.append(" (*");
    out.append(f.name.as_str());
    out.append(")(");
    out.append(params.as_str());
    out.append(");\n");
}

/// Writes the dispatch table `LOADER_api_t` for the functions at positions `ks`.
pub fn emit_dispatch_table(out: &mut String, inv: &Inventory, loader_name: &str, ks: &Vec<usize>)
    requires
        inv.distinct_ids(),
        valid_positions(*inv, ks@),
    ensures
        final(out)@ == old(out)@ + dispatch_table_of(*inv, loader_name@, fns_at(*inv, ks@)),
{
    let mut name = loader_name.to_owned();
    name.append("_api_t");
    out.append("typedef struct ");
    out.append(name.as_str());
    out.append("\n{\n");
    let ghost start = out@;
    let ghost fs = fns_at(*inv, ks@);
    for i in 0..ks.len()
        invariant
            inv.distinct_ids(),
            valid_positions(*inv, ks@),
            fs == fns_at(*inv, ks@),
            out@ == start + table_lines_of(*inv, fs.take(i as int)),
    {
        proof {
            lemma_fns_at_step(*inv, ks@, i as int);
        }
        emit_table_line(out, inv, ks[i]);
    }
    proof {
        assert(fs.take(ks@.len() as int) =~= fs);
    }
    out.append("} ");
    out.append(name.as_str());
    out.append(";\n");
}

fn emit_win_lines(out: &mut String, inv: &Inventory, k: usize)
    requires
        inv.distinct_ids(),
        k < inv.functions@.len(),
        inv.signature_ok(inv.functions@[k as int].signature),
    ensures
        final(out)@ == old(out)@ + win_lines_of_fn(*inv, inv.functions@[k as int]),
{
    let f = &inv.functions[k];
    let rval = type_spec(inv, f.signature.rval);
    let params = param_types(inv, &f.signature);
    out.append("    api->");
    out.append(f.name.as_str());
    out.append(" = (");
    out.append(rval.as_str());
    out.append(" (*)(");
    out.append(params.as_str());
    out.append("))");
    out.append("(void*)GetProcAddress(lib, \"");
    out.append(f.name.as_str());
    out.append("\");\n    if (!api->");
    out.append(f.name.as_str());
    out.append(") return -1;\n");
}

fn emit_posix_lines(out: &mut String, f: &Function)
    ensures
        final(out)@ == old(out)@ + posix_lines_of_fn(*f),
{
    out.append("    sym = dlsym(lib, \"");
    out.append(f.name.as_str());
    out.append("\");\n    if (!sym) return -1;\n    memcpy(&api->");
    out.append(f.name.as_str());
    out.append(", &sym, sizeof(sym));\n");
}

fn emit_win_head(out: &mut String, loader_name: &str)
    ensures
        final(out)@ == old(out)@ + win_head_of(loader_name@),
{
    out.append("#if defined(_WIN32)\n#include <windows.h>\nstatic int ");
    out.append(loader_name);
    out.append("_load");
    out.append("(const char* path, ");
    out.append(loader_name);
    out.append("_api_t");
    out.append("* api)\n{\n    HMODULE lib = LoadLibraryA(path);\n    if (!lib) return -1;\n");
}

fn emit_posix_head(out: &mut String, loader_name: &str)
    ensures
        final(out)@ == old(out)@ + posix_head_of(loader_name@),
{
    out.append("#else\n#include <dlfcn.h>\n#include <string.h>\nstatic int ");
    out.append(loader_name);
    out.append("_load");
    out.append("(const char* path, ");
    out.append(loader_name);
    out.append("_api_t");
    out.append(
        "* api)\n{\n    void* lib = dlopen(path, RTLD_NOW);\n    if (!lib) return -1;\n    void* sym;\n",
    );
}

fn emit_win_loader(out: &mut String, inv: &Inventory, loader_name: &str, ks: &Vec<usize>)
    requires
        inv.distinct_ids(),
        valid_positions(*inv, ks@),
    ensures
        final(out)@ == old(out)@ + win_loader_of(*inv, loader_name@, fns_at(*inv, ks@)),
{
    let ghost fs = fns_at(*inv, ks@);
    emit_win_head(out, loader_name);
    let ghost start = out@;
    for i in 0..ks.len()
        invariant
            inv.distinct_ids(),
            valid_positions(*inv, ks@),
            fs == fns_at(*inv, ks@),
            out@ == start + win_lines_of(*inv, fs.take(i as int)),
    {
        proof {
            lemma_fns_at_step(*inv, ks@, i as int);
        }
        emit_win_lines(out, inv, ks[i]);
    }
    proof {
        assert(fs.take(ks@.len() as int) =~= fs);
    }
    out.append("    return 0;\n}\n");
}

fn emit_posix_loader(out: &mut String, inv: &Inventory, loader_name: &str, ks: &Vec<usize>)
    requires
        positions_in_range(*inv, ks@),
    ensures
        final(out)@ == old(out)@ + posix_loader_of(loader_name@, fns_at(*inv, ks@)),
{
    let ghost fs = fns_at(*inv, ks@);
    emit_posix_head(out, loader_name);
    let ghost start = out@;
    for i in 0..ks.len()
        invariant
            positions_in_range(*inv, ks@),
            fs == fns_at(*inv, ks@),
            out@ == start + posix_lines_of(fs.take(i as int)),
    {
        proof {
            lemma_fns_at_step(*inv, ks@, i as int);
        }
        emit_posix_lines(out, &inv.functions[ks[i]]);
    }
    proof {
        assert(fs.take(ks@.len() as int) =~= fs);
    }
    out.append("    return 0;\n}\n#endif\n\n");
}

/// Writes the dynamic loader `LOADER_load` for the functions at positions `ks`.
pub fn emit_dynamic_loader(out: &mut String, inv: &Inventory, loader_name: &str, ks: &Vec<usize>)
    requires
        inv.distinct_ids(),
        valid_positions(*inv, ks@),
    ensures
        final(out)@ == old(out)@ + dynamic_loader_of(*inv, loader_name@, fns_at(*inv, ks@)),
{
    emit_win_loader(out, inv, loader_name, ks);
    emit_posix_loader(out, inv, loader_name, ks);
}

/// Writes the static loader `LOADER_load_static`, compiled in under `guard`,
/// for the functions at positions `ks`.
pub fn emit_static_loader_with_guard(
    out: &mut String,
    inv: &Inventory,
    loader_name: &str,
    guard: &str,
    ks: &Vec<usize>,
)
    requires
        positions_in_range(*inv, ks@),
    ensures
        final(out)@ == old(out)@ + static_loader_with_guard_of(
            loader_name@,
            guard@,
            fns_at(*inv, ks@),
        ),
{
    let ghost fs = fns_at(*inv, ks@);
    out.append("#ifdef ");
    out.append(guard);
    out.append("\nstatic int ");
    out.append(loader_name);
    out.append("_load_static");
    out.append("(");
    out.append(loader_name);
    out.append("_api_t");
    out.append("* api)\n{\n");
    let ghost start = out@;
    for i in 0..ks.len()
        invariant
            positions_in_range(*inv, ks@),
            fs == fns_at(*inv, ks@),
            out@ == start + static_lines_of(fs.take(i as int)),
    {
        proof {
            lemma_fns_at_step(*inv, ks@, i as int);
        }
        let f = &inv.functions[ks[i]];
        out.append("    api->");
        out.append(f.name.as_str());
        out.append(" = ");
        out.append(f.name.as_str());
        out.append(";\n");
    }
    proof {
        assert(fs.take(ks@.len() as int) =~= fs);
    }
    out.append("    return 0;\n}\n#endif /* ");
    out.append(guard);
    out.append(" */\n\n");
}

/// Writes the static loader, compiled in when `LOADER_STATIC` is defined.
pub fn emit_static_loader(out: &mut String, inv: &Inventory, loader_name: &str, ks: &Vec<usize>)
    requires
        positions_in_range(*inv, ks@),
    ensures
        final(out)@ == old(out)@ + static_loader_of(loader_name@, fns_at(*inv, ks@)),
{
    let mut guard = to_upper(loader_name);
    guard.append("_STATIC");
    emit_static_loader_with_guard(out, inv, loader_name, guard.as_str(), ks);
}

fn emit_type_defs(out: &mut String, inv: &Inventory, order: &Vec<TypeId>)
    requires
        inv.well_formed(),
        forall|i: int| 0 <= i < order@.len() ==> inv.has_type(#[trigger] order@[i]),
    ensures
        final(out)@ == old(out)@ + type_defs_of(*inv, order@),
{
    let ghost start = out@;
    for i in 0..order.len()
        invariant
            inv.well_formed(),
            forall|i: int| 0 <= i < order@.len() ==> inv.has_type(#[trigger] order@[i]),
            out@ == start + type_defs_of(*inv, order@.take(i as int)),
    {
        proof {
            assert(order@.take(i + 1).drop_last() =~= order@.take(i as int));
            lemma_wf_type(*inv, order@[i as int]);
        }
        emit_type(out, inv, inv.resolve(order[i]));
    }
    proof {
        assert(order@.take(order@.len() as int) =~= order@);
    }
}

fn emit_prologue(out: &mut String, ifndef: &str)
    ensures
        final(out)@ == old(out)@ + prologue_of(ifndef@),
{
    out.append("#ifndef ");
    out.append(ifndef);
    out.append("\n#define ");
    out.append(ifndef);
    out.append(
        "\n\n#ifdef __cplusplus\nextern \"C\" {\n#endif\n\n#include <stdint.h>\n#include <stdbool.h>\n\n",
    );
}

fn emit_epilogue(out: &mut String, ifndef: &str)
    ensures
        final(out)@ == old(out)@ + epilogue_of(ifndef@),
{
    out.append("#ifdef __cplusplus\n}\n#endif\n\n#endif /* ");
    out.append(ifndef);
    out.append(" */\n");
}

/// Emit a complete C header, guarded by `ifndef`, for the inventory.
pub fn emit_header(inv: &Inventory, loader_name: &str, ifndef: &str) -> (r: String)
    requires
        inv.well_formed(),
    ensures
        r@ == header_of(*inv, loader_name@, ifndef@),
{
    let functions = sorted_functions(inv);
    let order = sort_types(inv);
    proof {
        assert forall|i: int| 0 <= i < functions@.len() implies #[trigger] functions@[i]
            < inv.functions@.len() && inv.signature_ok(
            inv.functions@[functions@[i] as int].signature,
        ) by {
            assert(functions@.contains(functions@[i]));
            lemma_wf_function(*inv, functions@[i] as int);
        }
        assert forall|i: int| 0 <= i < order@.len() implies inv.has_type(#[trigger] order@[i]) by {
            assert(order@.contains(order@[i]));
        }
    }
    let mut w = String::new();
    emit_prologue(&mut w, ifndef);
    emit_type_defs(&mut w, inv, &order);
    w.append("\n");
    emit_function_decls(&mut w, inv, &functions);
    w.append("\n");
    emit_dispatch_table(&mut w, inv, loader_name, &functions);
    w.append("\n");
    emit_dynamic_loader(&mut w, inv, loader_name, &functions);
    emit_static_loader(&mut w, inv, loader_name, &functions);
    emit_epilogue(&mut w, ifndef);
    w
}

/// Generate the C header for the inventory, guarded by `interoptopus_generated`.
///
/// `loader_name` controls the dispatch table and loader function names
/// (e.g. `"hello_world_c"` produces `hello_world_c_api_t` and `hello_world_c_load`).
pub fn generate(loader_name: &str, inv: &Inventory) -> (r: String)
    requires
        inv.well_formed(),
    ensures
        r@ == header_of(*inv, loader_name@, "interoptopus_generated"@),
{
    emit_header(inv, loader_name, "interoptopus_generated")
}

} // verus!
