use interoptopus_c::functions::{
    function_pointer_params_string, write_dispatch_table, write_function,
    write_function_as_typedef_declaration, write_function_declaration, write_functions, write_loader,
    CFunction, DocStyle, Functions, Interop, Param,
};

fn param(name: &str, type_spec: &str, array_len: Option<usize>) -> Param {
    Param { name: name.to_string(), type_spec: type_spec.to_string(), array_len }
}

fn add() -> CFunction {
    CFunction {
        name: "my_add".to_string(),
        rval: "uint32_t".to_string(),
        params: vec![param("a", "uint32_t", None), param("b", "uint32_t", None)],
        docs: "/// Adds.\n".to_string(),
    }
}

fn fill() -> CFunction {
    CFunction {
        name: "fill".to_string(),
        rval: "void".to_string(),
        params: vec![param("out", "uint8_t", Some(16))],
        docs: String::new(),
    }
}

fn interop(style: Functions, documentation: DocStyle) -> Interop {
    Interop {
        function_attribute: "EXPORT ".to_string(),
        function_style: style,
        documentation,
        loader: Some("lib".to_string()),
        functions: vec![add(), fill()],
    }
}

#[test]
fn declaration_on_one_line() {
    let i = interop(Functions::ForwardDeclarations, DocStyle::Omitted);
    let mut out = String::new();
    write_function_declaration(&i, &mut out, "", "    ", &add(), 999);
    assert_eq!(out, "EXPORT uint32_t my_add(uint32_t a, uint32_t b);\n");
}

#[test]
fn declaration_exactly_at_limit_stays_on_one_line() {
    let i = interop(Functions::ForwardDeclarations, DocStyle::Omitted);
    let line = "EXPORT uint32_t my_add(uint32_t a, uint32_t b);";
    let mut out = String::new();
    write_function_declaration(&i, &mut out, "", "    ", &add(), line.len());
    assert_eq!(out, format!("{}\n", line));
}

#[test]
fn long_declaration_is_broken_per_parameter() {
    let i = interop(Functions::ForwardDeclarations, DocStyle::Omitted);
    let mut out = String::new();
    write_function_declaration(&i, &mut out, "  ", "    ", &add(), 10);
    assert_eq!(out, "  EXPORT uint32_t my_add(\n      uint32_t a\n      uint32_t b\n      );\n");
}

#[test]
fn array_parameters() {
    let i = interop(Functions::ForwardDeclarations, DocStyle::Omitted);
    let mut out = String::new();
    write_function_declaration(&i, &mut out, "", "    ", &fill(), 999);
    assert_eq!(out, "EXPORT void fill(uint8_t out[16]);\n");
    assert_eq!(function_pointer_params_string(&fill()), "uint8_t [16]");
    assert_eq!(function_pointer_params_string(&add()), "uint32_t, uint32_t");
}

#[test]
fn typedef_declaration() {
    let mut out = String::new();
    write_function_as_typedef_declaration(&mut out, "\t", "\t", &fill());
    assert_eq!(out, "\ttypedef void (*fill)(uint8_t [16]);\n");
}

#[test]
fn inline_documentation_surrounds_function() {
    let i = interop(Functions::Typedefs, DocStyle::Inline);
    let mut out = String::new();
    write_function(&i, &mut out, "", "    ", &add());
    assert_eq!(out, "/// Adds.\ntypedef uint32_t (*my_add)(uint32_t, uint32_t);\n\n");
}

#[test]
fn all_functions_in_order() {
    let i = interop(Functions::ForwardDeclarations, DocStyle::Omitted);
    let mut out = String::new();
    write_functions(&i, &mut out, "", "    ");
    assert_eq!(
        out,
        "EXPORT uint32_t my_add(uint32_t a, uint32_t b);\nEXPORT void fill(uint8_t out[16]);\n"
    );
}

#[test]
fn dispatch_table_is_indented() {
    let i = interop(Functions::ForwardDeclarations, DocStyle::Omitted);
    let mut out = String::new();
    write_dispatch_table(&i, &mut out, "", "    ");
    assert_eq!(
        out,
        "typedef struct lib_api_t\n    {\n        uint32_t (*my_add)(uint32_t, uint32_t);\n        void (*fill)(uint8_t [16]);\n    } lib_api_t;\n"
    );
}

#[test]
fn loader_resolves_every_function() {
    let mut i = interop(Functions::ForwardDeclarations, DocStyle::Omitted);
    i.functions = vec![add()];
    let mut out = String::new();
    write_loader(&i, &mut out, "", "    ");
    let expected = "#if defined(_WIN32)\n#include <windows.h>\nstatic int lib_load(const char* path, lib_api_t* api)\n    {\n        HMODULE lib = LoadLibraryA(path);\n        if (!lib) return -1;\n        api->my_add = (uint32_t (*)(uint32_t, uint32_t))(void*)GetProcAddress(lib, \"my_add\");\n        if (!api->my_add) return -1;\n        return 0;\n    }\n#else\n#include <dlfcn.h>\n#include <string.h>\nstatic int lib_load(const char* path, lib_api_t* api)\n    {\n        void* lib = dlopen(path, RTLD_NOW);\n        if (!lib) return -1;\n        void* sym;\n        sym = dlsym(lib, \"my_add\");\n        if (!sym) return -1;\n        memcpy(&api->my_add, &sym, sizeof(sym));\n        return 0;\n    }\n#endif\n";
    assert_eq!(out, expected);
}
