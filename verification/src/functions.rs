//! Function declarations, the dispatch table and the dynamic loader written
//! line by line with indentation, for a backend configured by `Interop`.
//!
//! The functions here see each exported function already converted to C:
//! its C name, the C type specifier of its return type, and its parameters
//! with their C type specifiers and their names in the configured naming
//! style. Each line starts with the writer's current indentation `base`,
//! followed by `unit` once per extra level.
use vstd::prelude::*;
use crate::text::{concat, decimal, join, push_decimal};

verus! {

/// How documentation is emitted.
#[derive(Clone, Copy, Debug, PartialEq, Eq, Structural)]
pub enum DocStyle {
    Omitted,
    Inline,
}

/// How functions are emitted: as function pointer typedefs or as forward declarations.
#[derive(Clone, Copy, Debug, PartialEq, Eq, Structural)]
pub enum Functions {
    Typedefs,
    ForwardDeclarations,
}

/// A parameter in C: its name (in the configured naming style), its C type
/// specifier, and the length when its type is an array.
#[derive(Clone, Debug)]
pub struct Param {
    pub name: String,
    pub type_spec: String,
    pub array_len: Option<usize>,
}

/// An exported function in C: its C name, the C type specifier of its return
/// value, its parameters, and its documentation as the documentation writer
/// renders it.
#[derive(Clone, Debug)]
pub struct CFunction {
    pub name: String,
    pub rval: String,
    pub params: Vec<Param>,
    pub docs: String,
}

/// The backend's configuration and the functions it writes.
#[derive(Clone, Debug)]
pub struct Interop {
    pub function_attribute: String,
    pub function_style: Functions,
    pub documentation: DocStyle,
    pub loader: Option<String>,
    pub functions: Vec<CFunction>,
}

// ---------------------------------------------------------------------------
// What is written
// ---------------------------------------------------------------------------

/// `unit` written `n` times.
pub open spec fn repeat(unit: Seq<char>, n: nat) -> Seq<char>
    decreases n,
{
    if n == 0 {
        Seq::empty()
    } else {
        repeat(unit, (n - 1) as nat) + unit
    }
}

/// One line at `extra` levels below `base`.
pub open spec fn line(base: Seq<char>, unit: Seq<char>, extra: nat, text: Seq<char>) -> Seq<char> {
    base + repeat(unit, extra) + text + "\n"@
}

/// A parameter in a declaration: `T name`, or `T name[N]` for an array.
pub open spec fn param_text(p: Param) -> Seq<char> {
    match p.array_len {
        Some(n) => p.type_spec@ + " "@ + p.name@ + "["@ + decimal(n as nat) + "]"@,
        None => p.type_spec@ + " "@ + p.name@,
    }
}

/// A parameter in a function pointer type: `T`, or `T [N]` for an array.
pub open spec fn pointer_param_text(p: Param) -> Seq<char> {
    match p.array_len {
        Some(n) => p.type_spec@ + " ["@ + decimal(n as nat) + "]"@,
        None => p.type_spec@,
    }
}

/// The parameters of a function in a declaration.
pub open spec fn param_texts(ps: Seq<Param>) -> Seq<Seq<char>> {
    ps.map_values(|p: Param| param_text(p))
}

/// The parameters of a function in a function pointer type.
pub open spec fn pointer_params_of(ps: Seq<Param>) -> Seq<char> {
    join(ps.map_values(|p: Param| pointer_param_text(p)), ", "@)
}

/// The length in bytes of the UTF-8 encoding of a string, as `str::len` returns it.
pub open spec fn utf8_len(s: Seq<char>) -> nat {
    (vstd::utf8::encode_utf8(s).len() as usize) as nat
}

/// The one-line declaration of a function, without indentation.
pub open spec fn declaration_line(attr: Seq<char>, f: CFunction) -> Seq<char> {
    attr + f.rval@ + " "@ + f.name@ + "("@ + join(param_texts(f.params@), ", "@) + ");"@
}

/// The parameter lines of a declaration broken over several lines.
pub open spec fn param_lines(base: Seq<char>, unit: Seq<char>, ps: Seq<Seq<char>>) -> Seq<char>
    decreases ps.len(),
{
    if ps.len() == 0 {
        Seq::empty()
    } else {
        param_lines(base, unit, ps.drop_last()) + line(base, unit, 1, ps.last())
    }
}

/// The declaration of a function: on one line when that line is at most
/// `max_line` bytes long; otherwise the head, one parameter per line and the
/// closing `);`, each indented one level further.
pub open spec fn declaration_text(
    attr: Seq<char>,
    f: CFunction,
    base: Seq<char>,
    unit: Seq<char>,
    max_line: nat,
) -> Seq<char> {
    let one = declaration_line(attr, f);
    if utf8_len(one) <= max_line {
        line(base, unit, 0, one)
    } else {
        line(base, unit, 0, attr + f.rval@ + " "@ + f.name@ + "("@) + param_lines(
            base,
            unit,
            param_texts(f.params@),
        ) + line(base, unit, 1, ");"@)
    }
}

/// A function as a function pointer typedef.
pub open spec fn typedef_text(f: CFunction, base: Seq<char>, unit: Seq<char>) -> Seq<char> {
    line(
        base,
        unit,
        0,
        "typedef "@ + f.rval@ + " (*"@ + f.name@ + ")("@ + pointer_params_of(f.params@) + ");"@,
    )
}

/// A function as the backend writes it: its documentation and a blank line
/// around it when documentation is inline, and the typedef or the
/// declaration (broken at 999 bytes) according to the configured style.
pub open spec fn function_text(i: Interop, f: CFunction, base: Seq<char>, unit: Seq<char>) -> Seq<
    char,
> {
    let inline = i.documentation == DocStyle::Inline;
    (if inline {
        f.docs@
    } else {
        Seq::empty()
    }) + (match i.function_style {
        Functions::Typedefs => typedef_text(f, base, unit),
        Functions::ForwardDeclarations => declaration_text(
            i.function_attribute@,
            f,
            base,
            unit,
            999,
        ),
    }) + (if inline {
        "\n"@
    } else {
        Seq::empty()
    })
}

/// All functions, in order.
pub open spec fn functions_text(i: Interop, fs: Seq<CFunction>, base: Seq<char>, unit: Seq<char>) -> Seq<
    char,
>
    decreases fs.len(),
{
    if fs.len() == 0 {
        Seq::empty()
    } else {
        functions_text(i, fs.drop_last(), base, unit) + function_text(i, fs.last(), base, unit)
    }
}

/// The dispatch table member of a function.
pub open spec fn table_member(f: CFunction, base: Seq<char>, unit: Seq<char>) -> Seq<char> {
    line(base, unit, 2, f.rval@ + " (*"@ + f.name@ + ")("@ + pointer_params_of(f.params@) + ");"@)
}

/// The dispatch table members, in order.
pub open spec fn table_members(fs: Seq<CFunction>, base: Seq<char>, unit: Seq<char>) -> Seq<char>
    decreases fs.len(),
{
    if fs.len() == 0 {
        Seq::empty()
    } else {
        table_members(fs.drop_last(), base, unit) + table_member(fs.last(), base, unit)
    }
}

/// The dispatch table `LOADER_api_t`.
pub open spec fn dispatch_table_text(
    loader: Seq<char>,
    fs: Seq<CFunction>,
    base: Seq<char>,
    unit: Seq<char>,
) -> Seq<char> {
    let api = loader + "_api_t"@;
    line(base, unit, 0, "typedef struct "@ + api) + line(base, unit, 1, "{"@) + table_members(
        fs,
        base,
        unit,
    ) + line(base, unit, 1, "} "@ + api + ";"@)
}

/// The head of the loader function `LOADER_load`.
pub open spec fn loader_head(loader: Seq<char>) -> Seq<char> {
    "static int "@ + loader + "_load"@ + "(const char* path, "@ + loader + "_api_t"@ + "* api)"@
}

/// Resolving a function with `GetProcAddress`.
pub open spec fn win_resolve(f: CFunction, base: Seq<char>, unit: Seq<char>) -> Seq<char> {
    line(
        base,
        unit,
        2,
        "api->"@ + f.name@ + " = ("@ + f.rval@ + " (*)("@ + pointer_params_of(f.params@)
            + "))(void*)GetProcAddress(lib, \""@ + f.name@ + "\");"@,
    ) + line(base, unit, 2, "if (!api->"@ + f.name@ + ") return -1;"@)
}

/// Resolving every function with `GetProcAddress`, in order.
pub open spec fn win_resolves(fs: Seq<CFunction>, base: Seq<char>, unit: Seq<char>) -> Seq<char>
    decreases fs.len(),
{
    if fs.len() == 0 {
        Seq::empty()
    } else {
        win_resolves(fs.drop_last(), base, unit) + win_resolve(fs.last(), base, unit)
    }
}

/// Resolving a function with `dlsym`.
pub open spec fn posix_resolve(f: CFunction, base: Seq<char>, unit: Seq<char>) -> Seq<char> {
    line(base, unit, 2, "sym = dlsym(lib, \""@ + f.name@ + "\");"@) + line(
        base,
        unit,
        2,
        "if (!sym) return -1;"@,
    ) + line(base, unit, 2, "memcpy(&api->"@ + f.name@ + ", &sym, sizeof(sym));"@)
}

/// Resolving every function with `dlsym`, in order.
pub open spec fn posix_resolves(fs: Seq<CFunction>, base: Seq<char>, unit: Seq<char>) -> Seq<char>
    decreases fs.len(),
{
    if fs.len() == 0 {
        Seq::empty()
    } else {
        posix_resolves(fs.drop_last(), base, unit) + posix_resolve(fs.last(), base, unit)
    }
}

/// The opening lines of the Windows half of the loader.
pub open spec fn win_head_text(loader: Seq<char>, base: Seq<char>, unit: Seq<char>) -> Seq<char> {
    line(base, unit, 0, "#if defined(_WIN32)"@) + line(base, unit, 0, "#include <windows.h>"@)
        + line(base, unit, 0, loader_head(loader)) + line(base, unit, 1, "{"@) + line(
        base,
        unit,
        2,
        "HMODULE lib = LoadLibraryA(path);"@,
    ) + line(base, unit, 2, "if (!lib) return -1;"@)
}

/// The closing lines of a loader function body.
pub open spec fn body_tail_text(base: Seq<char>, unit: Seq<char>) -> Seq<char> {
    line(base, unit, 2, "return 0;"@) + line(base, unit, 1, "}"@)
}

/// The Windows half of the loader.
pub open spec fn win_loader_text(
    loader: Seq<char>,
    fs: Seq<CFunction>,
    base: Seq<char>,
    unit: Seq<char>,
) -> Seq<char> {
    win_head_text(loader, base, unit) + win_resolves(fs, base, unit) + body_tail_text(base, unit)
}

/// The opening lines of the POSIX half of the loader.
pub open spec fn posix_head_text(loader: Seq<char>, base: Seq<char>, unit: Seq<char>) -> Seq<char> {
    line(base, unit, 0, "#else"@) + line(base, unit, 0, "#include <dlfcn.h>"@) + line(
        base,
        unit,
        0,
        "#include <string.h>"@,
    ) + line(base, unit, 0, loader_head(loader)) + line(base, unit, 1, "{"@) + line(
        base,
        unit,
        2,
        "void* lib = dlopen(path, RTLD_NOW);"@,
    ) + line(base, unit, 2, "if (!lib) return -1;"@) + line(base, unit, 2, "void* sym;"@)
}

/// The POSIX half of the loader.
pub open spec fn posix_loader_text(
    loader: Seq<char>,
    fs: Seq<CFunction>,
    base: Seq<char>,
    unit: Seq<char>,
) -> Seq<char> {
    posix_head_text(loader, base, unit) + posix_resolves(fs, base, unit) + body_tail_text(
        base,
        unit,
    ) + line(base, unit, 0, "#endif"@)
}

/// The loader `LOADER_load` for Windows and POSIX.
pub open spec fn loader_text(
    loader: Seq<char>,
    fs: Seq<CFunction>,
    base: Seq<char>,
    unit: Seq<char>,
) -> Seq<char> {
    win_loader_text(loader, fs, base, unit) + posix_loader_text(loader, fs, base, unit)
}

// ---------------------------------------------------------------------------
// Writing
// ---------------------------------------------------------------------------

/// Appends `unit` `n` times.
fn push_repeat(out: &mut String, unit: &str, n: usize)
    ensures
        final(out)@ == old(out)@ + repeat(unit@, n as nat),
{
    let ghost start = out@;
    for k in 0..n
        invariant
            out@ == start + repeat(unit@, k as nat),
    {
        out.append(unit);
    }
}

/// Appends one line at `extra` levels below `base`.
fn emit_line(out: &mut String, base: &str, unit: &str, extra: usize, text: &str)
    ensures
        final(out)@ == old(out)@ + line(base@, unit@, extra as nat, text@),
{
    out.append(base);
    push_repeat(out, unit, extra);
    out.append(text);
    out.append("\n");
}

fn param_string(p: &Param) -> (r: String)
    ensures
        r@ == param_text(*p),
{
    let mut s = p.type_spec.clone();
    s.append(" ");
    s.append(p.name.as_str());
    if let Some(n) = p.array_len {
        s.append("[");
        push_decimal(&mut s, n);
        s.append("]");
    }
    s
}

fn pointer_param_string(p: &Param) -> (r: String)
    ensures
        r@ == pointer_param_text(*p),
{
    let mut s = p.type_spec.clone();
    if let Some(n) = p.array_len {
        s.append(" [");
        push_decimal(&mut s, n);
        s.append("]");
    }
    s
}

/// The parameters of a function in a function pointer type, separated by `, `.
pub fn function_pointer_params_string(f: &CFunction) -> (r: String)
    ensures
        r@ == pointer_params_of(f.params@),
{
    let ghost items = f.params@.map_values(|p: Param| pointer_param_text(p));
    let mut out = String::new();
    for i in 0..f.params.len()
        invariant
            items == f.params@.map_values(|p: Param| pointer_param_text(p)),
            out@ == join(items.take(i as int), ", "@),
    {
        proof {
            assert(items.take(i + 1).drop_last() =~= items.take(i as int));
        }
        let item = pointer_param_string(&f.params[i]);
        if i > 0 {
            out.append(", ");
        }
        out.append(item.as_str());
        proof {
            if i == 0 {
                assert(out@ =~= items.take(1)[0]);
            }
        }
    }
    proof {
        assert(items.take(f.params@.len() as int) =~= items);
    }
    out
}

/// Writes the declaration of `function`, on one line when it fits in
/// `max_line` bytes, else with one parameter per line.
pub fn write_function_declaration(
    i: &Interop,
    out: &mut String,
    base: &str,
    unit: &str,
    function: &CFunction,
    max_line: usize,
)
    ensures
        final(out)@ == old(out)@ + declaration_text(
            i.function_attribute@,
            *function,
            base@,
            unit@,
            max_line as nat,
        ),
{
    let attr = i.function_attribute.as_str();
    let mut params: Vec<String> = Vec::new();
    let ghost texts = param_texts(function.params@);
    for k in 0..function.params.len()
        invariant
            texts == param_texts(function.params@),
            params@.len() == k,
            forall|m: int| 0 <= m < k ==> #[trigger] params@[m]@ == texts[m],
    {
        params.push(param_string(&function.params[k]));
    }
    let mut joined = String::new();
    for k in 0..params.len()
        invariant
            params@.len() == texts.len(),
            forall|m: int| 0 <= m < params@.len() ==> #[trigger] params@[m]@ == texts[m],
            joined@ == join(texts.take(k as int), ", "@),
    {
        proof {
            assert(texts.take(k + 1).drop_last() =~= texts.take(k as int));
        }
        if k > 0 {
            joined.append(", ");
        }
        joined.append(params[k].as_str());
        proof {
            if k == 0 {
                assert(joined@ =~= texts.take(1)[0]);
            }
        }
    }
    proof {
        assert(texts.take(texts.len() as int) =~= texts);
    }
    let mut head = attr.to_owned();
    head.append(function.rval.as_str());
    head.append(" ");
    head.append(function.name.as_str());
    head.append("(");
    let mut one = head.clone();
    one.append(joined.as_str());
    one.append(");");
    proof {
        assert(one@ =~= declaration_line(i.function_attribute@, *function));
        assert(head@ =~= i.function_attribute@ + function.rval@ + " "@ + function.name@ + "("@);
    }
    if one.as_str().len() <= max_line {
        emit_line(out, base, unit, 0, one.as_str());
    } else {
        emit_line(out, base, unit, 0, head.as_str());
        let ghost start = out@;
        for k in 0..params.len()
            invariant
                params@.len() == texts.len(),
                forall|m: int| 0 <= m < params@.len() ==> #[trigger] params@[m]@ == texts[m],
                out@ == start + param_lines(base@, unit@, texts.take(k as int)),
        {
            proof {
                assert(texts.take(k + 1).drop_last() =~= texts.take(k as int));
            }
            emit_line(out, base, unit, 1, params[k].as_str());
        }
        proof {
            assert(texts.take(texts.len() as int) =~= texts);
        }
        emit_line(out, base, unit, 1, ");");
    }
}

/// Writes `function` as a function pointer typedef.
pub fn write_function_as_typedef_declaration(
    out: &mut String,
    base: &str,
    unit: &str,
    function: &CFunction,
)
    ensures
        final(out)@ == old(out)@ + typedef_text(*function, base@, unit@),
{
    let params = function_pointer_params_string(function);
    let mut text = "typedef ".to_owned();
    text.append(function.rval.as_str());
    text.append(" (*");
    text.append(function.name.as_str());
    text.append(")(");
    text.append(params.as_str());
    text.append(");");
    emit_line(out, base, unit, 0, text.as_str());
}

/// Writes one function with its documentation, in the configured style.
pub fn write_function(i: &Interop, out: &mut String, base: &str, unit: &str, function: &CFunction)
    ensures
        final(out)@ == old(out)@ + function_text(*i, *function, base@, unit@),
{
    let inline = i.documentation == DocStyle::Inline;
    if inline {
        out.append(function.docs.as_str());
    }
    let ghost mid = out@;
    match i.function_style {
        Functions::Typedefs => write_function_as_typedef_declaration(out, base, unit, function),
        Functions::ForwardDeclarations => write_function_declaration(
            i,
            out,
            base,
            unit,
            function,
            999,
        ),
    }
    if inline {
        out.append("\n");
    }
    proof {
        if !inline {
            assert(mid =~= old(out)@ + Seq::<char>::empty());
            assert(out@ =~= out@ + Seq::<char>::empty());
        }
    }
}

/// Writes every function, in order.
pub fn write_functions(i: &Interop, out: &mut String, base: &str, unit: &str)
    ensures
        final(out)@ == old(out)@ + functions_text(*i, i.functions@, base@, unit@),
{
    let ghost start = out@;
    for k in 0..i.functions.len()
        invariant
            out@ == start + functions_text(*i, i.functions@.take(k as int), base@, unit@),
    {
        proof {
            assert(i.functions@.take(k + 1).drop_last() =~= i.functions@.take(k as int));
        }
        write_function(i, out, base, unit, &i.functions[k]);
    }
    proof {
        assert(i.functions@.take(i.functions@.len() as int) =~= i.functions@);
    }
}

/// Writes the dispatch table `LOADER_api_t`, one function pointer per function.
pub fn write_dispatch_table(i: &Interop, out: &mut String, base: &str, unit: &str)
    requires
        i.loader is Some,
    ensures
        final(out)@ == old(out)@ + dispatch_table_text(
            i.loader->0@,
            i.functions@,
            base@,
            unit@,
        ),
{
    let loader_name = match &i.loader {
        Some(l) => l.as_str(),
        None => "",
    };
    let mut struct_name = loader_name.to_owned();
    struct_name.append("_api_t");
    let mut head = "typedef struct ".to_owned();
    head.append(struct_name.as_str());
    emit_line(out, base, unit, 0, head.as_str());
    emit_line(out, base, unit, 1, "{");
    let ghost start = out@;
    for k in 0..i.functions.len()
        invariant
            out@ == start + table_members(i.functions@.take(k as int), base@, unit@),
    {
        proof {
            assert(i.functions@.take(k + 1).drop_last() =~= i.functions@.take(k as int));
        }
        let f = &i.functions[k];
        let params = function_pointer_params_string(f);
        let mut text = f.rval.clone();
        text.append(" (*");
        text.append(f.name.as_str());
        text.append(")(");
        text.append(params.as_str());
        text.append(");");
        emit_line(out, base, unit, 2, text.as_str());
    }
    proof {
        assert(i.functions@.take(i.functions@.len() as int) =~= i.functions@);
    }
    let mut tail = "} ".to_owned();
    tail.append(struct_name.as_str());
    tail.append(";");
    emit_line(out, base, unit, 1, tail.as_str());
}

fn loader_head_string(loader_name: &str) -> (r: String)
    ensures
        r@ == loader_head(loader_name@),
{
    let mut s = "static int ".to_owned();
    s.append(loader_name);
    s.append("_load");
    s.append("(const char* path, ");
    s.append(loader_name);
    s.append("_api_t");
    s.append("* api)");
    s
}

fn write_win_head(out: &mut String, base: &str, unit: &str, loader_name: &str)
    ensures
        final(out)@ == old(out)@ + win_head_text(loader_name@, base@, unit@),
{
    let head = loader_head_string(loader_name);
    emit_line(out, base, unit, 0, "#if defined(_WIN32)");
    emit_line(out, base, unit, 0, "#include <windows.h>");
    emit_line(out, base, unit, 0, head.as_str());
    emit_line(out, base, unit, 1, "{");
    emit_line(out, base, unit, 2, "HMODULE lib = LoadLibraryA(path);");
    emit_line(out, base, unit, 2, "if (!lib) return -1;");
}

fn write_body_tail(out: &mut String, base: &str, unit: &str)
    ensures
        final(out)@ == old(out)@ + body_tail_text(base@, unit@),
{
    emit_line(out, base, unit, 2, "return 0;");
    emit_line(out, base, unit, 1, "}");
}

fn write_win_resolve(out: &mut String, base: &str, unit: &str, f: &CFunction)
    ensures
        final(out)@ == old(out)@ + win_resolve(*f, base@, unit@),
{
    let params = function_pointer_params_string(f);
    let mut text = "api->".to_owned();
    text.append(f.name.as_str());
    text.append(" = (");
    text.append(f.rval.as_str());
    text.append(" (*)(");
    text.append(params.as_str());
    text.append("))(void*)GetProcAddress(lib, \"");
    text.append(f.name.as_str());
    text.append("\");");
    emit_line(out, base, unit, 2, text.as_str());
    let mut guard = "if (!api->".to_owned();
    guard.append(f.name.as_str());
    guard.append(") return -1;");
    emit_line(out, base, unit, 2, guard.as_str());
}

fn write_win_loader(i: &Interop, out: &mut String, base: &str, unit: &str, loader_name: &str)
    ensures
        final(out)@ == old(out)@ + win_loader_text(loader_name@, i.functions@, base@, unit@),
{
    write_win_head(out, base, unit, loader_name);
    let ghost start = out@;
    for k in 0..i.functions.len()
        invariant
            out@ == start + win_resolves(i.functions@.take(k as int), base@, unit@),
    {
        proof {
            assert(i.functions@.take(k + 1).drop_last() =~= i.functions@.take(k as int));
        }
        write_win_resolve(out, base, unit, &i.functions[k]);
    }
    proof {
        assert(i.functions@.take(i.functions@.len() as int) =~= i.functions@);
    }
    write_body_tail(out, base, unit);
}

fn write_posix_head(out: &mut String, base: &str, unit: &str, loader_name: &str)
    ensures
        final(out)@ == old(out)@ + posix_head_text(loader_name@, base@, unit@),
{
    let head = loader_head_string(loader_name);
    emit_line(out, base, unit, 0, "#else");
    emit_line(out, base, unit, 0, "#include <dlfcn.h>");
    emit_line(out, base, unit, 0, "#include <string.h>");
    emit_line(out, base, unit, 0, head.as_str());
    emit_line(out, base, unit, 1, "{");
    emit_line(out, base, unit, 2, "void* lib = dlopen(path, RTLD_NOW);");
    emit_line(out, base, unit, 2, "if (!lib) return -1;");
    emit_line(out, base, unit, 2, "void* sym;");
}

fn write_posix_resolve(out: &mut String, base: &str, unit: &str, f: &CFunction)
    ensures
        final(out)@ == old(out)@ + posix_resolve(*f, base@, unit@),
{
    let mut sym = "sym = dlsym(lib, \"".to_owned();
    sym.append(f.name.as_str());
    sym.append("\");");
    emit_line(out, base, unit, 2, sym.as_str());
    emit_line(out, base, unit, 2, "if (!sym) return -1;");
    let mut copy = "memcpy(&api->".to_owned();
    copy.append(f.name.as_str());
    copy.append(", &sym, sizeof(sym));");
    emit_line(out, base, unit, 2, copy.as_str());
}

fn write_posix_loader(i: &Interop, out: &mut String, base: &str, unit: &str, loader_name: &str)
    ensures
        final(out)@ == old(out)@ + posix_loader_text(loader_name@, i.functions@, base@, unit@),
{
    write_posix_head(out, base, unit, loader_name);
    let ghost start = out@;
    for k in 0..i.functions.len()
        invariant
            out@ == start + posix_resolves(i.functions@.take(k as int), base@, unit@),
    {
        proof {
            assert(i.functions@.take(k + 1).drop_last() =~= i.functions@.take(k as int));
        }
        write_posix_resolve(out, base, unit, &i.functions[k]);
    }
    proof {
        assert(i.functions@.take(i.functions@.len() as int) =~= i.functions@);
    }
    write_body_tail(out, base, unit);
    emit_line(out, base, unit, 0, "#endif");
}

/// Writes the loader `LOADER_load`, which resolves every function from a
/// shared library with `LoadLibraryA`/`GetProcAddress` on Windows and
/// `dlopen`/`dlsym` elsewhere.
pub fn write_loader(i: &Interop, out: &mut String, base: &str, unit: &str)
    requires
        i.loader is Some,
    ensures
        final(out)@ == old(out)@ + loader_text(i.loader->0@, i.functions@, base@, unit@),
{
    let loader_name = match &i.loader {
        Some(l) => l.as_str(),
        None => "",
    };
    write_win_loader(i, out, base, unit, loader_name);
    write_posix_loader(i, out, base, unit, loader_name);
}

} // verus!
