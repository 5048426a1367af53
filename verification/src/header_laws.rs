//! What the header text of a type definition holds, stated over the text
//! itself: the tagged union of an enum with data, the parameter list of a
//! callback, and the length of an array field.
use vstd::prelude::*;
use crate::codegen::{
    arg_types_of, field_line_of, field_lines_of, type_def_of, type_spec_of, union_line_of,
    union_lines_of,
};
use crate::model::{Array, Enum, Field, Inventory, Signature, Struct, Type, TypeId, TypeKind,
    TypePattern, Variant, VariantKind,
};
use crate::text::{c_name_of, decimal, digits_value, join, lemma_decimal_reads_back, unicode_lower};

verus! {

// ---------------------------------------------------------------------------
// Pieces of text
// ---------------------------------------------------------------------------

/// `sub` occurs in `s`.
pub open spec fn has_text(s: Seq<char>, sub: Seq<char>) -> bool {
    exists|i: int, j: int| 0 <= i <= j <= s.len() && #[trigger] s.subrange(i, j) == sub
}

/// `s` begins with `p`.
pub open spec fn starts_with(s: Seq<char>, p: Seq<char>) -> bool {
    p.len() <= s.len() && s.take(p.len() as int) == p
}

proof fn lemma_has_text_in(a: Seq<char>, x: Seq<char>, b: Seq<char>, sub: Seq<char>)
    requires
        has_text(x, sub),
    ensures
        has_text(a + x + b, sub),
{
    let (i, j) = choose|i: int, j: int| 0 <= i <= j <= x.len() && #[trigger] x.subrange(i, j) == sub;
    let s = a + x + b;
    assert(s.subrange(a.len() + i, a.len() + j) =~= x.subrange(i, j));
}

proof fn lemma_has_text_self(x: Seq<char>)
    ensures
        has_text(x, x),
{
    assert(x.subrange(0, x.len() as int) =~= x);
}

proof fn lemma_starts_with(p: Seq<char>, rest: Seq<char>)
    ensures
        starts_with(p + rest, p),
{
    assert((p + rest).take(p.len() as int) =~= p);
}

// ---------------------------------------------------------------------------
// Enums
// ---------------------------------------------------------------------------

proof fn lemma_union_lines_have(inv: Inventory, vs: Seq<Variant>, k: int)
    requires
        0 <= k < vs.len(),
    ensures
        has_text(union_lines_of(inv, vs), union_line_of(inv, vs[k])),
    decreases vs.len(),
{
    let front = union_lines_of(inv, vs.drop_last());
    let last = union_line_of(inv, vs.last());
    if k < vs.len() - 1 {
        assert(vs.drop_last()[k] == vs[k]);
        lemma_union_lines_have(inv, vs.drop_last(), k);
        lemma_has_text_in(Seq::empty(), front, last, union_line_of(inv, vs[k]));
        assert(Seq::<char>::empty() + front + last =~= front + last);
    } else {
        assert(vs.last() == vs[k]);
        lemma_has_text_self(last);
        lemma_has_text_in(front, last, Seq::empty(), last);
        assert(front + last + Seq::<char>::empty() =~= front + last);
    }
}

/// An enum one of whose variants (at any position) carries a value is
/// written as a tag enum `NAME_TAG` followed by a struct that holds the tag
/// and an anonymous union, with one member, named after the variant in lower
/// case, for that variant's value.
pub proof fn lemma_enum_with_data_is_tagged_union(
    inv: Inventory,
    ty: Type,
    e: Enum,
    k: int,
    t: TypeId,
)
    requires
        ty.kind == TypeKind::Enum(e),
        0 <= k < e.variants@.len(),
        e.variants@[k].kind == VariantKind::Tuple(t),
    ensures
        starts_with(
            type_def_of(inv, ty),
            "typedef enum "@ + c_name_of(ty.name@) + "_TAG\n{\n"@,
        ),
        has_text(
            type_def_of(inv, ty),
            "typedef struct "@ + c_name_of(ty.name@) + "\n{\n    "@ + c_name_of(ty.name@)
                + "_TAG tag;\n    union\n    {\n"@,
        ),
        has_text(
            type_def_of(inv, ty),
            "        "@ + type_spec_of(inv, t) + " "@ + unicode_lower(e.variants@[k].name@) + ";\n"@,
        ),
{
    reveal_strlit("_TAG\n{\n");
    reveal_strlit("_TAG");
    reveal_strlit("\n{\n");
    reveal_strlit("_TAG tag;\n    union\n    {\n");
    reveal_strlit(" tag;\n    union\n    {\n");
    let n = c_name_of(ty.name@);
    let vs = e.variants@;
    let tag = n + "_TAG"@;
    let enum_part = "typedef enum "@ + tag + "\n{\n"@ + crate::codegen::tag_lines_of(n, vs) + "} "@
        + tag + ";\n\n"@;
    let head = "typedef struct "@ + n + "\n{\n    "@ + tag + " tag;\n    union\n    {\n"@;
    let lines = union_lines_of(inv, vs);
    let tail = "    };\n"@ + "} "@ + n + ";\n\n"@;
    assert(crate::codegen::has_data_of(vs)) by {
        assert(vs[k].kind is Tuple);
    }
    let text = type_def_of(inv, ty);
    assert(text =~= enum_part + (head + lines + tail));
    // The tag enum comes first.
    let p = "typedef enum "@ + n + "_TAG\n{\n"@;
    assert(enum_part =~= p + (crate::codegen::tag_lines_of(n, vs) + "} "@ + tag + ";\n\n"@));
    assert(text =~= p + (crate::codegen::tag_lines_of(n, vs) + "} "@ + tag + ";\n\n"@ + (head + lines
        + tail)));
    lemma_starts_with(
        p,
        crate::codegen::tag_lines_of(n, vs) + "} "@ + tag + ";\n\n"@ + (head + lines + tail),
    );
    // The struct with the union follows.
    let h = "typedef struct "@ + n + "\n{\n    "@ + n + "_TAG tag;\n    union\n    {\n"@;
    assert(h =~= head);
    lemma_has_text_self(head);
    lemma_has_text_in(enum_part, head, lines + tail, head);
    assert(enum_part + head + (lines + tail) =~= text);
    // The member of variant `k`.
    lemma_union_lines_have(inv, vs, k);
    let m = "        "@ + type_spec_of(inv, t) + " "@ + unicode_lower(vs[k].name@) + ";\n"@;
    assert(union_line_of(inv, vs[k]) =~= m);
    lemma_has_text_in(enum_part + head, lines, tail, m);
    assert(enum_part + head + lines + tail =~= text);
}

/// An enum none of whose variants carries a value is a plain `typedef enum`
/// named after the type.
pub proof fn lemma_enum_without_data_is_plain(inv: Inventory, ty: Type, e: Enum)
    requires
        ty.kind == TypeKind::Enum(e),
        forall|k: int| 0 <= k < e.variants@.len() ==> #[trigger] e.variants@[k].kind is Unit,
    ensures
        starts_with(type_def_of(inv, ty), "typedef enum "@ + c_name_of(ty.name@) + "\n{\n"@),
{
    let n = c_name_of(ty.name@);
    let vs = e.variants@;
    assert(!crate::codegen::has_data_of(vs));
    let p = "typedef enum "@ + n + "\n{\n"@;
    let rest = crate::codegen::tag_lines_of(n, vs) + "} "@ + n + ";\n\n"@;
    assert(type_def_of(inv, ty) =~= p + rest);
    lemma_starts_with(p, rest);
}

// ---------------------------------------------------------------------------
// Callbacks
// ---------------------------------------------------------------------------

proof fn lemma_join_cons(x: Seq<char>, rest: Seq<Seq<char>>, sep: Seq<char>)
    requires
        rest.len() > 0,
    ensures
        join(seq![x] + rest, sep) == x + sep + join(rest, sep),
    decreases rest.len(),
{
    let all = seq![x] + rest;
    if rest.len() == 1 {
        assert(all.drop_last() =~= seq![x]);
        assert(all.last() == rest[0]);
        assert(join(seq![x], sep) == x);
    } else {
        assert(all.drop_last() =~= seq![x] + rest.drop_last());
        assert(all.last() == rest.last());
        lemma_join_cons(x, rest.drop_last(), sep);
        assert(x + sep + join(rest.drop_last(), sep) + sep + rest.last() =~= x + sep + (join(
            rest.drop_last(),
            sep,
        ) + sep + rest.last()));
    }
}

/// The start of a callback's definition, up to its parameter list:
/// `typedef R (*NAME_fn)(`.
pub open spec fn callback_head(inv: Inventory, name: Seq<char>, rval: TypeId) -> Seq<char> {
    "typedef "@ + type_spec_of(inv, rval) + " (*"@ + c_name_of(name) + "_fn)("@
}

/// A callback with no arguments: its function pointer takes only the
/// `const void*` data pointer.
pub proof fn lemma_callback_without_arguments(inv: Inventory, ty: Type, sig: Signature)
    requires
        ty.kind == TypeKind::TypePattern(TypePattern::NamedCallback(sig)),
        sig.arguments@.len() == 0,
    ensures
        starts_with(
            type_def_of(inv, ty),
            callback_head(inv, ty.name@, sig.rval) + "const void*);\n\n"@,
        ),
{
    reveal_strlit("_fn)(");
    reveal_strlit("_fn");
    reveal_strlit(")(");
    reveal_strlit("const void*);\n\n");
    reveal_strlit("const void*");
    reveal_strlit(");\n\n");
    let n = c_name_of(ty.name@);
    let p = callback_head(inv, ty.name@, sig.rval) + "const void*);\n\n"@;
    let items = arg_types_of(inv, sig.arguments@).push("const void*"@);
    assert(items =~= seq!["const void*"@]);
    assert(join(items, ", "@) == items[0]);
    let rest = "typedef struct "@ + n + "\n{\n    "@ + (n + "_fn"@)
        + " callback;\n    const void* data;\n    void (*destructor)(const void*);\n} "@ + n
        + ";\n\n"@;
    assert(type_def_of(inv, ty) =~= p + rest);
    lemma_starts_with(p, rest);
}

/// Adding an argument in front of a callback's arguments puts its type
/// specifier and `, ` in front of the parameter list, and changes nothing
/// else: the parameters are the argument types then `const void*`, joined
/// with `, `.
pub proof fn lemma_callback_argument_in_front(
    inv: Inventory,
    ty: Type,
    sig: Signature,
    ty2: Type,
    sig2: Signature,
)
    requires
        ty.kind == TypeKind::TypePattern(TypePattern::NamedCallback(sig)),
        ty2.kind == TypeKind::TypePattern(TypePattern::NamedCallback(sig2)),
        ty2.name@ == ty.name@,
        sig2.rval == sig.rval,
        sig.arguments@.len() > 0,
        sig2.arguments@ == sig.arguments@.drop_first(),
    ensures
        starts_with(type_def_of(inv, ty2), callback_head(inv, ty.name@, sig.rval)),
        type_def_of(inv, ty) == callback_head(inv, ty.name@, sig.rval) + type_spec_of(
            inv,
            sig.arguments@[0].ty,
        ) + ", "@ + type_def_of(inv, ty2).skip(callback_head(inv, ty.name@, sig.rval).len() as int),
{
    reveal_strlit("_fn)(");
    reveal_strlit("_fn");
    reveal_strlit(")(");
    let n = c_name_of(ty.name@);
    let head = callback_head(inv, ty.name@, sig.rval);
    let rest = "typedef struct "@ + n + "\n{\n    "@ + (n + "_fn"@)
        + " callback;\n    const void* data;\n    void (*destructor)(const void*);\n} "@ + n
        + ";\n\n"@;
    let t0 = type_spec_of(inv, sig.arguments@[0].ty);
    let items = arg_types_of(inv, sig.arguments@).push("const void*"@);
    let items2 = arg_types_of(inv, sig2.arguments@).push("const void*"@);
    assert(items =~= seq![t0] + items2);
    lemma_join_cons(t0, items2, ", "@);
    let j2 = join(items2, ", "@);
    let tail2 = j2 + ");\n\n"@ + rest;
    assert(type_def_of(inv, ty2) =~= head + tail2);
    assert(type_def_of(inv, ty) =~= head + t0 + ", "@ + tail2);
    lemma_starts_with(head, tail2);
    assert((head + tail2).skip(head.len() as int) =~= tail2);
}

// ---------------------------------------------------------------------------
// Array fields
// ---------------------------------------------------------------------------

proof fn lemma_field_lines_have(inv: Inventory, fs: Seq<Field>, k: int)
    requires
        0 <= k < fs.len(),
    ensures
        has_text(field_lines_of(inv, fs), field_line_of(inv, fs[k])),
    decreases fs.len(),
{
    let front = field_lines_of(inv, fs.drop_last());
    let last = field_line_of(inv, fs.last());
    if k < fs.len() - 1 {
        assert(fs.drop_last()[k] == fs[k]);
        lemma_field_lines_have(inv, fs.drop_last(), k);
        lemma_has_text_in(Seq::empty(), front, last, field_line_of(inv, fs[k]));
        assert(Seq::<char>::empty() + front + last =~= front + last);
    } else {
        assert(fs.last() == fs[k]);
        lemma_has_text_self(last);
        lemma_has_text_in(front, last, Seq::empty(), last);
        assert(front + last + Seq::<char>::empty() =~= front + last);
    }
}

/// A struct field of array type `[T; N]` is written `T name[D];`, where `D`
/// is the whole length `N` in decimal: digits only, with no leading zero,
/// reading back as `N`.
pub proof fn lemma_array_field_keeps_length(inv: Inventory, ty: Type, s: Struct, k: int, a: Array)
    requires
        ty.kind == TypeKind::Struct(s),
        0 <= k < s.fields@.len(),
        inv.type_of(s.fields@[k].ty).kind == TypeKind::Array(a),
    ensures
        exists|d: Seq<char>|
            {
                &&& has_text(
                    type_def_of(inv, ty),
                    "    "@ + type_spec_of(inv, a.ty) + " "@ + s.fields@[k].name@ + "["@ + d
                        + "];\n"@,
                )
                &&& d.len() > 0
                &&& forall|i: int| 0 <= i < d.len() ==> 48 <= #[trigger] d[i] as u32 && d[i] as u32 <= 57
                &&& (a.len > 0 ==> d[0] != '0')
                &&& digits_value(d) == a.len
            },
{
    let n = c_name_of(ty.name@);
    let f = s.fields@[k];
    let d = decimal(a.len as nat);
    lemma_decimal_reads_back(a.len as nat);
    let line = "    "@ + type_spec_of(inv, a.ty) + " "@ + f.name@ + "["@ + d + "];\n"@;
    assert(field_line_of(inv, f) == line);
    lemma_field_lines_have(inv, s.fields@, k);
    let lines = field_lines_of(inv, s.fields@);
    let pre = "typedef struct "@ + n + "\n{\n"@;
    let post = "} "@ + n + ";\n\n"@;
    lemma_has_text_in(pre, lines, post, line);
    assert(type_def_of(inv, ty) =~= pre + lines + post);
}

} // verus!
