//! Deciding whether a header can be generated from an inventory.
use vstd::prelude::*;
use crate::model::{
    Field, Inventory, Signature, Type, TypeId, TypeKind, TypePattern, Variant, VariantKind,
};

verus! {

fn chain_ends(inv: &Inventory, tid: TypeId, fuel: usize) -> (r: bool)
    requires
        inv.distinct_ids(),
    ensures
        r == inv.pointer_chain_ends(tid, fuel as nat),
    decreases fuel,
{
    match inv.find_type(tid) {
        None => false,
        Some(j) => {
            proof {
                let i = inv.type_index(tid);
                assert(inv.types@[j as int].0 == tid);
                assert(inv.types@[i].0 == tid);
                assert(i == j);
            }
            match &inv.types[j].1.kind {
                TypeKind::ReadPointer(t) => fuel > 0 && chain_ends(inv, *t, fuel - 1),
                TypeKind::ReadWritePointer(t) => fuel > 0 && chain_ends(inv, *t, fuel - 1),
                _ => true,
            }
        },
    }
}

/// Whether the C name of type `tid` can be computed.
pub fn names_resolve(inv: &Inventory, tid: TypeId) -> (r: bool)
    requires
        inv.distinct_ids(),
    ensures
        r == inv.names_resolve(tid),
{
    chain_ends(inv, tid, inv.types.len())
}

fn field_ok(inv: &Inventory, f: &Field) -> (r: bool)
    requires
        inv.distinct_ids(),
    ensures
        r == inv.field_ok(*f),
{
    match inv.find_type(f.ty) {
        None => false,
        Some(_) => {
            let ty = inv.resolve(f.ty);
            match &ty.kind {
                TypeKind::Array(a) => names_resolve(inv, a.ty),
                _ => names_resolve(inv, f.ty),
            }
        },
    }
}

fn variant_ok(inv: &Inventory, v: &Variant) -> (r: bool)
    requires
        inv.distinct_ids(),
    ensures
        r == inv.variant_ok(*v),
{
    match &v.kind {
        VariantKind::Tuple(t) => names_resolve(inv, *t),
        VariantKind::Unit(_) => true,
    }
}

fn fields_ok(inv: &Inventory, fields: &Vec<Field>) -> (r: bool)
    requires
        inv.distinct_ids(),
    ensures
        r == forall|m: int| 0 <= m < fields@.len() ==> inv.field_ok(#[trigger] fields@[m]),
{
    for k in 0..fields.len()
        invariant
            inv.distinct_ids(),
            forall|m: int| 0 <= m < k ==> inv.field_ok(#[trigger] fields@[m]),
    {
        if !field_ok(inv, &fields[k]) {
            proof {
                assert(!inv.field_ok(fields@[k as int]));
            }
            return false;
        }
    }
    true
}

fn variants_ok(inv: &Inventory, variants: &Vec<Variant>) -> (r: bool)
    requires
        inv.distinct_ids(),
    ensures
        r == forall|m: int| 0 <= m < variants@.len() ==> inv.variant_ok(#[trigger] variants@[m]),
{
    for k in 0..variants.len()
        invariant
            inv.distinct_ids(),
            forall|m: int| 0 <= m < k ==> inv.variant_ok(#[trigger] variants@[m]),
    {
        if !variant_ok(inv, &variants[k]) {
            proof {
                assert(!inv.variant_ok(variants@[k as int]));
            }
            return false;
        }
    }
    true
}

/// Whether every argument type and the return type of `sig` can be named.
pub fn signature_ok(inv: &Inventory, sig: &Signature) -> (r: bool)
    requires
        inv.distinct_ids(),
    ensures
        r == inv.signature_ok(*sig),
{
    for k in 0..sig.arguments.len()
        invariant
            inv.distinct_ids(),
            forall|m: int| 0 <= m < k ==> inv.names_resolve(#[trigger] sig.arguments@[m].ty),
    {
        if !names_resolve(inv, sig.arguments[k].ty) {
            return false;
        }
    }
    names_resolve(inv, sig.rval)
}

/// Whether the definition of `ty` can be written.
pub fn definable(inv: &Inventory, ty: &Type) -> (r: bool)
    requires
        inv.distinct_ids(),
    ensures
        r == inv.definable(*ty),
{
    match &ty.kind {
        TypeKind::Struct(s) => fields_ok(inv, &s.fields),
        TypeKind::Enum(e) => variants_ok(inv, &e.variants),
        TypeKind::FnPointer(sig) => signature_ok(inv, sig),
        TypeKind::TypePattern(TypePattern::NamedCallback(sig)) => signature_ok(inv, sig),
        TypeKind::TypePattern(TypePattern::Slice(t)) => names_resolve(inv, *t),
        TypeKind::TypePattern(TypePattern::SliceMut(t)) => names_resolve(inv, *t),
        TypeKind::TypePattern(TypePattern::Vec(t)) => names_resolve(inv, *t),
        TypeKind::TypePattern(TypePattern::Option(t)) => names_resolve(inv, *t),
        TypeKind::TypePattern(TypePattern::Result(ok, err)) => names_resolve(inv, *ok)
            && names_resolve(inv, *err),
        _ => true,
    }
}

/// Whether keys are distinct.
pub fn distinct_ids(inv: &Inventory) -> (r: bool)
    ensures
        r == inv.distinct_ids(),
{
    let n = inv.types.len();
    for i in 0..n
        invariant
            n == inv.types@.len(),
            forall|a: int, b: int|
                0 <= a < i && a < b < n ==> #[trigger] inv.types@[a].0 != #[trigger] inv.types@[b].0,
    {
        for j in i + 1..n
            invariant
                n == inv.types@.len(),
                i < n,
                forall|a: int, b: int|
                    0 <= a < i && a < b < n ==> #[trigger] inv.types@[a].0 != #[trigger] inv.types@[b].0,
                forall|b: int| i < b < j ==> inv.types@[i as int].0 != #[trigger] inv.types@[b].0,
        {
            if inv.types[i].0 == inv.types[j].0 {
                return false;
            }
        }
    }
    true
}

/// Whether the types are held in strictly ascending order of keys.
pub fn keys_ascending(inv: &Inventory) -> (r: bool)
    ensures
        r == inv.keys_ascending(),
{
    let n = inv.types.len();
    let mut i: usize = 1;
    while i < n
        invariant
            n == inv.types@.len(),
            1 <= i,
            forall|a: int, b: int|
                0 <= a < b < i && b < n ==> #[trigger] inv.types@[a].0 < #[trigger] inv.types@[b].0,
        decreases n - i,
    {
        if inv.types[i].0 <= inv.types[i - 1].0 {
            return false;
        }
        proof {
            assert forall|a: int, b: int| 0 <= a < b < i + 1 && b < n implies #[trigger] inv.types@[a].0
                < #[trigger] inv.types@[b].0 by {
                if b == i && a < i - 1 {
                    assert(inv.types@[a].0 < inv.types@[i - 1].0);
                }
            }
        }
        i = i + 1;
    }
    true
}

/// Whether a header can be generated from the inventory (see `Inventory::well_formed`).
pub fn is_well_formed(inv: &Inventory) -> (r: bool)
    ensures
        r == inv.well_formed(),
{
    if !keys_ascending(inv) {
        return false;
    }
    if !distinct_ids(inv) {
        return false;
    }
    for i in 0..inv.types.len()
        invariant
            inv.distinct_ids(),
            forall|a: int| 0 <= a < i ==> inv.definable(#[trigger] inv.types@[a].1),
    {
        if !definable(inv, &inv.types[i].1) {
            return false;
        }
    }
    for i in 0..inv.functions.len()
        invariant
            inv.distinct_ids(),
            forall|a: int| 0 <= a < i ==> inv.signature_ok(#[trigger] inv.functions@[a].signature),
    {
        if !signature_ok(inv, &inv.functions[i].signature) {
            return false;
        }
    }
    true
}

} // verus!
