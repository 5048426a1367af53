//! Topological sorting of types by their dependencies.
//!
//! The order is that of a depth-first search: the types are taken in key
//! order, and each type is written after the types it depends on that were
//! not already written. A struct also waits for the element type of each of
//! its array fields; an array type itself depends on nothing. A dependency
//! can come after its dependent only when the two lie on a cycle of
//! dependencies.
use vstd::prelude::*;
use crate::model::{
    deps_of, signature_ids, tuple_variant_ids, Argument, Field, Inventory, Signature, Type, TypeId,
    TypeKind, TypePattern, Variant, VariantKind,
};

verus! {

/// The types to write before a struct field: the field's type and, where that
/// is an array type, the array's element type, which the field's C declaration
/// `T name[N];` names.
pub open spec fn field_deps(inv: Inventory, f: Field) -> Seq<TypeId> {
    if inv.has_type(f.ty) {
        match inv.type_of(f.ty).kind {
            TypeKind::Array(a) => seq![f.ty, a.ty],
            _ => seq![f.ty],
        }
    } else {
        seq![f.ty]
    }
}

/// `field_deps` of each field, in order.
pub open spec fn fields_deps(inv: Inventory, fields: Seq<Field>) -> Seq<TypeId>
    decreases fields.len(),
{
    if fields.len() == 0 {
        Seq::empty()
    } else {
        fields_deps(inv, fields.drop_last()) + field_deps(inv, fields.last())
    }
}

/// The types the search visits before writing a type of kind `kind`: the
/// dependencies `deps_of` gives, and for a struct also the element type of
/// each array field, right after that field's type.
pub open spec fn order_deps(inv: Inventory, kind: TypeKind) -> Seq<TypeId> {
    match kind {
        TypeKind::Struct(s) => fields_deps(inv, s.fields@),
        _ => deps_of(kind),
    }
}

/// The search state: which types (by position) were entered, and the types
/// written so far.
pub type DfsState = (Seq<bool>, Seq<TypeId>);

/// Entering `tid`: nothing happens for unknown or already entered types;
/// otherwise the type is entered, its dependencies are visited in order, and
/// the type is written. `fuel` bounds the depth of the search.
pub open spec fn dfs_visit(inv: Inventory, tid: TypeId, st: DfsState, fuel: nat) -> DfsState
    decreases fuel, 0nat, 0nat,
{
    if !inv.has_type(tid) {
        st
    } else {
        let j = inv.type_index(tid);
        if st.0[j] || fuel == 0 {
            st
        } else {
            let st1 = (st.0.update(j, true), st.1);
            let st2 = dfs_visit_all(
                inv,
                order_deps(inv, inv.types@[j].1.kind),
                st1,
                (fuel - 1) as nat,
            );
            (st2.0, st2.1.push(tid))
        }
    }
}

/// Visiting each of `ds` in order.
pub open spec fn dfs_visit_all(inv: Inventory, ds: Seq<TypeId>, st: DfsState, fuel: nat) -> DfsState
    decreases fuel, 1nat, ds.len(),
{
    if ds.len() == 0 {
        st
    } else {
        dfs_visit(inv, ds.last(), dfs_visit_all(inv, ds.drop_last(), st, fuel), fuel)
    }
}

/// The keys of the inventory's types, in order.
pub open spec fn type_ids(inv: Inventory) -> Seq<TypeId> {
    inv.types@.map_values(|e: (TypeId, Type)| e.0)
}

/// No type entered yet, nothing written.
pub open spec fn dfs_start(inv: Inventory) -> DfsState {
    (Seq::new(inv.n_types(), |i: int| false), Seq::empty())
}

/// The order in which the header writes the inventory's types.
pub open spec fn topo_order(inv: Inventory) -> Seq<TypeId> {
    dfs_visit_all(inv, type_ids(inv), dfs_start(inv), inv.n_types()).1
}

// ---------------------------------------------------------------------------
// Dependencies and paths
// ---------------------------------------------------------------------------

/// `a` is a type of the inventory and `b` is among the types written before
/// it (`order_deps`): its dependencies, and for a struct the element types of
/// its array fields.
pub open spec fn depends_on(inv: Inventory, a: TypeId, b: TypeId) -> bool {
    inv.has_type(a) && order_deps(inv, inv.type_of(a).kind).contains(b)
}

/// A path of at most `n` dependency steps leads from `a` to `b`.
pub open spec fn reach_within(inv: Inventory, a: TypeId, b: TypeId, n: nat) -> bool
    decreases n,
{
    n > 0 && (depends_on(inv, a, b) || exists|c: TypeId|
        #![trigger depends_on(inv, c, b)]
        reach_within(inv, a, c, (n - 1) as nat) && depends_on(inv, c, b))
}

/// A path of one or more dependency steps leads from `a` to `b`.
pub open spec fn reaches(inv: Inventory, a: TypeId, b: TypeId) -> bool {
    exists|n: nat| reach_within(inv, a, b, n)
}

/// `s` holds no element twice.
pub open spec fn no_dup(s: Seq<TypeId>) -> bool {
    forall|i: int, j: int| 0 <= i < j < s.len() ==> s[i] != s[j]
}

/// Every type that a written type waits for (`order_deps`: its dependencies,
/// and for a struct the element types of its array fields) and that is in the
/// inventory was written before it, unless it lies on a cycle with that type.
pub open spec fn deps_first(inv: Inventory, order: Seq<TypeId>) -> bool {
    forall|i: int, k: int|
        #![trigger order_deps(inv, inv.type_of(order[i]).kind)[k]]
        0 <= i < order.len() && 0 <= k < order_deps(inv, inv.type_of(order[i]).kind).len()
            && inv.has_type(order_deps(inv, inv.type_of(order[i]).kind)[k]) ==> (exists|j: int|
            0 <= j < i && order[j] == order_deps(inv, inv.type_of(order[i]).kind)[k]) || reaches(
            inv,
            order_deps(inv, inv.type_of(order[i]).kind)[k],
            order[i],
        )
}

// ---------------------------------------------------------------------------
// Counting entered types
// ---------------------------------------------------------------------------

/// The number of `false` entries.
pub open spec fn count_false(v: Seq<bool>) -> nat
    decreases v.len(),
{
    if v.len() == 0 {
        0
    } else {
        count_false(v.drop_last()) + if v.last() {
            0nat
        } else {
            1nat
        }
    }
}

/// `b` has every `true` entry of `a`.
pub open spec fn grows(a: Seq<bool>, b: Seq<bool>) -> bool {
    a.len() == b.len() && forall|i: int| 0 <= i < a.len() && #[trigger] a[i] ==> b[i]
}

proof fn lemma_count_all_false(n: nat)
    ensures
        count_false(Seq::new(n, |i: int| false)) == n,
    decreases n,
{
    if n > 0 {
        lemma_count_all_false((n - 1) as nat);
        assert(Seq::new(n, |i: int| false).drop_last() =~= Seq::new((n - 1) as nat, |i: int| false));
    }
}

proof fn lemma_count_grows(a: Seq<bool>, b: Seq<bool>)
    requires
        grows(a, b),
    ensures
        count_false(b) <= count_false(a),
    decreases a.len(),
{
    if a.len() > 0 {
        assert(grows(a.drop_last(), b.drop_last())) by {
            assert forall|i: int|
                0 <= i < a.drop_last().len() && #[trigger] a.drop_last()[i] implies b.drop_last()[i] by {
                assert(a.drop_last()[i] == a[i]);
                assert(b.drop_last()[i] == b[i]);
            }
        }
        lemma_count_grows(a.drop_last(), b.drop_last());
        assert(a.last() == a[a.len() - 1]);
    }
}

proof fn lemma_count_mark(v: Seq<bool>, j: int)
    requires
        0 <= j < v.len(),
        !v[j],
    ensures
        count_false(v.update(j, true)) + 1 == count_false(v),
    decreases v.len(),
{
    let w = v.update(j, true);
    if j == v.len() - 1 {
        assert(w.drop_last() =~= v.drop_last());
    } else {
        assert(w.drop_last() =~= v.drop_last().update(j, true));
        lemma_count_mark(v.drop_last(), j);
    }
}

// ---------------------------------------------------------------------------
// The search keeps its invariant
// ---------------------------------------------------------------------------

/// Type `t` was entered.
pub open spec fn entered(inv: Inventory, st: DfsState, t: TypeId) -> bool {
    inv.has_type(t) && st.0[inv.type_index(t)]
}

/// Type `t` was entered and not yet written: the search is inside it.
pub open spec fn open_in(inv: Inventory, st: DfsState, t: TypeId) -> bool {
    entered(inv, st, t) && !st.1.contains(t)
}

/// What holds of every state the search passes through.
pub open spec fn dfs_inv(inv: Inventory, st: DfsState) -> bool {
    &&& st.0.len() == inv.n_types()
    &&& no_dup(st.1)
    &&& forall|i: int| 0 <= i < st.1.len() ==> entered(inv, st, #[trigger] st.1[i])
    &&& deps_first(inv, st.1)
}

/// What a step of the search guarantees of the state `st2` it leaves, given
/// the state `st` it started from.
pub open spec fn dfs_step(inv: Inventory, st: DfsState, st2: DfsState) -> bool {
    &&& dfs_inv(inv, st2)
    &&& grows(st.0, st2.0)
    &&& st.1.len() <= st2.1.len()
    &&& st2.1.take(st.1.len() as int) == st.1
    &&& forall|t: TypeId| #[trigger] open_in(inv, st2, t) == open_in(inv, st, t)
    &&& forall|k: int| st.1.len() <= k < st2.1.len() ==> !entered(inv, st, #[trigger] st2.1[k])
}

proof fn lemma_type_index(inv: Inventory, j: int)
    requires
        inv.distinct_ids(),
        0 <= j < inv.types@.len(),
    ensures
        inv.has_type(inv.types@[j].0),
        inv.type_index(inv.types@[j].0) == j,
{
    let t = inv.types@[j].0;
    assert(inv.types@[j].0 == t);
    let i = inv.type_index(t);
    assert(inv.types@[i].0 == t);
}

proof fn lemma_step_trans(inv: Inventory, a: DfsState, b: DfsState, c: DfsState)
    requires
        inv.distinct_ids(),
        a.0.len() == inv.n_types(),
        dfs_step(inv, a, b),
        dfs_step(inv, b, c),
    ensures
        dfs_step(inv, a, c),
{
    assert(c.1.take(a.1.len() as int) =~= a.1) by {
        assert(c.1.take(b.1.len() as int).take(a.1.len() as int) =~= c.1.take(a.1.len() as int));
    }
    assert forall|k: int| a.1.len() <= k < c.1.len() implies !entered(inv, a, #[trigger] c.1[k]) by {
        if k < b.1.len() {
            assert(c.1[k] == c.1.take(b.1.len() as int)[k]);
        } else {
            let t = c.1[k];
            if entered(inv, a, t) {
                assert(a.0[inv.type_index(t)]);
            }
        }
    }
}

proof fn lemma_reach_step(inv: Inventory, g: TypeId, t: TypeId, d: TypeId)
    requires
        reaches(inv, g, t),
        depends_on(inv, t, d),
    ensures
        reaches(inv, g, d),
{
    let n = choose|n: nat| reach_within(inv, g, t, n);
    assert(reach_within(inv, g, d, n + 1));
}

proof fn lemma_reach_edge(inv: Inventory, t: TypeId, d: TypeId)
    requires
        depends_on(inv, t, d),
    ensures
        reaches(inv, t, d),
{
    assert(reach_within(inv, t, d, 1));
}

proof fn lemma_dfs_visit(inv: Inventory, tid: TypeId, st: DfsState, fuel: nat)
    requires
        inv.distinct_ids(),
        dfs_inv(inv, st),
        fuel >= count_false(st.0),
        forall|g: TypeId| #[trigger] open_in(inv, st, g) ==> reaches(inv, g, tid),
    ensures
        dfs_step(inv, st, dfs_visit(inv, tid, st, fuel)),
        inv.has_type(tid) ==> entered(inv, dfs_visit(inv, tid, st, fuel), tid),
    decreases fuel, 0nat, 0nat,
{
    let st2 = dfs_visit(inv, tid, st, fuel);
    if !inv.has_type(tid) {
        assert(st.1.take(st.1.len() as int) =~= st.1);
    } else {
        let j = inv.type_index(tid);
        if st.0[j] {
            assert(st.1.take(st.1.len() as int) =~= st.1);
        } else {
            lemma_count_mark(st.0, j);
            let ds = order_deps(inv, inv.types@[j].1.kind);
            let st1 = (st.0.update(j, true), st.1);
            assert(!st.1.contains(tid)) by {
                if st.1.contains(tid) {
                    let i = choose|i: int| 0 <= i < st.1.len() && st.1[i] == tid;
                    assert(entered(inv, st, st.1[i]));
                }
            }
            // The state after entering `tid`.
            assert(dfs_inv(inv, st1)) by {
                assert forall|i: int| 0 <= i < st1.1.len() implies entered(
                    inv,
                    st1,
                    #[trigger] st1.1[i],
                ) by {
                    assert(entered(inv, st, st.1[i]));
                }
            }
            assert forall|g: TypeId| #[trigger] open_in(inv, st1, g) implies (g == tid || open_in(
                inv,
                st,
                g,
            )) by {}
            assert(inv.type_of(tid) == inv.types@[j].1);
            assert forall|g: TypeId, d: TypeId|
                #[trigger] open_in(inv, st1, g) && #[trigger] ds.contains(d) implies reaches(inv, g, d) by {
                assert(depends_on(inv, tid, d));
                if g == tid {
                    lemma_reach_edge(inv, tid, d);
                } else {
                    assert(open_in(inv, st, g));
                    lemma_reach_step(inv, g, tid, d);
                }
            }
            lemma_dfs_visit_all(inv, ds, st1, (fuel - 1) as nat);
            let st3 = dfs_visit_all(inv, ds, st1, (fuel - 1) as nat);
            assert(st2 == (st3.0, st3.1.push(tid)));
            // `tid` is written once.
            assert(!st3.1.contains(tid)) by {
                if st3.1.contains(tid) {
                    let i = choose|i: int| 0 <= i < st3.1.len() && st3.1[i] == tid;
                    if i < st.1.len() {
                        assert(st3.1[i] == st3.1.take(st.1.len() as int)[i]);
                        assert(st.1.contains(tid));
                    } else {
                        assert(!entered(inv, st1, st3.1[i]));
                    }
                }
            }
            assert(no_dup(st2.1)) by {
                assert forall|a: int, b: int| 0 <= a < b < st2.1.len() implies st2.1[a]
                    != st2.1[b] by {
                    if b == st2.1.len() - 1 {
                        assert(st2.1[a] == st3.1[a]);
                    } else {
                        assert(st2.1[a] == st3.1[a]);
                        assert(st2.1[b] == st3.1[b]);
                    }
                }
            }
            assert(entered(inv, st3, tid)) by {
                assert(st1.0[j]);
            }
            assert forall|i: int| 0 <= i < st2.1.len() implies entered(
                inv,
                st2,
                #[trigger] st2.1[i],
            ) by {
                if i < st3.1.len() {
                    assert(st2.1[i] == st3.1[i]);
                    assert(entered(inv, st3, st3.1[i]));
                }
            }
            // The dependencies of `tid` come first, or lie on a cycle with it.
            assert(deps_first(inv, st2.1)) by {
                assert forall|i: int, k: int|
                    0 <= i < st2.1.len() && 0 <= k < order_deps(inv, inv.type_of(st2.1[i]).kind).len()
                        && inv.has_type(
                        #[trigger] order_deps(inv, inv.type_of(st2.1[i]).kind)[k],
                    ) implies (exists|m: int|
                    0 <= m < i && st2.1[m] == order_deps(inv, inv.type_of(st2.1[i]).kind)[k]) || reaches(
                    inv,
                    order_deps(inv, inv.type_of(st2.1[i]).kind)[k],
                    st2.1[i],
                ) by {
                    if i < st3.1.len() {
                        assert(st2.1[i] == st3.1[i]);
                        let d = order_deps(inv, inv.type_of(st3.1[i]).kind)[k];
                        if exists|m: int| 0 <= m < i && st3.1[m] == d {
                            let m = choose|m: int| 0 <= m < i && st3.1[m] == d;
                            assert(st2.1[m] == st3.1[m]);
                        }
                    } else {
                        assert(st2.1[i] == tid);
                        let d = ds[k];
                        assert(ds.contains(d));
                        assert(entered(inv, st3, d));
                        if st3.1.contains(d) {
                            let m = choose|m: int| 0 <= m < st3.1.len() && st3.1[m] == d;
                            assert(st2.1[m] == st3.1[m]);
                        } else {
                            assert(open_in(inv, st3, d));
                            assert(open_in(inv, st1, d));
                            assert(depends_on(inv, tid, d));
                            if d == tid {
                                lemma_reach_edge(inv, tid, tid);
                            } else {
                                assert(open_in(inv, st, d));
                            }
                        }
                    }
                }
            }
            // The types inside which the search is are those it started in.
            assert forall|t: TypeId| #[trigger] open_in(inv, st2, t) == open_in(inv, st, t) by {
                assert(open_in(inv, st3, t) == open_in(inv, st1, t));
                if t == tid {
                    assert(st2.1.contains(tid)) by {
                        assert(st2.1[st2.1.len() - 1] == tid);
                    }
                } else {
                    assert(st2.1.contains(t) == st3.1.contains(t)) by {
                        if st2.1.contains(t) {
                            let m = choose|m: int| 0 <= m < st2.1.len() && st2.1[m] == t;
                            assert(st3.1[m] == t);
                        }
                        if st3.1.contains(t) {
                            let m = choose|m: int| 0 <= m < st3.1.len() && st3.1[m] == t;
                            assert(st2.1[m] == t);
                        }
                    }
                    if inv.has_type(t) {
                        let i = inv.type_index(t);
                        assert(inv.types@[i].0 == t);
                        assert(i != j);
                    }
                }
            }
            assert(grows(st.0, st2.0)) by {
                assert forall|i: int| 0 <= i < st.0.len() && #[trigger] st.0[i] implies st2.0[i] by {
                    assert(st1.0[i]);
                }
            }
            assert(st2.1.take(st.1.len() as int) =~= st.1) by {
                assert(st2.1.take(st.1.len() as int) =~= st3.1.take(st.1.len() as int));
            }
            assert forall|k: int| st.1.len() <= k < st2.1.len() implies !entered(
                inv,
                st,
                #[trigger] st2.1[k],
            ) by {
                if k < st3.1.len() {
                    assert(st2.1[k] == st3.1[k]);
                    assert(!entered(inv, st1, st3.1[k]));
                    let t = st3.1[k];
                    if entered(inv, st, t) {
                        assert(st1.0[inv.type_index(t)]);
                    }
                }
            }
        }
    }
}

proof fn lemma_dfs_visit_all(inv: Inventory, ds: Seq<TypeId>, st: DfsState, fuel: nat)
    requires
        inv.distinct_ids(),
        dfs_inv(inv, st),
        fuel >= count_false(st.0),
        forall|g: TypeId, d: TypeId| #[trigger] open_in(inv, st, g) && #[trigger] ds.contains(d) ==> reaches(inv, g, d),
    ensures
        dfs_step(inv, st, dfs_visit_all(inv, ds, st, fuel)),
        forall|d: TypeId|
            ds.contains(d) && inv.has_type(d) ==> entered(inv, #[trigger] dfs_visit_all(inv, ds, st, fuel), d),
    decreases fuel, 1nat, ds.len(),
{
    if ds.len() == 0 {
        assert(st.1.take(st.1.len() as int) =~= st.1);
    } else {
        let front = ds.drop_last();
        assert forall|g: TypeId, d: TypeId| #[trigger] open_in(inv, st, g) && #[trigger] front.contains(d) implies reaches(
            inv,
            g,
            d,
        ) by {
            let m = choose|m: int| 0 <= m < front.len() && front[m] == d;
            assert(ds[m] == d);
            assert(ds.contains(d));
        }
        lemma_dfs_visit_all(inv, front, st, fuel);
        let mid = dfs_visit_all(inv, front, st, fuel);
        lemma_count_grows(st.0, mid.0);
        assert forall|g: TypeId| #[trigger] open_in(inv, mid, g) implies reaches(inv, g, ds.last()) by {
            assert(open_in(inv, st, g));
            assert(ds.contains(ds.last())) by {
                assert(ds[ds.len() - 1] == ds.last());
            }
        }
        lemma_dfs_visit(inv, ds.last(), mid, fuel);
        let fin = dfs_visit(inv, ds.last(), mid, fuel);
        lemma_step_trans(inv, st, mid, fin);
        assert forall|d: TypeId| ds.contains(d) && inv.has_type(d) implies entered(
            inv,
            #[trigger] dfs_visit_all(inv, ds, st, fuel),
            d,
        ) by {
            if d != ds.last() {
                let m = choose|m: int| 0 <= m < ds.len() && ds[m] == d;
                assert(front[m] == d);
                assert(entered(inv, mid, d));
                assert(mid.0[inv.type_index(d)]);
            }
        }
    }
}

/// The order of the types in a header: every type of the inventory exactly
/// once, and each type after every dependency it has in the inventory,
/// except a dependency from which a path of dependencies leads back to it.
pub proof fn lemma_topo_order(inv: Inventory)
    requires
        inv.distinct_ids(),
    ensures
        no_dup(topo_order(inv)),
        forall|t: TypeId| topo_order(inv).contains(t) <==> inv.has_type(t),
        deps_first(inv, topo_order(inv)),
{
    let st0 = dfs_start(inv);
    let ids = type_ids(inv);
    let n = inv.n_types();
    lemma_count_all_false(n);
    assert(dfs_inv(inv, st0));
    assert forall|g: TypeId| #[trigger] open_in(inv, st0, g) implies false by {}
    lemma_dfs_visit_all(inv, ids, st0, n);
    let fin = dfs_visit_all(inv, ids, st0, n);
    assert forall|t: TypeId| fin.1.contains(t) <==> inv.has_type(t) by {
        if fin.1.contains(t) {
            let m = choose|m: int| 0 <= m < fin.1.len() && fin.1[m] == t;
            assert(entered(inv, fin, fin.1[m]));
        }
        if inv.has_type(t) {
            let i = choose|i: int| 0 <= i < inv.types@.len() && inv.types@[i].0 == t;
            assert(ids[i] == t);
            assert(ids.contains(t));
            assert(entered(inv, fin, t));
            assert(!open_in(inv, st0, t));
            assert(!open_in(inv, fin, t));
        }
    }
}

// ---------------------------------------------------------------------------
// Types named by a definition come first
// ---------------------------------------------------------------------------

/// `a` is an array type of the inventory whose element type is `t`.
pub open spec fn array_of(inv: Inventory, a: TypeId, t: TypeId) -> bool {
    inv.has_type(a) && match inv.type_of(a).kind {
        TypeKind::Array(arr) => arr.ty == t,
        _ => false,
    }
}

/// The definition of a type of kind `kind` names the type `t`: as a field's
/// type or the element type of an array field, as the value of a variant, as
/// the element of a slice, vector or option, as either side of a result, as
/// an argument or return type, or as the target of a pointer.
pub open spec fn names_type(inv: Inventory, kind: TypeKind, t: TypeId) -> bool {
    match kind {
        TypeKind::Struct(s) => exists|k: int|
            0 <= k < s.fields@.len() && (#[trigger] s.fields@[k].ty == t || array_of(
                inv,
                s.fields@[k].ty,
                t,
            )),
        TypeKind::Enum(e) => exists|k: int|
            0 <= k < e.variants@.len() && #[trigger] e.variants@[k].kind == VariantKind::Tuple(t),
        TypeKind::TypePattern(TypePattern::Slice(u)) => u == t,
        TypeKind::TypePattern(TypePattern::SliceMut(u)) => u == t,
        TypeKind::TypePattern(TypePattern::Vec(u)) => u == t,
        TypeKind::TypePattern(TypePattern::Option(u)) => u == t,
        TypeKind::TypePattern(TypePattern::Result(ok, err)) => ok == t || err == t,
        TypeKind::TypePattern(TypePattern::NamedCallback(sig)) => sig.rval == t || exists|k: int|
            0 <= k < sig.arguments@.len() && #[trigger] sig.arguments@[k].ty == t,
        TypeKind::FnPointer(sig) => sig.rval == t || exists|k: int|
            0 <= k < sig.arguments@.len() && #[trigger] sig.arguments@[k].ty == t,
        TypeKind::ReadPointer(u) => u == t,
        TypeKind::ReadWritePointer(u) => u == t,
        _ => false,
    }
}

proof fn lemma_fields_deps_has(inv: Inventory, fs: Seq<Field>, k: int)
    requires
        0 <= k < fs.len(),
    ensures
        fields_deps(inv, fs).contains(fs[k].ty),
        inv.has_type(fs[k].ty) ==> (inv.type_of(fs[k].ty).kind matches TypeKind::Array(a)
            ==> fields_deps(inv, fs).contains(a.ty)),
    decreases fs.len(),
{
    let front = fields_deps(inv, fs.drop_last());
    let fd = field_deps(inv, fs.last());
    assert(fields_deps(inv, fs) == front + fd);
    if k < fs.len() - 1 {
        assert(fs.drop_last()[k] == fs[k]);
        lemma_fields_deps_has(inv, fs.drop_last(), k);
        let ft = fs[k].ty;
        let m = choose|m: int| 0 <= m < front.len() && front[m] == ft;
        assert((front + fd)[m] == ft);
        if inv.has_type(ft) {
            if let TypeKind::Array(a) = inv.type_of(ft).kind {
                let m2 = choose|m2: int| 0 <= m2 < front.len() && front[m2] == a.ty;
                assert((front + fd)[m2] == a.ty);
            }
        }
    } else {
        assert(fs.last() == fs[k]);
        assert((front + fd)[front.len() as int] == fd[0]);
        if inv.has_type(fs[k].ty) {
            if let TypeKind::Array(a) = inv.type_of(fs[k].ty).kind {
                assert((front + fd)[front.len() as int + 1] == fd[1]);
            }
        }
    }
}

proof fn lemma_tuple_ids_has(vs: Seq<Variant>, k: int, t: TypeId)
    requires
        0 <= k < vs.len(),
        vs[k].kind == VariantKind::Tuple(t),
    ensures
        tuple_variant_ids(vs).contains(t),
    decreases vs.len(),
{
    if k < vs.len() - 1 {
        assert(vs.drop_last()[k] == vs[k]);
        lemma_tuple_ids_has(vs.drop_last(), k, t);
        let front = tuple_variant_ids(vs.drop_last());
        let m = choose|m: int| 0 <= m < front.len() && front[m] == t;
        match vs.last().kind {
            VariantKind::Tuple(u) => {
                assert(front.push(u)[m] == t);
            },
            VariantKind::Unit(_) => {},
        }
    } else {
        assert(vs.last() == vs[k]);
        let front = tuple_variant_ids(vs.drop_last());
        assert(front.push(t)[front.len() as int] == t);
    }
}

proof fn lemma_signature_ids_has(sig: Signature, t: TypeId)
    requires
        sig.rval == t || exists|k: int| 0 <= k < sig.arguments@.len() && #[trigger] sig.arguments@[k].ty == t,
    ensures
        signature_ids(sig).contains(t),
{
    let ids = signature_ids(sig);
    let n = sig.arguments@.len() as int;
    if sig.rval == t {
        assert(ids[n] == t);
    } else {
        let k = choose|k: int| 0 <= k < sig.arguments@.len() && #[trigger] sig.arguments@[k].ty == t;
        assert(ids[k] == t);
    }
}

/// Each type that a definition names is among the types written before it.
proof fn lemma_named_is_waited_for(inv: Inventory, kind: TypeKind, t: TypeId)
    requires
        names_type(inv, kind, t),
    ensures
        order_deps(inv, kind).contains(t),
{
    match kind {
        TypeKind::Struct(s) => {
            let k = choose|k: int|
                0 <= k < s.fields@.len() && (#[trigger] s.fields@[k].ty == t || array_of(
                    inv,
                    s.fields@[k].ty,
                    t,
                ));
            lemma_fields_deps_has(inv, s.fields@, k);
        },
        TypeKind::Enum(e) => {
            let k = choose|k: int|
                0 <= k < e.variants@.len() && #[trigger] e.variants@[k].kind == VariantKind::Tuple(t);
            lemma_tuple_ids_has(e.variants@, k, t);
        },
        TypeKind::TypePattern(TypePattern::NamedCallback(sig)) => lemma_signature_ids_has(sig, t),
        TypeKind::FnPointer(sig) => lemma_signature_ids_has(sig, t),
        TypeKind::TypePattern(TypePattern::Result(ok, err)) => {
            if ok == t {
                assert(seq![ok, err][0] == t);
            } else {
                assert(seq![ok, err][1] == t);
            }
        },
        _ => {
            assert(order_deps(inv, kind)[0] == t);
        },
    }
}

/// Every type that a type's definition names (see `names_type`) and that is
/// in the inventory is written before that type, unless the named type leads
/// back to it through dependencies (a cycle, which only pointers close in a
/// well-formed inventory).
pub proof fn lemma_named_types_first(inv: Inventory, j: int, t: TypeId)
    requires
        inv.distinct_ids(),
        0 <= j < topo_order(inv).len(),
        names_type(inv, inv.type_of(topo_order(inv)[j]).kind, t),
        inv.has_type(t),
        !reaches(inv, t, topo_order(inv)[j]),
    ensures
        exists|i: int| 0 <= i < j && topo_order(inv)[i] == t,
{
    let order = topo_order(inv);
    lemma_topo_order(inv);
    let ds = order_deps(inv, inv.type_of(order[j]).kind);
    lemma_named_is_waited_for(inv, inv.type_of(order[j]).kind, t);
    let k = choose|k: int| 0 <= k < ds.len() && ds[k] == t;
    assert(ds[k] == t);
}

// ---------------------------------------------------------------------------
// The executable search
// ---------------------------------------------------------------------------

/// The types `ty` depends on, in order.
pub fn type_deps(ty: &Type) -> (r: Vec<TypeId>)
    ensures
        r@ == deps_of(ty.kind),
{
    match &ty.kind {
        TypeKind::Struct(s) => {
            let mut deps: Vec<TypeId> = Vec::new();
            for i in 0..s.fields.len()
                invariant
                    deps@ == s.fields@.take(i as int).map_values(|f: Field| f.ty),
            {
                proof {
                    assert(s.fields@.take(i + 1).map_values(|f: Field| f.ty) =~= s.fields@.take(
                        i as int,
                    ).map_values(|f: Field| f.ty).push(s.fields@[i as int].ty));
                }
                deps.push(s.fields[i].ty);
            }
            proof {
                assert(s.fields@.take(s.fields@.len() as int) =~= s.fields@);
            }
            deps
        },
        TypeKind::Enum(e) => {
            let mut deps: Vec<TypeId> = Vec::new();
            for i in 0..e.variants.len()
                invariant
                    deps@ == tuple_variant_ids(e.variants@.take(i as int)),
            {
                proof {
                    assert(e.variants@.take(i + 1).drop_last() =~= e.variants@.take(i as int));
                }
                match &e.variants[i].kind {
                    VariantKind::Tuple(t) => deps.push(*t),
                    VariantKind::Unit(_) => {},
                }
            }
            proof {
                assert(e.variants@.take(e.variants@.len() as int) =~= e.variants@);
            }
            deps
        },
        TypeKind::TypePattern(TypePattern::Slice(t)) => vec![*t],
        TypeKind::TypePattern(TypePattern::SliceMut(t)) => vec![*t],
        TypeKind::TypePattern(TypePattern::Vec(t)) => vec![*t],
        TypeKind::TypePattern(TypePattern::Option(t)) => vec![*t],
        TypeKind::TypePattern(TypePattern::Result(ok, err)) => vec![*ok, *err],
        TypeKind::TypePattern(TypePattern::NamedCallback(sig)) => signature_deps(sig),
        TypeKind::ReadPointer(t) => vec![*t],
        TypeKind::ReadWritePointer(t) => vec![*t],
        TypeKind::FnPointer(sig) => signature_deps(sig),
        _ => Vec::new(),
    }
}

/// The argument types of a signature, then its return type.
fn signature_deps(sig: &Signature) -> (r: Vec<TypeId>)
    ensures
        r@ == signature_ids(*sig),
{
    let mut deps: Vec<TypeId> = Vec::new();
    for i in 0..sig.arguments.len()
        invariant
            deps@ == sig.arguments@.take(i as int).map_values(|a: Argument| a.ty),
    {
        proof {
            assert(sig.arguments@.take(i + 1).map_values(|a: Argument| a.ty)
                =~= sig.arguments@.take(i as int).map_values(|a: Argument| a.ty).push(
                sig.arguments@[i as int].ty,
            ));
        }
        deps.push(sig.arguments[i].ty);
    }
    proof {
        assert(sig.arguments@.take(sig.arguments@.len() as int) =~= sig.arguments@);
    }
    deps.push(sig.rval);
    deps
}

/// The types to write before `ty` (see `order_deps`).
fn visit_order_deps(inv: &Inventory, ty: &Type) -> (r: Vec<TypeId>)
    requires
        inv.distinct_ids(),
    ensures
        r@ == order_deps(*inv, ty.kind),
{
    match &ty.kind {
        TypeKind::Struct(s) => {
            let mut deps: Vec<TypeId> = Vec::new();
            for i in 0..s.fields.len()
                invariant
                    inv.distinct_ids(),
                    deps@ == fields_deps(*inv, s.fields@.take(i as int)),
            {
                let ghost before = deps@;
                proof {
                    assert(s.fields@.take(i + 1).drop_last() =~= s.fields@.take(i as int));
                    assert(s.fields@.take(i + 1).last() == s.fields@[i as int]);
                }
                let t = s.fields[i].ty;
                deps.push(t);
                match inv.find_type(t) {
                    Some(j) => {
                        proof {
                            lemma_type_index(*inv, j as int);
                        }
                        match &inv.types[j].1.kind {
                            TypeKind::Array(a) => {
                                deps.push(a.ty);
                                proof {
                                    assert(deps@ =~= before + seq![t, a.ty]);
                                }
                            },
                            _ => {
                                proof {
                                    assert(deps@ =~= before + seq![t]);
                                }
                            },
                        }
                    },
                    None => {
                        proof {
                            assert(deps@ =~= before + seq![t]);
                        }
                    },
                }
            }
            proof {
                assert(s.fields@.take(s.fields@.len() as int) =~= s.fields@);
            }
            deps
        },
        _ => type_deps(ty),
    }
}

fn visit(
    inv: &Inventory,
    tid: TypeId,
    visited: &mut Vec<bool>,
    order: &mut Vec<TypeId>,
    Ghost(fuel): Ghost<nat>,
)
    requires
        inv.distinct_ids(),
        old(visited)@.len() == inv.n_types(),
        fuel >= count_false(old(visited)@),
    ensures
        (final(visited)@, final(order)@) == dfs_visit(*inv, tid, (old(visited)@, old(order)@), fuel),
        grows(old(visited)@, final(visited)@),
    decreases fuel,
{
    let found = inv.find_type(tid);
    let j = match found {
        None => return ,
        Some(j) => j,
    };
    proof {
        lemma_type_index(*inv, j as int);
    }
    if visited[j] {
        return ;
    }
    proof {
        lemma_count_mark(visited@, j as int);
    }
    let ghost st0 = visited@;
    visited.set(j, true);
    let deps = visit_order_deps(inv, &inv.types[j].1);
    let ghost st1: DfsState = (visited@, order@);
    let ghost f1: nat = (fuel - 1) as nat;
    for k in 0..deps.len()
        invariant
            inv.distinct_ids(),
            visited@.len() == inv.n_types(),
            grows(st0, visited@),
            count_false(visited@) <= f1,
            f1 + 1 == fuel,
            (visited@, order@) == dfs_visit_all(*inv, deps@.take(k as int), st1, f1),
    {
        proof {
            assert(deps@.take(k + 1).drop_last() =~= deps@.take(k as int));
        }
        let ghost before = visited@;
        visit(inv, deps[k], visited, order, Ghost(f1));
        proof {
            lemma_count_grows(before, visited@);
        }
    }
    proof {
        assert(deps@.take(deps@.len() as int) =~= deps@);
    }
    order.push(tid);
}

/// Returns type IDs in dependency order (dependencies before dependents).
pub fn sort_types(inv: &Inventory) -> (r: Vec<TypeId>)
    requires
        inv.distinct_ids(),
    ensures
        r@ == topo_order(*inv),
        no_dup(r@),
        forall|t: TypeId| r@.contains(t) <==> inv.has_type(t),
        deps_first(*inv, r@),
{
    let n = inv.types.len();
    let mut visited: Vec<bool> = Vec::new();
    for i in 0..n
        invariant
            visited@ == Seq::new(i as nat, |k: int| false),
    {
        proof {
            assert(visited@.push(false) =~= Seq::new((i + 1) as nat, |k: int| false));
        }
        visited.push(false);
    }
    let mut order: Vec<TypeId> = Vec::new();
    let ghost ids = type_ids(*inv);
    let ghost st0 = dfs_start(*inv);
    proof {
        lemma_count_all_false(n as nat);
        assert(visited@ == st0.0);
    }
    for i in 0..n
        invariant
            n == inv.types@.len(),
            ids == type_ids(*inv),
            ids.len() == n,
            inv.distinct_ids(),
            visited@.len() == n,
            count_false(visited@) <= n,
            (visited@, order@) == dfs_visit_all(*inv, ids.take(i as int), st0, n as nat),
    {
        proof {
            assert(ids.take(i + 1).drop_last() =~= ids.take(i as int));
        }
        let ghost before = visited@;
        visit(inv, inv.types[i].0, &mut visited, &mut order, Ghost(n as nat));
        proof {
            lemma_count_grows(before, visited@);
        }
    }
    proof {
        assert(ids.take(n as int) =~= ids);
        lemma_topo_order(*inv);
    }
    order
}

} // verus!
