//! The inventory that headers are generated from: the types and functions a
//! Rust library exposes over FFI, as plain values.
//!
//! Types are keyed by a `TypeId`; the inventory keeps them in ascending key
//! order, the order in which a `BTreeMap` keyed by `TypeId` walks them.
use vstd::prelude::*;

verus! {

/// The key of a type in the inventory.
pub type TypeId = u128;

/// A primitive type.
#[derive(Clone, Copy, Debug, PartialEq, Eq, Structural)]
pub enum Primitive {
    Void,
    Bool,
    U8,
    U16,
    U32,
    U64,
    Usize,
    I8,
    I16,
    I32,
    I64,
    Isize,
    F32,
    F64,
}

/// A fixed-size array `[ty; len]`.
#[derive(Clone, Debug)]
pub struct Array {
    pub ty: TypeId,
    pub len: usize,
}

/// A named field of a struct.
#[derive(Clone, Debug)]
pub struct Field {
    pub name: String,
    pub ty: TypeId,
}

/// A struct with its fields, in declaration order.
#[derive(Clone, Debug)]
pub struct Struct {
    pub fields: Vec<Field>,
}

/// What a variant of an enum carries: nothing (with its discriminant) or one value.
#[derive(Clone, Debug)]
pub enum VariantKind {
    Unit(isize),
    Tuple(TypeId),
}

/// A variant of an enum.
#[derive(Clone, Debug)]
pub struct Variant {
    pub name: String,
    pub kind: VariantKind,
}

/// An enum with its variants, in declaration order.
#[derive(Clone, Debug)]
pub struct Enum {
    pub variants: Vec<Variant>,
}

/// A named argument of a function or callback.
#[derive(Clone, Debug)]
pub struct Argument {
    pub name: String,
    pub ty: TypeId,
}

/// The arguments and the return type of a function.
#[derive(Clone, Debug)]
pub struct Signature {
    pub arguments: Vec<Argument>,
    pub rval: TypeId,
}

/// Types with a fixed FFI shape.
#[derive(Clone, Debug)]
pub enum TypePattern {
    CStrPointer,
    Utf8String,
    Version,
    Slice(TypeId),
    SliceMut(TypeId),
    Option(TypeId),
    Result(TypeId, TypeId),
    Bool,
    CChar,
    CVoid,
    NamedCallback(Signature),
    AsyncCallback,
    Vec(TypeId),
    Wire,
    TaskHandle,
}

/// The shape of a type.
#[derive(Clone, Debug)]
pub enum TypeKind {
    Array(Array),
    Primitive(Primitive),
    Struct(Struct),
    Enum(Enum),
    FnPointer(Signature),
    ReadPointer(TypeId),
    Service,
    ReadWritePointer(TypeId),
    Opaque,
    WireOnly,
    TypePattern(TypePattern),
}

/// A type: its Rust name and its shape.
#[derive(Clone, Debug)]
pub struct Type {
    pub name: String,
    pub kind: TypeKind,
}

/// An exported function.
#[derive(Clone, Debug)]
pub struct Function {
    pub name: String,
    pub signature: Signature,
}

/// The types and functions of a library. `types` holds each type with its
/// key, in ascending order of keys (the order of a map keyed by type);
/// `functions` holds the functions in the order of their keys.
#[derive(Clone, Debug)]
pub struct Inventory {
    pub types: Vec<(TypeId, Type)>,
    pub functions: Vec<Function>,
}

/// The type ids a signature mentions: the arguments' types, then the return type.
pub open spec fn signature_ids(sig: Signature) -> Seq<TypeId> {
    sig.arguments@.map_values(|a: Argument| a.ty).push(sig.rval)
}

/// The types that the payload-carrying variants of an enum hold, in order.
pub open spec fn tuple_variant_ids(vs: Seq<Variant>) -> Seq<TypeId>
    decreases vs.len(),
{
    if vs.len() == 0 {
        Seq::empty()
    } else {
        match vs.last().kind {
            VariantKind::Tuple(t) => tuple_variant_ids(vs.drop_last()).push(t),
            VariantKind::Unit(_) => tuple_variant_ids(vs.drop_last()),
        }
    }
}

/// The types a type depends on, in order. An array type has none: it has no
/// definition of its own.
pub open spec fn deps_of(kind: TypeKind) -> Seq<TypeId> {
    match kind {
        TypeKind::Struct(s) => s.fields@.map_values(|f: Field| f.ty),
        TypeKind::Enum(e) => tuple_variant_ids(e.variants@),
        TypeKind::TypePattern(TypePattern::Slice(t)) => seq![t],
        TypeKind::TypePattern(TypePattern::SliceMut(t)) => seq![t],
        TypeKind::TypePattern(TypePattern::Vec(t)) => seq![t],
        TypeKind::TypePattern(TypePattern::Option(t)) => seq![t],
        TypeKind::TypePattern(TypePattern::Result(ok, err)) => seq![ok, err],
        TypeKind::TypePattern(TypePattern::NamedCallback(sig)) => signature_ids(sig),
        TypeKind::ReadPointer(t) => seq![t],
        TypeKind::ReadWritePointer(t) => seq![t],
        TypeKind::FnPointer(sig) => signature_ids(sig),
        _ => Seq::empty(),
    }
}

impl Inventory {
    /// The number of types.
    pub open spec fn n_types(&self) -> nat {
        self.types@.len()
    }

    /// Whether a type with key `tid` is in the inventory.
    pub open spec fn has_type(&self, tid: TypeId) -> bool {
        exists|i: int| 0 <= i < self.types@.len() && #[trigger] self.types@[i].0 == tid
    }

    /// The position of the type with key `tid`.
    pub open spec fn type_index(&self, tid: TypeId) -> int {
        choose|i: int| 0 <= i < self.types@.len() && #[trigger] self.types@[i].0 == tid
    }

    /// The type with key `tid`.
    pub open spec fn type_of(&self, tid: TypeId) -> Type {
        self.types@[self.type_index(tid)].1
    }

    /// The types are held in strictly ascending order of keys.
    pub open spec fn keys_ascending(&self) -> bool {
        forall|i: int, j: int|
            0 <= i < j < self.types@.len() ==> #[trigger] self.types@[i].0 < #[trigger] self.types@[j].0
    }

    /// No key occurs twice.
    pub open spec fn distinct_ids(&self) -> bool {
        forall|i: int, j: int|
            0 <= i < j < self.types@.len() ==> #[trigger] self.types@[i].0 != #[trigger] self.types@[j].0
    }

    /// Following pointers from `tid` reaches a type that is not a pointer
    /// within `fuel` steps, and every type on the way is in the inventory.
    pub open spec fn pointer_chain_ends(&self, tid: TypeId, fuel: nat) -> bool
        decreases fuel,
    {
        self.has_type(tid) && match self.type_of(tid).kind {
            TypeKind::ReadPointer(t) => fuel > 0 && self.pointer_chain_ends(t, (fuel - 1) as nat),
            TypeKind::ReadWritePointer(t) => fuel > 0 && self.pointer_chain_ends(
                t,
                (fuel - 1) as nat,
            ),
            _ => true,
        }
    }

    /// The C name of type `tid` can be computed: the type is in the
    /// inventory and following pointers from it ends at a type that is not a
    /// pointer, through types of the inventory.
    pub open spec fn names_resolve(&self, tid: TypeId) -> bool {
        self.pointer_chain_ends(tid, self.n_types())
    }

    /// A struct field can be written: its type is in the inventory, and the
    /// element type of an array, or else the type itself, can be named.
    pub open spec fn field_ok(&self, f: Field) -> bool {
        self.has_type(f.ty) && match self.type_of(f.ty).kind {
            TypeKind::Array(a) => self.names_resolve(a.ty),
            _ => self.names_resolve(f.ty),
        }
    }

    /// The value a variant carries, if any, can be named.
    pub open spec fn variant_ok(&self, v: Variant) -> bool {
        match v.kind {
            VariantKind::Tuple(t) => self.names_resolve(t),
            VariantKind::Unit(_) => true,
        }
    }

    /// Every argument type and the return type of a signature can be named.
    pub open spec fn signature_ok(&self, sig: Signature) -> bool {
        &&& forall|k: int|
            0 <= k < sig.arguments@.len() ==> self.names_resolve(#[trigger] sig.arguments@[k].ty)
        &&& self.names_resolve(sig.rval)
    }

    /// The definition of a type can be written: every type it names can be named.
    pub open spec fn definable(&self, ty: Type) -> bool {
        match ty.kind {
            TypeKind::Struct(s) => forall|k: int|
                0 <= k < s.fields@.len() ==> self.field_ok(#[trigger] s.fields@[k]),
            TypeKind::Enum(e) => forall|k: int|
                0 <= k < e.variants@.len() ==> self.variant_ok(#[trigger] e.variants@[k]),
            TypeKind::FnPointer(sig) => self.signature_ok(sig),
            TypeKind::TypePattern(TypePattern::NamedCallback(sig)) => self.signature_ok(sig),
            TypeKind::TypePattern(TypePattern::Slice(t)) => self.names_resolve(t),
            TypeKind::TypePattern(TypePattern::SliceMut(t)) => self.names_resolve(t),
            TypeKind::TypePattern(TypePattern::Vec(t)) => self.names_resolve(t),
            TypeKind::TypePattern(TypePattern::Option(t)) => self.names_resolve(t),
            TypeKind::TypePattern(TypePattern::Result(ok, err)) => self.names_resolve(ok)
                && self.names_resolve(err),
            _ => true,
        }
    }

    /// An inventory a header can be generated from: keys are in strictly
    /// ascending order (so no key occurs twice), every type definition can be
    /// written, and every function's argument and return types can be named.
    /// (A type that is never named, such as a pointer no definition or
    /// function mentions, is not constrained.)
    pub open spec fn well_formed(&self) -> bool {
        &&& self.keys_ascending()
        &&& self.distinct_ids()
        &&& forall|i: int| 0 <= i < self.types@.len() ==> self.definable(#[trigger] self.types@[i].1)
        &&& forall|i: int|
            0 <= i < self.functions@.len() ==> self.signature_ok(#[trigger] self.functions@[i].signature)
    }

    /// The position of the type with key `tid`, if there is one.
    pub fn find_type(&self, tid: TypeId) -> (r: Option<usize>)
        ensures
            match r {
                Some(i) => i < self.types@.len() && self.types@[i as int].0 == tid,
                None => !self.has_type(tid),
            },
    {
        let mut i: usize = 0;
        while i < self.types.len()
            invariant
                i <= self.types@.len(),
                forall|k: int| 0 <= k < i ==> self.types@[k].0 != tid,
            decreases self.types.len() - i,
        {
            if self.types[i].0 == tid {
                return Some(i);
            }
            i = i + 1;
        }
        None
    }

    /// The type with key `tid`.
    pub fn resolve(&self, tid: TypeId) -> (r: &Type)
        requires
            self.distinct_ids(),
            self.has_type(tid),
        ensures
            *r == self.type_of(tid),
    {
        let i = self.find_type(tid);
        match i {
            Some(i) => {
                proof {
                    let j = self.type_index(tid);
                    assert(self.types@[j].0 == tid);
                    assert(j == i);
                }
                &self.types[i].1
            },
            None => {
                proof {
                    assert(false);
                }
                &self.types[0].1
            },
        }
    }
}

} // verus!
