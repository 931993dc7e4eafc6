//! The decoded, version-independent type registry.
//!
//! A registry is an ordered collection of type descriptors. Each
//! descriptor has a stable numeric identifier, an optional canonical
//! foreign origin path, and a structural shape with outgoing references
//! to other descriptors by identifier. A well-formed registry has unique
//! identifiers and a closed reference set; cycles are permitted.
//!
//! Contracts are stated over spec-level models (`ShapeModel`,
//! `DescriptorModel`) reached from the executable types through view
//! functions.

use vstd::prelude::*;

use crate::paths::path_view;

verus! {

broadcast use vstd::seq_lib::lemma_seq_contains_after_push;

/// The primitive scalar kinds a descriptor can denote.
#[derive(Clone, Copy, Debug, PartialEq, Eq, Structural)]
pub enum PrimitiveKind {
    Bool,
    Char,
    Str,
    U8,
    U16,
    U32,
    U64,
    U128,
    I8,
    I16,
    I32,
    I64,
    I128,
}

/// The structural shape of one type, with outgoing references by
/// descriptor identifier.
#[derive(Clone, Debug, PartialEq, Eq)]
pub enum TypeShape {
    /// A primitive scalar.
    Primitive(PrimitiveKind),
    /// A composite (struct-like) type; one referenced id per field.
    Composite(Vec<u32>),
    /// A variant (enum-like) type; one field-id list per variant.
    Variant(Vec<Vec<u32>>),
    /// A homogeneous sequence of the referenced element type.
    Sequence(u32),
    /// A tuple of the referenced element types.
    Tuple(Vec<u32>),
    /// A compact (variable-length) encoding of the referenced type.
    Compact(u32),
    /// A binding of the generic parameter with the given index.
    Parameter(u32),
}

/// The mathematical value of a `TypeShape`.
pub enum ShapeModel {
    Primitive(PrimitiveKind),
    Composite(Seq<u32>),
    Variant(Seq<Seq<u32>>),
    Sequence(u32),
    Tuple(Seq<u32>),
    Compact(u32),
    Parameter(u32),
}

/// The mathematical value of a `TypeDescriptor`.
pub struct DescriptorModel {
    pub id: u32,
    pub origin: Seq<Seq<u8>>,
    pub shape: ShapeModel,
}

/// The mathematical value of a variant list.
pub open spec fn variants_view(v: Seq<Vec<u32>>) -> Seq<Seq<u32>> {
    v.map(|i: int, x: Vec<u32>| x@)
}

/// The mathematical value of a descriptor list.
pub open spec fn descriptors_view(v: Seq<TypeDescriptor>) -> Seq<DescriptorModel> {
    v.map(|i: int, d: TypeDescriptor| d@)
}

impl View for TypeShape {
    type V = ShapeModel;

    open spec fn view(&self) -> ShapeModel {
        match self {
            TypeShape::Primitive(k) => ShapeModel::Primitive(*k),
            TypeShape::Composite(fields) => ShapeModel::Composite(fields@),
            TypeShape::Variant(variants) => ShapeModel::Variant(variants_view(variants@)),
            TypeShape::Sequence(element) => ShapeModel::Sequence(*element),
            TypeShape::Tuple(elements) => ShapeModel::Tuple(elements@),
            TypeShape::Compact(inner) => ShapeModel::Compact(*inner),
            TypeShape::Parameter(index) => ShapeModel::Parameter(*index),
        }
    }
}

/// One entry of the registry.
#[derive(Clone, Debug, PartialEq, Eq)]
pub struct TypeDescriptor {
    /// The stable numeric identifier of this type within the registry.
    pub id: u32,
    /// The canonical foreign path this type originates from; empty when
    /// the type has no foreign origin. A non-empty origin is what a
    /// substitution's key is matched against.
    pub origin: Vec<Vec<u8>>,
    /// The structural shape.
    pub shape: TypeShape,
}

impl View for TypeDescriptor {
    type V = DescriptorModel;

    open spec fn view(&self) -> DescriptorModel {
        DescriptorModel { id: self.id, origin: path_view(self.origin@), shape: self.shape@ }
    }
}

/// The ordered collection of descriptors decoded from one envelope.
#[derive(Clone, Debug, PartialEq, Eq)]
pub struct PortableTypeRegistry {
    pub entries: Vec<TypeDescriptor>,
}

impl View for PortableTypeRegistry {
    type V = Seq<DescriptorModel>;

    open spec fn view(&self) -> Seq<DescriptorModel> {
        descriptors_view(self.entries@)
    }
}

/// A registry tagged with the schema version it was decoded from.
#[derive(Clone, Debug, PartialEq, Eq)]
pub enum VersionedRegistry {
    V14(PortableTypeRegistry),
    V15(PortableTypeRegistry),
}

impl VersionedRegistry {
    /// The registry payload, whichever version matched.
    pub open spec fn spec_registry(self) -> PortableTypeRegistry {
        match self {
            VersionedRegistry::V14(r) => r,
            VersionedRegistry::V15(r) => r,
        }
    }

    /// The schema version discriminant this registry was decoded from.
    pub open spec fn spec_version(self) -> u8 {
        match self {
            VersionedRegistry::V14(_) => 14u8,
            VersionedRegistry::V15(_) => 15u8,
        }
    }

    /// Extracts the registry payload, whichever version matched.
    pub fn into_registry(self) -> (r: PortableTypeRegistry)
        ensures
            r == self.spec_registry(),
    {
        match self {
            VersionedRegistry::V14(r) => r,
            VersionedRegistry::V15(r) => r,
        }
    }
}

/// Whether any variant's field list contains `id`.
pub open spec fn variants_mention(variants: Seq<Seq<u32>>, id: u32) -> bool {
    exists|i: int| 0 <= i < variants.len() && #[trigger] variants[i].contains(id)
}

/// Whether shape `s` has an outgoing reference to descriptor id `id`.
pub open spec fn shape_mentions(s: ShapeModel, id: u32) -> bool {
    match s {
        ShapeModel::Primitive(_) => false,
        ShapeModel::Composite(fields) => fields.contains(id),
        ShapeModel::Variant(variants) => variants_mention(variants, id),
        ShapeModel::Sequence(element) => element == id,
        ShapeModel::Tuple(elements) => elements.contains(id),
        ShapeModel::Compact(inner) => inner == id,
        ShapeModel::Parameter(_) => false,
    }
}

/// Whether the registry holds a descriptor with identifier `id`.
pub open spec fn registry_has_id(entries: Seq<DescriptorModel>, id: u32) -> bool {
    exists|i: int| 0 <= i < entries.len() && entries[i].id == id
}

/// Well-formedness: identifiers are unique and every outgoing reference
/// resolves within the same registry (closed reference set). Cycles,
/// including a descriptor referencing its own id, are permitted.
pub open spec fn registry_wf(entries: Seq<DescriptorModel>) -> bool {
    &&& forall|i: int, j: int| 0 <= i < j < entries.len() ==> entries[i].id != entries[j].id
    &&& forall|i: int, id: u32|
        0 <= i < entries.len() && #[trigger] shape_mentions(entries[i].shape, id)
            ==> registry_has_id(entries, id)
}

/// A copy of a list of descriptor ids.
pub fn copy_ids(v: &Vec<u32>) -> (r: Vec<u32>)
    ensures
        r@ == v@,
{
    let mut out: Vec<u32> = Vec::new();
    let mut i: usize = 0;
    while i < v.len()
        invariant
            0 <= i <= v@.len(),
            out@ == v@.take(i as int),
        decreases v@.len() - i,
    {
        out.push(v[i]);
        assert(out@ =~= v@.take(i + 1));
        i = i + 1;
    }
    assert(out@ =~= v@);
    out
}

/// The ids a shape references, in order of appearance.
pub fn shape_reference_list(s: &TypeShape) -> (r: Vec<u32>)
    ensures
        forall|id: u32| r@.contains(id) <==> shape_mentions(s@, id),
{
    match s {
        TypeShape::Primitive(_) => Vec::new(),
        TypeShape::Composite(fields) => copy_ids(fields),
        TypeShape::Variant(variants) => {
            let ghost vm = variants_view(variants@);
            let mut out: Vec<u32> = Vec::new();
            let mut i: usize = 0;
            while i < variants.len()
                invariant
                    vm == variants_view(variants@),
                    0 <= i <= variants@.len(),
                    forall|id: u32|
                        out@.contains(id) <==> exists|k: int| 0 <= k < i && vm[k].contains(id),
                decreases variants@.len() - i,
            {
                let mut j: usize = 0;
                while j < variants[i].len()
                    invariant
                        vm == variants_view(variants@),
                        0 <= i < variants@.len(),
                        0 <= j <= vm[i as int].len(),
                        forall|id: u32|
                            out@.contains(id) <==> (exists|k: int|
                                0 <= k < i && vm[k].contains(id)) || (exists|m: int|
                                0 <= m < j && vm[i as int][m] == id),
                    decreases vm[i as int].len() - j,
                {
                    let v: u32 = variants[i][j];
                    out.push(v);
                    assert(vm[i as int][j as int] == v);
                    j = j + 1;
                }
                i = i + 1;
            }
            assert(i == variants@.len());
            assert(s@ == ShapeModel::Variant(vm));
            assert forall|id: u32| out@.contains(id) implies shape_mentions(s@, id) by {
                let k = choose|k: int| 0 <= k < i && vm[k].contains(id);
                assert(0 <= k < vm.len() && vm[k].contains(id));
            };
            assert forall|id: u32| shape_mentions(s@, id) implies out@.contains(id) by {
                let k = choose|k: int| 0 <= k < vm.len() && #[trigger] vm[k].contains(id);
                assert(0 <= k < i && vm[k].contains(id));
            };
            out
        },
        TypeShape::Sequence(element) => {
            let mut out: Vec<u32> = Vec::new();
            out.push(*element);
            out
        },
        TypeShape::Tuple(elements) => copy_ids(elements),
        TypeShape::Compact(inner) => {
            let mut out: Vec<u32> = Vec::new();
            out.push(*inner);
            out
        },
        TypeShape::Parameter(_) => Vec::new(),
    }
}

/// Whether the registry holds a descriptor with identifier `id`.
pub fn has_id(r: &PortableTypeRegistry, id: u32) -> (b: bool)
    ensures
        b == registry_has_id(r@, id),
{
    let mut i: usize = 0;
    while i < r.entries.len()
        invariant
            0 <= i <= r.entries@.len(),
            forall|j: int| 0 <= j < i ==> r@[j].id != id,
        decreases r.entries@.len() - i,
    {
        if r.entries[i].id == id {
            assert(r@[i as int].id == id);
            return true;
        }
        i = i + 1;
    }
    false
}

/// Checks registry well-formedness: unique ids and a closed reference set.
pub fn check_registry_wf(r: &PortableTypeRegistry) -> (b: bool)
    ensures
        b == registry_wf(r@),
{
    let n = r.entries.len();
    let mut i: usize = 0;
    while i < n
        invariant
            n == r.entries@.len(),
            0 <= i <= n,
            forall|p: int, q: int| 0 <= p < i && p < q < n ==> r@[p].id != r@[q].id,
        decreases n - i,
    {
        let mut j: usize = i + 1;
        while j < n
            invariant
                n == r.entries@.len(),
                0 <= i < n,
                i < j <= n,
                forall|p: int, q: int| 0 <= p < i && p < q < n ==> r@[p].id != r@[q].id,
                forall|q: int| i < q < j ==> r@[i as int].id != r@[q].id,
            decreases n - j,
        {
            if r.entries[i].id == r.entries[j].id {
                assert(r@[i as int].id == r@[j as int].id);
                return false;
            }
            j = j + 1;
        }
        i = i + 1;
    }
    let mut i: usize = 0;
    while i < n
        invariant
            n == r.entries@.len(),
            0 <= i <= n,
            forall|p: int, q: int| 0 <= p < q < n ==> r@[p].id != r@[q].id,
            forall|p: int, id: u32|
                0 <= p < i && #[trigger] shape_mentions(r@[p].shape, id) ==> registry_has_id(
                    r@,
                    id,
                ),
        decreases n - i,
    {
        let refs = shape_reference_list(&r.entries[i].shape);
        assert(r.entries@[i as int].shape@ == r@[i as int].shape);
        let mut k: usize = 0;
        while k < refs.len()
            invariant
                n == r.entries@.len(),
                0 <= i < n,
                0 <= k <= refs@.len(),
                forall|id: u32| refs@.contains(id) <==> shape_mentions(r@[i as int].shape, id),
                forall|m: int| 0 <= m < k ==> registry_has_id(r@, #[trigger] refs@[m]),
            decreases refs@.len() - k,
        {
            if !has_id(r, refs[k]) {
                assert(refs@.contains(refs@[k as int]));
                assert(shape_mentions(r@[i as int].shape, refs@[k as int]));
                return false;
            }
            k = k + 1;
        }
        assert forall|id: u32| shape_mentions(r@[i as int].shape, id) implies registry_has_id(
            r@,
            id,
        ) by {
            assert(refs@.contains(id));
            let m = choose|m: int| 0 <= m < refs@.len() && refs@[m] == id;
            assert(registry_has_id(r@, refs@[m]));
        };
        i = i + 1;
    }
    true
}

} // verus!
