//! The type graph compiler.
//!
//! Consumes a decoded registry together with the substitution and derive
//! registries and produces one local type definition per descriptor not
//! covered by a substitution, plus one binding to the local replacement
//! path per descriptor that is. Definitions reference one another by
//! descriptor id (indirection), so cyclic and self-referential types are
//! representable and generation always terminates. The whole output is a
//! function of the inputs, so identical inputs give identical output.

use vstd::prelude::*;

use crate::codec::{
    blobs_bounded, enc_blob_list, enc_shape, enc_u32, encode_blob_list_into, encode_shape_into,
    encode_u32_into, lemma_parse_enc_blob_list, lemma_parse_enc_shape, lemma_parse_enc_u32,
    parse_blob_list, parse_blob_list_exec, parse_shape, parse_shape_exec, parse_u32,
    parse_u32_exec, shape_bounded,
};
use crate::derives::{derives_for_spec, rules_view, DerivesRegistry};
use crate::paths::path_view;
use crate::registry::{
    copy_ids, variants_view, DescriptorModel, PortableTypeRegistry, ShapeModel, TypeDescriptor,
    TypeShape,
};
use crate::substitute::{subs_value, subs_view, TypeSubstitutes};

verus! {

/// One generated local type definition.
#[derive(Clone, Debug, PartialEq, Eq)]
pub struct TypeDefinition {
    /// The descriptor id this definition was generated from; references
    /// from other definitions resolve to it by this id.
    pub id: u32,
    /// The capability annotations attached to this definition.
    pub derives: Vec<Vec<u8>>,
    /// The structural body, referencing other definitions by id.
    pub body: TypeShape,
}

/// The mathematical value of a generated definition.
pub struct DefinitionModel {
    pub id: u32,
    pub derives: Seq<Seq<u8>>,
    pub body: ShapeModel,
}

impl View for TypeDefinition {
    type V = DefinitionModel;

    open spec fn view(&self) -> DefinitionModel {
        DefinitionModel { id: self.id, derives: path_view(self.derives@), body: self.body@ }
    }
}

/// The mathematical value of a definition list.
pub open spec fn defs_view(v: Seq<TypeDefinition>) -> Seq<DefinitionModel> {
    v.map(|i: int, d: TypeDefinition| d@)
}

/// One binding of a substituted descriptor to its local replacement.
#[derive(Clone, Debug, PartialEq, Eq)]
pub struct SubstitutionBinding {
    /// The descriptor id that is not generated.
    pub id: u32,
    /// The local path references to that id resolve to instead.
    pub local: Vec<Vec<u8>>,
}

/// The mathematical value of a binding list.
pub open spec fn bindings_view(v: Seq<SubstitutionBinding>) -> Seq<(u32, Seq<Seq<u8>>)> {
    v.map(|i: int, b: SubstitutionBinding| (b.id, path_view(b.local@)))
}

/// Whether a descriptor is covered by a substitution: it has a foreign
/// origin and that origin is registered.
pub open spec fn substituted(
    d: DescriptorModel,
    subs: Seq<(Seq<Seq<u8>>, Seq<Seq<u8>>)>,
) -> bool {
    d.origin.len() > 0 && subs_value(subs, d.origin) is Some
}

/// The definitions generated from `entries`, in registry order: one per
/// descriptor not covered by a substitution, carrying the annotations
/// the derive rules give its id and the descriptor's own shape.
/// Substituted descriptors get no definition, and no derive rule applies
/// to them: the local replacement's own annotations are authoritative.
pub open spec fn gen_defs(
    entries: Seq<DescriptorModel>,
    subs: Seq<(Seq<Seq<u8>>, Seq<Seq<u8>>)>,
    rules: Seq<crate::derives::DeriveRuleModel>,
) -> Seq<DefinitionModel>
    decreases entries.len(),
{
    if entries.len() == 0 {
        Seq::empty()
    } else {
        let head: Seq<DefinitionModel> = if substituted(entries[0], subs) {
            Seq::empty()
        } else {
            seq![
                DefinitionModel {
                    id: entries[0].id,
                    derives: derives_for_spec(rules, entries[0].id),
                    body: entries[0].shape,
                },
            ]
        };
        head + gen_defs(entries.skip(1), subs, rules)
    }
}

/// The bindings generated from `entries`, in registry order: one per
/// substituted descriptor, to its registered local replacement.
pub open spec fn gen_bindings(
    entries: Seq<DescriptorModel>,
    subs: Seq<(Seq<Seq<u8>>, Seq<Seq<u8>>)>,
) -> Seq<(u32, Seq<Seq<u8>>)>
    decreases entries.len(),
{
    if entries.len() == 0 {
        Seq::empty()
    } else {
        let head: Seq<(u32, Seq<Seq<u8>>)> = if substituted(entries[0], subs) {
            seq![(entries[0].id, subs_value(subs, entries[0].origin)->0)]
        } else {
            Seq::empty()
        };
        head + gen_bindings(entries.skip(1), subs)
    }
}

/// Every descriptor yields exactly one output: a definition or a
/// binding, never both and never neither.
pub proof fn lemma_generation_covers_registry(
    entries: Seq<DescriptorModel>,
    subs: Seq<(Seq<Seq<u8>>, Seq<Seq<u8>>)>,
    rules: Seq<crate::derives::DeriveRuleModel>,
)
    ensures
        gen_defs(entries, subs, rules).len() + gen_bindings(entries, subs).len() == entries.len(),
    decreases entries.len(),
{
    if entries.len() > 0 {
        lemma_generation_covers_registry(entries.skip(1), subs, rules);
    }
}

/// With no substitution covering any descriptor, generation emits one
/// definition per descriptor, in order, keeping its id and shape —
/// including shapes that reference their own id, which stay representable
/// through id indirection.
pub proof fn lemma_generation_unsubstituted(
    entries: Seq<DescriptorModel>,
    subs: Seq<(Seq<Seq<u8>>, Seq<Seq<u8>>)>,
    rules: Seq<crate::derives::DeriveRuleModel>,
)
    requires
        forall|i: int| 0 <= i < entries.len() ==> !substituted(#[trigger] entries[i], subs),
    ensures
        gen_defs(entries, subs, rules).len() == entries.len(),
        forall|i: int|
            0 <= i < entries.len() ==> #[trigger] gen_defs(entries, subs, rules)[i] == (
            DefinitionModel {
                id: entries[i].id,
                derives: derives_for_spec(rules, entries[i].id),
                body: entries[i].shape,
            }),
    decreases entries.len(),
{
    if entries.len() > 0 {
        assert(forall|i: int|
            0 <= i < entries.skip(1).len() ==> entries.skip(1)[i] == entries[i + 1]);
        lemma_generation_unsubstituted(entries.skip(1), subs, rules);
        let d0 = DefinitionModel {
            id: entries[0].id,
            derives: derives_for_spec(rules, entries[0].id),
            body: entries[0].shape,
        };
        assert(gen_defs(entries, subs, rules) == seq![d0] + gen_defs(entries.skip(1), subs, rules));
    }
}

/// A copy of a variant list.
pub fn copy_variants(v: &Vec<Vec<u32>>) -> (r: Vec<Vec<u32>>)
    ensures
        variants_view(r@) == variants_view(v@),
{
    let mut out: Vec<Vec<u32>> = Vec::new();
    let mut i: usize = 0;
    while i < v.len()
        invariant
            0 <= i <= v@.len(),
            out@.len() == i,
            forall|j: int| 0 <= j < i ==> variants_view(out@)[j] == variants_view(v@)[j],
        decreases v@.len() - i,
    {
        let fields = copy_ids(&v[i]);
        assert(fields@ == v@[i as int]@);
        out.push(fields);
        i = i + 1;
    }
    assert(variants_view(out@) =~= variants_view(v@));
    out
}

/// A copy of a shape.
pub fn copy_shape(s: &TypeShape) -> (r: TypeShape)
    ensures
        r@ == s@,
{
    match s {
        TypeShape::Primitive(k) => TypeShape::Primitive(*k),
        TypeShape::Composite(fields) => TypeShape::Composite(copy_ids(fields)),
        TypeShape::Variant(variants) => TypeShape::Variant(copy_variants(variants)),
        TypeShape::Sequence(element) => TypeShape::Sequence(*element),
        TypeShape::Tuple(elements) => TypeShape::Tuple(copy_ids(elements)),
        TypeShape::Compact(inner) => TypeShape::Compact(*inner),
        TypeShape::Parameter(index) => TypeShape::Parameter(*index),
    }
}

/// Compiles the descriptors from position `i` on.
fn generate_from(
    types: &PortableTypeRegistry,
    i: usize,
    substitutes: &TypeSubstitutes,
    derives: &DerivesRegistry,
) -> (r: (Vec<TypeDefinition>, Vec<SubstitutionBinding>))
    requires
        i <= types.entries@.len(),
    ensures
        defs_view(r.0@) == gen_defs(
            types@.skip(i as int),
            subs_view(substitutes.entries@),
            rules_view(derives.rules@),
        ),
        bindings_view(r.1@) == gen_bindings(types@.skip(i as int), subs_view(substitutes.entries@)),
    decreases types.entries@.len() - i,
{
    if i < types.entries.len() {
        proof {
            assert(types@.skip(i as int)[0] == types@[i as int]);
            assert(types@.skip(i as int).skip(1) =~= types@.skip(i as int + 1));
            assert(types@[i as int] == types.entries@[i as int]@);
        }
        let (mut defs, mut bindings) = generate_from(types, i + 1, substitutes, derives);
        let entry = &types.entries[i];
        let is_foreign = entry.origin.len() > 0;
        if is_foreign {
            match substitutes.lookup(&entry.origin) {
                Some(local) => {
                    let ghost tail = bindings_view(bindings@);
                    let ghost lm = path_view(local@);
                    bindings.insert(0, SubstitutionBinding { id: entry.id, local });
                    proof {
                        assert(bindings_view(bindings@) =~= seq![(types@[i as int].id, lm)] + tail);
                        assert(substituted(types@[i as int], subs_view(substitutes.entries@)));
                    }
                    return (defs, bindings);
                },
                None => {},
            }
        }
        assert(!substituted(types@[i as int], subs_view(substitutes.entries@)));
        let ghost tail = defs_view(defs@);
        let def = TypeDefinition {
            id: entry.id,
            derives: derives.derives_for(entry.id),
            body: copy_shape(&entry.shape),
        };
        let ghost dm = def@;
        defs.insert(0, def);
        proof {
            assert(defs_view(defs@) =~= seq![dm] + tail);
        }
        (defs, bindings)
    } else {
        let defs: Vec<TypeDefinition> = Vec::new();
        let bindings: Vec<SubstitutionBinding> = Vec::new();
        proof {
            assert(types@.skip(i as int) =~= Seq::<DescriptorModel>::empty());
            assert(defs_view(defs@) =~= Seq::<DefinitionModel>::empty());
            assert(bindings_view(bindings@) =~= Seq::<(u32, Seq<Seq<u8>>)>::empty());
        }
        (defs, bindings)
    }
}

/// Whether a definition's lists fit their count fields.
pub open spec fn definition_bounded(d: DefinitionModel) -> bool {
    &&& blobs_bounded(d.derives)
    &&& shape_bounded(d.body)
}

/// The binary encoding of a generated definition: its id, its
/// annotations, and its body, in the same wire format the metadata
/// itself uses.
pub open spec fn enc_definition(d: DefinitionModel) -> Seq<u8> {
    enc_u32(d.id) + enc_blob_list(d.derives) + enc_shape(d.body)
}

/// Reads a definition from the front of `s`.
pub open spec fn parse_definition(s: Seq<u8>) -> Option<(DefinitionModel, Seq<u8>)> {
    match parse_u32(s) {
        Some((id, r)) => match parse_blob_list(r) {
            Some((derives, r2)) => match parse_shape(r2) {
                Some((body, r3)) => Some((DefinitionModel { id, derives, body }, r3)),
                None => None,
            },
            None => None,
        },
        None => None,
    }
}

/// Round trip: decoding an encoded definition reproduces exactly the
/// encoded value, for every definition whose lists fit the format.
pub proof fn lemma_definition_round_trip(d: DefinitionModel, rest: Seq<u8>)
    requires
        definition_bounded(d),
    ensures
        parse_definition(enc_definition(d) + rest) == Some((d, rest)),
{
    assert(enc_definition(d) + rest =~= enc_u32(d.id) + (enc_blob_list(d.derives) + (enc_shape(
        d.body,
    ) + rest)));
    lemma_parse_enc_u32(d.id, enc_blob_list(d.derives) + (enc_shape(d.body) + rest));
    lemma_parse_enc_blob_list(d.derives, enc_shape(d.body) + rest);
    lemma_parse_enc_shape(d.body, rest);
}

/// Encodes a definition in the binary wire format.
pub fn encode_definition(d: &TypeDefinition) -> (r: Vec<u8>)
    requires
        definition_bounded(d@),
    ensures
        r@ == enc_definition(d@),
{
    let mut out: Vec<u8> = Vec::new();
    encode_u32_into(d.id, &mut out);
    encode_blob_list_into(&d.derives, &mut out);
    encode_shape_into(&d.body, &mut out);
    assert(out@ =~= enc_definition(d@));
    out
}

/// Decodes a definition from a byte buffer, requiring the buffer to be
/// exactly one encoded definition.
pub fn decode_definition(bytes: &Vec<u8>) -> (r: Option<TypeDefinition>)
    ensures
        r is Some <==> (parse_definition(bytes@) matches Some((d, rem)) && rem.len() == 0),
        r matches Some(v) ==> (parse_definition(bytes@) matches Some((d, rem)) && d == v@),
{
    match parse_u32_exec(bytes.as_slice()) {
        Some((id, r1)) => match parse_blob_list_exec(r1) {
            Some((derives, r2)) => match parse_shape_exec(r2) {
                Some((body, r3)) => {
                    if r3.len() == 0 {
                        Some(TypeDefinition { id, derives, body })
                    } else {
                        None
                    }
                },
                None => None,
            },
            None => None,
        },
        None => None,
    }
}

/// Compiles a registry against the substitution and derive registries:
/// one definition per non-substituted descriptor and one binding per
/// substituted one, both in registry order. Neither input registry is
/// changed. Terminates on any registry, reference cycles included, and
/// the output is a function of the inputs alone.
pub fn generate_definitions(
    types: &PortableTypeRegistry,
    substitutes: &TypeSubstitutes,
    derives: &DerivesRegistry,
) -> (r: (Vec<TypeDefinition>, Vec<SubstitutionBinding>))
    ensures
        defs_view(r.0@) == gen_defs(
            types@,
            subs_view(substitutes.entries@),
            rules_view(derives.rules@),
        ),
        bindings_view(r.1@) == gen_bindings(types@, subs_view(substitutes.entries@)),
{
    let r = generate_from(types, 0, substitutes, derives);
    proof {
        assert(types@.skip(0) =~= types@);
    }
    r
}

} // verus!
