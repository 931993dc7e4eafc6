//! The binary wire format.
//!
//! Every multi-byte integer is four bytes little-endian. A byte string
//! (blob) is a length followed by its bytes; a list is a count followed
//! by its elements. A shape is a tag byte followed by its payload, and a
//! descriptor is its id, its origin path, and its shape. Encoding and
//! parsing are specified as total mathematical functions, and parsing an
//! encoding is proved to give back the encoded value.

use vstd::prelude::*;

use crate::paths::path_view;
use crate::registry::{
    descriptors_view, variants_view, DescriptorModel, PortableTypeRegistry, PrimitiveKind,
    ShapeModel, TypeDescriptor, TypeShape,
};
use vstd::slice::{slice_index_get, slice_subrange, slice_to_vec};

verus! {

/// Whether a length fits the four-byte length field.
pub open spec fn fits(n: int) -> bool {
    0 <= n < 0x1_0000_0000
}

/// Four little-endian bytes of `n`.
pub open spec fn enc_u32(n: u32) -> Seq<u8> {
    seq![
        (n & 0xff) as u8,
        ((n >> 8) & 0xff) as u8,
        ((n >> 16) & 0xff) as u8,
        ((n >> 24) & 0xff) as u8,
    ]
}

/// The value of four little-endian bytes.
pub open spec fn u32_of_le(b0: u8, b1: u8, b2: u8, b3: u8) -> u32 {
    (b0 as u32) | ((b1 as u32) << 8) | ((b2 as u32) << 16) | ((b3 as u32) << 24)
}

/// Reads a four-byte little-endian integer from the front of `s`.
pub open spec fn parse_u32(s: Seq<u8>) -> Option<(u32, Seq<u8>)> {
    if s.len() >= 4 {
        Some((u32_of_le(s[0], s[1], s[2], s[3]), s.skip(4)))
    } else {
        None
    }
}

pub proof fn lemma_parse_enc_u32(n: u32, rest: Seq<u8>)
    ensures
        parse_u32(enc_u32(n) + rest) == Some((n, rest)),
{
    let s = enc_u32(n) + rest;
    assert(u32_of_le(
        (n & 0xff) as u8,
        ((n >> 8) & 0xff) as u8,
        ((n >> 16) & 0xff) as u8,
        ((n >> 24) & 0xff) as u8,
    ) == n) by (bit_vector);
    assert(s.skip(4) =~= rest);
}

/// A length-prefixed byte string.
pub open spec fn enc_blob(b: Seq<u8>) -> Seq<u8> {
    enc_u32(b.len() as u32) + b
}

/// Reads a length-prefixed byte string from the front of `s`.
pub open spec fn parse_blob(s: Seq<u8>) -> Option<(Seq<u8>, Seq<u8>)> {
    match parse_u32(s) {
        Some((n, r)) => if r.len() >= n {
            Some((r.take(n as int), r.skip(n as int)))
        } else {
            None
        },
        None => None,
    }
}

pub proof fn lemma_parse_enc_blob(b: Seq<u8>, rest: Seq<u8>)
    requires
        fits(b.len() as int),
    ensures
        parse_blob(enc_blob(b) + rest) == Some((b, rest)),
{
    assert(enc_blob(b) + rest =~= enc_u32(b.len() as u32) + (b + rest));
    lemma_parse_enc_u32(b.len() as u32, b + rest);
    assert((b + rest).take(b.len() as int) =~= b);
    assert((b + rest).skip(b.len() as int) =~= rest);
}

/// The elements of an id list, in order.
pub open spec fn enc_id_items(s: Seq<u32>) -> Seq<u8>
    decreases s.len(),
{
    if s.len() == 0 {
        Seq::empty()
    } else {
        enc_u32(s[0]) + enc_id_items(s.skip(1))
    }
}

/// A count-prefixed id list.
pub open spec fn enc_id_list(s: Seq<u32>) -> Seq<u8> {
    enc_u32(s.len() as u32) + enc_id_items(s)
}

/// Reads `n` four-byte ids from the front of `s`.
pub open spec fn parse_id_items(s: Seq<u8>, n: nat) -> Option<(Seq<u32>, Seq<u8>)>
    decreases n,
{
    if n == 0 {
        Some((Seq::empty(), s))
    } else {
        match parse_u32(s) {
            Some((v, r)) => match parse_id_items(r, (n - 1) as nat) {
                Some((vs, r2)) => Some((seq![v] + vs, r2)),
                None => None,
            },
            None => None,
        }
    }
}

/// Reads a count-prefixed id list from the front of `s`.
pub open spec fn parse_id_list(s: Seq<u8>) -> Option<(Seq<u32>, Seq<u8>)> {
    match parse_u32(s) {
        Some((n, r)) => parse_id_items(r, n as nat),
        None => None,
    }
}

pub proof fn lemma_parse_enc_id_items(s: Seq<u32>, rest: Seq<u8>)
    ensures
        parse_id_items(enc_id_items(s) + rest, s.len()) == Some((s, rest)),
    decreases s.len(),
{
    if s.len() == 0 {
        assert(enc_id_items(s) + rest =~= rest);
        assert(Seq::<u32>::empty() =~= s);
    } else {
        assert(enc_id_items(s) + rest =~= enc_u32(s[0]) + (enc_id_items(s.skip(1)) + rest));
        lemma_parse_enc_u32(s[0], enc_id_items(s.skip(1)) + rest);
        lemma_parse_enc_id_items(s.skip(1), rest);
        assert(seq![s[0]] + s.skip(1) =~= s);
    }
}

pub proof fn lemma_parse_enc_id_list(s: Seq<u32>, rest: Seq<u8>)
    requires
        fits(s.len() as int),
    ensures
        parse_id_list(enc_id_list(s) + rest) == Some((s, rest)),
{
    assert(enc_id_list(s) + rest =~= enc_u32(s.len() as u32) + (enc_id_items(s) + rest));
    lemma_parse_enc_u32(s.len() as u32, enc_id_items(s) + rest);
    lemma_parse_enc_id_items(s, rest);
}

/// Whether each byte string of a list fits its length field, and the
/// list its count field.
pub open spec fn blobs_bounded(s: Seq<Seq<u8>>) -> bool {
    &&& fits(s.len() as int)
    &&& forall|i: int| 0 <= i < s.len() ==> fits(#[trigger] s[i].len() as int)
}

/// The elements of a byte-string list, in order.
pub open spec fn enc_blob_items(s: Seq<Seq<u8>>) -> Seq<u8>
    decreases s.len(),
{
    if s.len() == 0 {
        Seq::empty()
    } else {
        enc_blob(s[0]) + enc_blob_items(s.skip(1))
    }
}

/// A count-prefixed list of byte strings: an origin path's segments or a
/// definition's annotation names.
pub open spec fn enc_blob_list(s: Seq<Seq<u8>>) -> Seq<u8> {
    enc_u32(s.len() as u32) + enc_blob_items(s)
}

/// Reads `n` length-prefixed byte strings from the front of `s`.
pub open spec fn parse_blob_items(s: Seq<u8>, n: nat) -> Option<(Seq<Seq<u8>>, Seq<u8>)>
    decreases n,
{
    if n == 0 {
        Some((Seq::empty(), s))
    } else {
        match parse_blob(s) {
            Some((v, r)) => match parse_blob_items(r, (n - 1) as nat) {
                Some((vs, r2)) => Some((seq![v] + vs, r2)),
                None => None,
            },
            None => None,
        }
    }
}

/// Reads a count-prefixed list of byte strings from the front of `s`.
pub open spec fn parse_blob_list(s: Seq<u8>) -> Option<(Seq<Seq<u8>>, Seq<u8>)> {
    match parse_u32(s) {
        Some((n, r)) => parse_blob_items(r, n as nat),
        None => None,
    }
}

#[verifier::rlimit(100)]
#[verifier::spinoff_prover]
pub proof fn lemma_parse_enc_blob_items(s: Seq<Seq<u8>>, rest: Seq<u8>)
    requires
        forall|i: int| 0 <= i < s.len() ==> fits(#[trigger] s[i].len() as int),
    ensures
        parse_blob_items(enc_blob_items(s) + rest, s.len()) == Some((s, rest)),
    decreases s.len(),
{
    if s.len() == 0 {
        assert(enc_blob_items(s) + rest =~= rest);
        assert(Seq::<Seq<u8>>::empty() =~= s);
    } else {
        assert(enc_blob_items(s) + rest =~= enc_blob(s[0]) + (enc_blob_items(s.skip(1)) + rest));
        lemma_parse_enc_blob(s[0], enc_blob_items(s.skip(1)) + rest);
        lemma_parse_enc_blob_items(s.skip(1), rest);
        assert(seq![s[0]] + s.skip(1) =~= s);
    }
}

pub proof fn lemma_parse_enc_blob_list(s: Seq<Seq<u8>>, rest: Seq<u8>)
    requires
        blobs_bounded(s),
    ensures
        parse_blob_list(enc_blob_list(s) + rest) == Some((s, rest)),
{
    assert(enc_blob_list(s) + rest =~= enc_u32(s.len() as u32) + (enc_blob_items(s) + rest));
    lemma_parse_enc_u32(s.len() as u32, enc_blob_items(s) + rest);
    lemma_parse_enc_blob_items(s, rest);
}

/// Whether each variant's field list fits its count field.
pub open spec fn variants_bounded(s: Seq<Seq<u32>>) -> bool {
    &&& fits(s.len() as int)
    &&& forall|i: int| 0 <= i < s.len() ==> fits(#[trigger] s[i].len() as int)
}

/// The elements of a variant list, in order: one id list per variant.
pub open spec fn enc_variant_items(s: Seq<Seq<u32>>) -> Seq<u8>
    decreases s.len(),
{
    if s.len() == 0 {
        Seq::empty()
    } else {
        enc_id_list(s[0]) + enc_variant_items(s.skip(1))
    }
}

/// A count-prefixed list of variants.
pub open spec fn enc_variant_list(s: Seq<Seq<u32>>) -> Seq<u8> {
    enc_u32(s.len() as u32) + enc_variant_items(s)
}

/// Reads `n` id lists from the front of `s`.
pub open spec fn parse_variant_items(s: Seq<u8>, n: nat) -> Option<(Seq<Seq<u32>>, Seq<u8>)>
    decreases n,
{
    if n == 0 {
        Some((Seq::empty(), s))
    } else {
        match parse_id_list(s) {
            Some((v, r)) => match parse_variant_items(r, (n - 1) as nat) {
                Some((vs, r2)) => Some((seq![v] + vs, r2)),
                None => None,
            },
            None => None,
        }
    }
}

/// Reads a count-prefixed list of variants from the front of `s`.
pub open spec fn parse_variant_list(s: Seq<u8>) -> Option<(Seq<Seq<u32>>, Seq<u8>)> {
    match parse_u32(s) {
        Some((n, r)) => parse_variant_items(r, n as nat),
        None => None,
    }
}

#[verifier::rlimit(100)]
#[verifier::spinoff_prover]
pub proof fn lemma_parse_enc_variant_items(s: Seq<Seq<u32>>, rest: Seq<u8>)
    requires
        forall|i: int| 0 <= i < s.len() ==> fits(#[trigger] s[i].len() as int),
    ensures
        parse_variant_items(enc_variant_items(s) + rest, s.len()) == Some((s, rest)),
    decreases s.len(),
{
    if s.len() == 0 {
        assert(enc_variant_items(s) + rest =~= rest);
        assert(Seq::<Seq<u32>>::empty() =~= s);
    } else {
        assert(enc_variant_items(s) + rest =~= enc_id_list(s[0]) + (enc_variant_items(s.skip(1))
            + rest));
        lemma_parse_enc_id_list(s[0], enc_variant_items(s.skip(1)) + rest);
        lemma_parse_enc_variant_items(s.skip(1), rest);
        assert(seq![s[0]] + s.skip(1) =~= s);
    }
}

pub proof fn lemma_parse_enc_variant_list(s: Seq<Seq<u32>>, rest: Seq<u8>)
    requires
        variants_bounded(s),
    ensures
        parse_variant_list(enc_variant_list(s) + rest) == Some((s, rest)),
{
    assert(enc_variant_list(s) + rest =~= enc_u32(s.len() as u32) + (enc_variant_items(s) + rest));
    lemma_parse_enc_u32(s.len() as u32, enc_variant_items(s) + rest);
    lemma_parse_enc_variant_items(s, rest);
}

/// The wire byte of a primitive kind.
pub open spec fn kind_byte(k: PrimitiveKind) -> u8 {
    match k {
        PrimitiveKind::Bool => 0,
        PrimitiveKind::Char => 1,
        PrimitiveKind::Str => 2,
        PrimitiveKind::U8 => 3,
        PrimitiveKind::U16 => 4,
        PrimitiveKind::U32 => 5,
        PrimitiveKind::U64 => 6,
        PrimitiveKind::U128 => 7,
        PrimitiveKind::I8 => 8,
        PrimitiveKind::I16 => 9,
        PrimitiveKind::I32 => 10,
        PrimitiveKind::I64 => 11,
        PrimitiveKind::I128 => 12,
    }
}

/// The primitive kind of a wire byte, if any.
pub open spec fn kind_of_byte(b: u8) -> Option<PrimitiveKind> {
    if b == 0 {
        Some(PrimitiveKind::Bool)
    } else if b == 1 {
        Some(PrimitiveKind::Char)
    } else if b == 2 {
        Some(PrimitiveKind::Str)
    } else if b == 3 {
        Some(PrimitiveKind::U8)
    } else if b == 4 {
        Some(PrimitiveKind::U16)
    } else if b == 5 {
        Some(PrimitiveKind::U32)
    } else if b == 6 {
        Some(PrimitiveKind::U64)
    } else if b == 7 {
        Some(PrimitiveKind::U128)
    } else if b == 8 {
        Some(PrimitiveKind::I8)
    } else if b == 9 {
        Some(PrimitiveKind::I16)
    } else if b == 10 {
        Some(PrimitiveKind::I32)
    } else if b == 11 {
        Some(PrimitiveKind::I64)
    } else if b == 12 {
        Some(PrimitiveKind::I128)
    } else {
        None
    }
}

/// Whether a shape's lists fit their count fields.
pub open spec fn shape_bounded(s: ShapeModel) -> bool {
    match s {
        ShapeModel::Primitive(_) => true,
        ShapeModel::Composite(fields) => fits(fields.len() as int),
        ShapeModel::Variant(variants) => variants_bounded(variants),
        ShapeModel::Sequence(_) => true,
        ShapeModel::Tuple(elements) => fits(elements.len() as int),
        ShapeModel::Compact(_) => true,
        ShapeModel::Parameter(_) => true,
    }
}

/// A shape: a tag byte followed by the tag's payload.
pub open spec fn enc_shape(s: ShapeModel) -> Seq<u8> {
    match s {
        ShapeModel::Primitive(k) => seq![1u8, kind_byte(k)],
        ShapeModel::Composite(fields) => seq![2u8] + enc_id_list(fields),
        ShapeModel::Variant(variants) => seq![3u8] + enc_variant_list(variants),
        ShapeModel::Sequence(element) => seq![4u8] + enc_u32(element),
        ShapeModel::Tuple(elements) => seq![5u8] + enc_id_list(elements),
        ShapeModel::Compact(inner) => seq![6u8] + enc_u32(inner),
        ShapeModel::Parameter(index) => seq![7u8] + enc_u32(index),
    }
}

/// Reads a shape from the front of `s`.
pub open spec fn parse_shape(s: Seq<u8>) -> Option<(ShapeModel, Seq<u8>)> {
    if s.len() < 1 {
        None
    } else {
        let t = s[0];
        let r = s.skip(1);
        if t == 1 {
            if r.len() >= 1 && kind_of_byte(r[0]) is Some {
                Some((ShapeModel::Primitive(kind_of_byte(r[0])->0), r.skip(1)))
            } else {
                None
            }
        } else if t == 2 {
            match parse_id_list(r) {
                Some((fields, r2)) => Some((ShapeModel::Composite(fields), r2)),
                None => None,
            }
        } else if t == 3 {
            match parse_variant_list(r) {
                Some((variants, r2)) => Some((ShapeModel::Variant(variants), r2)),
                None => None,
            }
        } else if t == 4 {
            match parse_u32(r) {
                Some((element, r2)) => Some((ShapeModel::Sequence(element), r2)),
                None => None,
            }
        } else if t == 5 {
            match parse_id_list(r) {
                Some((elements, r2)) => Some((ShapeModel::Tuple(elements), r2)),
                None => None,
            }
        } else if t == 6 {
            match parse_u32(r) {
                Some((inner, r2)) => Some((ShapeModel::Compact(inner), r2)),
                None => None,
            }
        } else if t == 7 {
            match parse_u32(r) {
                Some((index, r2)) => Some((ShapeModel::Parameter(index), r2)),
                None => None,
            }
        } else {
            None
        }
    }
}

pub proof fn lemma_parse_enc_shape(s: ShapeModel, rest: Seq<u8>)
    requires
        shape_bounded(s),
    ensures
        parse_shape(enc_shape(s) + rest) == Some((s, rest)),
{
    match s {
        ShapeModel::Primitive(k) => {
            let w = enc_shape(s) + rest;
            assert(w.skip(1).skip(1) =~= rest);
            assert(w.skip(1)[0] == kind_byte(k));
            assert(kind_of_byte(kind_byte(k)) == Some(k));
        },
        ShapeModel::Composite(fields) => {
            assert(enc_shape(s) + rest =~= seq![2u8] + (enc_id_list(fields) + rest));
            assert((seq![2u8] + (enc_id_list(fields) + rest)).skip(1) =~= enc_id_list(fields)
                + rest);
            lemma_parse_enc_id_list(fields, rest);
        },
        ShapeModel::Variant(variants) => {
            assert(enc_shape(s) + rest =~= seq![3u8] + (enc_variant_list(variants) + rest));
            assert((seq![3u8] + (enc_variant_list(variants) + rest)).skip(1) =~= enc_variant_list(
                variants,
            ) + rest);
            lemma_parse_enc_variant_list(variants, rest);
        },
        ShapeModel::Sequence(element) => {
            assert(enc_shape(s) + rest =~= seq![4u8] + (enc_u32(element) + rest));
            assert((seq![4u8] + (enc_u32(element) + rest)).skip(1) =~= enc_u32(element) + rest);
            lemma_parse_enc_u32(element, rest);
        },
        ShapeModel::Tuple(elements) => {
            assert(enc_shape(s) + rest =~= seq![5u8] + (enc_id_list(elements) + rest));
            assert((seq![5u8] + (enc_id_list(elements) + rest)).skip(1) =~= enc_id_list(elements)
                + rest);
            lemma_parse_enc_id_list(elements, rest);
        },
        ShapeModel::Compact(inner) => {
            assert(enc_shape(s) + rest =~= seq![6u8] + (enc_u32(inner) + rest));
            assert((seq![6u8] + (enc_u32(inner) + rest)).skip(1) =~= enc_u32(inner) + rest);
            lemma_parse_enc_u32(inner, rest);
        },
        ShapeModel::Parameter(index) => {
            assert(enc_shape(s) + rest =~= seq![7u8] + (enc_u32(index) + rest));
            assert((seq![7u8] + (enc_u32(index) + rest)).skip(1) =~= enc_u32(index) + rest);
            lemma_parse_enc_u32(index, rest);
        },
    }
}

/// Whether a descriptor's lists fit their count fields.
pub open spec fn descriptor_bounded(d: DescriptorModel) -> bool {
    &&& blobs_bounded(d.origin)
    &&& shape_bounded(d.shape)
}

/// A descriptor: its id, its origin path, and its shape.
pub open spec fn enc_descriptor(d: DescriptorModel) -> Seq<u8> {
    enc_u32(d.id) + enc_blob_list(d.origin) + enc_shape(d.shape)
}

/// Reads a descriptor from the front of `s`.
pub open spec fn parse_descriptor(s: Seq<u8>) -> Option<(DescriptorModel, Seq<u8>)> {
    match parse_u32(s) {
        Some((id, r)) => match parse_blob_list(r) {
            Some((origin, r2)) => match parse_shape(r2) {
                Some((shape, r3)) => Some((DescriptorModel { id, origin, shape }, r3)),
                None => None,
            },
            None => None,
        },
        None => None,
    }
}

pub proof fn lemma_parse_enc_descriptor(d: DescriptorModel, rest: Seq<u8>)
    requires
        descriptor_bounded(d),
    ensures
        parse_descriptor(enc_descriptor(d) + rest) == Some((d, rest)),
{
    assert(enc_descriptor(d) + rest =~= enc_u32(d.id) + (enc_blob_list(d.origin) + (enc_shape(
        d.shape,
    ) + rest)));
    lemma_parse_enc_u32(d.id, enc_blob_list(d.origin) + (enc_shape(d.shape) + rest));
    lemma_parse_enc_blob_list(d.origin, enc_shape(d.shape) + rest);
    lemma_parse_enc_shape(d.shape, rest);
}

/// Whether a registry's descriptors and entry count fit their fields.
pub open spec fn registry_bounded(s: Seq<DescriptorModel>) -> bool {
    &&& fits(s.len() as int)
    &&& forall|i: int| 0 <= i < s.len() ==> descriptor_bounded(#[trigger] s[i])
}

/// The entries of a registry, in order.
pub open spec fn enc_descriptor_items(s: Seq<DescriptorModel>) -> Seq<u8>
    decreases s.len(),
{
    if s.len() == 0 {
        Seq::empty()
    } else {
        enc_descriptor(s[0]) + enc_descriptor_items(s.skip(1))
    }
}

/// A count-prefixed registry of descriptors.
pub open spec fn enc_registry(s: Seq<DescriptorModel>) -> Seq<u8> {
    enc_u32(s.len() as u32) + enc_descriptor_items(s)
}

/// Reads `n` descriptors from the front of `s`.
pub open spec fn parse_descriptor_items(s: Seq<u8>, n: nat) -> Option<
    (Seq<DescriptorModel>, Seq<u8>),
>
    decreases n,
{
    if n == 0 {
        Some((Seq::empty(), s))
    } else {
        match parse_descriptor(s) {
            Some((v, r)) => match parse_descriptor_items(r, (n - 1) as nat) {
                Some((vs, r2)) => Some((seq![v] + vs, r2)),
                None => None,
            },
            None => None,
        }
    }
}

/// Reads a count-prefixed registry from the front of `s`.
pub open spec fn parse_registry(s: Seq<u8>) -> Option<(Seq<DescriptorModel>, Seq<u8>)> {
    match parse_u32(s) {
        Some((n, r)) => parse_descriptor_items(r, n as nat),
        None => None,
    }
}

#[verifier::rlimit(100)]
#[verifier::spinoff_prover]
pub proof fn lemma_parse_enc_descriptor_items(s: Seq<DescriptorModel>, rest: Seq<u8>)
    requires
        forall|i: int| 0 <= i < s.len() ==> descriptor_bounded(#[trigger] s[i]),
    ensures
        parse_descriptor_items(enc_descriptor_items(s) + rest, s.len()) == Some((s, rest)),
    decreases s.len(),
{
    if s.len() == 0 {
        assert(enc_descriptor_items(s) + rest =~= rest);
        assert(Seq::<DescriptorModel>::empty() =~= s);
    } else {
        assert(enc_descriptor_items(s) + rest =~= enc_descriptor(s[0]) + (enc_descriptor_items(
            s.skip(1),
        ) + rest));
        lemma_parse_enc_descriptor(s[0], enc_descriptor_items(s.skip(1)) + rest);
        lemma_parse_enc_descriptor_items(s.skip(1), rest);
        assert(seq![s[0]] + s.skip(1) =~= s);
    }
}

pub proof fn lemma_parse_enc_registry(s: Seq<DescriptorModel>, rest: Seq<u8>)
    requires
        registry_bounded(s),
    ensures
        parse_registry(enc_registry(s) + rest) == Some((s, rest)),
{
    assert(enc_registry(s) + rest =~= enc_u32(s.len() as u32) + (enc_descriptor_items(s) + rest));
    lemma_parse_enc_u32(s.len() as u32, enc_descriptor_items(s) + rest);
    lemma_parse_enc_descriptor_items(s, rest);
}

/// Appends the four little-endian bytes of `n`.
pub fn encode_u32_into(n: u32, out: &mut Vec<u8>)
    ensures
        final(out)@ == old(out)@ + enc_u32(n),
{
    proof {
        assert(n & 0xff < 256 && (n >> 8) & 0xff < 256 && (n >> 16) & 0xff < 256 && (n >> 24)
            & 0xff < 256) by (bit_vector);
    }
    out.push((n & 0xff) as u8);
    out.push(((n >> 8) & 0xff) as u8);
    out.push(((n >> 16) & 0xff) as u8);
    out.push(((n >> 24) & 0xff) as u8);
    assert(out@ =~= old(out)@ + enc_u32(n));
}

/// Appends a length-prefixed byte string.
pub fn encode_blob_into(b: &Vec<u8>, out: &mut Vec<u8>)
    requires
        fits(b@.len() as int),
    ensures
        final(out)@ == old(out)@ + enc_blob(b@),
{
    encode_u32_into(b.len() as u32, out);
    let mut i: usize = 0;
    while i < b.len()
        invariant
            0 <= i <= b@.len(),
            fits(b@.len() as int),
            out@ == old(out)@ + enc_u32(b@.len() as u32) + b@.take(i as int),
        decreases b@.len() - i,
    {
        out.push(b[i]);
        assert(out@ =~= old(out)@ + enc_u32(b@.len() as u32) + b@.take(i + 1));
        i = i + 1;
    }
    assert(out@ =~= old(out)@ + enc_blob(b@));
}

/// Appends the elements of `v` from position `i` on.
pub fn encode_id_items_from(v: &Vec<u32>, i: usize, out: &mut Vec<u8>)
    requires
        i <= v@.len(),
    ensures
        final(out)@ == old(out)@ + enc_id_items(v@.skip(i as int)),
    decreases v@.len() - i,
{
    if i < v.len() {
        encode_u32_into(v[i], out);
        encode_id_items_from(v, i + 1, out);
        proof {
            assert(v@.skip(i as int).skip(1) =~= v@.skip(i as int + 1));
            assert(v@.skip(i as int)[0] == v@[i as int]);
            assert(out@ =~= old(out)@ + enc_id_items(v@.skip(i as int)));
        }
    } else {
        assert(v@.skip(i as int) =~= Seq::<u32>::empty());
        assert(out@ =~= old(out)@ + enc_id_items(v@.skip(i as int)));
    }
}

/// Appends a count-prefixed id list.
pub fn encode_id_list_into(v: &Vec<u32>, out: &mut Vec<u8>)
    requires
        fits(v@.len() as int),
    ensures
        final(out)@ == old(out)@ + enc_id_list(v@),
{
    encode_u32_into(v.len() as u32, out);
    encode_id_items_from(v, 0, out);
    proof {
        assert(v@.skip(0) =~= v@);
        assert(out@ =~= old(out)@ + enc_id_list(v@));
    }
}

/// Appends the byte strings of `v` from position `i` on.
pub fn encode_blob_items_from(v: &Vec<Vec<u8>>, i: usize, out: &mut Vec<u8>)
    requires
        i <= v@.len(),
        forall|j: int| i <= j < v@.len() ==> fits(#[trigger] path_view(v@)[j].len() as int),
    ensures
        final(out)@ == old(out)@ + enc_blob_items(path_view(v@).skip(i as int)),
    decreases v@.len() - i,
{
    if i < v.len() {
        assert(path_view(v@)[i as int] == v@[i as int]@);
        encode_blob_into(&v[i], out);
        encode_blob_items_from(v, i + 1, out);
        proof {
            assert(path_view(v@).skip(i as int).skip(1) =~= path_view(v@).skip(i as int + 1));
            assert(path_view(v@).skip(i as int)[0] == path_view(v@)[i as int]);
            assert(out@ =~= old(out)@ + enc_blob_items(path_view(v@).skip(i as int)));
        }
    } else {
        assert(path_view(v@).skip(i as int) =~= Seq::<Seq<u8>>::empty());
        assert(out@ =~= old(out)@ + enc_blob_items(path_view(v@).skip(i as int)));
    }
}

/// Appends a count-prefixed list of byte strings.
pub fn encode_blob_list_into(v: &Vec<Vec<u8>>, out: &mut Vec<u8>)
    requires
        blobs_bounded(path_view(v@)),
    ensures
        final(out)@ == old(out)@ + enc_blob_list(path_view(v@)),
{
    encode_u32_into(v.len() as u32, out);
    encode_blob_items_from(v, 0, out);
    proof {
        assert(path_view(v@).skip(0) =~= path_view(v@));
        assert(out@ =~= old(out)@ + enc_blob_list(path_view(v@)));
    }
}

/// Appends the variants of `v` from position `i` on.
pub fn encode_variant_items_from(v: &Vec<Vec<u32>>, i: usize, out: &mut Vec<u8>)
    requires
        i <= v@.len(),
        forall|j: int| i <= j < v@.len() ==> fits(#[trigger] variants_view(v@)[j].len() as int),
    ensures
        final(out)@ == old(out)@ + enc_variant_items(variants_view(v@).skip(i as int)),
    decreases v@.len() - i,
{
    if i < v.len() {
        assert(variants_view(v@)[i as int] == v@[i as int]@);
        encode_id_list_into(&v[i], out);
        encode_variant_items_from(v, i + 1, out);
        proof {
            assert(variants_view(v@).skip(i as int).skip(1) =~= variants_view(v@).skip(
                i as int + 1,
            ));
            assert(variants_view(v@).skip(i as int)[0] == variants_view(v@)[i as int]);
            assert(out@ =~= old(out)@ + enc_variant_items(variants_view(v@).skip(i as int)));
        }
    } else {
        assert(variants_view(v@).skip(i as int) =~= Seq::<Seq<u32>>::empty());
        assert(out@ =~= old(out)@ + enc_variant_items(variants_view(v@).skip(i as int)));
    }
}

/// Appends a count-prefixed variant list.
pub fn encode_variant_list_into(v: &Vec<Vec<u32>>, out: &mut Vec<u8>)
    requires
        variants_bounded(variants_view(v@)),
    ensures
        final(out)@ == old(out)@ + enc_variant_list(variants_view(v@)),
{
    encode_u32_into(v.len() as u32, out);
    encode_variant_items_from(v, 0, out);
    proof {
        assert(variants_view(v@).skip(0) =~= variants_view(v@));
        assert(out@ =~= old(out)@ + enc_variant_list(variants_view(v@)));
    }
}

/// The wire byte of a primitive kind.
pub fn kind_to_byte(k: &PrimitiveKind) -> (r: u8)
    ensures
        r == kind_byte(*k),
{
    match k {
        PrimitiveKind::Bool => 0,
        PrimitiveKind::Char => 1,
        PrimitiveKind::Str => 2,
        PrimitiveKind::U8 => 3,
        PrimitiveKind::U16 => 4,
        PrimitiveKind::U32 => 5,
        PrimitiveKind::U64 => 6,
        PrimitiveKind::U128 => 7,
        PrimitiveKind::I8 => 8,
        PrimitiveKind::I16 => 9,
        PrimitiveKind::I32 => 10,
        PrimitiveKind::I64 => 11,
        PrimitiveKind::I128 => 12,
    }
}

/// The primitive kind of a wire byte, if any.
pub fn byte_to_kind(b: u8) -> (r: Option<PrimitiveKind>)
    ensures
        r == kind_of_byte(b),
{
    if b == 0 {
        Some(PrimitiveKind::Bool)
    } else if b == 1 {
        Some(PrimitiveKind::Char)
    } else if b == 2 {
        Some(PrimitiveKind::Str)
    } else if b == 3 {
        Some(PrimitiveKind::U8)
    } else if b == 4 {
        Some(PrimitiveKind::U16)
    } else if b == 5 {
        Some(PrimitiveKind::U32)
    } else if b == 6 {
        Some(PrimitiveKind::U64)
    } else if b == 7 {
        Some(PrimitiveKind::U128)
    } else if b == 8 {
        Some(PrimitiveKind::I8)
    } else if b == 9 {
        Some(PrimitiveKind::I16)
    } else if b == 10 {
        Some(PrimitiveKind::I32)
    } else if b == 11 {
        Some(PrimitiveKind::I64)
    } else if b == 12 {
        Some(PrimitiveKind::I128)
    } else {
        None
    }
}

/// Appends a tag byte and the shape's payload.
pub fn encode_shape_into(s: &TypeShape, out: &mut Vec<u8>)
    requires
        shape_bounded(s@),
    ensures
        final(out)@ == old(out)@ + enc_shape(s@),
{
    match s {
        TypeShape::Primitive(k) => {
            out.push(1u8);
            out.push(kind_to_byte(k));
            assert(out@ =~= old(out)@ + enc_shape(s@));
        },
        TypeShape::Composite(fields) => {
            out.push(2u8);
            encode_id_list_into(fields, out);
            assert(out@ =~= old(out)@ + enc_shape(s@));
        },
        TypeShape::Variant(variants) => {
            out.push(3u8);
            encode_variant_list_into(variants, out);
            assert(out@ =~= old(out)@ + enc_shape(s@));
        },
        TypeShape::Sequence(element) => {
            out.push(4u8);
            encode_u32_into(*element, out);
            assert(out@ =~= old(out)@ + enc_shape(s@));
        },
        TypeShape::Tuple(elements) => {
            out.push(5u8);
            encode_id_list_into(elements, out);
            assert(out@ =~= old(out)@ + enc_shape(s@));
        },
        TypeShape::Compact(inner) => {
            out.push(6u8);
            encode_u32_into(*inner, out);
            assert(out@ =~= old(out)@ + enc_shape(s@));
        },
        TypeShape::Parameter(index) => {
            out.push(7u8);
            encode_u32_into(*index, out);
            assert(out@ =~= old(out)@ + enc_shape(s@));
        },
    }
}

/// Appends a descriptor: its id, its origin path, and its shape.
pub fn encode_descriptor_into(d: &TypeDescriptor, out: &mut Vec<u8>)
    requires
        descriptor_bounded(d@),
    ensures
        final(out)@ == old(out)@ + enc_descriptor(d@),
{
    encode_u32_into(d.id, out);
    encode_blob_list_into(&d.origin, out);
    encode_shape_into(&d.shape, out);
    assert(out@ =~= old(out)@ + enc_descriptor(d@));
}

/// Appends the descriptors of `v` from position `i` on.
pub fn encode_descriptor_items_from(v: &Vec<TypeDescriptor>, i: usize, out: &mut Vec<u8>)
    requires
        i <= v@.len(),
        forall|j: int| i <= j < v@.len() ==> descriptor_bounded(#[trigger] descriptors_view(v@)[j]),
    ensures
        final(out)@ == old(out)@ + enc_descriptor_items(descriptors_view(v@).skip(i as int)),
    decreases v@.len() - i,
{
    if i < v.len() {
        assert(descriptors_view(v@)[i as int] == v@[i as int]@);
        encode_descriptor_into(&v[i], out);
        encode_descriptor_items_from(v, i + 1, out);
        proof {
            assert(descriptors_view(v@).skip(i as int).skip(1) =~= descriptors_view(v@).skip(
                i as int + 1,
            ));
            assert(descriptors_view(v@).skip(i as int)[0] == descriptors_view(v@)[i as int]);
            assert(out@ =~= old(out)@ + enc_descriptor_items(descriptors_view(v@).skip(i as int)));
        }
    } else {
        assert(descriptors_view(v@).skip(i as int) =~= Seq::<DescriptorModel>::empty());
        assert(out@ =~= old(out)@ + enc_descriptor_items(descriptors_view(v@).skip(i as int)));
    }
}

/// Appends a count-prefixed registry.
pub fn encode_registry_into(v: &Vec<TypeDescriptor>, out: &mut Vec<u8>)
    requires
        registry_bounded(descriptors_view(v@)),
    ensures
        final(out)@ == old(out)@ + enc_registry(descriptors_view(v@)),
{
    encode_u32_into(v.len() as u32, out);
    encode_descriptor_items_from(v, 0, out);
    proof {
        assert(descriptors_view(v@).skip(0) =~= descriptors_view(v@));
        assert(out@ =~= old(out)@ + enc_registry(descriptors_view(v@)));
    }
}

/// Reads a four-byte little-endian integer from the front of `s`.
pub fn parse_u32_exec<'a>(s: &'a [u8]) -> (r: Option<(u32, &'a [u8])>)
    ensures
        r is Some <==> parse_u32(s@) is Some,
        r matches Some((v, rest)) ==> parse_u32(s@) == Some((v, rest@)),
{
    if s.len() >= 4 {
        let b0 = *slice_index_get(s, 0);
        let b1 = *slice_index_get(s, 1);
        let b2 = *slice_index_get(s, 2);
        let b3 = *slice_index_get(s, 3);
        let v = (b0 as u32) | ((b1 as u32) << 8u32) | ((b2 as u32) << 16u32) | ((b3 as u32)
            << 24u32);
        let rest = slice_subrange(s, 4, s.len());
        proof {
            assert(rest@ =~= s@.skip(4));
        }
        Some((v, rest))
    } else {
        None
    }
}

/// Reads a length-prefixed byte string from the front of `s`.
pub fn parse_blob_exec<'a>(s: &'a [u8]) -> (r: Option<(Vec<u8>, &'a [u8])>)
    ensures
        r is Some <==> parse_blob(s@) is Some,
        r matches Some((v, rest)) ==> parse_blob(s@) == Some((v@, rest@)),
{
    match parse_u32_exec(s) {
        Some((n, r1)) => {
            let n_usize = n as usize;
            if r1.len() >= n_usize {
                let body = slice_to_vec(slice_subrange(r1, 0, n_usize));
                let rest = slice_subrange(r1, n_usize, r1.len());
                proof {
                    assert(body@ =~= r1@.take(n as int));
                    assert(rest@ =~= r1@.skip(n as int));
                }
                Some((body, rest))
            } else {
                None
            }
        },
        None => None,
    }
}

/// Reads `n` four-byte ids from the front of `s`.
pub fn parse_id_items_exec<'a>(n: u32, s: &'a [u8]) -> (r: Option<(Vec<u32>, &'a [u8])>)
    ensures
        r is Some <==> parse_id_items(s@, n as nat) is Some,
        r matches Some((vs, rest)) ==> parse_id_items(s@, n as nat) == Some((vs@, rest@)),
    decreases n,
{
    if n == 0 {
        Some((Vec::new(), s))
    } else {
        match parse_u32_exec(s) {
            Some((v, r1)) => match parse_id_items_exec(n - 1, r1) {
                Some((mut vs, r2)) => {
                    let ghost tail = vs@;
                    vs.insert(0, v);
                    proof {
                        assert(vs@ =~= seq![v] + tail);
                    }
                    Some((vs, r2))
                },
                None => None,
            },
            None => None,
        }
    }
}

/// Reads a count-prefixed id list from the front of `s`.
pub fn parse_id_list_exec<'a>(s: &'a [u8]) -> (r: Option<(Vec<u32>, &'a [u8])>)
    ensures
        r is Some <==> parse_id_list(s@) is Some,
        r matches Some((vs, rest)) ==> parse_id_list(s@) == Some((vs@, rest@)),
{
    match parse_u32_exec(s) {
        Some((n, r1)) => parse_id_items_exec(n, r1),
        None => None,
    }
}

/// Reads `n` length-prefixed byte strings from the front of `s`.
pub fn parse_blob_items_exec<'a>(n: u32, s: &'a [u8]) -> (r: Option<(Vec<Vec<u8>>, &'a [u8])>)
    ensures
        r is Some <==> parse_blob_items(s@, n as nat) is Some,
        r matches Some((vs, rest)) ==> parse_blob_items(s@, n as nat) == Some(
            (path_view(vs@), rest@),
        ),
    decreases n,
{
    if n == 0 {
        let out: Vec<Vec<u8>> = Vec::new();
        assert(path_view(out@) =~= Seq::<Seq<u8>>::empty());
        Some((out, s))
    } else {
        match parse_blob_exec(s) {
            Some((v, r1)) => match parse_blob_items_exec(n - 1, r1) {
                Some((mut vs, r2)) => {
                    let ghost tail = path_view(vs@);
                    let ghost vv = v@;
                    vs.insert(0, v);
                    proof {
                        assert(path_view(vs@) =~= seq![vv] + tail);
                    }
                    Some((vs, r2))
                },
                None => None,
            },
            None => None,
        }
    }
}

/// Reads a count-prefixed list of byte strings from the front of `s`.
pub fn parse_blob_list_exec<'a>(s: &'a [u8]) -> (r: Option<(Vec<Vec<u8>>, &'a [u8])>)
    ensures
        r is Some <==> parse_blob_list(s@) is Some,
        r matches Some((vs, rest)) ==> parse_blob_list(s@) == Some((path_view(vs@), rest@)),
{
    match parse_u32_exec(s) {
        Some((n, r1)) => parse_blob_items_exec(n, r1),
        None => None,
    }
}

/// Reads `n` id lists from the front of `s`.
pub fn parse_variant_items_exec<'a>(n: u32, s: &'a [u8]) -> (r: Option<(Vec<Vec<u32>>, &'a [u8])>)
    ensures
        r is Some <==> parse_variant_items(s@, n as nat) is Some,
        r matches Some((vs, rest)) ==> parse_variant_items(s@, n as nat) == Some(
            (variants_view(vs@), rest@),
        ),
    decreases n,
{
    if n == 0 {
        let out: Vec<Vec<u32>> = Vec::new();
        assert(variants_view(out@) =~= Seq::<Seq<u32>>::empty());
        Some((out, s))
    } else {
        match parse_id_list_exec(s) {
            Some((v, r1)) => match parse_variant_items_exec(n - 1, r1) {
                Some((mut vs, r2)) => {
                    let ghost tail = variants_view(vs@);
                    let ghost vv = v@;
                    vs.insert(0, v);
                    proof {
                        assert(variants_view(vs@) =~= seq![vv] + tail);
                    }
                    Some((vs, r2))
                },
                None => None,
            },
            None => None,
        }
    }
}

/// Reads a count-prefixed variant list from the front of `s`.
pub fn parse_variant_list_exec<'a>(s: &'a [u8]) -> (r: Option<(Vec<Vec<u32>>, &'a [u8])>)
    ensures
        r is Some <==> parse_variant_list(s@) is Some,
        r matches Some((vs, rest)) ==> parse_variant_list(s@) == Some((variants_view(vs@), rest@)),
{
    match parse_u32_exec(s) {
        Some((n, r1)) => parse_variant_items_exec(n, r1),
        None => None,
    }
}

/// Reads a shape from the front of `s`.
pub fn parse_shape_exec<'a>(s: &'a [u8]) -> (r: Option<(TypeShape, &'a [u8])>)
    ensures
        r is Some <==> parse_shape(s@) is Some,
        r matches Some((v, rest)) ==> parse_shape(s@) == Some((v@, rest@)),
{
    if s.len() < 1 {
        None
    } else {
        let t = *slice_index_get(s, 0);
        let r1 = slice_subrange(s, 1, s.len());
        proof {
            assert(r1@ =~= s@.skip(1));
        }
        if t == 1 {
            if r1.len() >= 1 {
                match byte_to_kind(*slice_index_get(r1, 0)) {
                    Some(k) => {
                        let r2 = slice_subrange(r1, 1, r1.len());
                        proof {
                            assert(r2@ =~= r1@.skip(1));
                        }
                        Some((TypeShape::Primitive(k), r2))
                    },
                    None => None,
                }
            } else {
                None
            }
        } else if t == 2 {
            match parse_id_list_exec(r1) {
                Some((fields, r2)) => Some((TypeShape::Composite(fields), r2)),
                None => None,
            }
        } else if t == 3 {
            match parse_variant_list_exec(r1) {
                Some((variants, r2)) => Some((TypeShape::Variant(variants), r2)),
                None => None,
            }
        } else if t == 4 {
            match parse_u32_exec(r1) {
                Some((element, r2)) => Some((TypeShape::Sequence(element), r2)),
                None => None,
            }
        } else if t == 5 {
            match parse_id_list_exec(r1) {
                Some((elements, r2)) => Some((TypeShape::Tuple(elements), r2)),
                None => None,
            }
        } else if t == 6 {
            match parse_u32_exec(r1) {
                Some((inner, r2)) => Some((TypeShape::Compact(inner), r2)),
                None => None,
            }
        } else if t == 7 {
            match parse_u32_exec(r1) {
                Some((index, r2)) => Some((TypeShape::Parameter(index), r2)),
                None => None,
            }
        } else {
            None
        }
    }
}

/// Reads a descriptor from the front of `s`.
pub fn parse_descriptor_exec<'a>(s: &'a [u8]) -> (r: Option<(TypeDescriptor, &'a [u8])>)
    ensures
        r is Some <==> parse_descriptor(s@) is Some,
        r matches Some((v, rest)) ==> parse_descriptor(s@) == Some((v@, rest@)),
{
    match parse_u32_exec(s) {
        Some((id, r1)) => match parse_blob_list_exec(r1) {
            Some((origin, r2)) => match parse_shape_exec(r2) {
                Some((shape, r3)) => Some((TypeDescriptor { id, origin, shape }, r3)),
                None => None,
            },
            None => None,
        },
        None => None,
    }
}

/// Reads `n` descriptors from the front of `s`.
pub fn parse_descriptor_items_exec<'a>(n: u32, s: &'a [u8]) -> (r: Option<
    (Vec<TypeDescriptor>, &'a [u8]),
>)
    ensures
        r is Some <==> parse_descriptor_items(s@, n as nat) is Some,
        r matches Some((vs, rest)) ==> parse_descriptor_items(s@, n as nat) == Some(
            (descriptors_view(vs@), rest@),
        ),
    decreases n,
{
    if n == 0 {
        let out: Vec<TypeDescriptor> = Vec::new();
        assert(descriptors_view(out@) =~= Seq::<DescriptorModel>::empty());
        Some((out, s))
    } else {
        match parse_descriptor_exec(s) {
            Some((v, r1)) => match parse_descriptor_items_exec(n - 1, r1) {
                Some((mut vs, r2)) => {
                    let ghost tail = descriptors_view(vs@);
                    let ghost vv = v@;
                    vs.insert(0, v);
                    proof {
                        assert(descriptors_view(vs@) =~= seq![vv] + tail);
                    }
                    Some((vs, r2))
                },
                None => None,
            },
            None => None,
        }
    }
}

/// Reads a count-prefixed registry from the front of `s`.
pub fn parse_registry_exec<'a>(s: &'a [u8]) -> (r: Option<(Vec<TypeDescriptor>, &'a [u8])>)
    ensures
        r is Some <==> parse_registry(s@) is Some,
        r matches Some((vs, rest)) ==> parse_registry(s@) == Some((descriptors_view(vs@), rest@)),
{
    match parse_u32_exec(s) {
        Some((n, r1)) => parse_descriptor_items_exec(n, r1),
        None => None,
    }
}

} // verus!
