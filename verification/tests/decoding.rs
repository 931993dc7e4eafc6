//! Envelope decoding and the binary codec, exercised on concrete bytes.

use runtime_call_macro::compile::{decode_definition, encode_definition, TypeDefinition};
use runtime_call_macro::envelope::{decode_envelope, encode_envelope, DecodeError};
use runtime_call_macro::registry::{
    PortableTypeRegistry, PrimitiveKind, TypeDescriptor, TypeShape, VersionedRegistry,
};

fn seg(s: &str) -> Vec<u8> {
    s.as_bytes().to_vec()
}

fn path(segs: &[&str]) -> Vec<Vec<u8>> {
    segs.iter().map(|s| seg(s)).collect()
}

fn descriptor(id: u32, shape: TypeShape) -> TypeDescriptor {
    TypeDescriptor { id, origin: Vec::new(), shape }
}

fn registry(entries: Vec<TypeDescriptor>) -> PortableTypeRegistry {
    PortableTypeRegistry { entries }
}

#[test]
fn unsupported_version_is_rejected_with_the_discriminant() {
    for tag in [0u8, 1, 13, 16, 42, 255] {
        let mut bytes = vec![tag];
        bytes.extend_from_slice(&[0, 0, 0, 0]);
        let r = decode_envelope(&bytes);
        assert_eq!(r.err(), Some(DecodeError::UnsupportedVersion(tag)));
    }
}

#[test]
fn unsupported_version_wins_over_any_payload() {
    // Even garbage after the discriminant reports the version, not malformedness.
    let bytes = vec![99u8, 1, 2, 3];
    assert_eq!(decode_envelope(&bytes).err(), Some(DecodeError::UnsupportedVersion(99)));
}

#[test]
fn empty_buffer_is_malformed() {
    assert_eq!(decode_envelope(&Vec::new()).err(), Some(DecodeError::Malformed));
}

#[test]
fn truncated_envelope_is_malformed() {
    // Supported discriminant but too few bytes for the length prefix.
    assert_eq!(decode_envelope(&vec![14u8, 0, 0]).err(), Some(DecodeError::Malformed));
}

#[test]
fn wrong_length_prefix_is_malformed() {
    // Length prefix says 10 bytes, none follow.
    assert_eq!(decode_envelope(&vec![14u8, 10, 0, 0, 0]).err(), Some(DecodeError::Malformed));
}

#[test]
fn trailing_bytes_are_malformed() {
    let reg = registry(vec![descriptor(1, TypeShape::Primitive(PrimitiveKind::U32))]);
    let mut bytes = encode_envelope(&VersionedRegistry::V14(reg)).unwrap();
    bytes.push(0);
    assert_eq!(decode_envelope(&bytes).err(), Some(DecodeError::Malformed));
}

#[test]
fn envelope_round_trip_v14_and_v15() {
    let mk = || {
        registry(vec![
            descriptor(7, TypeShape::Primitive(PrimitiveKind::Bool)),
            descriptor(9, TypeShape::Sequence(7)),
        ])
    };
    let b14 = encode_envelope(&VersionedRegistry::V14(mk())).unwrap();
    let d14 = decode_envelope(&b14).unwrap();
    assert!(matches!(d14, VersionedRegistry::V14(_)));
    assert_eq!(d14.into_registry().entries, mk().entries);

    let b15 = encode_envelope(&VersionedRegistry::V15(mk())).unwrap();
    assert_eq!(b15[0], 15);
    let d15 = decode_envelope(&b15).unwrap();
    assert!(matches!(d15, VersionedRegistry::V15(_)));
    assert_eq!(d15.into_registry().entries, mk().entries);
}

#[test]
fn duplicate_ids_are_malformed() {
    let reg = registry(vec![
        descriptor(1, TypeShape::Primitive(PrimitiveKind::U8)),
        descriptor(1, TypeShape::Primitive(PrimitiveKind::U16)),
    ]);
    let bytes = encode_envelope(&VersionedRegistry::V14(reg)).unwrap();
    assert_eq!(decode_envelope(&bytes).err(), Some(DecodeError::Malformed));
}

#[test]
fn dangling_reference_is_malformed() {
    let reg = registry(vec![descriptor(1, TypeShape::Sequence(2))]);
    let bytes = encode_envelope(&VersionedRegistry::V14(reg)).unwrap();
    assert_eq!(decode_envelope(&bytes).err(), Some(DecodeError::Malformed));
}

#[test]
fn self_reference_is_accepted() {
    // A cycle is well formed: the reference set is closed.
    let reg = registry(vec![descriptor(3, TypeShape::Composite(vec![3]))]);
    let bytes = encode_envelope(&VersionedRegistry::V14(reg)).unwrap();
    let decoded = decode_envelope(&bytes).unwrap().into_registry();
    assert_eq!(decoded.entries.len(), 1);
    assert_eq!(decoded.entries[0].id, 3);
}

fn definition(id: u32, body: TypeShape) -> TypeDefinition {
    TypeDefinition { id, derives: path(&["codec::Encode"]), body }
}

fn assert_definition_round_trips(d: TypeDefinition) {
    let bytes = encode_definition(&d);
    let back = decode_definition(&bytes).unwrap();
    assert_eq!(back, d);
}

#[test]
fn definition_round_trip_primitive() {
    assert_definition_round_trips(definition(1, TypeShape::Primitive(PrimitiveKind::U32)));
}

#[test]
fn definition_round_trip_composite() {
    assert_definition_round_trips(definition(2, TypeShape::Composite(vec![1, 1])));
}

#[test]
fn definition_round_trip_variant() {
    assert_definition_round_trips(definition(3, TypeShape::Variant(vec![vec![1], vec![], vec![1, 2]])));
}

#[test]
fn definition_round_trip_sequence() {
    assert_definition_round_trips(definition(4, TypeShape::Sequence(1)));
}

#[test]
fn definition_round_trip_tuple() {
    assert_definition_round_trips(definition(5, TypeShape::Tuple(vec![1, 2, 3])));
}

#[test]
fn definition_round_trip_compact() {
    assert_definition_round_trips(definition(6, TypeShape::Compact(1)));
}

#[test]
fn definition_round_trip_parameter() {
    assert_definition_round_trips(definition(7, TypeShape::Parameter(0)));
}

#[test]
fn definition_round_trip_self_referential() {
    // A recursive definition: the body references the definition's own id.
    assert_definition_round_trips(definition(8, TypeShape::Composite(vec![8])));
}

#[test]
fn definition_decode_rejects_trailing_bytes() {
    let d = definition(1, TypeShape::Primitive(PrimitiveKind::Str));
    let mut bytes = encode_definition(&d);
    bytes.push(0);
    assert!(decode_definition(&bytes).is_none());
}
