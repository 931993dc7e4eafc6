//! The versioned metadata envelope.
//!
//! An envelope is a version discriminant byte followed by a
//! length-prefixed payload holding an encoded registry. Discriminants 14
//! (stable) and 15 (unstable-compatible) are accepted; any other
//! discriminant is rejected as unsupported. A truncated envelope, a bad
//! length prefix, trailing bytes, or a registry that is not well formed
//! (duplicate ids or dangling references) is malformed: no partial
//! registry is ever exposed.

use vstd::prelude::*;

use crate::codec::{
    enc_blob, enc_registry, encode_registry_into, fits, parse_blob, parse_blob_exec,
    parse_registry, parse_registry_exec, lemma_parse_enc_blob, lemma_parse_enc_registry,
    registry_bounded,
};
use crate::registry::{
    check_registry_wf, registry_wf, DescriptorModel, PortableTypeRegistry, VersionedRegistry,
};
use vstd::slice::slice_subrange;

verus! {

/// Why a byte buffer failed to decode.
#[derive(Clone, Copy, Debug, PartialEq, Eq, Structural)]
pub enum DecodeError {
    /// The version discriminant is not a supported schema version; the
    /// rejected discriminant is carried for diagnostics.
    UnsupportedVersion(u8),
    /// The envelope is truncated, its length prefix is wrong, it has
    /// trailing bytes, or its registry is not well formed.
    Malformed,
}

/// The mathematical value of a decoded envelope.
pub struct EnvelopeModel {
    pub version: u8,
    pub types: Seq<DescriptorModel>,
}

/// The two accepted version discriminants: 14 is the stable schema, 15
/// the unstable-compatible one.
pub open spec fn supported_version(tag: u8) -> bool {
    tag == 14 || tag == 15
}

/// The encoding of an envelope: the version discriminant, then the
/// encoded registry as a length-prefixed payload.
pub open spec fn enc_envelope(e: EnvelopeModel) -> Seq<u8> {
    seq![e.version] + enc_blob(enc_registry(e.types))
}

/// What decoding a byte buffer yields: the unique envelope it encodes,
/// or the error that rejects it.
pub open spec fn spec_decode_envelope(s: Seq<u8>) -> Result<EnvelopeModel, DecodeError> {
    if s.len() == 0 {
        Err(DecodeError::Malformed)
    } else if !supported_version(s[0]) {
        Err(DecodeError::UnsupportedVersion(s[0]))
    } else {
        match parse_blob(s.skip(1)) {
            Some((payload, after)) => if after.len() != 0 {
                Err(DecodeError::Malformed)
            } else {
                match parse_registry(payload) {
                    Some((types, rem)) => if rem.len() != 0 {
                        Err(DecodeError::Malformed)
                    } else if !registry_wf(types) {
                        Err(DecodeError::Malformed)
                    } else {
                        Ok(EnvelopeModel { version: s[0], types })
                    },
                    None => Err(DecodeError::Malformed),
                }
            },
            None => Err(DecodeError::Malformed),
        }
    }
}

/// Decoding inverts encoding: a well-formed, bounded registry wrapped in
/// a supported envelope decodes back to exactly the encoded value.
pub proof fn lemma_envelope_round_trip(e: EnvelopeModel)
    requires
        supported_version(e.version),
        registry_bounded(e.types),
        registry_wf(e.types),
        fits(enc_registry(e.types).len() as int),
    ensures
        spec_decode_envelope(enc_envelope(e)) == Ok::<EnvelopeModel, DecodeError>(e),
{
    let payload = enc_registry(e.types);
    let s = enc_envelope(e);
    assert(s[0] == e.version);
    assert(s.skip(1) =~= enc_blob(payload) + Seq::<u8>::empty());
    lemma_parse_enc_blob(payload, Seq::empty());
    lemma_parse_enc_registry(e.types, Seq::empty());
    assert(enc_registry(e.types) + Seq::<u8>::empty() =~= payload);
}

/// Decodes a metadata byte buffer into a version-tagged registry.
///
/// The version discriminant is inspected first: an unrecognized
/// discriminant is rejected as `UnsupportedVersion` carrying that
/// discriminant, and no registry is produced. A malformed envelope is
/// rejected as `Malformed`. On success the registry is well formed and
/// the version tag is retained. Decoding is pure and performs no I/O.
pub fn decode_envelope(bytes: &Vec<u8>) -> (r: Result<VersionedRegistry, DecodeError>)
    ensures
        r is Ok <==> spec_decode_envelope(bytes@) is Ok,
        r matches Ok(v) ==> spec_decode_envelope(bytes@) == Ok::<EnvelopeModel, DecodeError>(
            EnvelopeModel { version: v.spec_version(), types: v.spec_registry()@ },
        ),
        r matches Ok(v) ==> registry_wf(v.spec_registry()@),
        r matches Err(e) ==> spec_decode_envelope(bytes@) == Err::<EnvelopeModel, DecodeError>(e),
        bytes@.len() == 0 ==> r == Err::<VersionedRegistry, DecodeError>(DecodeError::Malformed),
        bytes@.len() > 0 && !supported_version(bytes@[0]) ==> r == Err::<
            VersionedRegistry,
            DecodeError,
        >(DecodeError::UnsupportedVersion(bytes@[0])),
{
    let s = bytes.as_slice();
    if s.len() == 0 {
        return Err(DecodeError::Malformed);
    }
    let tag = s[0];
    if tag != 14 && tag != 15 {
        return Err(DecodeError::UnsupportedVersion(tag));
    }
    let r1 = slice_subrange(s, 1, s.len());
    proof {
        assert(r1@ =~= s@.skip(1));
    }
    match parse_blob_exec(r1) {
        Some((payload, after)) => {
            if after.len() != 0 {
                return Err(DecodeError::Malformed);
            }
            match parse_registry_exec(payload.as_slice()) {
                Some((entries, rem)) => {
                    if rem.len() != 0 {
                        return Err(DecodeError::Malformed);
                    }
                    let reg = PortableTypeRegistry { entries };
                    if !check_registry_wf(&reg) {
                        return Err(DecodeError::Malformed);
                    }
                    if tag == 14 {
                        Ok(VersionedRegistry::V14(reg))
                    } else {
                        Ok(VersionedRegistry::V15(reg))
                    }
                },
                None => Err(DecodeError::Malformed),
            }
        },
        None => Err(DecodeError::Malformed),
    }
}

/// Encodes a version-tagged registry as an envelope, the inverse of
/// `decode_envelope`. Yields nothing only when the encoded registry is
/// too large for the length prefix.
pub fn encode_envelope(v: &VersionedRegistry) -> (r: Option<Vec<u8>>)
    requires
        registry_bounded(v.spec_registry()@),
    ensures
        r matches Some(out) ==> out@ == enc_envelope(
            EnvelopeModel { version: v.spec_version(), types: v.spec_registry()@ },
        ),
        r is None ==> !fits(enc_registry(v.spec_registry()@).len() as int),
{
    let mut payload: Vec<u8> = Vec::new();
    let tag: u8 = match v {
        VersionedRegistry::V14(reg) => {
            encode_registry_into(&reg.entries, &mut payload);
            14u8
        },
        VersionedRegistry::V15(reg) => {
            encode_registry_into(&reg.entries, &mut payload);
            15u8
        },
    };
    assert(payload@ == enc_registry(v.spec_registry()@));
    if payload.len() > (u32::MAX as usize) {
        return None;
    }
    let mut out: Vec<u8> = Vec::new();
    out.push(tag);
    crate::codec::encode_u32_into(payload.len() as u32, &mut out);
    let mut i: usize = 0;
    while i < payload.len()
        invariant
            0 <= i <= payload@.len(),
            fits(payload@.len() as int),
            out@ == seq![v.spec_version()] + crate::codec::enc_u32(payload@.len() as u32)
                + payload@.take(i as int),
        decreases payload@.len() - i,
    {
        out.push(payload[i]);
        assert(out@ =~= seq![v.spec_version()] + crate::codec::enc_u32(payload@.len() as u32)
            + payload@.take(i + 1));
        i = i + 1;
    }
    proof {
        assert(payload@.take(payload@.len() as int) =~= payload@);
        assert(out@ =~= enc_envelope(
            EnvelopeModel { version: v.spec_version(), types: v.spec_registry()@ },
        ));
    }
    Some(out)
}

} // verus!
