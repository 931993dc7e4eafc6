//! The namespace assembler.
//!
//! Wraps the compiler's output into the caller's namespace: the caller's
//! pass-through annotations are copied verbatim, a fixed set of
//! compatibility shim re-exports is injected, and the generated
//! definitions and substitution bindings are appended. The shim gives the
//! two bit-order markers and the binary codec facility stable paths
//! rooted at the caller's own namespace identifier, so generated
//! definitions can reference them wherever the namespace is embedded;
//! the identifier is passed in explicitly and used only to build those
//! paths.

use vstd::prelude::*;

use crate::compile::{SubstitutionBinding, TypeDefinition};
use crate::derives::copy_bytes;
use crate::paths::{is_ident, path_view};

verus! {

/// The segment `crate`.
pub open spec fn seg_crate() -> Seq<u8> {
    seq![99u8, 114u8, 97u8, 116u8, 101u8]
}

/// The segment `subxt`: the shim sub-namespace.
pub open spec fn seg_subxt() -> Seq<u8> {
    seq![115u8, 117u8, 98u8, 120u8, 116u8]
}

/// The segment `ext`.
pub open spec fn seg_ext() -> Seq<u8> {
    seq![101u8, 120u8, 116u8]
}

/// The segment `codec`.
pub open spec fn seg_codec() -> Seq<u8> {
    seq![99u8, 111u8, 100u8, 101u8, 99u8]
}

/// The segment `utils`.
pub open spec fn seg_utils() -> Seq<u8> {
    seq![117u8, 116u8, 105u8, 108u8, 115u8]
}

/// The segment `bits`.
pub open spec fn seg_bits() -> Seq<u8> {
    seq![98u8, 105u8, 116u8, 115u8]
}

/// The segment `Lsb0`: the least-significant-bit-first order marker.
pub open spec fn seg_lsb0() -> Seq<u8> {
    seq![76u8, 115u8, 98u8, 48u8]
}

/// The segment `Msb0`: the most-significant-bit-first order marker.
pub open spec fn seg_msb0() -> Seq<u8> {
    seq![77u8, 115u8, 98u8, 48u8]
}

/// The segment `DecodedBits`: the local name of the bit vector.
pub open spec fn seg_decoded_bits() -> Seq<u8> {
    seq![68u8, 101u8, 99u8, 111u8, 100u8, 101u8, 100u8, 66u8, 105u8, 116u8, 115u8]
}

/// The segment `bitvec`: the crate the bit-order markers come from.
pub open spec fn seg_bitvec() -> Seq<u8> {
    seq![98u8, 105u8, 116u8, 118u8, 101u8, 99u8]
}

/// The segment `order`.
pub open spec fn seg_order() -> Seq<u8> {
    seq![111u8, 114u8, 100u8, 101u8, 114u8]
}

/// The segment `vec`.
pub open spec fn seg_vec() -> Seq<u8> {
    seq![118u8, 101u8, 99u8]
}

/// The segment `BitVec`.
pub open spec fn seg_bit_vec() -> Seq<u8> {
    seq![66u8, 105u8, 116u8, 86u8, 101u8, 99u8]
}

/// The shim path `crate::<name>::subxt::utils::bits::<member>`.
pub open spec fn bits_local(name: Seq<u8>, member: Seq<u8>) -> Seq<Seq<u8>> {
    seq![seg_crate(), name, seg_subxt(), seg_utils(), seg_bits(), member]
}

/// The four fixed shim re-exports, rooted at the namespace `name`: the
/// binary codec facility and the two bit-order markers with the decoded
/// bit vector they order.
pub open spec fn shim_model(name: Seq<u8>) -> Seq<(Seq<Seq<u8>>, Seq<Seq<u8>>)> {
    seq![
        (
            seq![seg_crate(), name, seg_subxt(), seg_ext(), seg_codec()],
            seq![seg_codec()],
        ),
        (bits_local(name, seg_lsb0()), seq![seg_bitvec(), seg_order(), seg_lsb0()]),
        (bits_local(name, seg_msb0()), seq![seg_bitvec(), seg_order(), seg_msb0()]),
        (bits_local(name, seg_decoded_bits()), seq![seg_bitvec(), seg_vec(), seg_bit_vec()]),
    ]
}

/// One shim re-export: a stable local path and the foreign item it
/// re-exports.
#[derive(Clone, Debug, PartialEq, Eq)]
pub struct ShimReexport {
    pub local: Vec<Vec<u8>>,
    pub target: Vec<Vec<u8>>,
}

/// The mathematical value of a shim list.
pub open spec fn shim_view(v: Seq<ShimReexport>) -> Seq<(Seq<Seq<u8>>, Seq<Seq<u8>>)> {
    v.map(|i: int, e: ShimReexport| (path_view(e.local@), path_view(e.target@)))
}

/// The segment `crate`.
pub fn word_crate() -> (r: Vec<u8>)
    ensures
        r@ == seg_crate(),
{
    let v: Vec<u8> = vec![99u8, 114u8, 97u8, 116u8, 101u8];
    assert(v@ =~= seg_crate());
    v
}

/// The segment `subxt`.
pub fn word_subxt() -> (r: Vec<u8>)
    ensures
        r@ == seg_subxt(),
{
    let v: Vec<u8> = vec![115u8, 117u8, 98u8, 120u8, 116u8];
    assert(v@ =~= seg_subxt());
    v
}

/// The segment `ext`.
pub fn word_ext() -> (r: Vec<u8>)
    ensures
        r@ == seg_ext(),
{
    let v: Vec<u8> = vec![101u8, 120u8, 116u8];
    assert(v@ =~= seg_ext());
    v
}

/// The segment `codec`.
pub fn word_codec() -> (r: Vec<u8>)
    ensures
        r@ == seg_codec(),
{
    let v: Vec<u8> = vec![99u8, 111u8, 100u8, 101u8, 99u8];
    assert(v@ =~= seg_codec());
    v
}

/// The segment `utils`.
pub fn word_utils() -> (r: Vec<u8>)
    ensures
        r@ == seg_utils(),
{
    let v: Vec<u8> = vec![117u8, 116u8, 105u8, 108u8, 115u8];
    assert(v@ =~= seg_utils());
    v
}

/// The segment `bits`.
pub fn word_bits() -> (r: Vec<u8>)
    ensures
        r@ == seg_bits(),
{
    let v: Vec<u8> = vec![98u8, 105u8, 116u8, 115u8];
    assert(v@ =~= seg_bits());
    v
}

/// The segment `Lsb0`.
pub fn word_lsb0() -> (r: Vec<u8>)
    ensures
        r@ == seg_lsb0(),
{
    let v: Vec<u8> = vec![76u8, 115u8, 98u8, 48u8];
    assert(v@ =~= seg_lsb0());
    v
}

/// The segment `Msb0`.
pub fn word_msb0() -> (r: Vec<u8>)
    ensures
        r@ == seg_msb0(),
{
    let v: Vec<u8> = vec![77u8, 115u8, 98u8, 48u8];
    assert(v@ =~= seg_msb0());
    v
}

/// The segment `DecodedBits`.
pub fn word_decoded_bits() -> (r: Vec<u8>)
    ensures
        r@ == seg_decoded_bits(),
{
    let v: Vec<u8> = vec![
        68u8,
        101u8,
        99u8,
        111u8,
        100u8,
        101u8,
        100u8,
        66u8,
        105u8,
        116u8,
        115u8,
    ];
    assert(v@ =~= seg_decoded_bits());
    v
}

/// The segment `bitvec`.
pub fn word_bitvec() -> (r: Vec<u8>)
    ensures
        r@ == seg_bitvec(),
{
    let v: Vec<u8> = vec![98u8, 105u8, 116u8, 118u8, 101u8, 99u8];
    assert(v@ =~= seg_bitvec());
    v
}

/// The segment `order`.
pub fn word_order() -> (r: Vec<u8>)
    ensures
        r@ == seg_order(),
{
    let v: Vec<u8> = vec![111u8, 114u8, 100u8, 101u8, 114u8];
    assert(v@ =~= seg_order());
    v
}

/// The segment `vec`.
pub fn word_vec() -> (r: Vec<u8>)
    ensures
        r@ == seg_vec(),
{
    let v: Vec<u8> = vec![118u8, 101u8, 99u8];
    assert(v@ =~= seg_vec());
    v
}

/// The segment `BitVec`.
pub fn word_bit_vec() -> (r: Vec<u8>)
    ensures
        r@ == seg_bit_vec(),
{
    let v: Vec<u8> = vec![66u8, 105u8, 116u8, 86u8, 101u8, 99u8];
    assert(v@ =~= seg_bit_vec());
    v
}

/// Builds `crate::<name>::subxt::utils::bits::<member>`.
pub fn bits_local_path(name: &Vec<u8>, member: Vec<u8>) -> (r: Vec<Vec<u8>>)
    ensures
        path_view(r@) == bits_local(name@, member@),
{
    let ghost mm = member@;
    let mut p: Vec<Vec<u8>> = Vec::new();
    p.push(word_crate());
    p.push(copy_bytes(name));
    p.push(word_subxt());
    p.push(word_utils());
    p.push(word_bits());
    p.push(member);
    assert(path_view(p@) =~= bits_local(name@, mm));
    p
}

/// Builds the fixed shim re-exports for the namespace `name`.
pub fn standard_shim(name: &Vec<u8>) -> (r: Vec<ShimReexport>)
    ensures
        shim_view(r@) == shim_model(name@),
{
    let mut out: Vec<ShimReexport> = Vec::new();
    let mut l0: Vec<Vec<u8>> = Vec::new();
    l0.push(word_crate());
    l0.push(copy_bytes(name));
    l0.push(word_subxt());
    l0.push(word_ext());
    l0.push(word_codec());
    let mut t0: Vec<Vec<u8>> = Vec::new();
    t0.push(word_codec());
    proof {
        assert(path_view(l0@) =~= seq![seg_crate(), name@, seg_subxt(), seg_ext(), seg_codec()]);
        assert(path_view(t0@) =~= seq![seg_codec()]);
    }
    out.push(ShimReexport { local: l0, target: t0 });
    let l1 = bits_local_path(name, word_lsb0());
    let mut t1: Vec<Vec<u8>> = Vec::new();
    t1.push(word_bitvec());
    t1.push(word_order());
    t1.push(word_lsb0());
    proof {
        assert(path_view(t1@) =~= seq![seg_bitvec(), seg_order(), seg_lsb0()]);
    }
    out.push(ShimReexport { local: l1, target: t1 });
    let l2 = bits_local_path(name, word_msb0());
    let mut t2: Vec<Vec<u8>> = Vec::new();
    t2.push(word_bitvec());
    t2.push(word_order());
    t2.push(word_msb0());
    proof {
        assert(path_view(t2@) =~= seq![seg_bitvec(), seg_order(), seg_msb0()]);
    }
    out.push(ShimReexport { local: l2, target: t2 });
    let l3 = bits_local_path(name, word_decoded_bits());
    let mut t3: Vec<Vec<u8>> = Vec::new();
    t3.push(word_bitvec());
    t3.push(word_vec());
    t3.push(word_bit_vec());
    proof {
        assert(path_view(t3@) =~= seq![seg_bitvec(), seg_vec(), seg_bit_vec()]);
    }
    out.push(ShimReexport { local: l3, target: t3 });
    assert(shim_view(out@) =~= shim_model(name@));
    out
}

/// The final output: the caller's namespace, holding the pass-through
/// annotations verbatim, the fixed shim, and the compiler's output.
/// Constructed once and not changed afterwards.
#[derive(Clone, Debug, PartialEq, Eq)]
pub struct GeneratedNamespace {
    /// The caller's namespace identifier.
    pub name: Vec<u8>,
    /// The caller's pass-through annotations, copied verbatim.
    pub attrs: Vec<Vec<u8>>,
    /// The fixed compatibility shim re-exports.
    pub shim: Vec<ShimReexport>,
    /// The generated type definitions.
    pub definitions: Vec<TypeDefinition>,
    /// The bindings of substituted descriptors to local replacements.
    pub bindings: Vec<SubstitutionBinding>,
}

/// Assembles the final namespace: the pass-through annotations are
/// carried verbatim, the fixed shim for `name` is injected, and the
/// compiler's definitions and bindings are appended unchanged.
pub fn assemble_namespace(
    name: Vec<u8>,
    attrs: Vec<Vec<u8>>,
    definitions: Vec<TypeDefinition>,
    bindings: Vec<SubstitutionBinding>,
) -> (r: GeneratedNamespace)
    ensures
        r.name@ == name@,
        r.attrs == attrs,
        shim_view(r.shim@) == shim_model(name@),
        r.definitions == definitions,
        r.bindings == bindings,
{
    let shim = standard_shim(&name);
    GeneratedNamespace { name, attrs, shim, definitions, bindings }
}

} // verus!
