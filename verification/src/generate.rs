//! The orchestration: from metadata bytes to the assembled namespace.
//!
//! Mirrors one invocation end to end: decode the envelope, register the
//! two standard bit-order substitutions against the caller's namespace,
//! start the derive rules from the unconditional binary-encoding rule,
//! compile the registry, and assemble the namespace. The registries are
//! built fresh per invocation and discarded afterwards; no state crosses
//! invocations.

use vstd::prelude::*;

use crate::assemble::{
    assemble_namespace, bits_local, bits_local_path, seg_bitvec, seg_lsb0, seg_msb0, seg_order,
    shim_model, shim_view, word_bitvec, word_lsb0, word_msb0, word_order, GeneratedNamespace,
};
use crate::compile::{bindings_view, defs_view, gen_bindings, gen_defs, generate_definitions};
use crate::derives::{codec_annotation, DeriveRuleModel, DerivesRegistry};
use crate::envelope::{decode_envelope, spec_decode_envelope, DecodeError, EnvelopeModel};
use crate::paths::{is_ident, is_valid_path, path_view};
use crate::registry::PortableTypeRegistry;
use crate::substitute::{lemma_subs_value_push, subs_value, subs_view, TypeSubstitutes};

verus! {

/// The two substitutions every invocation registers: the foreign
/// bit-order markers rewritten to their shim re-exports under the
/// caller's namespace.
pub open spec fn standard_substitutions(name: Seq<u8>) -> Seq<(Seq<Seq<u8>>, Seq<Seq<u8>>)> {
    seq![
        (seq![seg_bitvec(), seg_order(), seg_lsb0()], bits_local(name, seg_lsb0())),
        (seq![seg_bitvec(), seg_order(), seg_msb0()], bits_local(name, seg_msb0())),
    ]
}

/// The derive rules every invocation starts from: the unconditional
/// binary-encoding rule alone.
pub open spec fn default_rules() -> Seq<DeriveRuleModel> {
    seq![DeriveRuleModel { annotation: codec_annotation(), excluded: Seq::empty() }]
}

/// The standard substitution paths are well formed whenever the
/// namespace identifier is.
pub proof fn lemma_standard_paths_valid(name: Seq<u8>)
    requires
        is_ident(name),
    ensures
        is_valid_path(bits_local(name, seg_lsb0())),
        is_valid_path(bits_local(name, seg_msb0())),
{
    assert(is_ident(crate::assemble::seg_crate()));
    assert(is_ident(crate::assemble::seg_subxt()));
    assert(is_ident(crate::assemble::seg_utils()));
    assert(is_ident(crate::assemble::seg_bits()));
    assert(is_ident(seg_lsb0()));
    assert(is_ident(seg_msb0()));
}

/// Builds the foreign path `bitvec::order::<member>`.
fn bitvec_order_path(member: Vec<u8>) -> (r: Vec<Vec<u8>>)
    ensures
        path_view(r@) == seq![seg_bitvec(), seg_order(), member@],
{
    let ghost mm = member@;
    let mut p: Vec<Vec<u8>> = Vec::new();
    p.push(word_bitvec());
    p.push(word_order());
    p.push(member);
    assert(path_view(p@) =~= seq![seg_bitvec(), seg_order(), mm]);
    p
}

/// Compiles a decoded registry into the caller's namespace.
///
/// Registers the two standard bit-order substitutions — both insertions
/// provably succeed, so no panic and no error path exists here — starts
/// the derives from the unconditional binary-encoding rule, compiles the
/// registry, and assembles the namespace with the caller's pass-through
/// annotations.
pub fn generate_runtime_types(
    item_mod_name: Vec<u8>,
    item_mod_attrs: Vec<Vec<u8>>,
    types: &PortableTypeRegistry,
) -> (r: GeneratedNamespace)
    requires
        is_ident(item_mod_name@),
    ensures
        r.name@ == item_mod_name@,
        r.attrs == item_mod_attrs,
        shim_view(r.shim@) == shim_model(item_mod_name@),
        defs_view(r.definitions@) == gen_defs(
            types@,
            standard_substitutions(item_mod_name@),
            default_rules(),
        ),
        bindings_view(r.bindings@) == gen_bindings(
            types@,
            standard_substitutions(item_mod_name@),
        ),
{
    let ghost nm = item_mod_name@;
    let mut substitutes = TypeSubstitutes::new();
    let foreign_lsb = bitvec_order_path(word_lsb0());
    let local_lsb = bits_local_path(&item_mod_name, word_lsb0());
    let ghost f1 = seq![seg_bitvec(), seg_order(), seg_lsb0()];
    let ghost l1 = bits_local(nm, seg_lsb0());
    proof {
        lemma_standard_paths_valid(nm);
    }
    let r1 = substitutes.insert(foreign_lsb, local_lsb);
    proof {
        assert(subs_value(Seq::empty(), f1) is None);
        assert(subs_view(substitutes.entries@) == Seq::<(Seq<Seq<u8>>, Seq<Seq<u8>>)>::empty().push(
            (f1, l1),
        ));
    }
    match r1 {
        Ok(_) => {},
        Err(_) => {
            // A fresh registry and a proved-valid path: cannot fail.
            proof {
                assert(false);
            }
        },
    }
    let foreign_msb = bitvec_order_path(word_msb0());
    let local_msb = bits_local_path(&item_mod_name, word_msb0());
    let ghost f2 = seq![seg_bitvec(), seg_order(), seg_msb0()];
    proof {
        assert(seg_lsb0()[0] != seg_msb0()[0]);
        assert(f1[2] != f2[2]);
        assert(f1 != f2);
        lemma_subs_value_push(Seq::empty(), (f1, l1), f2);
        assert(subs_value(subs_view(substitutes.entries@), f2) is None);
    }
    let r2 = substitutes.insert(foreign_msb, local_msb);
    proof {
        assert(subs_view(substitutes.entries@) =~= standard_substitutions(nm));
    }
    match r2 {
        Ok(_) => {},
        Err(_) => {
            // The two foreign marker paths differ, so no conflict either.
            proof {
                assert(false);
            }
        },
    }
    let derives = DerivesRegistry::new();
    proof {
        assert(crate::derives::rules_view(derives.rules@) == default_rules());
    }
    let (definitions, bindings) = generate_definitions(types, &substitutes, &derives);
    assemble_namespace(item_mod_name, item_mod_attrs, definitions, bindings)
}

/// The failure exit: an unrecoverable fault aborts the embedding build
/// with the diagnostic alone, and no generated output of any kind — no
/// partial or best-effort namespace ever leaves a failed expansion.
pub fn panic(diagnostic: Vec<u8>) -> (r: (Vec<u8>, Option<GeneratedNamespace>))
    ensures
        r.0@ == diagnostic@,
        r.1 is None,
{
    (diagnostic, None)
}

/// Decodes a metadata byte buffer and, when it holds a supported
/// envelope, compiles it into the caller's namespace. A decode failure
/// is surfaced as-is and produces no output.
pub fn generate_runtime_api_from_bytes(
    item_mod_name: Vec<u8>,
    item_mod_attrs: Vec<Vec<u8>>,
    bytes: &Vec<u8>,
) -> (r: Result<GeneratedNamespace, DecodeError>)
    requires
        is_ident(item_mod_name@),
    ensures
        r is Ok <==> spec_decode_envelope(bytes@) is Ok,
        r matches Err(e) ==> spec_decode_envelope(bytes@) == Err::<EnvelopeModel, DecodeError>(e),
        r matches Ok(ns) ==> (spec_decode_envelope(bytes@) matches Ok(env) && {
            &&& ns.name@ == item_mod_name@
            &&& ns.attrs == item_mod_attrs
            &&& shim_view(ns.shim@) == shim_model(item_mod_name@)
            &&& defs_view(ns.definitions@) == gen_defs(
                env.types,
                standard_substitutions(item_mod_name@),
                default_rules(),
            )
            &&& bindings_view(ns.bindings@) == gen_bindings(
                env.types,
                standard_substitutions(item_mod_name@),
            )
        }),
{
    match decode_envelope(bytes) {
        Ok(versioned) => {
            let registry = versioned.into_registry();
            Ok(generate_runtime_types(item_mod_name, item_mod_attrs, &registry))
        },
        Err(e) => Err(e),
    }
}

} // verus!
