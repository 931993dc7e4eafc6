//! Source resolution, substitution and derive registries, and the
//! end-to-end generation scenarios.

use runtime_call_macro::assemble::GeneratedNamespace;
use runtime_call_macro::compile::TypeDefinition;
use runtime_call_macro::derives::DerivesRegistry;
use runtime_call_macro::envelope::encode_envelope;
use runtime_call_macro::generate::{generate_runtime_api_from_bytes, generate_runtime_types};
use runtime_call_macro::registry::{
    PortableTypeRegistry, PrimitiveKind, TypeDescriptor, TypeShape, VersionedRegistry,
};
use runtime_call_macro::source::{
    choose_fetch_outcome, fallback_version, initial_version, resolve_source, ConfigError,
    FetchError, MetadataSource, MetadataVersion,
};
use runtime_call_macro::substitute::{SubstitutionError, TypeSubstitutes};

fn seg(s: &str) -> Vec<u8> {
    s.as_bytes().to_vec()
}

fn path(segs: &[&str]) -> Vec<Vec<u8>> {
    segs.iter().map(|s| seg(s)).collect()
}

#[test]
fn resolves_exactly_one_source() {
    let r = resolve_source(Some("a/b.scale".to_string()), None);
    assert!(matches!(r, Ok(MetadataSource::LocalPath(p)) if p == "a/b.scale"));
    let r = resolve_source(None, Some("http://node".to_string()));
    assert!(matches!(r, Ok(MetadataSource::RemoteUrl(u)) if u == "http://node"));
}

#[test]
fn resolution_fails_before_any_fetch() {
    // A fetch is only ever attempted on a resolved source; count the
    // attempts that a driver would make.
    let mut fetch_calls: u32 = 0;
    let both = resolve_source(Some("p".to_string()), Some("u".to_string()));
    assert!(matches!(both, Err(ConfigError::AmbiguousSource)));
    if both.is_ok() {
        fetch_calls += 1;
    }
    let neither = resolve_source(None, None);
    assert!(matches!(neither, Err(ConfigError::MissingSource)));
    if neither.is_ok() {
        fetch_calls += 1;
    }
    assert_eq!(fetch_calls, 0);
}

#[test]
fn reinserting_an_identical_substitution_succeeds_twice() {
    let mut subs = TypeSubstitutes::new();
    let foreign = path(&["bitvec", "order", "Lsb0"]);
    let local = path(&["crate", "runtime", "subxt", "utils", "bits", "Lsb0"]);
    assert_eq!(subs.insert(foreign.clone(), local.clone()), Ok(()));
    assert_eq!(subs.insert(foreign.clone(), local.clone()), Ok(()));
    let other = path(&["crate", "elsewhere", "Lsb0"]);
    assert_eq!(
        subs.insert(foreign, other),
        Err(SubstitutionError::DuplicateForeignPath)
    );
}

#[test]
fn substitution_validates_the_local_path() {
    let mut subs = TypeSubstitutes::new();
    let foreign = path(&["bitvec", "order", "Msb0"]);
    assert_eq!(
        subs.insert(foreign.clone(), path(&["crate", "9bad"])),
        Err(SubstitutionError::InvalidLocalPath)
    );
    assert_eq!(subs.insert(foreign.clone(), Vec::new()), Err(SubstitutionError::InvalidLocalPath));
    assert_eq!(
        subs.insert(foreign.clone(), path(&["crate", ""])),
        Err(SubstitutionError::InvalidLocalPath)
    );
    // A failed insertion leaves the registry unchanged: the key is free.
    assert_eq!(subs.insert(foreign, path(&["crate", "good_Path0"])), Ok(()));
}

#[test]
fn derive_rules_respect_exclusions_and_keep_the_default() {
    let mut derives = DerivesRegistry::new();
    derives.extend_for_all(vec![seg("scale_info::TypeInfo")], vec![7]);
    let for_common = derives.derives_for(1);
    assert_eq!(for_common, path(&["codec::Encode", "scale_info::TypeInfo"]));
    let for_excluded = derives.derives_for(7);
    assert_eq!(for_excluded, path(&["codec::Encode"]));
}

fn descriptor(id: u32, shape: TypeShape) -> TypeDescriptor {
    TypeDescriptor { id, origin: Vec::new(), shape }
}

#[test]
fn self_referential_composite_generates_one_definition() {
    // A type whose descriptor references its own id must not expand
    // forever: it becomes a single definition referencing itself by id.
    let reg = PortableTypeRegistry {
        entries: vec![descriptor(5, TypeShape::Composite(vec![5]))],
    };
    let ns = generate_runtime_types(seg("runtime"), Vec::new(), &reg);
    assert_eq!(ns.definitions.len(), 1);
    assert_eq!(ns.definitions[0].id, 5);
    assert_eq!(ns.definitions[0].body, TypeShape::Composite(vec![5]));
    assert!(ns.bindings.is_empty());
}

#[test]
fn substituted_descriptor_becomes_a_binding_not_a_definition() {
    let mut foreign_marker = descriptor(2, TypeShape::Primitive(PrimitiveKind::Bool));
    foreign_marker.origin = path(&["bitvec", "order", "Lsb0"]);
    let reg = PortableTypeRegistry {
        entries: vec![descriptor(1, TypeShape::Primitive(PrimitiveKind::U8)), foreign_marker],
    };
    let ns = generate_runtime_types(seg("runtime"), Vec::new(), &reg);
    assert_eq!(ns.definitions.len(), 1);
    assert_eq!(ns.definitions[0].id, 1);
    assert_eq!(ns.bindings.len(), 1);
    assert_eq!(ns.bindings[0].id, 2);
    assert_eq!(
        ns.bindings[0].local,
        path(&["crate", "runtime", "subxt", "utils", "bits", "Lsb0"])
    );
}

fn three_type_registry() -> PortableTypeRegistry {
    PortableTypeRegistry {
        entries: vec![
            descriptor(1, TypeShape::Primitive(PrimitiveKind::U32)),
            descriptor(2, TypeShape::Composite(vec![1, 1])),
            descriptor(3, TypeShape::Variant(vec![vec![1], vec![2]])),
        ],
    }
}

fn find_definition<'a>(ns: &'a GeneratedNamespace, id: u32) -> &'a TypeDefinition {
    let mut found = None;
    for d in &ns.definitions {
        if d.id == id {
            assert!(found.is_none(), "duplicate definition for one id");
            found = Some(d);
        }
    }
    found.expect("definition missing")
}

#[test]
fn local_v14_envelope_generates_three_definitions_and_the_shim() {
    // The file contents: a V14 envelope with a u32 primitive, a two-field
    // composite referencing it twice, and a two-variant enum.
    let bytes = encode_envelope(&VersionedRegistry::V14(three_type_registry())).unwrap();
    let attrs = path(&["doc = \"generated\""]);
    let ns = generate_runtime_api_from_bytes(seg("runtime"), attrs.clone(), &bytes).unwrap();

    assert_eq!(ns.name, seg("runtime"));
    assert_eq!(ns.attrs, attrs);
    assert_eq!(ns.definitions.len(), 3);
    assert!(ns.bindings.is_empty());

    // The fixed shim: the codec facility and the bit handling re-exports.
    assert_eq!(ns.shim.len(), 4);
    assert_eq!(ns.shim[0].local, path(&["crate", "runtime", "subxt", "ext", "codec"]));
    assert_eq!(ns.shim[0].target, path(&["codec"]));
    assert_eq!(ns.shim[1].local, path(&["crate", "runtime", "subxt", "utils", "bits", "Lsb0"]));
    assert_eq!(ns.shim[1].target, path(&["bitvec", "order", "Lsb0"]));
    assert_eq!(ns.shim[2].target, path(&["bitvec", "order", "Msb0"]));
    assert_eq!(ns.shim[3].local.last().unwrap(), &seg("DecodedBits"));
    assert_eq!(ns.shim[3].target, path(&["bitvec", "vec", "BitVec"]));

    // Both composite fields resolve to the primitive's id: one shared
    // definition, not a freshly duplicated one.
    let primitive = find_definition(&ns, 1);
    assert_eq!(primitive.body, TypeShape::Primitive(PrimitiveKind::U32));
    let composite = find_definition(&ns, 2);
    assert_eq!(composite.body, TypeShape::Composite(vec![1, 1]));
    let variant = find_definition(&ns, 3);
    assert_eq!(variant.body, TypeShape::Variant(vec![vec![1], vec![2]]));

    // Every definition carries the unconditional encoding annotation.
    for d in &ns.definitions {
        assert_eq!(d.derives, path(&["codec::Encode"]));
    }
}

#[test]
fn remote_fallback_uses_only_the_stable_payload() {
    // The unstable fetch fails with a transport error; the driver retries
    // once at the latest stable revision and succeeds.
    let stable_bytes = encode_envelope(&VersionedRegistry::V14(three_type_registry())).unwrap();
    let mut attempts: Vec<MetadataVersion> = Vec::new();
    let mut fetch = |version: MetadataVersion| -> Result<Vec<u8>, FetchError> {
        attempts.push(version);
        match version {
            MetadataVersion::Unstable => {
                Err(FetchError { message: "simulated transport error".to_string() })
            },
            MetadataVersion::Latest => Ok(stable_bytes.clone()),
        }
    };

    let first = fetch(initial_version());
    assert!(first.is_err());
    let retry_with = fallback_version(MetadataVersion::Unstable).unwrap();
    let second = fetch(retry_with);
    let outcome = choose_fetch_outcome(first, second);
    let bytes = outcome.unwrap();

    assert_eq!(attempts, vec![MetadataVersion::Unstable, MetadataVersion::Latest]);
    assert!(fallback_version(MetadataVersion::Latest).is_none());

    // The result is produced solely from the stable payload: it equals a
    // generation run straight from those bytes, with no trace of the
    // failed attempt.
    let ns = generate_runtime_api_from_bytes(seg("runtime"), Vec::new(), &bytes).unwrap();
    let direct = generate_runtime_api_from_bytes(seg("runtime"), Vec::new(), &stable_bytes).unwrap();
    assert_eq!(ns, direct);
    assert_eq!(ns.definitions.len(), 3);
}

#[test]
fn stable_retry_failure_is_the_one_surfaced() {
    let first: Result<Vec<u8>, FetchError> =
        Err(FetchError { message: "unstable failed".to_string() });
    let second: Result<Vec<u8>, FetchError> =
        Err(FetchError { message: "stable failed".to_string() });
    let outcome = choose_fetch_outcome(first, second);
    assert_eq!(outcome.err().map(|e| e.message), Some("stable failed".to_string()));
}

#[test]
fn a_failed_expansion_produces_no_output() {
    let (diagnostic, output) = runtime_call_macro::generate::panic(seg("bad metadata"));
    assert_eq!(diagnostic, seg("bad metadata"));
    assert!(output.is_none());
}

#[test]
fn derive_rule_order_is_kept() {
    let mut derives = DerivesRegistry::new();
    derives.extend_for_all(vec![seg("A"), seg("B")], Vec::new());
    derives.extend_for_all(vec![seg("C")], Vec::new());
    assert_eq!(derives.derives_for(0), path(&["codec::Encode", "A", "B", "C"]));
}

#[test]
fn successful_unstable_fetch_needs_no_retry() {
    let payload = vec![14u8];
    let first: Result<Vec<u8>, FetchError> = Ok(payload.clone());
    let second: Result<Vec<u8>, FetchError> =
        Err(FetchError { message: "never attempted".to_string() });
    assert_eq!(choose_fetch_outcome(first, second).unwrap(), payload);
}
