//! The derive/annotation registry.
//!
//! Each rule attaches one capability annotation to every generated type
//! except those whose descriptor ids the rule excludes. A fresh registry
//! holds one unconditional rule: the deterministic binary-encoding
//! capability, so every generated type stays encodable by the same codec
//! that decodes the metadata. Rule order is kept, so output is
//! deterministic.

use vstd::prelude::*;

use crate::paths::path_view;
use crate::registry::copy_ids;

verus! {

/// One derive rule: an annotation and the descriptor ids it skips.
#[derive(Clone, Debug, PartialEq, Eq)]
pub struct DeriveRule {
    pub annotation: Vec<u8>,
    pub excluded: Vec<u32>,
}

/// The mathematical value of one derive rule.
pub struct DeriveRuleModel {
    pub annotation: Seq<u8>,
    pub excluded: Seq<u32>,
}

/// The mathematical value of a rule list.
pub open spec fn rules_view(v: Seq<DeriveRule>) -> Seq<DeriveRuleModel> {
    v.map(
        |i: int, r: DeriveRule| DeriveRuleModel { annotation: r.annotation@, excluded: r.excluded@ },
    )
}

/// The registry of derive rules, in insertion order.
#[derive(Clone, Debug, PartialEq, Eq)]
pub struct DerivesRegistry {
    pub rules: Vec<DeriveRule>,
}

/// The name of the unconditional binary-encoding annotation.
pub open spec fn codec_annotation() -> Seq<u8> {
    seq![99u8, 111u8, 100u8, 101u8, 99u8, 58u8, 58u8, 69u8, 110u8, 99u8, 111u8, 100u8, 101u8]
}

/// The annotations attached to the type with descriptor id `id`: every
/// rule's annotation, in rule order, skipping rules that exclude `id`.
pub open spec fn derives_for_spec(rules: Seq<DeriveRuleModel>, id: u32) -> Seq<Seq<u8>>
    decreases rules.len(),
{
    if rules.len() == 0 {
        Seq::empty()
    } else {
        let head: Seq<Seq<u8>> = if rules[0].excluded.contains(id) {
            Seq::empty()
        } else {
            seq![rules[0].annotation]
        };
        head + derives_for_spec(rules.skip(1), id)
    }
}

/// The rules one `extend_for_all` call appends: one per annotation, all
/// with the same exclusions.
pub open spec fn rules_of(annotations: Seq<Seq<u8>>, excluded: Seq<u32>) -> Seq<DeriveRuleModel>
    decreases annotations.len(),
{
    if annotations.len() == 0 {
        Seq::empty()
    } else {
        seq![DeriveRuleModel { annotation: annotations[0], excluded }] + rules_of(
            annotations.skip(1),
            excluded,
        )
    }
}

/// The unconditional binary-encoding annotation.
pub fn default_codec_annotation() -> (r: Vec<u8>)
    ensures
        r@ == codec_annotation(),
{
    let mut v: Vec<u8> = Vec::new();
    v.push(99);
    v.push(111);
    v.push(100);
    v.push(101);
    v.push(99);
    v.push(58);
    v.push(58);
    v.push(69);
    v.push(110);
    v.push(99);
    v.push(111);
    v.push(100);
    v.push(101);
    assert(v@ =~= codec_annotation());
    v
}

/// Collects annotations for `id` from the rules from position `i` on.
fn derives_from(rules: &Vec<DeriveRule>, i: usize, id: u32) -> (r: Vec<Vec<u8>>)
    requires
        i <= rules@.len(),
    ensures
        path_view(r@) == derives_for_spec(rules_view(rules@).skip(i as int), id),
    decreases rules@.len() - i,
{
    if i < rules.len() {
        proof {
            assert(rules_view(rules@).skip(i as int)[0] == DeriveRuleModel {
                annotation: rules@[i as int].annotation@,
                excluded: rules@[i as int].excluded@,
            });
            assert(rules_view(rules@).skip(i as int).skip(1) =~= rules_view(rules@).skip(
                i as int + 1,
            ));
        }
        let tail = derives_from(rules, i + 1, id);
        if contains_id(&rules[i].excluded, id) {
            assert(path_view(tail@) =~= derives_for_spec(rules_view(rules@).skip(i as int), id));
            tail
        } else {
            let mut out = tail;
            let ghost tm = path_view(out@);
            let ann = copy_bytes(&rules[i].annotation);
            let ghost am = ann@;
            out.insert(0, ann);
            proof {
                assert(path_view(out@) =~= seq![am] + tm);
                assert(path_view(out@) =~= derives_for_spec(
                    rules_view(rules@).skip(i as int),
                    id,
                ));
            }
            out
        }
    } else {
        let out: Vec<Vec<u8>> = Vec::new();
        proof {
            assert(rules_view(rules@).skip(i as int) =~= Seq::<DeriveRuleModel>::empty());
            assert(path_view(out@) =~= Seq::<Seq<u8>>::empty());
        }
        out
    }
}

/// Whether an id list contains `id`.
pub fn contains_id(v: &Vec<u32>, id: u32) -> (r: bool)
    ensures
        r == v@.contains(id),
{
    let mut i: usize = 0;
    while i < v.len()
        invariant
            0 <= i <= v@.len(),
            forall|j: int| 0 <= j < i ==> v@[j] != id,
        decreases v@.len() - i,
    {
        if v[i] == id {
            return true;
        }
        i = i + 1;
    }
    false
}

/// A copy of a byte string.
pub fn copy_bytes(v: &Vec<u8>) -> (r: Vec<u8>)
    ensures
        r@ == v@,
{
    let mut out: Vec<u8> = Vec::new();
    let mut i: usize = 0;
    while i < v.len()
        invariant
            0 <= i <= v@.len(),
            out@ == v@.take(i as int),
        decreases v@.len() - i,
    {
        out.push(v[i]);
        assert(out@ =~= v@.take(i + 1));
        i = i + 1;
    }
    assert(out@ =~= v@);
    out
}

impl DerivesRegistry {
    /// A fresh registry holding only the unconditional binary-encoding
    /// rule.
    pub fn new() -> (r: DerivesRegistry)
        ensures
            rules_view(r.rules@) == seq![
                DeriveRuleModel { annotation: codec_annotation(), excluded: Seq::empty() },
            ],
    {
        let mut rules: Vec<DeriveRule> = Vec::new();
        rules.push(DeriveRule { annotation: default_codec_annotation(), excluded: Vec::new() });
        let r = DerivesRegistry { rules };
        assert(rules_view(r.rules@) =~= seq![
            DeriveRuleModel { annotation: codec_annotation(), excluded: Seq::empty() },
        ]);
        r
    }

    /// Appends the given annotations to the set applied to every
    /// generated type, except the types whose ids are in `exclusions`.
    pub fn extend_for_all(&mut self, annotations: Vec<Vec<u8>>, exclusions: Vec<u32>)
        ensures
            rules_view(final(self).rules@) == rules_view(old(self).rules@) + rules_of(
                path_view(annotations@),
                exclusions@,
            ),
    {
        let ghost before = rules_view(self.rules@);
        let mut i: usize = 0;
        while i < annotations.len()
            invariant
                0 <= i <= annotations@.len(),
                before == rules_view(old(self).rules@),
                rules_view(self.rules@) =~= before + rules_of(
                    path_view(annotations@).take(i as int),
                    exclusions@,
                ),
            decreases annotations@.len() - i,
        {
            let ann = copy_bytes(&annotations[i]);
            let excl = copy_ids(&exclusions);
            let ghost prev = rules_view(self.rules@);
            self.rules.push(DeriveRule { annotation: ann, excluded: excl });
            proof {
                assert(rules_view(self.rules@) =~= prev + seq![
                    DeriveRuleModel {
                        annotation: path_view(annotations@)[i as int],
                        excluded: exclusions@,
                    },
                ]);
                lemma_rules_of_snoc(path_view(annotations@), i as int, exclusions@);
            }
            i = i + 1;
        }
        proof {
            assert(path_view(annotations@).take(annotations@.len() as int) =~= path_view(
                annotations@,
            ));
        }
    }

    /// The annotations attached to the type with descriptor id `id`.
    pub fn derives_for(&self, id: u32) -> (r: Vec<Vec<u8>>)
        ensures
            path_view(r@) == derives_for_spec(rules_view(self.rules@), id),
    {
        let r = derives_from(&self.rules, 0, id);
        proof {
            assert(rules_view(self.rules@).skip(0) =~= rules_view(self.rules@));
        }
        r
    }
}

/// The binary-encoding annotation is attached to every generated type:
/// any rule list that still starts with the unconditional default rule
/// yields it first, whatever the descriptor id.
pub proof fn lemma_codec_annotation_always_applied(rules: Seq<DeriveRuleModel>, id: u32)
    requires
        rules.len() > 0,
        rules[0].annotation == codec_annotation(),
        rules[0].excluded == Seq::<u32>::empty(),
    ensures
        derives_for_spec(rules, id).len() > 0,
        derives_for_spec(rules, id)[0] == codec_annotation(),
{
    assert(!rules[0].excluded.contains(id));
}

/// Extending `rules_of` by one annotation appends one rule.
proof fn lemma_rules_of_snoc(annotations: Seq<Seq<u8>>, i: int, excluded: Seq<u32>)
    requires
        0 <= i < annotations.len(),
    ensures
        rules_of(annotations.take(i + 1), excluded) == rules_of(annotations.take(i), excluded)
            + seq![DeriveRuleModel { annotation: annotations[i], excluded }],
    decreases i,
{
    if i == 0 {
        assert(annotations.take(1)[0] == annotations[0]);
        assert(annotations.take(1).skip(1) =~= Seq::<Seq<u8>>::empty());
        assert(annotations.take(0) =~= Seq::<Seq<u8>>::empty());
        assert(rules_of(annotations.take(1), excluded) =~= rules_of(annotations.take(0), excluded)
            + seq![DeriveRuleModel { annotation: annotations[0], excluded }]);
    } else {
        lemma_rules_of_snoc(annotations.skip(1), i - 1, excluded);
        assert(annotations.take(i + 1)[0] == annotations[0]);
        assert(annotations.take(i + 1).skip(1) =~= annotations.skip(1).take(i));
        assert(annotations.take(i)[0] == annotations[0]);
        assert(annotations.take(i).skip(1) =~= annotations.skip(1).take(i - 1));
        assert(annotations.skip(1)[i - 1] == annotations[i]);
        assert(rules_of(annotations.take(i + 1), excluded) =~= rules_of(
            annotations.take(i),
            excluded,
        ) + seq![DeriveRuleModel { annotation: annotations[i], excluded }]);
    }
}

} // verus!
