//! The type substitution registry.
//!
//! A substitution maps a canonical foreign type path to a locally
//! qualified replacement path. At generation time a descriptor whose
//! origin matches a registered foreign path is not re-emitted; a binding
//! to the local replacement is produced instead. Re-inserting an
//! identical mapping is not an error; registering the same foreign path
//! with a different replacement is.

use vstd::prelude::*;

use crate::paths::{check_path, is_valid_path, path_clone, path_eq, path_view};

verus! {

/// Why a substitution was rejected.
#[derive(Clone, Copy, Debug, PartialEq, Eq, Structural)]
pub enum SubstitutionError {
    /// The foreign path is already registered with a different
    /// replacement.
    DuplicateForeignPath,
    /// The replacement does not parse as a well-formed absolute
    /// identifier path.
    InvalidLocalPath,
}

/// One registered substitution.
#[derive(Clone, Debug, PartialEq, Eq)]
pub struct SubstitutionEntry {
    pub foreign: Vec<Vec<u8>>,
    pub local: Vec<Vec<u8>>,
}

/// The registry of substitutions, in insertion order.
#[derive(Clone, Debug, PartialEq, Eq)]
pub struct TypeSubstitutes {
    pub entries: Vec<SubstitutionEntry>,
}

/// The mathematical value of the registry: its (foreign, local) pairs.
pub open spec fn subs_view(entries: Seq<SubstitutionEntry>) -> Seq<(Seq<Seq<u8>>, Seq<Seq<u8>>)> {
    entries.map(|i: int, e: SubstitutionEntry| (path_view(e.foreign@), path_view(e.local@)))
}

/// The replacement registered for `f`, if any: the first pair whose
/// foreign path is `f`.
pub open spec fn subs_value(s: Seq<(Seq<Seq<u8>>, Seq<Seq<u8>>)>, f: Seq<Seq<u8>>) -> Option<
    Seq<Seq<u8>>,
>
    decreases s.len(),
{
    if s.len() == 0 {
        None
    } else if s[0].0 == f {
        Some(s[0].1)
    } else {
        subs_value(s.skip(1), f)
    }
}

/// What one insertion does: the result handed back and the registry
/// afterwards. The replacement is validated first; then an existing
/// registration of the same foreign path is compared — equal mappings
/// succeed without change, different ones are refused — and otherwise
/// the pair is appended.
pub open spec fn insert_spec(
    s: Seq<(Seq<Seq<u8>>, Seq<Seq<u8>>)>,
    f: Seq<Seq<u8>>,
    l: Seq<Seq<u8>>,
) -> (Result<(), SubstitutionError>, Seq<(Seq<Seq<u8>>, Seq<Seq<u8>>)>) {
    if !is_valid_path(l) {
        (Err(SubstitutionError::InvalidLocalPath), s)
    } else {
        match subs_value(s, f) {
            Some(existing) => if existing == l {
                (Ok(()), s)
            } else {
                (Err(SubstitutionError::DuplicateForeignPath), s)
            },
            None => (Ok(()), s.push((f, l))),
        }
    }
}

/// Looking a key up after an append: pairs registered earlier win, and
/// a fresh key finds the appended pair.
pub proof fn lemma_subs_value_push(
    s: Seq<(Seq<Seq<u8>>, Seq<Seq<u8>>)>,
    p: (Seq<Seq<u8>>, Seq<Seq<u8>>),
    g: Seq<Seq<u8>>,
)
    ensures
        subs_value(s.push(p), g) == if subs_value(s, g) is Some {
            subs_value(s, g)
        } else if p.0 == g {
            Some(p.1)
        } else {
            None::<Seq<Seq<u8>>>
        },
    decreases s.len(),
{
    if s.len() == 0 {
        assert(s.push(p)[0] == p);
        assert(s.push(p).skip(1) =~= Seq::<(Seq<Seq<u8>>, Seq<Seq<u8>>)>::empty());
        if p.0 == g {
            assert(subs_value(s.push(p), g) == Some(p.1));
        } else {
            assert(subs_value(s.push(p), g) == subs_value(s.push(p).skip(1), g));
            assert(subs_value(s.push(p), g) is None);
        }
        assert(subs_value(s, g) is None);
    } else {
        assert(s.push(p)[0] == s[0]);
        assert(s.push(p).skip(1) =~= s.skip(1).push(p));
        lemma_subs_value_push(s.skip(1), p, g);
        if s[0].0 == g {
            assert(subs_value(s.push(p), g) == Some(s[0].1));
            assert(subs_value(s, g) == Some(s[0].1));
        } else {
            assert(subs_value(s.push(p), g) == subs_value(s.skip(1).push(p), g));
            assert(subs_value(s, g) == subs_value(s.skip(1), g));
        }
    }
}

/// Re-inserting an identical mapping succeeds again and leaves the
/// registry unchanged.
pub proof fn lemma_insert_idempotent(
    s: Seq<(Seq<Seq<u8>>, Seq<Seq<u8>>)>,
    f: Seq<Seq<u8>>,
    l: Seq<Seq<u8>>,
)
    requires
        insert_spec(s, f, l).0 is Ok,
    ensures
        insert_spec(insert_spec(s, f, l).1, f, l).0 is Ok,
        insert_spec(insert_spec(s, f, l).1, f, l).1 == insert_spec(s, f, l).1,
{
    let after = insert_spec(s, f, l).1;
    if subs_value(s, f) is None {
        lemma_subs_value_push(s, (f, l), f);
        assert(subs_value(after, f) == Some(l));
    }
}

/// Inserting the same foreign path again with a different replacement
/// fails with `DuplicateForeignPath` and leaves the registry unchanged.
pub proof fn lemma_insert_conflict(
    s: Seq<(Seq<Seq<u8>>, Seq<Seq<u8>>)>,
    f: Seq<Seq<u8>>,
    l1: Seq<Seq<u8>>,
    l2: Seq<Seq<u8>>,
)
    requires
        insert_spec(s, f, l1).0 is Ok,
        is_valid_path(l2),
        l1 != l2,
    ensures
        insert_spec(insert_spec(s, f, l1).1, f, l2).0 == Err::<(), SubstitutionError>(
            SubstitutionError::DuplicateForeignPath,
        ),
        insert_spec(insert_spec(s, f, l1).1, f, l2).1 == insert_spec(s, f, l1).1,
{
    let after = insert_spec(s, f, l1).1;
    if subs_value(s, f) is None {
        lemma_subs_value_push(s, (f, l1), f);
        assert(subs_value(after, f) == Some(l1));
    }
}

/// The replacement registered for `f` in `entries` from position `i` on.
fn lookup_from(entries: &Vec<SubstitutionEntry>, i: usize, f: &Vec<Vec<u8>>) -> (r: Option<
    Vec<Vec<u8>>,
>)
    requires
        i <= entries@.len(),
    ensures
        r is Some <==> subs_value(subs_view(entries@).skip(i as int), path_view(f@)) is Some,
        r matches Some(v) ==> subs_value(subs_view(entries@).skip(i as int), path_view(f@))
            == Some(path_view(v@)),
    decreases entries@.len() - i,
{
    if i < entries.len() {
        assert(subs_view(entries@).skip(i as int)[0] == (
            path_view(entries@[i as int].foreign@),
            path_view(entries@[i as int].local@),
        ));
        assert(subs_view(entries@).skip(i as int).skip(1) =~= subs_view(entries@).skip(
            i as int + 1,
        ));
        if path_eq(&entries[i].foreign, f) {
            Some(path_clone(&entries[i].local))
        } else {
            lookup_from(entries, i + 1, f)
        }
    } else {
        assert(subs_view(entries@).skip(i as int) =~= Seq::<(Seq<Seq<u8>>, Seq<Seq<u8>>)>::empty());
        None
    }
}

impl TypeSubstitutes {
    /// An empty registry: no substitutions yet.
    pub fn new() -> (r: TypeSubstitutes)
        ensures
            subs_view(r.entries@) == Seq::<(Seq<Seq<u8>>, Seq<Seq<u8>>)>::empty(),
    {
        let r = TypeSubstitutes { entries: Vec::new() };
        assert(subs_view(r.entries@) =~= Seq::<(Seq<Seq<u8>>, Seq<Seq<u8>>)>::empty());
        r
    }

    /// The replacement registered for `f`, if any.
    pub fn lookup(&self, f: &Vec<Vec<u8>>) -> (r: Option<Vec<Vec<u8>>>)
        ensures
            r is Some <==> subs_value(subs_view(self.entries@), path_view(f@)) is Some,
            r matches Some(v) ==> subs_value(subs_view(self.entries@), path_view(f@)) == Some(
                path_view(v@),
            ),
    {
        let r = lookup_from(&self.entries, 0, f);
        proof {
            assert(subs_view(self.entries@).skip(0) =~= subs_view(self.entries@));
        }
        r
    }

    /// Registers `foreign -> local`, behaving exactly as `insert_spec`
    /// says: an ill-formed replacement is `InvalidLocalPath`, a
    /// conflicting registration is `DuplicateForeignPath`, an identical
    /// one succeeds idempotently, and a fresh pair is appended.
    pub fn insert(&mut self, foreign: Vec<Vec<u8>>, local: Vec<Vec<u8>>) -> (r: Result<
        (),
        SubstitutionError,
    >)
        ensures
            r == insert_spec(
                subs_view(old(self).entries@),
                path_view(foreign@),
                path_view(local@),
            ).0,
            subs_view(final(self).entries@) == insert_spec(
                subs_view(old(self).entries@),
                path_view(foreign@),
                path_view(local@),
            ).1,
    {
        if !check_path(&local) {
            return Err(SubstitutionError::InvalidLocalPath);
        }
        match self.lookup(&foreign) {
            Some(existing) => {
                if path_eq(&existing, &local) {
                    Ok(())
                } else {
                    Err(SubstitutionError::DuplicateForeignPath)
                }
            },
            None => {
                let ghost before = subs_view(self.entries@);
                let ghost fm = path_view(foreign@);
                let ghost lm = path_view(local@);
                self.entries.push(SubstitutionEntry { foreign, local });
                proof {
                    assert(subs_view(self.entries@) =~= before.push((fm, lm)));
                }
                Ok(())
            },
        }
    }
}

} // verus!
