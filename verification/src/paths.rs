//! Byte-string identifiers and `::`-separated absolute paths.
//!
//! A path is a non-empty sequence of segments, each a well-formed ASCII
//! identifier. Paths name foreign types (a substitution's key), their
//! local replacements, and capability annotations.

use vstd::prelude::*;

verus! {

/// Whether `b` may start an identifier: an ASCII letter or `_`.
pub open spec fn is_ident_start(b: u8) -> bool {
    (65 <= b <= 90) || (97 <= b <= 122) || b == 95
}

/// Whether `b` may continue an identifier: a start byte or an ASCII digit.
pub open spec fn is_ident_continue(b: u8) -> bool {
    is_ident_start(b) || (48 <= b <= 57)
}

/// A well-formed identifier segment: non-empty, a start byte first,
/// continue bytes after.
pub open spec fn is_ident(s: Seq<u8>) -> bool {
    &&& s.len() > 0
    &&& is_ident_start(s[0])
    &&& forall|i: int| 1 <= i < s.len() ==> is_ident_continue(s[i])
}

/// A well-formed absolute path: at least one segment, every segment a
/// well-formed identifier.
pub open spec fn is_valid_path(p: Seq<Seq<u8>>) -> bool {
    &&& p.len() > 0
    &&& forall|i: int| 0 <= i < p.len() ==> is_ident(p[i])
}

/// The mathematical value of a path: its segments as byte sequences.
pub open spec fn path_view(p: Seq<Vec<u8>>) -> Seq<Seq<u8>> {
    p.map(|i: int, s: Vec<u8>| s@)
}

/// Checks that one segment is a well-formed identifier.
pub fn check_ident(s: &Vec<u8>) -> (r: bool)
    ensures
        r == is_ident(s@),
{
    if s.len() == 0 {
        return false;
    }
    let b0 = s[0];
    if !((65 <= b0 && b0 <= 90) || (97 <= b0 && b0 <= 122) || b0 == 95) {
        return false;
    }
    let mut i: usize = 1;
    while i < s.len()
        invariant
            1 <= i <= s@.len(),
            is_ident_start(s@[0]),
            forall|j: int| 1 <= j < i ==> is_ident_continue(s@[j]),
        decreases s@.len() - i,
    {
        let b = s[i];
        if !((65 <= b && b <= 90) || (97 <= b && b <= 122) || b == 95 || (48 <= b && b <= 57)) {
            return false;
        }
        i = i + 1;
    }
    true
}

/// Checks that a path is well-formed: non-empty, all segments identifiers.
pub fn check_path(p: &Vec<Vec<u8>>) -> (r: bool)
    ensures
        r == is_valid_path(path_view(p@)),
{
    if p.len() == 0 {
        return false;
    }
    let mut i: usize = 0;
    while i < p.len()
        invariant
            0 <= i <= p@.len(),
            p@.len() > 0,
            forall|j: int| 0 <= j < i ==> is_ident(#[trigger] path_view(p@)[j]),
        decreases p@.len() - i,
    {
        if !check_ident(&p[i]) {
            assert(!is_ident(path_view(p@)[i as int]));
            return false;
        }
        assert(is_ident(path_view(p@)[i as int]));
        i = i + 1;
    }
    true
}

/// Byte-string equality.
pub fn bytes_eq(a: &Vec<u8>, b: &Vec<u8>) -> (r: bool)
    ensures
        r == (a@ == b@),
{
    if a.len() != b.len() {
        assert(a@ != b@);
        return false;
    }
    let mut i: usize = 0;
    while i < a.len()
        invariant
            0 <= i <= a@.len(),
            a@.len() == b@.len(),
            forall|j: int| 0 <= j < i ==> a@[j] == b@[j],
        decreases a@.len() - i,
    {
        if a[i] != b[i] {
            assert(a@ != b@);
            return false;
        }
        i = i + 1;
    }
    assert(a@ =~= b@);
    true
}

/// Path equality: same number of segments, segments pairwise equal.
pub fn path_eq(a: &Vec<Vec<u8>>, b: &Vec<Vec<u8>>) -> (r: bool)
    ensures
        r == (path_view(a@) == path_view(b@)),
{
    if a.len() != b.len() {
        assert(path_view(a@).len() != path_view(b@).len());
        assert(path_view(a@) != path_view(b@));
        return false;
    }
    let mut i: usize = 0;
    while i < a.len()
        invariant
            0 <= i <= a@.len(),
            a@.len() == b@.len(),
            forall|j: int| 0 <= j < i ==> path_view(a@)[j] == path_view(b@)[j],
        decreases a@.len() - i,
    {
        if !bytes_eq(&a[i], &b[i]) {
            assert(path_view(a@)[i as int] != path_view(b@)[i as int]);
            return false;
        }
        assert(path_view(a@)[i as int] == path_view(b@)[i as int]);
        i = i + 1;
    }
    assert(path_view(a@) =~= path_view(b@));
    true
}

/// Deep copy of a path.
pub fn path_clone(p: &Vec<Vec<u8>>) -> (r: Vec<Vec<u8>>)
    ensures
        path_view(r@) == path_view(p@),
{
    let mut out: Vec<Vec<u8>> = Vec::new();
    let mut i: usize = 0;
    while i < p.len()
        invariant
            0 <= i <= p@.len(),
            out@.len() == i,
            forall|j: int| 0 <= j < i ==> path_view(out@)[j] == path_view(p@)[j],
        decreases p@.len() - i,
    {
        let seg: Vec<u8> = p[i].clone();
        assert(seg@ == p@[i as int]@);
        out.push(seg);
        i = i + 1;
    }
    assert(path_view(out@) =~= path_view(p@));
    out
}

} // verus!
