//! The order of the crates in the reports: by name, then by version.

use crate::reports::ReportableCrate;
use crate::row_reader::StoredVersion;
use crate::row_writer::utf8;
use core::cmp::Ordering;
use vstd::prelude::*;

verus! {

/// How two byte strings compare, byte by byte (the order of `str`, which
/// compares the UTF-8 bytes): -1 when `a` comes first, 1 when `b` does, 0
/// when they are equal.
pub open spec fn bytes_order(a: Seq<u8>, b: Seq<u8>) -> int
    decreases a.len(),
{
    if a.len() == 0 {
        if b.len() == 0 { 0 } else { -1 }
    } else if b.len() == 0 {
        1
    } else if a[0] < b[0] {
        -1
    } else if a[0] > b[0] {
        1
    } else {
        bytes_order(a.drop_first(), b.drop_first())
    }
}

/// Swapping the strings turns the answer around.
pub proof fn lemma_bytes_order_antisymmetric(a: Seq<u8>, b: Seq<u8>)
    ensures
        bytes_order(b, a) == -bytes_order(a, b),
        -1 <= bytes_order(a, b) <= 1,
    decreases a.len(),
{
    if a.len() > 0 && b.len() > 0 && a[0] == b[0] {
        lemma_bytes_order_antisymmetric(a.drop_first(), b.drop_first());
    }
}

/// What `semver` answers when it orders the version with the first parts
/// against the version with the second (`Version::cmp`): -1, 0 or 1;
/// nothing when it refuses the pre-release or build text of either.
pub uninterp spec fn semver_order(
    a: (u64, u64, u64, Seq<char>, Seq<char>),
    b: (u64, u64, u64, Seq<char>, Seq<char>),
) -> Option<int>;

/// An answer of `version_order` as an integer.
pub open spec fn widened(r: Option<i8>) -> Option<int> {
    match r {
        Some(x) => Some(x as int),
        None => None,
    }
}

/// An answer of `version_order` turned around.
pub open spec fn negated(r: Option<i8>) -> Option<int> {
    match r {
        Some(x) => Some(-x),
        None => None,
    }
}

/// Builds both versions from their parts (`Prerelease::new`,
/// `BuildMetadata::new`) and orders them with `semver`'s `Ord`. The
/// contract names the answer and states what `Ord` promises of it: it is
/// one of three values, swapping the versions turns it around, and a
/// version is equal to itself. Whether the parts build a version does not
/// depend on the order in which they are given.
#[verifier::external_body]
fn version_order(a: &StoredVersion, b: &StoredVersion) -> (r: Option<i8>)
    ensures
        semver_order(a.parts(), b.parts()) == widened(r),
        semver_order(b.parts(), a.parts()) == negated(r),
        r matches Some(x) ==> -1 <= x <= 1,
        a.parts() == b.parts() ==> (r matches Some(x) ==> x == 0),
{
    let (pa, ba) = (semver::Prerelease::new(&a.pre).ok()?, semver::BuildMetadata::new(&a.build).ok()?);
    let (pb, bb) = (semver::Prerelease::new(&b.pre).ok()?, semver::BuildMetadata::new(&b.build).ok()?);
    let x = semver::Version { major: a.major, minor: a.minor, patch: a.patch, pre: pa, build: ba };
    let y = semver::Version { major: b.major, minor: b.minor, patch: b.patch, pre: pb, build: bb };
    match x.cmp(&y) {
        Ordering::Less => Some(-1),
        Ordering::Equal => Some(0),
        Ordering::Greater => Some(1),
    }
}

/// How two crates compare in the reports: by name, then by version; two
/// versions that `semver` cannot build compare equal.
pub open spec fn report_order(a: ReportableCrate, b: ReportableCrate) -> int {
    let n = bytes_order(utf8(a.name@), utf8(b.name@));
    if n != 0 {
        n
    } else {
        match semver_order(a.version.parts(), b.version.parts()) {
            Some(v) => v,
            None => 0,
        }
    }
}

/// Each crate is in order with the next.
pub open spec fn in_report_order(s: Seq<ReportableCrate>) -> bool {
    forall|i: int| 0 <= i < s.len() - 1 ==> report_order(#[trigger] s[i], s[i + 1]) <= 0
}

/// How two texts compare (see `bytes_order`).
fn texts_in_order(a: &str, b: &str) -> (r: i8)
    ensures
        r == bytes_order(utf8(a@), utf8(b@)),
{
    let x = a.as_bytes();
    let y = b.as_bytes();
    let mut i: usize = 0;
    assert(x@.skip(0) =~= x@);
    assert(y@.skip(0) =~= y@);
    while i < x.len() && i < y.len()
        invariant
            x@ == utf8(a@),
            y@ == utf8(b@),
            i <= x@.len(),
            i <= y@.len(),
            bytes_order(utf8(a@), utf8(b@)) == bytes_order(x@.skip(i as int), y@.skip(i as int)),
        decreases x@.len() - i,
    {
        assert(x@.skip(i as int)[0] == x@[i as int] && y@.skip(i as int)[0] == y@[i as int]);
        if x[i] < y[i] {
            return -1;
        }
        if x[i] > y[i] {
            return 1;
        }
        assert(x@.skip(i as int).drop_first() =~= x@.skip(i + 1));
        assert(y@.skip(i as int).drop_first() =~= y@.skip(i + 1));
        i = i + 1;
    }
    if i < x.len() {
        1
    } else if i < y.len() {
        -1
    } else {
        0
    }
}

/// How two crates compare (see `report_order`), with the facts the sort
/// needs about the swapped comparison.
fn crates_in_order(a: &ReportableCrate, b: &ReportableCrate) -> (r: i8)
    ensures
        r == report_order(*a, *b),
        report_order(*b, *a) == -r,
{
    proof {
        lemma_bytes_order_antisymmetric(utf8(a.name@), utf8(b.name@));
    }
    let n = texts_in_order(a.name.as_str(), b.name.as_str());
    if n != 0 {
        return n;
    }
    match version_order(&a.version, &b.version) {
        Some(v) => v,
        None => 0,
    }
}

/// The crates in report order: by name, then by version. The result holds
/// the same crates, each in order with the next.
pub fn sort_for_report(crates: Vec<ReportableCrate>) -> (r: Vec<ReportableCrate>)
    ensures
        r@.to_multiset() == crates@.to_multiset(),
        in_report_order(r@),
{
    broadcast use vstd::seq_lib::group_to_multiset_ensures, vstd::multiset::group_multiset_axioms;

    let mut rest = crates;
    let mut r: Vec<ReportableCrate> = Vec::new();
    while rest.len() > 0
        invariant
            r@.to_multiset().add(rest@.to_multiset()) == crates@.to_multiset(),
            in_report_order(r@),
        decreases rest@.len(),
    {
        let ghost before = rest@;
        let x = rest.remove(0);
        proof {
            vstd::seq_lib::to_multiset_remove(before, 0);
        }
        let mut pos: usize = r.len();
        loop
            invariant
                pos <= r@.len(),
                forall|k: int| pos <= k < r@.len() ==> report_order(x, #[trigger] r@[k]) < 0,
            ensures
                pos <= r@.len(),
                forall|k: int| pos <= k < r@.len() ==> report_order(x, #[trigger] r@[k]) < 0,
                pos > 0 ==> report_order(r@[pos - 1], x) <= 0,
            decreases pos,
        {
            if pos == 0 {
                break;
            }
            let c = crates_in_order(&x, &r[pos - 1]);
            if c >= 0 {
                break;
            }
            pos = pos - 1;
        }
        let ghost old_r = r@;
        r.insert(pos, x);
        proof {
            vstd::seq_lib::to_multiset_insert(old_r, pos as int, x);
            assert(r@.to_multiset() == old_r.to_multiset().insert(x));
            assert(before[0] == x);
            assert(before.contains(x));
            vstd::seq_lib::to_multiset_contains(before, x);
            assert(before.to_multiset() =~= rest@.to_multiset().insert(x));
            assert(r@.to_multiset().add(rest@.to_multiset()) =~= crates@.to_multiset());
            assert forall|i: int| 0 <= i < r@.len() - 1 implies report_order(#[trigger] r@[i], r@[i + 1]) <= 0 by {
                if i + 1 < pos {
                    assert(r@[i] == old_r[i] && r@[i + 1] == old_r[i + 1]);
                } else if i + 1 == pos {
                    assert(r@[i] == old_r[i] && r@[i + 1] == x);
                } else if i == pos {
                    assert(r@[i] == x && r@[i + 1] == old_r[i]);
                } else {
                    assert(r@[i] == old_r[i - 1] && r@[i + 1] == old_r[i]);
                }
            }
        }
    }
    r
}

} // verus!
