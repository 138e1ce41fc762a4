//! The variables the policy expressions see: a crate's metrics, the
//! `prefix.field` metrics grouped in a map per prefix, and `now`. The
//! grouping is the library's; turning the variables into a CEL context is a
//! plain conversion left to the program around the library.

use crate::cells::string_from_chars;
use crate::crate_ref::{first_index_of, lemma_first_index_of};
use crate::metrics::Timestamp;
use crate::reports::same_text;
use crate::text::chars_of;
use vstd::prelude::*;

verus! {

/// A single metric value as the policy expressions see it. A fractional
/// value is held by its shortest decimal text (its `Display`), which reads
/// back as the same number.
#[derive(Debug, Clone)]
pub enum PolicyScalar {
    UInt(u64),
    Float(String),
    Bool(bool),
    Text(String),
    Instant(Timestamp),
}

/// A metric's value: absent, a single value, or a list of them.
#[derive(Debug, Clone)]
pub enum PolicyValue {
    Null,
    Scalar(PolicyScalar),
    List(Vec<PolicyScalar>),
}

/// A single value as plain values.
pub enum ScalarView {
    UInt(u64),
    Float(Seq<char>),
    Bool(bool),
    Text(Seq<char>),
    Instant(i64),
}

/// A metric's value as plain values.
pub enum ValueView {
    Null,
    Scalar(ScalarView),
    List(Seq<ScalarView>),
}

pub open spec fn scalar_view(s: PolicyScalar) -> ScalarView {
    match s {
        PolicyScalar::UInt(u) => ScalarView::UInt(u),
        PolicyScalar::Float(t) => ScalarView::Float(t@),
        PolicyScalar::Bool(b) => ScalarView::Bool(b),
        PolicyScalar::Text(t) => ScalarView::Text(t@),
        PolicyScalar::Instant(t) => ScalarView::Instant(t.seconds()),
    }
}

pub open spec fn value_view(v: PolicyValue) -> ValueView {
    match v {
        PolicyValue::Null => ValueView::Null,
        PolicyValue::Scalar(s) => ValueView::Scalar(scalar_view(s)),
        PolicyValue::List(items) => ValueView::List(items@.map_values(|x: PolicyScalar| scalar_view(x))),
    }
}

/// The metrics as plain values.
pub open spec fn metrics_view(ms: Seq<(String, PolicyValue)>) -> Seq<(Seq<char>, ValueView)> {
    ms.map_values(|m: (String, PolicyValue)| (m.0@, value_view(m.1)))
}

/// A name split at its first `.`: the prefix and the field.
pub open spec fn dotted(name: Seq<char>) -> Option<(Seq<char>, Seq<char>)> {
    match first_index_of(name, '.') {
        Some(i) => Some((name.take(i), name.skip(i + 1))),
        None => None,
    }
}

/// The prefix of a dotted name.
pub open spec fn prefix_of(name: Seq<char>) -> Option<Seq<char>> {
    match dotted(name) {
        Some((p, _)) => Some(p),
        None => None,
    }
}

/// The `(field, value)` pairs of the metrics named `prefix.field`, in order.
pub open spec fn field_entries(ms: Seq<(Seq<char>, ValueView)>, prefix: Seq<char>) -> Seq<(Seq<char>, ValueView)>
    decreases ms.len(),
{
    if ms.len() == 0 {
        Seq::empty()
    } else {
        let prev = field_entries(ms.drop_last(), prefix);
        match dotted(ms.last().0) {
            Some((p, f)) => if p == prefix { prev.push((f, ms.last().1)) } else { prev },
            None => prev,
        }
    }
}

/// The metrics whose names hold no `.`, in order.
pub open spec fn plain_entries(ms: Seq<(Seq<char>, ValueView)>) -> Seq<(Seq<char>, ValueView)>
    decreases ms.len(),
{
    if ms.len() == 0 {
        Seq::empty()
    } else {
        let prev = plain_entries(ms.drop_last());
        match dotted(ms.last().0) {
            Some(_) => prev,
            None => prev.push(ms.last()),
        }
    }
}

/// Whether some metric is named `prefix.field`.
pub open spec fn has_prefix(ms: Seq<(Seq<char>, ValueView)>, prefix: Seq<char>) -> bool {
    exists|i: int| 0 <= i < ms.len() && #[trigger] prefix_of(ms[i].0) == Some(prefix)
}

/// The variables of a crate's metrics: a map per prefix of the dotted
/// metric names, the metrics without a `.` in their names, and the instant
/// of the evaluation. A later field or variable of the same name wins, and a
/// plain metric wins over a map of its name, as the context is filled in
/// that order.
pub struct PolicyVariables {
    pub maps: Vec<(String, Vec<(String, PolicyValue)>)>,
    pub plain: Vec<(String, PolicyValue)>,
    pub now: Timestamp,
}

/// The pairs of names and values as plain values.
pub open spec fn entries_view(es: Seq<(String, PolicyValue)>) -> Seq<(Seq<char>, ValueView)> {
    metrics_view(es)
}

/// The maps as plain values.
pub open spec fn maps_view(maps: Seq<(String, Vec<(String, PolicyValue)>)>) -> Seq<(Seq<char>, Seq<(Seq<char>, ValueView)>)> {
    maps.map_values(|g: (String, Vec<(String, PolicyValue)>)| (g.0@, entries_view(g.1@)))
}

/// `maps` and `plain` are the variables of the metrics `ms`: one map per
/// prefix, no prefix twice, each with the prefix's fields in order; the
/// plain metrics in order.
pub open spec fn groups_of(
    maps: Seq<(Seq<char>, Seq<(Seq<char>, ValueView)>)>,
    plain: Seq<(Seq<char>, ValueView)>,
    ms: Seq<(Seq<char>, ValueView)>,
) -> bool {
    &&& forall|i: int, j: int| 0 <= i < j < maps.len() ==> (#[trigger] maps[i]).0 != (#[trigger] maps[j]).0
    &&& forall|i: int| 0 <= i < maps.len() ==> has_prefix(ms, (#[trigger] maps[i]).0) && maps[i].1 == field_entries(ms, maps[i].0)
    &&& forall|p: Seq<char>| #[trigger] has_prefix(ms, p) ==> exists|i: int| 0 <= i < maps.len() && (#[trigger] maps[i]).0 == p
    &&& plain == plain_entries(ms)
}

/// `vars` holds the variables of the metrics `ms` (see `groups_of`).
pub open spec fn variables_of(vars: PolicyVariables, ms: Seq<(Seq<char>, ValueView)>) -> bool {
    groups_of(maps_view(vars.maps@), entries_view(vars.plain@), ms)
}

/// A prefix no metric has has no fields.
proof fn lemma_no_fields(ms: Seq<(Seq<char>, ValueView)>, p: Seq<char>)
    requires
        !has_prefix(ms, p),
    ensures
        field_entries(ms, p) == Seq::<(Seq<char>, ValueView)>::empty(),
    decreases ms.len(),
{
    if ms.len() > 0 {
        let before = ms.drop_last();
        if has_prefix(before, p) {
            let k = choose|k: int| 0 <= k < before.len() && #[trigger] prefix_of(before[k].0) == Some(p);
            assert(ms[k] == before[k]);
            assert(prefix_of(ms[k].0) == Some(p));
        }
        lemma_no_fields(before, p);
        let n = ms.len() - 1;
        assert(ms.last() == ms[n]);
        if let Some((q, f)) = dotted(ms.last().0) {
            assert(prefix_of(ms[n].0) == Some(q));
        }
    }
}

/// A prefix some earlier metric has, a later one has too.
proof fn lemma_prefix_kept(before: Seq<(Seq<char>, ValueView)>, after: Seq<(Seq<char>, ValueView)>, p: Seq<char>)
    requires
        after.drop_last() == before,
        after.len() == before.len() + 1,
        has_prefix(before, p),
    ensures
        has_prefix(after, p),
{
    let k = choose|k: int| 0 <= k < before.len() && #[trigger] prefix_of(before[k].0) == Some(p);
    assert(after[k] == before[k]);
    assert(prefix_of(after[k].0) == Some(p));
}

/// Adding a metric without a `.` adds a plain variable.
proof fn lemma_add_plain(
    maps: Seq<(Seq<char>, Seq<(Seq<char>, ValueView)>)>,
    plain: Seq<(Seq<char>, ValueView)>,
    before: Seq<(Seq<char>, ValueView)>,
    after: Seq<(Seq<char>, ValueView)>,
)
    requires
        groups_of(maps, plain, before),
        after.len() == before.len() + 1,
        after.drop_last() == before,
        dotted(after.last().0) is None,
    ensures
        groups_of(maps, plain.push(after.last()), after),
{
    assert forall|i: int| 0 <= i < maps.len() implies has_prefix(after, (#[trigger] maps[i]).0)
        && maps[i].1 == field_entries(after, maps[i].0) by {
        lemma_prefix_kept(before, after, maps[i].0);
    }
    assert forall|p: Seq<char>| #[trigger] has_prefix(after, p) implies exists|i: int| 0 <= i < maps.len() && (#[trigger] maps[i]).0 == p by {
        let k = choose|k: int| 0 <= k < after.len() && #[trigger] prefix_of(after[k].0) == Some(p);
        if k < before.len() {
            assert(after[k] == before[k]);
            assert(prefix_of(before[k].0) == Some(p));
            assert(has_prefix(before, p));
        } else {
            assert(after[k] == after.last());
        }
    }
}

/// Adding the field `f` of the prefix of the `j`-th map extends that map.
proof fn lemma_add_to_map(
    maps: Seq<(Seq<char>, Seq<(Seq<char>, ValueView)>)>,
    plain: Seq<(Seq<char>, ValueView)>,
    before: Seq<(Seq<char>, ValueView)>,
    after: Seq<(Seq<char>, ValueView)>,
    j: int,
    f: Seq<char>,
)
    requires
        groups_of(maps, plain, before),
        0 <= j < maps.len(),
        after.len() == before.len() + 1,
        after.drop_last() == before,
        dotted(after.last().0) == Some((maps[j].0, f)),
    ensures
        groups_of(maps.update(j, (maps[j].0, maps[j].1.push((f, after.last().1)))), plain, after),
{
    let p = maps[j].0;
    let m2 = maps.update(j, (p, maps[j].1.push((f, after.last().1))));
    let n = before.len() as int;
    assert(after[n] == after.last());
    assert(prefix_of(after[n].0) == Some(p));
    assert forall|i: int| 0 <= i < m2.len() implies has_prefix(after, (#[trigger] m2[i]).0)
        && m2[i].1 == field_entries(after, m2[i].0) by {
        lemma_prefix_kept(before, after, maps[i].0);
        if i != j {
            assert(maps[i].0 != p);
        }
    }
    assert forall|q: Seq<char>| #[trigger] has_prefix(after, q) implies exists|i: int| 0 <= i < m2.len() && (#[trigger] m2[i]).0 == q by {
        let k = choose|k: int| 0 <= k < after.len() && #[trigger] prefix_of(after[k].0) == Some(q);
        if k < n {
            assert(after[k] == before[k]);
            assert(prefix_of(before[k].0) == Some(q));
            assert(has_prefix(before, q));
            let i = choose|i: int| 0 <= i < maps.len() && (#[trigger] maps[i]).0 == q;
            assert(m2[i].0 == q);
        } else {
            assert(m2[j].0 == q);
        }
    }
}

/// Adding the field `f` of a prefix without a map adds its map.
proof fn lemma_add_map(
    maps: Seq<(Seq<char>, Seq<(Seq<char>, ValueView)>)>,
    plain: Seq<(Seq<char>, ValueView)>,
    before: Seq<(Seq<char>, ValueView)>,
    after: Seq<(Seq<char>, ValueView)>,
    p: Seq<char>,
    f: Seq<char>,
)
    requires
        groups_of(maps, plain, before),
        forall|i: int| 0 <= i < maps.len() ==> (#[trigger] maps[i]).0 != p,
        after.len() == before.len() + 1,
        after.drop_last() == before,
        dotted(after.last().0) == Some((p, f)),
    ensures
        groups_of(maps.push((p, seq![(f, after.last().1)])), plain, after),
{
    let m2 = maps.push((p, seq![(f, after.last().1)]));
    let n = before.len() as int;
    assert(after[n] == after.last());
    assert(prefix_of(after[n].0) == Some(p));
    if has_prefix(before, p) {
        let i = choose|i: int| 0 <= i < maps.len() && (#[trigger] maps[i]).0 == p;
        assert(false);
    }
    lemma_no_fields(before, p);
    assert(field_entries(after, p) =~= seq![(f, after.last().1)]);
    assert forall|i: int| 0 <= i < m2.len() implies has_prefix(after, (#[trigger] m2[i]).0)
        && m2[i].1 == field_entries(after, m2[i].0) by {
        if i < maps.len() {
            lemma_prefix_kept(before, after, maps[i].0);
            assert(m2[i] == maps[i]);
        }
    }
    assert forall|q: Seq<char>| #[trigger] has_prefix(after, q) implies exists|i: int| 0 <= i < m2.len() && (#[trigger] m2[i]).0 == q by {
        let k = choose|k: int| 0 <= k < after.len() && #[trigger] prefix_of(after[k].0) == Some(q);
        if k < n {
            assert(after[k] == before[k]);
            assert(prefix_of(before[k].0) == Some(q));
            assert(has_prefix(before, q));
            let i = choose|i: int| 0 <= i < maps.len() && (#[trigger] maps[i]).0 == q;
            assert(m2[i].0 == q);
        } else {
            assert(m2[maps.len() as int].0 == q);
        }
    }
}

/// Splits a name at its first `.`.
fn split_dotted(name: &str) -> (r: Option<(String, String)>)
    ensures
        match (r, dotted(name@)) {
            (Some((p, f)), Some((q, g))) => p@ == q && f@ == g,
            (None, None) => true,
            _ => false,
        },
{
    let chars = chars_of(name);
    let mut i: usize = 0;
    while i < chars.len()
        invariant
            i <= chars.len(),
            chars@ == name@,
            forall|k: int| 0 <= k < i ==> chars@[k] != '.',
        ensures
            i <= chars.len(),
            chars@ == name@,
            forall|k: int| 0 <= k < i ==> chars@[k] != '.',
            i < chars.len() ==> chars@[i as int] == '.',
        decreases chars.len() - i,
    {
        if chars[i] == '.' {
            break;
        }
        i = i + 1;
    }
    proof { lemma_first_index_of(name@, '.', i as int); }
    if i == chars.len() {
        return None;
    }
    let prefix = string_from_chars(vstd::slice::slice_subrange(chars.as_slice(), 0, i));
    let field = string_from_chars(vstd::slice::slice_subrange(chars.as_slice(), i + 1, chars.len()));
    assert(chars@.subrange(0, i as int) =~= name@.take(i as int));
    assert(chars@.subrange(i + 1, chars.len() as int) =~= name@.skip(i + 1));
    Some((prefix, field))
}

/// The position of the map of `prefix`.
fn find_map(maps: &Vec<(String, Vec<(String, PolicyValue)>)>, prefix: &str) -> (r: Option<usize>)
    ensures
        r matches Some(j) ==> j < maps@.len() && maps@[j as int].0@ == prefix@,
        r is None ==> forall|j: int| 0 <= j < maps@.len() ==> (#[trigger] maps@[j]).0@ != prefix@,
{
    let mut j: usize = 0;
    while j < maps.len()
        invariant
            j <= maps@.len(),
            forall|k: int| 0 <= k < j ==> (#[trigger] maps@[k]).0@ != prefix@,
        decreases maps@.len() - j,
    {
        if same_text(maps[j].0.as_str(), prefix) {
            return Some(j);
        }
        j = j + 1;
    }
    None
}

/// Groups a crate's metrics into the variables of its policy expressions
/// (see `variables_of`), at the instant `now`.
pub fn policy_variables(metrics: Vec<(String, PolicyValue)>, now: Timestamp) -> (r: PolicyVariables)
    ensures
        variables_of(r, metrics_view(metrics@)),
        r.now == now,
{
    let ghost ms = metrics_view(metrics@);
    let total = metrics.len();
    let mut rest = metrics;
    let mut maps: Vec<(String, Vec<(String, PolicyValue)>)> = Vec::new();
    let mut plain: Vec<(String, PolicyValue)> = Vec::new();
    let mut i: usize = 0;
    assert(ms.take(0) =~= Seq::<(Seq<char>, ValueView)>::empty());
    assert(maps_view(maps@) =~= Seq::<(Seq<char>, Seq<(Seq<char>, ValueView)>)>::empty());
    assert(entries_view(plain@) =~= Seq::<(Seq<char>, ValueView)>::empty());
    assert(metrics_view(rest@) =~= ms.skip(0));
    while rest.len() > 0
        invariant
            i + rest@.len() == ms.len(),
            ms.len() == total,
            metrics_view(rest@) == ms.skip(i as int),
            groups_of(maps_view(maps@), entries_view(plain@), ms.take(i as int)),
        decreases rest@.len(),
    {
        let ghost before = ms.take(i as int);
        let ghost after = ms.take(i + 1);
        let ghost r0 = rest@;
        let (name, value) = rest.remove(0);
        proof {
            assert((metrics_view(r0))[0] == ms.skip(i as int)[0]);
            assert(after.drop_last() =~= before);
            assert(after.last() == ms[i as int]);
            assert(ms[i as int] == (name@, value_view(value)));
            assert forall|k: int| 0 <= k < rest@.len() implies #[trigger] metrics_view(rest@)[k] == ms.skip(i + 1)[k] by {
                assert(rest@[k] == r0[k + 1]);
                assert(metrics_view(r0)[k + 1] == ms.skip(i as int)[k + 1]);
            }
            assert(metrics_view(rest@) =~= ms.skip(i + 1));
        }
        let ghost old_mv = maps_view(maps@);
        let ghost old_pv = entries_view(plain@);
        match split_dotted(name.as_str()) {
            Some((prefix, field)) => {
                match find_map(&maps, prefix.as_str()) {
                    Some(j) => {
                        let ghost f = field@;
                        let ghost vv = value_view(value);
                        let (key, mut fields) = maps.remove(j);
                        let ghost fv = entries_view(fields@);
                        fields.push((field, value));
                        assert(entries_view(fields@) =~= fv.push((f, vv)));
                        maps.insert(j, (key, fields));
                        proof {
                            assert(old_mv[j as int].0 == prefix@);
                            lemma_add_to_map(old_mv, old_pv, before, after, j as int, f);
                            assert(maps_view(maps@) =~= old_mv.update(j as int, (old_mv[j as int].0, old_mv[j as int].1.push((f, vv)))));
                        }
                    },
                    None => {
                        let ghost f = field@;
                        let ghost p = prefix@;
                        let ghost vv = value_view(value);
                        let mut fields: Vec<(String, PolicyValue)> = Vec::new();
                        fields.push((field, value));
                        assert(entries_view(fields@) =~= seq![(f, vv)]);
                        maps.push((prefix, fields));
                        proof {
                            assert forall|k: int| 0 <= k < old_mv.len() implies (#[trigger] old_mv[k]).0 != p by {
                                assert(old_mv[k].0 == maps@[k].0@);
                            }
                            lemma_add_map(old_mv, old_pv, before, after, p, f);
                            assert(maps_view(maps@) =~= old_mv.push((p, seq![(f, vv)])));
                        }
                    },
                }
            },
            None => {
                let ghost e = (name@, value_view(value));
                plain.push((name, value));
                proof {
                    lemma_add_plain(old_mv, old_pv, before, after);
                    assert(entries_view(plain@) =~= old_pv.push(e));
                }
            },
        }
        i = i + 1;
    }
    assert(ms.take(i as int) =~= ms);
    PolicyVariables { maps, plain, now }
}

} // verus!
