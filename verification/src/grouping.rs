//! Grouping metric names by category, for the report writers.

use crate::metrics::{category_at, category_index, Metric, MetricCategory};
use vstd::prelude::*;

verus! {

/// Metric names grouped by category. A category is present when it has at
/// least one name; the names of a category keep the order in which they were
/// added.
pub struct CategoryGroups<N> {
    groups: Vec<Vec<N>>,
}

/// The names of the metrics of category `c`, in order.
pub open spec fn names_in(ms: Seq<Metric>, c: MetricCategory) -> Seq<Seq<char>>
    decreases ms.len(),
{
    if ms.len() == 0 {
        Seq::empty()
    } else if ms.last().def.category == c {
        names_in(ms.drop_last(), c).push(ms.last().def.name@)
    } else {
        names_in(ms.drop_last(), c)
    }
}

/// The names of all the metrics, in order.
pub open spec fn all_names(ms: Seq<Metric>) -> Seq<Seq<char>> {
    ms.map_values(|m: Metric| m.def.name@)
}

/// The names of the metrics of category `c` whose name does not occur
/// earlier in the sequence (of any category), in order.
pub open spec fn first_names_in(ms: Seq<Metric>, c: MetricCategory) -> Seq<Seq<char>>
    decreases ms.len(),
{
    if ms.len() == 0 {
        Seq::empty()
    } else if ms.last().def.category == c && !all_names(ms.drop_last()).contains(ms.last().def.name@) {
        first_names_in(ms.drop_last(), c).push(ms.last().def.name@)
    } else {
        first_names_in(ms.drop_last(), c)
    }
}

/// The metrics of several crates, one after the other.
pub open spec fn flatten(crates: Seq<Seq<Metric>>) -> Seq<Metric>
    decreases crates.len(),
{
    if crates.len() == 0 {
        Seq::empty()
    } else {
        flatten(crates.drop_last()) + crates.last()
    }
}

/// The group of `c` in a sequence of groups by category position, when it
/// is not empty.
pub open spec fn group_of(groups: Seq<Seq<Seq<char>>>, c: MetricCategory) -> Option<Seq<Seq<char>>> {
    if groups[category_index(c)].len() > 0 {
        Some(groups[category_index(c)])
    } else {
        None
    }
}

/// The number of non-empty groups among the first `n`.
pub open spec fn count_present(groups: Seq<Seq<Seq<char>>>, n: int) -> int
    decreases n,
{
    if n <= 0 {
        0
    } else {
        count_present(groups, n - 1) + if groups[n - 1].len() > 0 { 1int } else { 0int }
    }
}

impl<N: View<V = Seq<char>>> CategoryGroups<N> {
    /// The names of each category, by category position.
    pub closed spec fn by_position(&self) -> Seq<Seq<Seq<char>>> {
        Seq::new(9, |i: int| self.groups@[i]@.map_values(|n: N| n@))
    }

    pub closed spec fn wf(&self) -> bool {
        self.groups@.len() == 9
    }

    /// The names of category `c`, when it is present.
    pub open spec fn group(&self, c: MetricCategory) -> Option<Seq<Seq<char>>> {
        group_of(self.by_position(), c)
    }

    /// The number of categories present.
    pub open spec fn present(&self) -> int {
        count_present(self.by_position(), 9)
    }

    /// The number of categories present.
    pub fn len(&self) -> (r: usize)
        requires
            self.wf(),
        ensures
            r == self.present(),
    {
        let mut n: usize = 0;
        let mut i: usize = 0;
        while i < 9
            invariant
                i <= 9,
                n <= i,
                self.groups@.len() == 9,
                n == count_present(self.by_position(), i as int),
            decreases 9 - i,
        {
            assert(self.by_position()[i as int].len() == self.groups@[i as int]@.len());
            if self.groups[i].len() > 0 {
                n = n + 1;
            }
            i = i + 1;
        }
        n
    }

    /// Whether no category is present.
    pub fn is_empty(&self) -> (r: bool)
        requires
            self.wf(),
        ensures
            r == (self.present() == 0),
    {
        self.len() == 0
    }

    /// Whether category `c` is present.
    pub fn contains_key(&self, c: MetricCategory) -> (r: bool)
        requires
            self.wf(),
        ensures
            r == self.group(c) is Some,
    {
        let i = c.index();
        assert(self.by_position()[i as int].len() == self.groups@[i as int]@.len());
        self.groups[i].len() > 0
    }

    /// The names of category `c`, when it is present.
    pub fn get(&self, c: MetricCategory) -> (r: Option<&Vec<N>>)
        requires
            self.wf(),
        ensures
            r is Some <==> self.group(c) is Some,
            r matches Some(v) ==> self.group(c) == Some(v@.map_values(|n: N| n@)),
    {
        let i = c.index();
        assert(self.by_position()[i as int].len() == self.groups@[i as int]@.len());
        if self.groups[i].len() > 0 {
            Some(&self.groups[i])
        } else {
            None
        }
    }
}

/// Nine empty groups.
fn empty_groups<N>() -> (r: Vec<Vec<N>>)
    ensures
        r@.len() == 9,
        forall|i: int| 0 <= i < 9 ==> (#[trigger] r@[i])@.len() == 0,
{
    let mut r: Vec<Vec<N>> = Vec::new();
    let mut i: usize = 0;
    while i < 9
        invariant
            i <= 9,
            r@.len() == i,
            forall|k: int| 0 <= k < i ==> (#[trigger] r@[k])@.len() == 0,
        decreases 9 - i,
    {
        r.push(Vec::new());
        i = i + 1;
    }
    r
}

/// Appends `name` to group `j`.
fn push_to_group<N>(groups: &mut Vec<Vec<N>>, j: usize, name: N)
    requires
        j < old(groups)@.len(),
    ensures
        final(groups)@.len() == old(groups)@.len(),
        final(groups)@[j as int]@ == old(groups)@[j as int]@.push(name),
        forall|k: int| 0 <= k < old(groups)@.len() && k != j ==> final(groups)@[k] == old(groups)@[k],
{
    let mut g = groups.remove(j);
    g.push(name);
    groups.insert(j, g);
}

/// Groups metric names by category: each category with metrics maps to the
/// names of its metrics, in order.
pub fn group_metrics_by_category(metrics: &[Metric]) -> (r: CategoryGroups<&'static str>)
    ensures
        r.wf(),
        forall|c: MetricCategory| #[trigger] r.group(c) == (if names_in(metrics@, c).len() > 0 {
            Some(names_in(metrics@, c))
        } else {
            None
        }),
{
    let mut groups: Vec<Vec<&'static str>> = empty_groups();
    let mut i: usize = 0;
    while i < metrics.len()
        invariant
            i <= metrics@.len(),
            groups@.len() == 9,
            forall|k: int| 0 <= k < 9 ==> (#[trigger] groups@[k])@.map_values(|n: &'static str| n@)
                == names_in(metrics@.take(i as int), category_at(k)),
        decreases metrics@.len() - i,
    {
        let m = &metrics[i];
        let j = m.category().index();
        let ghost before = groups@;
        push_to_group(&mut groups, j, m.name());
        proof {
            assert(metrics@.take(i + 1).drop_last() =~= metrics@.take(i as int));
            assert forall|k: int| 0 <= k < 9 implies (#[trigger] groups@[k])@.map_values(|n: &'static str| n@)
                == names_in(metrics@.take(i + 1), category_at(k)) by {
                lemma_category_at_index(k);
                if k == j {
                    assert(groups@[k]@.map_values(|n: &'static str| n@)
                        =~= before[k]@.map_values(|n: &'static str| n@).push(m.def.name@));
                }
            }
        }
        i = i + 1;
    }
    let r = CategoryGroups { groups };
    proof {
        assert(metrics@.take(metrics@.len() as int) =~= metrics@);
        assert forall|c: MetricCategory| #[trigger] r.group(c) == (if names_in(metrics@, c).len() > 0 {
            Some(names_in(metrics@, c))
        } else {
            None
        }) by {
            lemma_index_category(c);
        }
    }
    r
}

/// Whether `names` holds a string with the text `t`.
fn holds_name(names: &Vec<String>, t: &String) -> (r: bool)
    ensures
        r == names@.map_values(|n: String| n@).contains(t@),
{
    let mut i: usize = 0;
    while i < names.len()
        invariant
            i <= names@.len(),
            forall|k: int| 0 <= k < i ==> names@[k]@ != t@,
        decreases names@.len() - i,
    {
        if names[i] == *t {
            assert(names@.map_values(|n: String| n@)[i as int] == t@);
            return true;
        }
        i = i + 1;
    }
    proof {
        let views = names@.map_values(|n: String| n@);
        if views.contains(t@) {
            let k = choose|k: int| 0 <= k < views.len() && #[trigger] views[k] == t@;
            assert(names@[k]@ == t@);
        }
    }
    false
}

/// Groups metric names by category across several crates: each name is
/// kept once, under the category of its first occurrence, in the order first
/// encountered.
pub fn group_all_metrics_by_category(crate_metrics: &[&[Metric]]) -> (r: CategoryGroups<String>)
    ensures
        r.wf(),
        forall|c: MetricCategory| #[trigger] r.group(c) == (if first_names_in(flatten(crate_metrics@.map_values(|m: &[Metric]| m@)), c).len() > 0 {
            Some(first_names_in(flatten(crate_metrics@.map_values(|m: &[Metric]| m@)), c))
        } else {
            None
        }),
{
    let ghost crates = crate_metrics@.map_values(|m: &[Metric]| m@);
    let mut seen: Vec<String> = Vec::new();
    let mut groups: Vec<Vec<String>> = empty_groups();
    let mut ci: usize = 0;
    assert(flatten(crates.take(0)) =~= Seq::<Metric>::empty());
    while ci < crate_metrics.len()
        invariant
            ci <= crate_metrics@.len(),
            crates == crate_metrics@.map_values(|m: &[Metric]| m@),
            groups@.len() == 9,
            forall|t: Seq<char>| seen@.map_values(|n: String| n@).contains(t)
                <==> #[trigger] all_names(flatten(crates.take(ci as int))).contains(t),
            forall|k: int| 0 <= k < 9 ==> (#[trigger] groups@[k])@.map_values(|n: String| n@)
                == first_names_in(flatten(crates.take(ci as int)), category_at(k)),
        decreases crate_metrics@.len() - ci,
    {
        let metrics: &[Metric] = crate_metrics[ci];
        let ghost done = flatten(crates.take(ci as int));
        let mut i: usize = 0;
        assert(done + metrics@.take(0) =~= done);
        while i < metrics.len()
            invariant
                i <= metrics@.len(),
                groups@.len() == 9,
                forall|t: Seq<char>| seen@.map_values(|n: String| n@).contains(t)
                    <==> #[trigger] all_names(done + metrics@.take(i as int)).contains(t),
                forall|k: int| 0 <= k < 9 ==> (#[trigger] groups@[k])@.map_values(|n: String| n@)
                    == first_names_in(done + metrics@.take(i as int), category_at(k)),
            decreases metrics@.len() - i,
        {
            let m = &metrics[i];
            let name = m.name().to_owned();
            let ghost prefix = done + metrics@.take(i as int);
            let ghost next = done + metrics@.take(i + 1);
            assert(next.drop_last() =~= prefix);
            assert(next.last() == *m);
            let known = holds_name(&seen, &name);
            let ghost before = groups@;
            let ghost seen_before = seen@;
            if !known {
                let j = m.category().index();
                let copy = name.clone();
                push_to_group(&mut groups, j, copy);
                seen.push(name);
                proof {
                    assert forall|k: int| 0 <= k < 9 implies (#[trigger] groups@[k])@.map_values(|n: String| n@)
                        == first_names_in(next, category_at(k)) by {
                        lemma_category_at_index(k);
                        if k == j {
                            assert(groups@[k]@.map_values(|n: String| n@)
                                =~= before[k]@.map_values(|n: String| n@).push(m.def.name@));
                        }
                    }
                }
            }
            proof {
                assert(all_names(next) =~= all_names(prefix).push(m.def.name@));
                if !known {
                    assert(seen@.map_values(|n: String| n@) =~= seen_before.map_values(|n: String| n@).push(m.def.name@));
                }
                assert forall|t: Seq<char>| seen@.map_values(|n: String| n@).contains(t)
                    <==> #[trigger] all_names(next).contains(t) by {
                    lemma_contains_push(all_names(prefix), m.def.name@, t);
                    lemma_contains_push(seen_before.map_values(|n: String| n@), m.def.name@, t);
                }
            }
            i = i + 1;
        }
        proof {
            assert(metrics@.take(metrics@.len() as int) =~= metrics@);
            assert(crates.take(ci + 1).drop_last() =~= crates.take(ci as int));
            assert(crates.take(ci + 1).last() == metrics@);
        }
        ci = ci + 1;
    }
    let r = CategoryGroups { groups };
    proof {
        assert(crates.take(crate_metrics@.len() as int) =~= crates);
        assert forall|c: MetricCategory| #[trigger] r.group(c) == (if first_names_in(flatten(crates), c).len() > 0 {
            Some(first_names_in(flatten(crates), c))
        } else {
            None
        }) by {
            lemma_index_category(c);
        }
    }
    r
}

/// An element of a sequence with one more element is the new one or one of
/// the old ones.
proof fn lemma_contains_push(s: Seq<Seq<char>>, x: Seq<char>, t: Seq<char>)
    ensures
        s.push(x).contains(t) <==> (s.contains(t) || t == x),
{
    if s.contains(t) {
        let k = choose|k: int| 0 <= k < s.len() && s[k] == t;
        assert(s.push(x)[k] == t);
    }
    if t == x {
        assert(s.push(x)[s.len() as int] == t);
    }
    if s.push(x).contains(t) {
        let k = choose|k: int| 0 <= k < s.push(x).len() && s.push(x)[k] == t;
        if k < s.len() {
            assert(s[k] == t);
        }
    }
}

/// Each position names the category that has it.
proof fn lemma_category_at_index(k: int)
    requires
        0 <= k < 9,
    ensures
        category_index(category_at(k)) == k,
{
}

/// Each category is the one at its position.
proof fn lemma_index_category(c: MetricCategory)
    ensures
        category_at(category_index(c)) == c,
        0 <= category_index(c) < 9,
{
}

/// A name kept for a category does not occur among the names before it.
proof fn lemma_first_names_fresh(ms: Seq<Metric>, c: MetricCategory, t: Seq<char>)
    requires
        first_names_in(ms, c).contains(t),
    ensures
        all_names(ms).contains(t),
    decreases ms.len(),
{
    if ms.len() > 0 {
        let prev = ms.drop_last();
        assert(all_names(ms) =~= all_names(prev).push(ms.last().def.name@));
        if first_names_in(prev, c).contains(t) {
            lemma_first_names_fresh(prev, c, t);
            lemma_contains_push(all_names(prev), ms.last().def.name@, t);
        } else {
            lemma_contains_push(all_names(prev), ms.last().def.name@, t);
            if first_names_in(ms, c) != first_names_in(prev, c) {
                lemma_contains_push(first_names_in(prev, c), ms.last().def.name@, t);
            }
        }
    }
}

/// Grouping across crates keeps each name at most once in a category.
pub proof fn lemma_group_all_names_unique(ms: Seq<Metric>, c: MetricCategory)
    ensures
        first_names_in(ms, c).no_duplicates(),
    decreases ms.len(),
{
    if ms.len() > 0 {
        let prev = ms.drop_last();
        lemma_group_all_names_unique(prev, c);
        let name = ms.last().def.name@;
        if ms.last().def.category == c && !all_names(prev).contains(name) {
            let g = first_names_in(prev, c);
            assert forall|a: int, b: int| 0 <= a < g.push(name).len() && 0 <= b < g.push(name).len() && a != b
                implies g.push(name)[a] != g.push(name)[b] by {
                if a == g.len() || b == g.len() {
                    let other = if a == g.len() { b } else { a };
                    assert(g.contains(g[other]));
                    lemma_first_names_fresh(prev, c, g[other]);
                }
            }
        }
    }
}

/// Grouping across crates keeps each name in at most one category.
pub proof fn lemma_group_all_categories_disjoint(ms: Seq<Metric>, c1: MetricCategory, c2: MetricCategory, t: Seq<char>)
    requires
        c1 != c2,
    ensures
        !(first_names_in(ms, c1).contains(t) && first_names_in(ms, c2).contains(t)),
    decreases ms.len(),
{
    if ms.len() > 0 {
        let prev = ms.drop_last();
        lemma_group_all_categories_disjoint(prev, c1, c2, t);
        let name = ms.last().def.name@;
        lemma_contains_push(first_names_in(prev, c1), name, t);
        lemma_contains_push(first_names_in(prev, c2), name, t);
        if t == name && !all_names(prev).contains(name) {
            if first_names_in(prev, c1).contains(t) {
                lemma_first_names_fresh(prev, c1, t);
            }
            if first_names_in(prev, c2).contains(t) {
                lemma_first_names_fresh(prev, c2, t);
            }
        }
    }
}

/// Grouping across crates loses no name: every metric's name is kept under
/// some category.
pub proof fn lemma_group_all_covers_names(ms: Seq<Metric>, t: Seq<char>)
    requires
        all_names(ms).contains(t),
    ensures
        exists|c: MetricCategory| #[trigger] first_names_in(ms, c).contains(t),
    decreases ms.len(),
{
    let prev = ms.drop_last();
    let name = ms.last().def.name@;
    assert(all_names(ms) =~= all_names(prev).push(name));
    lemma_contains_push(all_names(prev), name, t);
    if all_names(prev).contains(t) {
        lemma_group_all_covers_names(prev, t);
        let c = choose|c: MetricCategory| #[trigger] first_names_in(prev, c).contains(t);
        lemma_contains_push(first_names_in(prev, c), name, t);
        assert(first_names_in(ms, c).contains(t));
    } else {
        let c = ms.last().def.category;
        lemma_contains_push(first_names_in(prev, c), name, t);
        assert(first_names_in(ms, c).contains(t));
    }
}

/// Grouping one crate's metrics puts each metric's name in its category's
/// group.
pub proof fn lemma_group_holds_each_metric(ms: Seq<Metric>, i: int)
    requires
        0 <= i < ms.len(),
    ensures
        names_in(ms, ms[i].def.category).contains(ms[i].def.name@),
    decreases ms.len(),
{
    let prev = ms.drop_last();
    let c = ms[i].def.category;
    if i == ms.len() - 1 {
        assert(names_in(ms, c) == names_in(prev, c).push(ms.last().def.name@));
        assert(names_in(ms, c)[names_in(prev, c).len() as int] == ms[i].def.name@);
    } else {
        assert(prev[i] == ms[i]);
        lemma_group_holds_each_metric(prev, i);
        lemma_contains_push(names_in(prev, c), ms.last().def.name@, ms[i].def.name@);
    }
}

} // verus!
