//! The dependency orderer: a reference-depth walk over the synthesized
//! definitions and the stable reordering by descending depth, so that a
//! definition is emitted before everything that references it by name.

use vstd::prelude::*;

use crate::model::DefinitionV;
use crate::sql::{ColumnV, SqlTypeV, SqlV, spec_nullable};

verus! {

/// The names a sequence of columns references through foreign keys, in
/// column order.
pub open spec fn spec_ref_names_cols(cols: Seq<ColumnV>) -> Seq<Seq<char>>
    decreases cols.len(),
{
    if cols.len() == 0 {
        Seq::empty()
    } else {
        let prev = spec_ref_names_cols(cols.drop_last());
        match spec_nullable(cols.last().sql) {
            SqlTypeV::References(other, _, _, _) => prev + seq![other],
            _ => prev,
        }
    }
}

/// The definition names a schema definition references: the foreign-key
/// targets of a table's columns, or the table an index, abandon function
/// or delete guard belongs to. An enumeration references nothing.
pub open spec fn spec_ref_names(d: DefinitionV<SqlV>) -> Seq<Seq<char>> {
    match d.value {
        SqlV::Table(cols, _) => spec_ref_names_cols(cols),
        SqlV::Enum(_) => Seq::empty(),
        SqlV::Index(table, _) => seq![table],
        SqlV::AbandonChildrenFunction(table, _) => seq![table],
        SqlV::SilentlyPreventAnyDelete(table) => seq![table],
    }
}

/// The first definition with the given name, scanning from position `i`.
pub open spec fn spec_find_from(defs: Seq<DefinitionV<SqlV>>, name: Seq<char>, i: int) -> Option<
    int,
>
    decreases defs.len() - i,
{
    if i < 0 || i >= defs.len() {
        None
    } else if defs[i].name == name {
        Some(i)
    } else {
        spec_find_from(defs, name, i + 1)
    }
}

/// The first definition with the given name, if any.
pub open spec fn spec_find_def(defs: Seq<DefinitionV<SqlV>>, name: Seq<char>) -> Option<int> {
    spec_find_from(defs, name, 0)
}

/// The remaining walk budget: how many nesting levels the walk may still
/// descend from the given depth.
pub open spec fn walk_budget(defs: Seq<DefinitionV<SqlV>>, depth: int) -> int {
    if defs.len() - depth >= 0 {
        defs.len() - depth
    } else {
        0
    }
}

/// One step of the reference-depth walk: the definition's stored depth is
/// raised to the given depth, and every definition it references is walked
/// one level deeper. The walk stops once the depth reaches the number of
/// definitions; a well-formed (cycle-free) model never gets there, and the
/// stop makes the walk total on every input.
pub open spec fn spec_walk(
    defs: Seq<DefinitionV<SqlV>>,
    current: int,
    depths: Map<Seq<char>, int>,
    depth: int,
) -> Map<Seq<char>, int>
    decreases walk_budget(defs, depth), 0int,
{
    if depth < 0 || depth >= defs.len() || current < 0 || current >= defs.len() {
        depths
    } else {
        let name = defs[current].name;
        let raised = if depths.contains_key(name) && depths[name] >= depth {
            depths[name]
        } else {
            depth
        };
        spec_walk_names(defs, spec_ref_names(defs[current]), depths.insert(name, raised), raised + 1)
    }
}

/// Walks, in order, the first definition matching each of the given names;
/// names that match no definition contribute nothing.
pub open spec fn spec_walk_names(
    defs: Seq<DefinitionV<SqlV>>,
    names: Seq<Seq<char>>,
    depths: Map<Seq<char>, int>,
    depth: int,
) -> Map<Seq<char>, int>
    decreases walk_budget(defs, depth), 1int + names.len(),
{
    if names.len() <= 0 {
        depths
    } else {
        let after_first = match spec_find_def(defs, names[0]) {
            Some(i) => spec_walk(defs, i, depths, depth),
            None => depths,
        };
        spec_walk_names(defs, names.drop_first(), after_first, depth)
    }
}

/// Walking one more name after a list of names is one more walk step after
/// walking the list.
pub proof fn lemma_walk_names_snoc(
    defs: Seq<DefinitionV<SqlV>>,
    names: Seq<Seq<char>>,
    t: Seq<char>,
    m: Map<Seq<char>, int>,
    d: int,
)
    ensures
        spec_walk_names(defs, names.push(t), m, d) == ({
            let before = spec_walk_names(defs, names, m, d);
            match spec_find_def(defs, t) {
                Some(i) => spec_walk(defs, i, before, d),
                None => before,
            }
        }),
    decreases names.len(),
{
    if names.len() == 0 {
        assert(names.push(t)[0] == t);
        assert(names.push(t).drop_first() =~= Seq::<Seq<char>>::empty());
        let after_first = match spec_find_def(defs, t) {
            Some(i) => spec_walk(defs, i, m, d),
            None => m,
        };
        assert(spec_walk_names(defs, Seq::<Seq<char>>::empty(), after_first, d) == after_first);
        assert(spec_walk_names(defs, names, m, d) == m);
    } else {
        assert(names.push(t)[0] == names[0]);
        assert(names.push(t).drop_first() =~= names.drop_first().push(t));
        let after_first = match spec_find_def(defs, names[0]) {
            Some(i) => spec_walk(defs, i, m, d),
            None => m,
        };
        lemma_walk_names_snoc(defs, names.drop_first(), t, after_first, d);
        assert(spec_walk_names(defs, names.push(t), m, d) == spec_walk_names(
            defs,
            names.drop_first().push(t),
            after_first,
            d,
        ));
        assert(spec_walk_names(defs, names, m, d) == spec_walk_names(
            defs,
            names.drop_first(),
            after_first,
            d,
        ));
    }
}

/// The depth map after the walks rooted at the first `k` definitions.
pub open spec fn spec_depths_upto(defs: Seq<DefinitionV<SqlV>>, k: int) -> Map<Seq<char>, int>
    decreases k,
{
    if k <= 0 {
        Map::empty()
    } else {
        spec_walk(defs, k - 1, spec_depths_upto(defs, k - 1), 0)
    }
}

/// The reference-depth map of a definition list: every definition is
/// walked once, in declared order, from depth zero.
pub open spec fn spec_depth_map(defs: Seq<DefinitionV<SqlV>>) -> Map<Seq<char>, int> {
    spec_depths_upto(defs, defs.len() as int)
}

/// The depth recorded for a name; a name the walk never reached counts as
/// depth zero.
pub open spec fn spec_depth_of(dm: Map<Seq<char>, int>, name: Seq<char>) -> int {
    if dm.contains_key(name) {
        dm[name]
    } else {
        0
    }
}

/// The definitions whose recorded depth is exactly `d`, in declared order.
pub open spec fn spec_bucket(
    defs: Seq<DefinitionV<SqlV>>,
    dm: Map<Seq<char>, int>,
    d: int,
) -> Seq<DefinitionV<SqlV>>
    decreases defs.len(),
{
    if defs.len() == 0 {
        Seq::empty()
    } else {
        let prev = spec_bucket(defs.drop_last(), dm, d);
        if spec_depth_of(dm, defs.last().name) == d {
            prev + seq![defs.last()]
        } else {
            prev
        }
    }
}

/// The concatenation of the first `k` depth buckets, deepest first: the
/// bucket of depth `defs.len() - 1`, then `defs.len() - 2`, and so on.
pub open spec fn spec_buckets_desc(
    defs: Seq<DefinitionV<SqlV>>,
    dm: Map<Seq<char>, int>,
    k: int,
) -> Seq<DefinitionV<SqlV>>
    decreases k,
{
    if k <= 0 {
        Seq::empty()
    } else {
        spec_buckets_desc(defs, dm, k - 1) + spec_bucket(defs, dm, defs.len() - k)
    }
}

/// The definition list reordered stably by descending reference depth:
/// definitions that nothing references come last, so a renderer can
/// forward-declare nothing.
pub open spec fn spec_sorted(defs: Seq<DefinitionV<SqlV>>) -> Seq<DefinitionV<SqlV>> {
    spec_buckets_desc(defs, spec_depth_map(defs), defs.len() as int)
}

/// Whether every recorded depth is at most `bound`.
pub open spec fn dm_bounded(dm: Map<Seq<char>, int>, bound: int) -> bool {
    forall|k: Seq<char>| dm.contains_key(k) ==> #[trigger] dm[k] <= bound
}

/// The map an association list stands for; a later entry would override an
/// earlier one of the same key, and the list is kept free of duplicates.
pub open spec fn dm_view(entries: Seq<(String, usize)>) -> Map<Seq<char>, int>
    decreases entries.len(),
{
    if entries.len() == 0 {
        Map::empty()
    } else {
        dm_view(entries.drop_last()).insert(entries.last().0@, entries.last().1 as int)
    }
}

/// A map from definition names to their recorded reference depth, kept as
/// an association list with pairwise distinct keys.
pub struct DepthMap {
    pub entries: Vec<(String, usize)>,
}

impl View for DepthMap {
    type V = Map<Seq<char>, int>;

    open spec fn view(&self) -> Map<Seq<char>, int> {
        dm_view(self.entries@)
    }
}

proof fn lemma_dm_view_contains(entries: Seq<(String, usize)>, k: Seq<char>)
    ensures
        dm_view(entries).contains_key(k) <==> exists|i: int|
            0 <= i < entries.len() && entries[i].0@ == k,
    decreases entries.len(),
{
    if entries.len() > 0 {
        lemma_dm_view_contains(entries.drop_last(), k);
        if entries.last().0@ == k {
            assert(entries[entries.len() - 1].0@ == k);
        } else {
            if dm_view(entries).contains_key(k) {
                let i = choose|i: int|
                    0 <= i < entries.drop_last().len() && entries.drop_last()[i].0@ == k;
                assert(entries[i].0@ == k);
            }
            if exists|i: int| 0 <= i < entries.len() && entries[i].0@ == k {
                let i = choose|i: int| 0 <= i < entries.len() && entries[i].0@ == k;
                assert(i < entries.len() - 1);
                assert(entries.drop_last()[i].0@ == k);
            }
        }
    }
}

proof fn lemma_dm_view_get(entries: Seq<(String, usize)>, i: int)
    requires
        0 <= i < entries.len(),
        forall|a: int, b: int|
            0 <= a < b < entries.len() ==> (#[trigger] entries[a].0)@ != (#[trigger] entries[b].0)@,
    ensures
        dm_view(entries).contains_key(entries[i].0@),
        dm_view(entries)[entries[i].0@] == entries[i].1 as int,
    decreases entries.len(),
{
    if i == entries.len() - 1 {
    } else {
        assert(entries.drop_last()[i] == entries[i]);
        lemma_dm_view_get(entries.drop_last(), i);
        assert(entries.last().0@ != entries[i].0@);
    }
}

impl DepthMap {
    /// Pairwise distinct keys.
    pub open spec fn wf(&self) -> bool {
        forall|a: int, b: int|
            0 <= a < b < self.entries@.len() ==> (#[trigger] self.entries@[a].0)@ != (
            #[trigger] self.entries@[b].0)@
    }

    /// The empty depth map.
    pub fn new() -> (r: Self)
        ensures
            r.wf(),
            r@ == Map::<Seq<char>, int>::empty(),
    {
        DepthMap { entries: Vec::new() }
    }

    /// The depth recorded for a name, if any.
    pub fn get(&self, name: &String) -> (r: Option<usize>)
        requires
            self.wf(),
        ensures
            match r {
                Some(v) => self@.contains_key(name@) && self@[name@] == v as int,
                None => !self@.contains_key(name@),
            },
    {
        let mut i: usize = 0;
        while i < self.entries.len()
            invariant
                i <= self.entries@.len(),
                self.wf(),
                forall|j: int| 0 <= j < i ==> (#[trigger] self.entries@[j].0)@ != name@,
            decreases self.entries@.len() - i,
        {
            if self.entries[i].0 == *name {
                proof {
                    lemma_dm_view_get(self.entries@, i as int);
                }
                return Some(self.entries[i].1);
            }
            i = i + 1;
        }
        proof {
            lemma_dm_view_contains(self.entries@, name@);
        }
        None
    }

    /// Raises the recorded depth of a name to at least `depth`, recording
    /// `depth` where the name was absent, and returns the recorded value.
    pub fn bump(&mut self, name: &String, depth: usize) -> (d: usize)
        requires
            old(self).wf(),
        ensures
            final(self).wf(),
            final(self)@ == old(self)@.insert(name@, d as int),
            d as int == if old(self)@.contains_key(name@) && old(self)@[name@] >= depth as int {
                old(self)@[name@]
            } else {
                depth as int
            },
            forall|b: int|
                dm_bounded(old(self)@, b) && depth <= b ==> dm_bounded(#[trigger] final(self)@, b)
                    && d <= b,
    {
        let ghost entries0 = self.entries@;
        let mut i: usize = 0;
        while i < self.entries.len()
            invariant
                i <= self.entries@.len(),
                self.entries@ == entries0,
                old(self).entries@ == entries0,
                old(self).wf(),
                forall|j: int| 0 <= j < i ==> (#[trigger] entries0[j].0)@ != name@,
            decreases self.entries@.len() - i,
        {
            if self.entries[i].0 == *name {
                let stored = self.entries[i].1;
                proof {
                    lemma_dm_view_get(entries0, i as int);
                }
                if depth > stored {
                    self.entries.set(i, (name.clone(), depth));
                    proof {
                        lemma_dm_view_update(entries0, i as int, name@, depth);
                        lemma_dm_bounded_insert(dm_view(entries0), name@, depth as int);
                    }
                    return depth;
                } else {
                    proof {
                        assert(dm_view(entries0).insert(name@, stored as int) =~= dm_view(
                            entries0,
                        ));
                    }
                    return stored;
                }
            }
            i = i + 1;
        }
        proof {
            lemma_dm_view_contains(entries0, name@);
        }
        self.entries.push((name.clone(), depth));
        proof {
            assert(self.entries@.drop_last() =~= entries0);
            lemma_dm_bounded_insert(dm_view(entries0), name@, depth as int);
        }
        depth
    }
}

proof fn lemma_dm_view_update(entries: Seq<(String, usize)>, i: int, k: Seq<char>, v: usize)
    requires
        0 <= i < entries.len(),
        entries[i].0@ == k,
        forall|a: int, b: int|
            0 <= a < b < entries.len() ==> (#[trigger] entries[a].0)@ != (#[trigger] entries[b].0)@,
    ensures
        forall|p: (String, usize)|
            p.0@ == k && p.1 == v ==> dm_view(#[trigger] entries.update(i, p)) == dm_view(
                entries,
            ).insert(k, v as int),
    decreases entries.len(),
{
    assert forall|p: (String, usize)| p.0@ == k && p.1 == v implies dm_view(
        #[trigger] entries.update(i, p),
    ) == dm_view(entries).insert(k, v as int) by {
        let updated = entries.update(i, p);
        if i == entries.len() - 1 {
            assert(updated.drop_last() =~= entries.drop_last());
            assert(updated.last() == p);
            assert(dm_view(updated) == dm_view(entries.drop_last()).insert(k, v as int));
            assert(dm_view(entries.drop_last()).insert(k, v as int) =~= dm_view(entries).insert(
                k,
                v as int,
            ));
        } else {
            assert(updated.drop_last() =~= entries.drop_last().update(i, p));
            assert(updated.last() == entries.last());
            assert(entries.drop_last()[i] == entries[i]);
            lemma_dm_view_update(entries.drop_last(), i, k, v);
            assert(dm_view(entries.drop_last().update(i, p)) == dm_view(
                entries.drop_last(),
            ).insert(k, v as int));
            assert(entries.last().0@ != k);
            assert(dm_view(updated) == dm_view(entries.drop_last()).insert(k, v as int).insert(
                entries.last().0@,
                entries.last().1 as int,
            ));
            assert(dm_view(entries.drop_last()).insert(k, v as int).insert(
                entries.last().0@,
                entries.last().1 as int,
            ) =~= dm_view(entries).insert(k, v as int));
        }
    }
}

proof fn lemma_dm_bounded_insert(dm: Map<Seq<char>, int>, k: Seq<char>, v: int)
    ensures
        forall|b: int| dm_bounded(dm, b) && v <= b ==> dm_bounded(#[trigger] dm.insert(k, v), b),
{
    assert forall|b: int| dm_bounded(dm, b) && v <= b implies dm_bounded(
        #[trigger] dm.insert(k, v),
        b,
    ) by {
        assert forall|key: Seq<char>| dm.insert(k, v).contains_key(key) implies #[trigger] dm.insert(
            k,
            v,
        )[key] <= b by {
            if key == k {
            } else {
                assert(dm.contains_key(key));
            }
        }
    }
}

} // verus!
