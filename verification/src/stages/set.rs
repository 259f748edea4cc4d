//! Sets of stages, and a builder that orders, enables and disables them.
use crate::stages::checkpoint::StageId;
use crate::stages::stage::Stage;
use vstd::prelude::*;

verus! {

/// A stage of a set and whether it is enabled.
pub struct StageEntry<S> {
    /// The stage.
    pub stage: S,
    /// Whether the stage is enabled.
    pub enabled: bool,
}

/// Helper to create and configure a set of stages.
///
/// The builder keeps each stage once, in the order it will run; stages can
/// be added at the end or next to another stage, replaced, enabled and
/// disabled. Adding a stage that is already in the set moves it to its new
/// place.
pub struct StageSetBuilder<S> {
    /// The stages in order.
    pub entries: Vec<StageEntry<S>>,
}

/// A logical chunk of stages that depend on each other.
pub trait StageSet<S: Stage>: Sized {
    /// The stages the set yields, in order.
    spec fn stage_seq(&self) -> Seq<S>;

    /// Configures the stages in the set.
    fn builder(self) -> (r: StageSetBuilder<S>)
        ensures
            StageSetBuilder::<S>::built(r) == self.stage_seq(),
    ;
}

/// The given stages as entries, each enabled.
pub open spec fn fresh_entries<S>(stages: Seq<S>) -> Seq<StageEntry<S>> {
    stages.map_values(|x: S| StageEntry { stage: x, enabled: true })
}

/// The identifiers of the stages, in order.
pub open spec fn ids_of<S: Stage>(s: Seq<StageEntry<S>>) -> Seq<StageId> {
    s.map_values(|e: StageEntry<S>| e.stage.spec_id())
}

/// The place a stage added at `target` (a place in the order before the
/// insert) ends up at, once its earlier occurrence at `j` is removed.
pub open spec fn moved_target(j: int, target: int) -> int {
    if j < target { target - 1 } else { target }
}

impl<S: Stage> StageSetBuilder<S> {
    /// Each stage occurs once.
    pub open spec fn wf(&self) -> bool {
        ids_of(self.entries@).no_duplicates()
    }

    /// The identifiers of the stages, in order.
    pub open spec fn order(&self) -> Seq<StageId> {
        ids_of(self.entries@)
    }

    /// The entries after adding `stage`, enabled, at `target`, moving it
    /// there if it is already in the set.
    pub open spec fn upserted(s: Seq<StageEntry<S>>, stage: S, target: int) -> Seq<StageEntry<S>> {
        let e = StageEntry { stage, enabled: true };
        if ids_of(s).contains(stage.spec_id()) {
            let j = ids_of(s).index_of(stage.spec_id());
            s.remove(j).insert(moved_target(j, target), e)
        } else {
            s.insert(target, e)
        }
    }

    /// An empty set.
    pub fn new() -> (r: StageSetBuilder<S>)
        ensures
            r.wf(),
            r.entries@.len() == 0,
    {
        let r = StageSetBuilder { entries: Vec::new() };
        assert(ids_of(r.entries@) =~= Seq::<StageId>::empty());
        r
    }

    /// Returns the position of a stage, which must be in the set.
    fn index_of(&self, stage_id: StageId) -> (r: usize)
        requires
            self.order().contains(stage_id),
        ensures
            r < self.entries@.len(),
            self.order()[r as int] == stage_id,
            forall|i: int| 0 <= i < r ==> self.order()[i] != stage_id,
    {
        let mut i: usize = 0;
        while i < self.entries.len()
            invariant
                i <= self.entries.len(),
                self.order().contains(stage_id),
                forall|k: int| 0 <= k < i ==> self.order()[k] != stage_id,
            decreases self.entries.len() - i,
        {
            if self.entries[i].stage.id() == stage_id {
                return i;
            }
            i += 1;
        }
        proof {
            let k = choose|k: int| 0 <= k < self.order().len() && self.order()[k] == stage_id;
        }
        0
    }

    /// Returns the position of a stage, if it is in the set.
    fn find(&self, stage_id: StageId) -> (r: Option<usize>)
        ensures
            match r {
                Some(i) => i < self.entries@.len() && self.order()[i as int] == stage_id
                    && forall|k: int| 0 <= k < i ==> self.order()[k] != stage_id,
                None => !self.order().contains(stage_id),
            },
    {
        let mut i: usize = 0;
        while i < self.entries.len()
            invariant
                i <= self.entries.len(),
                forall|k: int| 0 <= k < i ==> self.order()[k] != stage_id,
            decreases self.entries.len() - i,
        {
            if self.entries[i].stage.id() == stage_id {
                return Some(i);
            }
            i += 1;
        }
        None
    }

    /// Adds `stage`, enabled, at position `target` of the current order; a
    /// stage with the same identifier leaves its previous place.
    fn upsert_stage(&mut self, stage: S, target: usize)
        requires
            old(self).wf(),
            target <= old(self).entries@.len(),
        ensures
            final(self).wf(),
            final(self).entries@ == Self::upserted(old(self).entries@, stage, target as int),
    {
        let id = stage.id();
        let e = StageEntry { stage, enabled: true };
        let ghost s = self.entries@;
        match self.find(id) {
            Some(j) => {
                proof {
                    ids_of(s).index_of_first_ensures(id);
                    assert(ids_of(s).index_of(id) == j as int) by {
                        assert(ids_of(s)[j as int] == id);
                        if ids_of(s).index_of(id) != j as int {
                            assert(ids_of(s)[ids_of(s).index_of(id)] == id);
                        }
                    }
                }
                self.entries.remove(j);
                let t = if j < target { target - 1 } else { target };
                self.entries.insert(t, e);
                proof {
                    assert(ids_of(self.entries@) =~= ids_of(s).remove(j as int).insert(t as int, id));
                    assert(ids_of(self.entries@).no_duplicates()) by {
                        assert forall|a: int, b: int| 0 <= a < b < ids_of(self.entries@).len() implies ids_of(self.entries@)[a] != ids_of(self.entries@)[b] by {
                            let r = ids_of(s).remove(j as int);
                            if a != t && b != t {
                                let a0 = if a < t { a } else { a - 1 };
                                let b0 = if b < t { b } else { b - 1 };
                                let a1 = if a0 < j { a0 } else { a0 + 1 };
                                let b1 = if b0 < j { b0 } else { b0 + 1 };
                                assert(ids_of(self.entries@)[a] == ids_of(s)[a1]);
                                assert(ids_of(self.entries@)[b] == ids_of(s)[b1]);
                            } else if a == t {
                                let b0 = b - 1;
                                let b1 = if b0 < j { b0 } else { b0 + 1 };
                                assert(ids_of(self.entries@)[b] == ids_of(s)[b1]);
                                assert(b1 != j);
                            } else {
                                let a0 = a;
                                let a1 = if a0 < j { a0 } else { a0 + 1 };
                                assert(ids_of(self.entries@)[a] == ids_of(s)[a1]);
                                assert(a1 != j);
                            }
                        }
                    }
                }
            },
            None => {
                self.entries.insert(target, e);
                proof {
                    assert(ids_of(self.entries@) =~= ids_of(s).insert(target as int, id));
                    assert(ids_of(self.entries@).no_duplicates()) by {
                        assert forall|a: int, b: int| 0 <= a < b < ids_of(self.entries@).len() implies ids_of(self.entries@)[a] != ids_of(self.entries@)[b] by {
                            let t = target as int;
                            if a != t && b != t {
                                let a0 = if a < t { a } else { a - 1 };
                                let b0 = if b < t { b } else { b - 1 };
                                assert(ids_of(self.entries@)[a] == ids_of(s)[a0]);
                                assert(ids_of(self.entries@)[b] == ids_of(s)[b0]);
                            } else if a == t {
                                assert(ids_of(self.entries@)[b] == ids_of(s)[b - 1]);
                            } else {
                                assert(ids_of(self.entries@)[a] == ids_of(s)[a]);
                            }
                        }
                    }
                }
            },
        }
    }

    /// Replaces the stage with the same identifier, which must be in the
    /// set; it keeps its place and whether it is enabled.
    pub fn set(self, stage: S) -> (r: StageSetBuilder<S>)
        requires
            self.wf(),
            self.order().contains(stage.spec_id()),
        ensures
            r.wf(),
            ({
                let j = self.order().index_of(stage.spec_id());
                r.entries@ == self.entries@.update(j, StageEntry { stage, enabled: self.entries@[j].enabled })
            }),
    {
        let mut this = self;
        let id = stage.id();
        let ghost s = this.entries@;
        let j = this.index_of(id);
        proof {
            ids_of(s).index_of_first_ensures(id);
            assert(ids_of(s).index_of(id) == j as int) by {
                if ids_of(s).index_of(id) != j as int {
                    assert(ids_of(s)[ids_of(s).index_of(id)] == id);
                }
            }
        }
        let enabled = this.entries[j].enabled;
        this.entries.set(j, StageEntry { stage, enabled });
        proof {
            assert(ids_of(this.entries@) =~= ids_of(s));
        }
        this
    }

    /// Adds the stage at the end of this set; a stage with the same
    /// identifier leaves its previous place.
    pub fn add_stage(self, stage: S) -> (r: StageSetBuilder<S>)
        requires
            self.wf(),
        ensures
            r.wf(),
            r.entries@ == Self::upserted(self.entries@, stage, self.entries@.len() as int),
    {
        let mut this = self;
        let target = this.entries.len();
        this.upsert_stage(stage, target);
        this
    }

    /// The entries with the stage `id`'s flag set to `flag`, every entry
    /// in its place.
    pub open spec fn with_flag(s: Seq<StageEntry<S>>, id: StageId, flag: bool) -> Seq<StageEntry<S>> {
        s.map_values(|e: StageEntry<S>| if e.stage.spec_id() == id { StageEntry { stage: e.stage, enabled: flag } } else { e })
    }

    /// The enabled stages of the entries, in order.
    pub open spec fn enabled_stages(s: Seq<StageEntry<S>>) -> Seq<S> {
        s.filter(|e: StageEntry<S>| e.enabled).map_values(|e: StageEntry<S>| e.stage)
    }

    /// The entries after adding each of `stages` at the end in turn.
    pub open spec fn added_all(s: Seq<StageEntry<S>>, stages: Seq<S>) -> Seq<StageEntry<S>>
        decreases stages.len(),
    {
        if stages.len() == 0 {
            s
        } else {
            let before = Self::added_all(s, stages.drop_last());
            Self::upserted(before, stages.last(), before.len() as int)
        }
    }

    /// The stages a builder yields: its enabled stages in order.
    pub open spec fn built(b: StageSetBuilder<S>) -> Seq<S> {
        b.entries@.filter(|e: StageEntry<S>| e.enabled).map_values(|e: StageEntry<S>| e.stage)
    }

    /// Adds the stages of the given set at the end of this set, in their
    /// order; a stage in both sets leaves its previous place in this one.
    pub fn add_set<T: StageSet<S>>(self, set: T) -> (r: StageSetBuilder<S>)
        requires
            self.wf(),
        ensures
            r.wf(),
            r.entries@ == Self::added_all(self.entries@, set.stage_seq()),
    {
        let ghost start = self.entries@;
        let ghost wanted = set.stage_seq();
        let mut this = self;
        let stages = set.builder().build();
        let ghost all = stages@;
        let mut rest = stages;
        let mut k: usize = 0;
        let n = rest.len();
        while rest.len() > 0
            invariant
                this.wf(),
                k + rest@.len() == n == all.len(),
                forall|i: int| 0 <= i < rest@.len() ==> #[trigger] rest@[i] == all[k + i],
                this.entries@ == Self::added_all(start, all.subrange(0, k as int)),
            decreases rest.len(),
        {
            let stage = rest.remove(0);
            proof {
                assert(stage == all[k as int]);
                assert(all.subrange(0, k + 1).drop_last() =~= all.subrange(0, k as int));
            }
            this = this.add_stage(stage);
            k += 1;
        }
        proof {
            assert(all.subrange(0, k as int) =~= all);
        }
        this
    }

    /// Law: adding a stage takes any stage with its identifier out of its
    /// place and puts the new stage, enabled, at the end; the other stages
    /// keep their order.
    pub proof fn lemma_add_stage_moves_to_end(s: Seq<StageEntry<S>>, stage: S)
        requires
            ids_of(s).no_duplicates(),
        ensures
            Self::upserted(s, stage, s.len() as int) == (if ids_of(s).contains(stage.spec_id()) {
                s.remove(ids_of(s).index_of(stage.spec_id()))
            } else {
                s
            }).push(StageEntry { stage, enabled: true }),
            ids_of(Self::upserted(s, stage, s.len() as int)) == (if ids_of(s).contains(stage.spec_id()) {
                ids_of(s).remove(ids_of(s).index_of(stage.spec_id()))
            } else {
                ids_of(s)
            }).push(stage.spec_id()),
    {
        let id = stage.spec_id();
        let e = StageEntry { stage, enabled: true };
        if ids_of(s).contains(id) {
            let j = ids_of(s).index_of(id);
            assert(0 <= j < s.len());
            assert(s.remove(j).insert(s.len() - 1, e) =~= s.remove(j).push(e));
            assert(ids_of(s.remove(j).push(e)) =~= ids_of(s).remove(j).push(id));
        } else {
            assert(s.insert(s.len() as int, e) =~= s.push(e));
            assert(ids_of(s.push(e)) =~= ids_of(s).push(id));
        }
    }

    /// Law: disabling a stage keeps every stage in its place, so stages can
    /// still be added next to it; the set then yields its enabled stages
    /// but that one; and enabling it again gives back the set when it was
    /// enabled.
    pub proof fn lemma_disable_keeps_places(s: Seq<StageEntry<S>>, id: StageId)
        ensures
            ids_of(Self::with_flag(s, id, false)) == ids_of(s),
            Self::enabled_stages(Self::with_flag(s, id, false)) == Self::enabled_stages(s).filter(|x: S| x.spec_id() != id),
            (forall|i: int| 0 <= i < s.len() && (#[trigger] s[i]).stage.spec_id() == id ==> s[i].enabled)
                ==> Self::with_flag(Self::with_flag(s, id, false), id, true) == s,
        decreases s.len(),
    {
        let d = Self::with_flag(s, id, false);
        assert(ids_of(d) =~= ids_of(s));
        if forall|i: int| 0 <= i < s.len() && (#[trigger] s[i]).stage.spec_id() == id ==> s[i].enabled {
            assert(Self::with_flag(d, id, true) =~= s);
        }
        let pe = |e: StageEntry<S>| e.enabled;
        let pid = |x: S| x.spec_id() != id;
        if s.len() == 0 {
            assert(d =~= s);
            assert(s.filter(pe) =~= Seq::<StageEntry<S>>::empty());
            assert(Self::enabled_stages(s) =~= Seq::<S>::empty());
            assert(Seq::<S>::empty().filter(pid) =~= Seq::<S>::empty());
        } else {
            let t = s.drop_last();
            let e = s.last();
            Self::lemma_disable_keeps_places(t, id);
            let dt = Self::with_flag(t, id, false);
            let e2 = if e.stage.spec_id() == id { StageEntry { stage: e.stage, enabled: false } } else { e };
            assert(s =~= t.push(e));
            assert(d =~= dt.push(e2));
            t.lemma_filter_push(e, pe);
            dt.lemma_filter_push(e2, pe);
            let et = Self::enabled_stages(t);
            if e.enabled {
                assert(Self::enabled_stages(s) =~= et.push(e.stage));
                et.lemma_filter_push(e.stage, pid);
                if e.stage.spec_id() == id {
                    assert(Self::enabled_stages(d) =~= Self::enabled_stages(dt));
                } else {
                    assert(Self::enabled_stages(d) =~= Self::enabled_stages(dt).push(e.stage));
                }
            } else {
                assert(Self::enabled_stages(s) =~= et);
                assert(Self::enabled_stages(d) =~= Self::enabled_stages(dt));
            }
        }
    }

    /// Adding stages that are new to the set, and differ from each other,
    /// appends them, enabled, in order.
    pub proof fn lemma_added_all_fresh(s: Seq<StageEntry<S>>, stages: Seq<S>)
        requires
            (ids_of(s) + stages.map_values(|x: S| x.spec_id())).no_duplicates(),
        ensures
            Self::added_all(s, stages) == s + fresh_entries(stages),
        decreases stages.len(),
    {
        if stages.len() > 0 {
            let t = stages.drop_last();
            let comb = ids_of(s) + stages.map_values(|x: S| x.spec_id());
            let comb_t = ids_of(s) + t.map_values(|x: S| x.spec_id());
            assert(comb_t =~= comb.drop_last());
            assert(comb_t.no_duplicates()) by {
                assert forall|i: int, j: int| 0 <= i < comb_t.len() && 0 <= j < comb_t.len() && i != j implies comb_t[i] != comb_t[j] by {
                    assert(comb_t[i] == comb[i] && comb_t[j] == comb[j]);
                }
            }
            Self::lemma_added_all_fresh(s, t);
            let before = s + fresh_entries(t);
            assert(ids_of(before) =~= comb_t);
            let last = stages.last();
            let e = StageEntry { stage: last, enabled: true };
            assert(comb[comb.len() - 1] == last.spec_id());
            if ids_of(before).contains(last.spec_id()) {
                let k = choose|k: int| 0 <= k < ids_of(before).len() && ids_of(before)[k] == last.spec_id();
                assert(comb[k] == comb[comb.len() - 1]);
            }
            assert(before.insert(before.len() as int, e) =~= before.push(e));
            assert(s + fresh_entries(stages) =~= before.push(e));
        }
    }

    /// Adds the stage before the stage `before`, which must be in the set; a
    /// stage with the same identifier leaves its previous place.
    pub fn add_before(self, stage: S, before: StageId) -> (r: StageSetBuilder<S>)
        requires
            self.wf(),
            self.order().contains(before),
        ensures
            r.wf(),
            r.entries@ == Self::upserted(self.entries@, stage, self.order().index_of(before)),
    {
        let mut this = self;
        let target = this.index_of(before);
        proof {
            this.order().index_of_first_ensures(before);
            if this.order().index_of(before) != target as int {
                assert(this.order()[this.order().index_of(before)] == before);
            }
        }
        this.upsert_stage(stage, target);
        this
    }

    /// Adds the stage after the stage `after`, which must be in the set; a
    /// stage with the same identifier leaves its previous place.
    pub fn add_after(self, stage: S, after: StageId) -> (r: StageSetBuilder<S>)
        requires
            self.wf(),
            self.order().contains(after),
        ensures
            r.wf(),
            r.entries@ == Self::upserted(self.entries@, stage, self.order().index_of(after) + 1),
    {
        let mut this = self;
        let n = this.entries.len();
        let i = this.index_of(after);
        let target = i + 1;
        proof {
            this.order().index_of_first_ensures(after);
            if this.order().index_of(after) != target - 1 {
                assert(this.order()[this.order().index_of(after)] == after);
            }
        }
        this.upsert_stage(stage, target);
        this
    }

    /// Sets whether a stage, which must be in the set, is enabled.
    fn set_enabled(&mut self, stage_id: StageId, enabled: bool)
        requires
            old(self).wf(),
            old(self).order().contains(stage_id),
        ensures
            final(self).wf(),
            final(self).entries@.len() == old(self).entries@.len(),
            forall|i: int| 0 <= i < old(self).entries@.len() ==> (#[trigger] final(self).entries@[i]).stage == old(self).entries@[i].stage,
            forall|i: int| 0 <= i < old(self).entries@.len() ==> (#[trigger] final(self).entries@[i]).enabled == if old(self).order()[i] == stage_id {
                enabled
            } else {
                old(self).entries@[i].enabled
            },
    {
        let j = self.index_of(stage_id);
        let ghost s = self.entries@;
        let mut entry = self.entries.remove(j);
        entry.enabled = enabled;
        self.entries.insert(j, entry);
        proof {
            assert(ids_of(self.entries@) =~= ids_of(s));
            assert forall|i: int| 0 <= i < s.len() && ids_of(s)[i] == stage_id implies i == j by {
                if i != j {
                    assert(ids_of(s)[i] == ids_of(s)[j as int]);
                }
            }
        }
    }

    /// Enables the given stage, which must be in the set.
    pub fn enable(self, stage_id: StageId) -> (r: StageSetBuilder<S>)
        requires
            self.wf(),
            self.order().contains(stage_id),
        ensures
            r.wf(),
            r.entries@.len() == self.entries@.len(),
            forall|i: int| 0 <= i < self.entries@.len() ==> (#[trigger] r.entries@[i]).stage == self.entries@[i].stage,
            forall|i: int| 0 <= i < self.entries@.len() ==> (#[trigger] r.entries@[i]).enabled == (self.order()[i] == stage_id || self.entries@[i].enabled),
            r.entries@ == Self::with_flag(self.entries@, stage_id, true),
    {
        let mut this = self;
        this.set_enabled(stage_id, true);
        proof {
            assert(this.entries@ =~= Self::with_flag(self.entries@, stage_id, true));
        }
        this
    }

    /// Disables the given stage, which must be in the set. A disabled stage
    /// keeps its place, so stages can still be added next to it.
    pub fn disable(self, stage_id: StageId) -> (r: StageSetBuilder<S>)
        requires
            self.wf(),
            self.order().contains(stage_id),
        ensures
            r.wf(),
            r.entries@.len() == self.entries@.len(),
            forall|i: int| 0 <= i < self.entries@.len() ==> (#[trigger] r.entries@[i]).stage == self.entries@[i].stage,
            forall|i: int| 0 <= i < self.entries@.len() ==> (#[trigger] r.entries@[i]).enabled == (self.order()[i] != stage_id && self.entries@[i].enabled),
            r.entries@ == Self::with_flag(self.entries@, stage_id, false),
    {
        let mut this = self;
        this.set_enabled(stage_id, false);
        proof {
            assert(this.entries@ =~= Self::with_flag(self.entries@, stage_id, false));
        }
        this
    }

    /// Disables the given stage, which must be in the set, if `disable` is
    /// true.
    pub fn disable_if(self, stage_id: StageId, disable: bool) -> (r: StageSetBuilder<S>)
        requires
            self.wf(),
            self.order().contains(stage_id),
        ensures
            r.wf(),
            r.entries@.len() == self.entries@.len(),
            forall|i: int| 0 <= i < self.entries@.len() ==> (#[trigger] r.entries@[i]).stage == self.entries@[i].stage,
            forall|i: int| 0 <= i < self.entries@.len() ==> (#[trigger] r.entries@[i]).enabled == (!(disable && self.order()[i] == stage_id) && self.entries@[i].enabled),
    {
        if disable {
            return self.disable(stage_id);
        }
        self
    }

    /// Consumes the builder and returns the enabled stages in order.
    pub fn build(self) -> (r: Vec<S>)
        ensures
            r@ == self.entries@.filter(|e: StageEntry<S>| e.enabled).map_values(|e: StageEntry<S>| e.stage),
    {
        let ghost all = self.entries@;
        let mut entries = self.entries;
        let mut out: Vec<S> = Vec::new();
        let mut k: usize = 0;
        let n = entries.len();
        while entries.len() > 0
            invariant
                k + entries@.len() == n == all.len(),
                forall|i: int| 0 <= i < entries@.len() ==> #[trigger] entries@[i] == all[k + i],
                out@ == all.subrange(0, k as int).filter(|e: StageEntry<S>| e.enabled).map_values(|e: StageEntry<S>| e.stage),
            decreases entries.len(),
        {
            let ghost pre = all.subrange(0, k as int);
            let e = entries.remove(0);
            proof {
                assert(e == all[k as int]);
                assert(all.subrange(0, k + 1) =~= pre.push(e));
                pre.lemma_filter_push(e, |x: StageEntry<S>| x.enabled);
            }
            let ghost fp = pre.filter(|x: StageEntry<S>| x.enabled);
            if e.enabled {
                out.push(e.stage);
                assert(fp.push(e).map_values(|x: StageEntry<S>| x.stage) =~= fp.map_values(|x: StageEntry<S>| x.stage).push(e.stage));
            }
            k += 1;
        }
        assert(all.subrange(0, k as int) =~= all);
        out
    }
}

impl<S: Stage> StageSet<S> for StageSetBuilder<S> {
    open spec fn stage_seq(&self) -> Seq<S> {
        Self::built(*self)
    }

    fn builder(self) -> (r: StageSetBuilder<S>) {
        self
    }
}

} // verus!
