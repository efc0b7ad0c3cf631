//! Use-tree flattening: a nested, glob or renaming import tree becomes a
//! flat list of single-path import records.
use vstd::prelude::*;
use crate::paths::{clone_segs, seg_models, PathSeg, SegModel};

verus! {

/// The name an import is brought in under.
pub enum ImportAlias {
    /// `as _`: imported for its trait impls only, not nameable.
    Underscore,
    Alias(String),
}

pub enum AliasModel {
    Underscore,
    Alias(Seq<char>),
}

/// One step of a depth-first, left-to-right walk of a use tree.
pub enum UseTreeEvent {
    /// `prefix::{`: opens a group under the given prefix.
    Open(Vec<PathSeg>),
    /// `}`: closes the innermost open group.
    Close,
    /// A single path, possibly renamed.
    Leaf(Vec<PathSeg>, Option<ImportAlias>),
    /// `prefix::*`.
    Glob(Vec<PathSeg>),
}

pub enum EventModel {
    Open(Seq<SegModel>),
    Close,
    Leaf(Seq<SegModel>, Option<AliasModel>),
    Glob(Seq<SegModel>),
}

/// One flattened import.
pub struct UseRecord {
    /// The full path as written, group prefixes included.
    pub path: Vec<PathSeg>,
    pub alias: Option<ImportAlias>,
    pub is_glob: bool,
    /// Zero-based position among the records of the same declaration.
    pub index: usize,
}

pub struct RecordModel {
    pub path: Seq<SegModel>,
    pub alias: Option<AliasModel>,
    pub is_glob: bool,
}

impl View for ImportAlias {
    type V = AliasModel;

    open spec fn view(&self) -> AliasModel {
        match self {
            ImportAlias::Underscore => AliasModel::Underscore,
            ImportAlias::Alias(s) => AliasModel::Alias(s@),
        }
    }
}

pub open spec fn alias_model(a: Option<ImportAlias>) -> Option<AliasModel> {
    match a {
        Some(x) => Some(x@),
        None => None,
    }
}

impl View for UseTreeEvent {
    type V = EventModel;

    open spec fn view(&self) -> EventModel {
        match self {
            UseTreeEvent::Open(p) => EventModel::Open(seg_models(p@)),
            UseTreeEvent::Close => EventModel::Close,
            UseTreeEvent::Leaf(p, a) => EventModel::Leaf(seg_models(p@), alias_model(*a)),
            UseTreeEvent::Glob(p) => EventModel::Glob(seg_models(p@)),
        }
    }
}

impl View for UseRecord {
    type V = RecordModel;

    open spec fn view(&self) -> RecordModel {
        RecordModel { path: seg_models(self.path@), alias: alias_model(self.alias), is_glob: self.is_glob }
    }
}

pub open spec fn event_models(es: Seq<UseTreeEvent>) -> Seq<EventModel> {
    es.map_values(|e: UseTreeEvent| e@)
}

/// The prefixes of the groups that are open after the events `es`. A `Close`
/// with no open group is ignored.
pub open spec fn prefix_stack(es: Seq<EventModel>) -> Seq<Seq<SegModel>>
    decreases es.len(),
{
    if es.len() == 0 {
        Seq::empty()
    } else {
        let st = prefix_stack(es.drop_last());
        match es.last() {
            EventModel::Open(p) => st.push(p),
            EventModel::Close => if st.len() > 0 { st.drop_last() } else { st },
            _ => st,
        }
    }
}

/// The prefixes of a stack, joined outermost first.
pub open spec fn joined(st: Seq<Seq<SegModel>>) -> Seq<SegModel>
    decreases st.len(),
{
    if st.len() == 0 {
        Seq::empty()
    } else {
        joined(st.drop_last()) + st.last()
    }
}

/// The records of a walk: one per leaf or glob, in order, each under the
/// prefixes of the groups open around it.
pub open spec fn records_spec(es: Seq<EventModel>) -> Seq<RecordModel>
    decreases es.len(),
{
    if es.len() == 0 {
        Seq::empty()
    } else {
        let prev = records_spec(es.drop_last());
        let pre = joined(prefix_stack(es.drop_last()));
        match es.last() {
            EventModel::Leaf(p, a) => prev.push(RecordModel { path: pre + p, alias: a, is_glob: false }),
            EventModel::Glob(p) => prev.push(RecordModel { path: pre + p, alias: None, is_glob: true }),
            _ => prev,
        }
    }
}

pub open spec fn is_leaf(e: EventModel) -> bool {
    e is Leaf || e is Glob
}

/// The number of leaf paths and globs in a walk.
pub open spec fn leaf_count(es: Seq<EventModel>) -> nat
    decreases es.len(),
{
    if es.len() == 0 {
        0
    } else {
        leaf_count(es.drop_last()) + if is_leaf(es.last()) { 1nat } else { 0nat }
    }
}

/// The position in `es` of its `k`-th leaf or glob.
pub open spec fn leaf_position(es: Seq<EventModel>, k: nat) -> int
    decreases es.len(),
{
    if es.len() == 0 {
        -1
    } else if is_leaf(es.last()) && k == leaf_count(es.drop_last()) {
        es.len() - 1
    } else {
        leaf_position(es.drop_last(), k)
    }
}

/// Appends copies of `src` to `dst`.
fn append_segs(dst: &mut Vec<PathSeg>, src: &Vec<PathSeg>)
    ensures
        seg_models(final(dst)@) == seg_models(old(dst)@) + seg_models(src@),
{
    let ghost d0 = dst@;
    let mut i: usize = 0;
    while i < src.len()
        invariant
            i <= src@.len(),
            dst@.len() == d0.len() + i,
            forall|j: int| 0 <= j < d0.len() ==> (#[trigger] dst@[j])@ == d0[j]@,
            forall|j: int| 0 <= j < i ==> (#[trigger] dst@[d0.len() + j])@ == src@[j]@,
        decreases src@.len() - i,
    {
        dst.push(src[i].clone_seg());
        i = i + 1;
    }
    proof {
        assert forall|j: int| 0 <= j < dst@.len() implies (#[trigger] seg_models(dst@)[j]) == (
        seg_models(d0) + seg_models(src@))[j] by {
            if j >= d0.len() {
                assert(dst@[d0.len() + (j - d0.len())]@ == src@[j - d0.len()]@);
            }
        }
        assert(seg_models(dst@) =~= seg_models(d0) + seg_models(src@));
    }
}

/// A copy of an optional alias.
pub fn clone_opt_alias(a: &Option<ImportAlias>) -> (r: Option<ImportAlias>)
    ensures
        alias_model(r) == alias_model(*a),
{
    match a {
        None => None,
        Some(ImportAlias::Underscore) => Some(ImportAlias::Underscore),
        Some(ImportAlias::Alias(s)) => Some(ImportAlias::Alias(s.clone())),
    }
}

/// Flattens a use tree, given as its depth-first walk, into one record per
/// leaf path or glob. Record `k` is the `k`-th leaf of the walk under the
/// prefixes of the groups open around it, and carries the index `k`.
pub fn flatten_use_tree(events: &Vec<UseTreeEvent>) -> (r: Vec<UseRecord>)
    ensures
        r@.len() == records_spec(event_models(events@)).len(),
        forall|k: int|
            0 <= k < r@.len() ==> (#[trigger] r@[k])@ == records_spec(event_models(events@))[k]
                && r@[k].index == k,
{
    let ghost m = event_models(events@);
    let mut records: Vec<UseRecord> = Vec::new();
    let mut cur: Vec<PathSeg> = Vec::new();
    let mut lens: Vec<usize> = Vec::new();
    let mut i: usize = 0;
    proof {
        assert(seg_models(cur@) =~= joined(prefix_stack(m.take(0))));
    }
    while i < events.len()
        invariant
            i <= events@.len(),
            m == event_models(events@),
            seg_models(cur@) == joined(prefix_stack(m.take(i as int))),
            lens@.len() == prefix_stack(m.take(i as int)).len(),
            forall|k: int|
                0 <= k < lens@.len() ==> #[trigger] lens@[k] == joined(
                    prefix_stack(m.take(i as int)).take(k),
                ).len(),
            records@.len() == records_spec(m.take(i as int)).len(),
            forall|k: int|
                0 <= k < records@.len() ==> (#[trigger] records@[k])@ == records_spec(
                    m.take(i as int),
                )[k] && records@[k].index == k,
        decreases events@.len() - i,
    {
        let ghost pre = m.take(i as int);
        let ghost st = prefix_stack(pre);
        proof {
            assert(m.take(i as int + 1).drop_last() =~= pre);
            assert(m.take(i as int + 1).last() == events@[i as int]@);
        }
        match &events[i] {
            UseTreeEvent::Open(p) => {
                let l = cur.len();
                append_segs(&mut cur, p);
                lens.push(l);
                proof {
                    let st2 = st.push(seg_models(p@));
                    assert(st2.drop_last() =~= st);
                    assert(st2.take(st.len() as int) =~= st);
                    assert forall|k: int| 0 <= k < lens@.len() implies #[trigger] lens@[k] == joined(
                        st2.take(k),
                    ).len() by {
                        if k < st.len() {
                            assert(st2.take(k) =~= st.take(k));
                        }
                    }
                }
            },
            UseTreeEvent::Close => {
                if lens.len() > 0 {
                    let l = lens.pop().unwrap();
                    proof {
                        assert(st.take(st.len() - 1) =~= st.drop_last());
                        let j = joined(st.drop_last());
                        assert(seg_models(cur@).take(l as int) =~= j);
                        assert forall|k: int| 0 <= k < lens@.len() implies #[trigger] lens@[k]
                            == joined(st.drop_last().take(k)).len() by {
                            assert(st.drop_last().take(k) =~= st.take(k));
                        }
                    }
                    let ghost before = cur@;
                    cur.truncate(l);
                    proof {
                        assert(seg_models(cur@) =~= seg_models(before).take(l as int));
                    }
                }
            },
            UseTreeEvent::Leaf(p, a) => {
                let mut path = clone_segs(&cur);
                append_segs(&mut path, p);
                let index = records.len();
                records.push(UseRecord { path, alias: clone_opt_alias(a), is_glob: false, index });
            },
            UseTreeEvent::Glob(p) => {
                let mut path = clone_segs(&cur);
                append_segs(&mut path, p);
                let index = records.len();
                records.push(UseRecord { path, alias: None, is_glob: true, index });
            },
        }
        i = i + 1;
    }
    proof {
        assert(m.take(i as int) =~= m);
    }
    records
}

/// A walk yields exactly one record per leaf path or glob.
pub proof fn lemma_record_count(es: Seq<EventModel>)
    ensures
        records_spec(es).len() == leaf_count(es),
    decreases es.len(),
{
    if es.len() > 0 {
        lemma_record_count(es.drop_last());
    }
}

/// Flattening is a bijection between the leaves of the walk and the records:
/// the `k`-th record comes from the `k`-th leaf, and from no other event, so
/// distinct leaves give distinct records.
pub proof fn lemma_record_from_leaf(es: Seq<EventModel>, k: nat)
    requires
        k < leaf_count(es),
    ensures
        0 <= leaf_position(es, k) < es.len(),
        is_leaf(es[leaf_position(es, k)]),
        leaf_count(es.take(leaf_position(es, k))) == k,
        records_spec(es)[k as int] == records_spec(es.take(leaf_position(es, k) + 1)).last(),
    decreases es.len(),
{
    lemma_record_count(es);
    let init = es.drop_last();
    assert(es.take(es.len() - 1) =~= init);
    assert(es.take(es.len() as int) =~= es);
    if is_leaf(es.last()) && k == leaf_count(init) {
        lemma_record_count(init);
    } else {
        lemma_record_count(init);
        lemma_record_from_leaf(init, k);
        let pos = leaf_position(init, k);
        assert(init.take(pos) =~= es.take(pos));
        assert(init.take(pos + 1) =~= es.take(pos + 1));
        assert(init[pos] == es[pos]);
    }
}

} // verus!
