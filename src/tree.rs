//! The item tree of one file, and the builder that walks the file's items
//! depth first.
use vstd::prelude::*;
use crate::attrs::{attrs_lowered, concat_attrs, lower_attrs, AttrSet, RawAttr};
use crate::items::{data_lowered, lower_item_data, ItemData, SyntaxItem, SyntaxItemKind};
use crate::visibility::{lower_vis_spec, lower_visibility, RawVisibility};

verus! {

/// One step of a depth-first walk of a file's items: an item, or the end of
/// the body of the innermost open item that has one (an inline module, a
/// trait, an impl, a foreign block).
pub enum SyntaxNode {
    Item(SyntaxItem),
    End,
}

/// One item of the tree.
pub struct Item {
    pub attrs: AttrSet,
    pub vis: RawVisibility,
    /// The item's identifier: its position among the items of its kind.
    pub id: usize,
    /// The item whose body holds it, by position in the tree; `None` at the
    /// top level.
    pub parent: Option<usize>,
    /// The position of the written item in the walk it was built from.
    pub source: usize,
    pub data: ItemData,
}

/// The items of one file, in the order of the walk.
pub struct ItemTree {
    /// The file's own attributes.
    pub attrs: AttrSet,
    pub items: Vec<Item>,
}

/// The number of item kinds.
pub const N_KINDS: usize = 17;

/// Each item kind's own identifier space.
pub open spec fn kind_tag(k: SyntaxItemKind) -> nat {
    match k {
        SyntaxItemKind::Module { .. } => 0,
        SyntaxItemKind::Struct { .. } => 1,
        SyntaxItemKind::Union { .. } => 2,
        SyntaxItemKind::Enum { .. } => 3,
        SyntaxItemKind::Function(_) => 4,
        SyntaxItemKind::TypeAlias { .. } => 5,
        SyntaxItemKind::Static { .. } => 6,
        SyntaxItemKind::Const { .. } => 7,
        SyntaxItemKind::Trait { .. } => 8,
        SyntaxItemKind::TraitAlias { .. } => 9,
        SyntaxItemKind::Impl { .. } => 10,
        SyntaxItemKind::ForeignBlock { .. } => 11,
        SyntaxItemKind::CrateDecl { .. } => 12,
        SyntaxItemKind::Use { .. } => 13,
        SyntaxItemKind::MacroRules { .. } => 14,
        SyntaxItemKind::MacroDef { .. } => 15,
        SyntaxItemKind::MacroCall { .. } => 16,
    }
}

/// Whether an item of this kind has a body of items.
pub open spec fn opens_scope(k: SyntaxItemKind) -> bool {
    match k {
        SyntaxItemKind::Module { has_body, .. } => has_body,
        SyntaxItemKind::Trait { .. } => true,
        SyntaxItemKind::Impl { .. } => true,
        SyntaxItemKind::ForeignBlock { .. } => true,
        _ => false,
    }
}

/// The kind tags of the items of a walk, in order.
pub open spec fn item_tags(ns: Seq<SyntaxNode>) -> Seq<nat>
    decreases ns.len(),
{
    if ns.len() == 0 {
        Seq::empty()
    } else {
        match ns.last() {
            SyntaxNode::Item(it) => item_tags(ns.drop_last()).push(kind_tag(it.kind)),
            SyntaxNode::End => item_tags(ns.drop_last()),
        }
    }
}

/// How many entries of `tags` equal `t`.
pub open spec fn tag_count(tags: Seq<nat>, t: nat) -> nat
    decreases tags.len(),
{
    if tags.len() == 0 {
        0
    } else {
        tag_count(tags.drop_last(), t) + if tags.last() == t { 1nat } else { 0nat }
    }
}

/// The items whose bodies are open after a walk, outermost first, by
/// position. An `End` with nothing open is ignored.
pub open spec fn scope_stack(ns: Seq<SyntaxNode>) -> Seq<nat>
    decreases ns.len(),
{
    if ns.len() == 0 {
        Seq::empty()
    } else {
        let st = scope_stack(ns.drop_last());
        match ns.last() {
            SyntaxNode::Item(it) => if opens_scope(it.kind) {
                st.push(item_tags(ns.drop_last()).len())
            } else {
                st
            },
            SyntaxNode::End => if st.len() > 0 { st.drop_last() } else { st },
        }
    }
}

/// The parent of an item that follows the walk `ns`.
pub open spec fn parent_spec(ns: Seq<SyntaxNode>) -> Option<nat> {
    let st = scope_stack(ns);
    if st.len() == 0 { None } else { Some(st.last()) }
}

/// Whether an item that follows the walk `ns` stands in a foreign block.
pub open spec fn in_foreign_spec(ns: Seq<SyntaxNode>) -> bool {
    let st = scope_stack(ns);
    st.len() > 0 && st.last() < item_tags(ns).len() && item_tags(ns)[st.last() as int] == 11
}

/// Item `k` of `items` is the lowering of the written item at its source
/// position in `ns`.
pub open spec fn item_built(ns: Seq<SyntaxNode>, items: Seq<Item>, k: int) -> bool {
    let it = items[k];
    let pre = ns.take(it.source as int);
    &&& it.source < ns.len()
    &&& ns[it.source as int] is Item
    &&& item_tags(pre).len() == k
    &&& {
        let s = ns[it.source as int]->Item_0;
        &&& attrs_lowered(s.attrs@ + s.inner_attrs@, it.attrs)
        &&& it.vis@ == lower_vis_spec(s.vis@)
        &&& it.id == tag_count(item_tags(pre), kind_tag(s.kind))
        &&& it.parent == match parent_spec(pre) {
            Some(p) => Some(p as usize),
            None => None::<usize>,
        }
        &&& data_lowered(s.kind, it.data, in_foreign_spec(pre))
    }
}

/// The tree built from a walk: one item per written item, in order.
pub open spec fn tree_built(file_attrs: Seq<RawAttr>, ns: Seq<SyntaxNode>, t: ItemTree) -> bool {
    &&& attrs_lowered(file_attrs, t.attrs)
    &&& t.items@.len() == item_tags(ns).len()
    &&& forall|k: int| 0 <= k < t.items@.len() ==> #[trigger] item_built(ns, t.items@, k)
    &&& forall|j: int, k: int|
        0 <= j < k < t.items@.len() ==> (#[trigger] t.items@[j]).source < (#[trigger] t.items@[k]).source
}

/// The kind tag of a lowered item; the same as that of the written item it
/// comes from.
pub open spec fn data_tag(d: ItemData) -> nat {
    match d {
        ItemData::Module { .. } => 0,
        ItemData::Struct { .. } => 1,
        ItemData::Union { .. } => 2,
        ItemData::Enum { .. } => 3,
        ItemData::Function(_) => 4,
        ItemData::TypeAlias { .. } => 5,
        ItemData::Static { .. } => 6,
        ItemData::Const { .. } => 7,
        ItemData::Trait { .. } => 8,
        ItemData::TraitAlias { .. } => 9,
        ItemData::Impl { .. } => 10,
        ItemData::ForeignBlock { .. } => 11,
        ItemData::CrateDecl { .. } => 12,
        ItemData::Use { .. } => 13,
        ItemData::MacroRules { .. } => 14,
        ItemData::MacroDef { .. } => 15,
        ItemData::MacroCall { .. } => 16,
    }
}

/// The kind tag of a lowered item.
pub fn tag_of_data(d: &ItemData) -> (r: usize)
    ensures
        r == data_tag(*d),
{
    match d {
        ItemData::Module { .. } => 0,
        ItemData::Struct { .. } => 1,
        ItemData::Union { .. } => 2,
        ItemData::Enum { .. } => 3,
        ItemData::Function(_) => 4,
        ItemData::TypeAlias { .. } => 5,
        ItemData::Static { .. } => 6,
        ItemData::Const { .. } => 7,
        ItemData::Trait { .. } => 8,
        ItemData::TraitAlias { .. } => 9,
        ItemData::Impl { .. } => 10,
        ItemData::ForeignBlock { .. } => 11,
        ItemData::CrateDecl { .. } => 12,
        ItemData::Use { .. } => 13,
        ItemData::MacroRules { .. } => 14,
        ItemData::MacroDef { .. } => 15,
        ItemData::MacroCall { .. } => 16,
    }
}

proof fn lemma_data_tag(k: SyntaxItemKind, d: ItemData, in_foreign: bool)
    requires
        data_lowered(k, d, in_foreign),
    ensures
        data_tag(d) == kind_tag(k),
{
}

fn tag_of(k: &SyntaxItemKind) -> (r: usize)
    ensures
        r == kind_tag(*k),
        r < N_KINDS,
{
    match k {
        SyntaxItemKind::Module { .. } => 0,
        SyntaxItemKind::Struct { .. } => 1,
        SyntaxItemKind::Union { .. } => 2,
        SyntaxItemKind::Enum { .. } => 3,
        SyntaxItemKind::Function(_) => 4,
        SyntaxItemKind::TypeAlias { .. } => 5,
        SyntaxItemKind::Static { .. } => 6,
        SyntaxItemKind::Const { .. } => 7,
        SyntaxItemKind::Trait { .. } => 8,
        SyntaxItemKind::TraitAlias { .. } => 9,
        SyntaxItemKind::Impl { .. } => 10,
        SyntaxItemKind::ForeignBlock { .. } => 11,
        SyntaxItemKind::CrateDecl { .. } => 12,
        SyntaxItemKind::Use { .. } => 13,
        SyntaxItemKind::MacroRules { .. } => 14,
        SyntaxItemKind::MacroDef { .. } => 15,
        SyntaxItemKind::MacroCall { .. } => 16,
    }
}

fn has_scope(k: &SyntaxItemKind) -> (r: bool)
    ensures
        r == opens_scope(*k),
{
    match k {
        SyntaxItemKind::Module { has_body, .. } => *has_body,
        SyntaxItemKind::Trait { .. } => true,
        SyntaxItemKind::Impl { .. } => true,
        SyntaxItemKind::ForeignBlock { .. } => true,
        _ => false,
    }
}

proof fn lemma_tag_count_le(tags: Seq<nat>, t: nat)
    ensures
        tag_count(tags, t) <= tags.len(),
    decreases tags.len(),
{
    if tags.len() > 0 {
        lemma_tag_count_le(tags.drop_last(), t);
    }
}

proof fn lemma_item_tags_le(ns: Seq<SyntaxNode>)
    ensures
        item_tags(ns).len() <= ns.len(),
    decreases ns.len(),
{
    if ns.len() > 0 {
        lemma_item_tags_le(ns.drop_last());
    }
}

/// Builds the item tree of a file from its own attributes and the walk of
/// its items. Every written item gives one item, in the order of the walk,
/// numbered within its kind and placed under the innermost open body.
pub fn build_item_tree(file_attrs: &Vec<RawAttr>, nodes: &Vec<SyntaxNode>) -> (r: ItemTree)
    ensures
        tree_built(file_attrs@, nodes@, r),
{
    let ghost ns = nodes@;
    let mut items: Vec<Item> = Vec::new();
    let mut counts: Vec<usize> = Vec::new();
    while counts.len() < N_KINDS
        invariant
            counts@.len() <= N_KINDS,
            forall|t: int| 0 <= t < counts@.len() ==> #[trigger] counts@[t] == 0,
        decreases N_KINDS - counts@.len(),
    {
        counts.push(0);
    }
    let mut kinds: Vec<usize> = Vec::new();
    let mut stack: Vec<usize> = Vec::new();
    let mut i: usize = 0;
    proof {
        assert(ns.take(0) =~= Seq::<SyntaxNode>::empty());
    }
    while i < nodes.len()
        invariant
            i <= ns.len(),
            ns == nodes@,
            items@.len() == item_tags(ns.take(i as int)).len(),
            kinds@.len() == items@.len(),
            forall|k: int| 0 <= k < kinds@.len() ==> #[trigger] kinds@[k] == item_tags(ns.take(i as int))[k],
            counts@.len() == N_KINDS,
            forall|t: int|
                0 <= t < N_KINDS ==> #[trigger] counts@[t] == tag_count(item_tags(ns.take(i as int)), t as nat),
            stack@.len() == scope_stack(ns.take(i as int)).len(),
            forall|j: int|
                0 <= j < stack@.len() ==> #[trigger] stack@[j] == scope_stack(ns.take(i as int))[j]
                    && stack@[j] < items@.len(),
            forall|k: int| 0 <= k < items@.len() ==> #[trigger] item_built(ns, items@, k),
            forall|k: int| 0 <= k < items@.len() ==> (#[trigger] items@[k]).source < i,
            forall|j: int, k: int|
                0 <= j < k < items@.len() ==> (#[trigger] items@[j]).source < (#[trigger] items@[k]).source,
        decreases ns.len() - i,
    {
        let ghost pre = ns.take(i as int);
        proof {
            assert(ns.take(i as int + 1).drop_last() =~= pre);
            assert(ns.take(i as int + 1).last() == ns[i as int]);
            lemma_item_tags_le(pre);
        }
        match &nodes[i] {
            SyntaxNode::Item(it) => {
                let in_foreign = stack.len() > 0 && kinds[stack[stack.len() - 1]] == 11;
                let parent = if stack.len() > 0 { Some(stack[stack.len() - 1]) } else { None };
                let t = tag_of(&it.kind);
                proof {
                    lemma_tag_count_le(item_tags(pre), t as nat);
                }
                let id = counts[t];
                counts.set(t, id + 1);
                let all_attrs = concat_attrs(&it.attrs, &it.inner_attrs);
                let k = items.len();
                let ghost old_items = items@;
                let item = Item {
                    attrs: lower_attrs(&all_attrs),
                    vis: lower_visibility(&it.vis),
                    id,
                    parent,
                    source: i,
                    data: lower_item_data(&it.kind, in_foreign),
                };
                items.push(item);
                kinds.push(t);
                if has_scope(&it.kind) {
                    stack.push(k);
                }
                proof {
                    let post = ns.take(i as int + 1);
                    assert(item_tags(post) =~= item_tags(pre).push(t as nat));
                    assert(item_built(ns, items@, k as int));
                    assert forall|q: int| 0 <= q < items@.len() implies #[trigger] item_built(
                        ns,
                        items@,
                        q,
                    ) by {
                        if q < k {
                            assert(items@[q] == old_items[q]);
                            assert(item_built(ns, old_items, q));
                        }
                    }
                    assert forall|q: int| 0 <= q < N_KINDS implies #[trigger] counts@[q] == tag_count(
                        item_tags(post),
                        q as nat,
                    ) by {
                        assert(item_tags(post).drop_last() =~= item_tags(pre));
                        assert(item_tags(post).last() == t as nat);
                    }
                    assert forall|j: int, q: int| 0 <= j < q < items@.len() implies (
                    #[trigger] items@[j]).source < (#[trigger] items@[q]).source by {
                        if q < k {
                            assert(items@[q] == old_items[q]);
                            assert(items@[j] == old_items[j]);
                        } else {
                            assert(items@[j] == old_items[j]);
                        }
                    }
                }
            },
            SyntaxNode::End => {
                if stack.len() > 0 {
                    stack.pop();
                }
                proof {
                    assert(item_tags(ns.take(i as int + 1)) =~= item_tags(pre));
                }
            },
        }
        i = i + 1;
    }
    proof {
        assert(ns.take(i as int) =~= ns);
    }
    let attrs = lower_attrs(file_attrs);
    ItemTree { attrs, items }
}

proof fn lemma_tags_match(ns: Seq<SyntaxNode>, items: Seq<Item>, k: int)
    requires
        0 <= k < items.len(),
        item_built(ns, items, k),
    ensures
        data_tag(items[k].data) == kind_tag(ns[items[k].source as int]->Item_0.kind),
{
    let s = ns[items[k].source as int]->Item_0;
    lemma_data_tag(s.kind, items[k].data, in_foreign_spec(ns.take(items[k].source as int)));
}

/// Two items of one kind in a built tree have distinct identifiers.
pub proof fn lemma_ids_unique(file_attrs: Seq<RawAttr>, ns: Seq<SyntaxNode>, t: ItemTree, j: int, k: int)
    requires
        tree_built(file_attrs, ns, t),
        0 <= j < k < t.items@.len(),
        data_tag(t.items@[j].data) == data_tag(t.items@[k].data),
    ensures
        t.items@[j].id < t.items@[k].id,
{
    let x = t.items@[j];
    let y = t.items@[k];
    assert(item_built(ns, t.items@, j));
    assert(item_built(ns, t.items@, k));
    lemma_tags_match(ns, t.items@, j);
    lemma_tags_match(ns, t.items@, k);
    lemma_tag_count_grow(ns, x.source as int, y.source as int);
}

proof fn lemma_tag_count_grow(ns: Seq<SyntaxNode>, a: int, b: int)
    requires
        0 <= a < b <= ns.len(),
        ns[a] is Item,
    ensures
        tag_count(item_tags(ns.take(b)), kind_tag(ns[a]->Item_0.kind)) >= tag_count(
            item_tags(ns.take(a)),
            kind_tag(ns[a]->Item_0.kind),
        ) + 1,
    decreases b - a,
{
    let tb = ns.take(b);
    assert(tb.drop_last() =~= ns.take(b - 1));
    let t = kind_tag(ns[a]->Item_0.kind);
    if b == a + 1 {
        assert(tb.last() == ns[a]);
        assert(item_tags(tb).drop_last() =~= item_tags(ns.take(a)));
    } else {
        lemma_tag_count_grow(ns, a, b - 1);
        match tb.last() {
            SyntaxNode::Item(it) => {
                assert(item_tags(tb).drop_last() =~= item_tags(ns.take(b - 1)));
            },
            SyntaxNode::End => {},
        }
    }
}

impl ItemTree {
    /// The position of the item of the given kind tag and identifier, if
    /// there is one.
    pub fn find(&self, tag: usize, id: usize) -> (r: Option<usize>)
        ensures
            r matches Some(k) ==> k < self.items@.len() && data_tag(self.items@[k as int].data) == tag
                && self.items@[k as int].id == id,
            r is None ==> forall|k: int|
                0 <= k < self.items@.len() ==> !(data_tag(#[trigger] self.items@[k].data) == tag
                    && self.items@[k].id == id),
    {
        let mut k: usize = 0;
        while k < self.items.len()
            invariant
                k <= self.items@.len(),
                forall|q: int|
                    0 <= q < k ==> !(data_tag(#[trigger] self.items@[q].data) == tag && self.items@[q].id
                        == id),
            decreases self.items@.len() - k,
        {
            if tag_of_data(&self.items[k].data) == tag && self.items[k].id == id {
                return Some(k);
            }
            k = k + 1;
        }
        None
    }

    /// The positions of the items whose parent is `parent` (the top-level
    /// items for `None`), in order.
    pub fn children_of(&self, parent: Option<usize>) -> (r: Vec<usize>)
        ensures
            forall|j: int|
                0 <= j < r@.len() ==> #[trigger] r@[j] < self.items@.len() && self.items@[r@[j] as int].parent
                    == parent,
            forall|k: int|
                0 <= k < self.items@.len() && self.items@[k].parent == parent ==> exists|j: int|
                    0 <= j < r@.len() && #[trigger] r@[j] == k,
            forall|i: int, j: int| 0 <= i < j < r@.len() ==> r@[i] < r@[j],
    {
        let mut r: Vec<usize> = Vec::new();
        let mut k: usize = 0;
        while k < self.items.len()
            invariant
                k <= self.items@.len(),
                forall|j: int|
                    0 <= j < r@.len() ==> #[trigger] r@[j] < k && self.items@[r@[j] as int].parent == parent,
                forall|q: int|
                    0 <= q < k && self.items@[q].parent == parent ==> exists|j: int|
                        0 <= j < r@.len() && #[trigger] r@[j] == q,
                forall|i: int, j: int| 0 <= i < j < r@.len() ==> r@[i] < r@[j],
            decreases self.items@.len() - k,
        {
            if self.items[k].parent == parent {
                let ghost before = r@;
                r.push(k);
                proof {
                    assert forall|q: int|
                        0 <= q < k + 1 && self.items@[q].parent == parent implies exists|j: int|
                            0 <= j < r@.len() && #[trigger] r@[j] == q by {
                        if q == k {
                            assert(r@[r@.len() - 1] == q);
                        } else {
                            let j = choose|j: int| 0 <= j < before.len() && #[trigger] before[j] == q;
                            assert(r@[j] == q);
                        }
                    }
                }
            }
            k = k + 1;
        }
        r
    }
}

} // verus!
