//! Attribute indexing: every attribute and doc comment of an owner gets a
//! stable identity, numbered separately among doc comments and among
//! explicit attributes.
use vstd::prelude::*;

verus! {

/// One attribute as written on an item, in source order. A doc comment has
/// `is_doc` set, the path `doc` and its body (marker stripped) as argument.
pub struct RawAttr {
    pub is_doc: bool,
    pub path: String,
    pub args: Option<String>,
}

/// The identity of an attribute within its owner.
#[derive(Clone, Copy, Debug, PartialEq, Eq)]
pub struct AttrId {
    pub is_doc_comment: bool,
    pub ast_index: usize,
}

/// One lowered attribute.
pub struct Attr {
    pub id: AttrId,
    pub path: String,
    pub args: Option<String>,
}

/// The lowered attributes of one owner, with the two counters.
pub struct AttrSet {
    pub attrs: Vec<Attr>,
    pub n_doc: usize,
    pub n_regular: usize,
}

/// The doc flags of a sequence of raw attributes.
pub open spec fn doc_flags(raw: Seq<RawAttr>) -> Seq<bool> {
    raw.map_values(|a: RawAttr| a.is_doc)
}

/// How many entries of `flags` equal `kind`.
pub open spec fn kind_count(flags: Seq<bool>, kind: bool) -> nat
    decreases flags.len(),
{
    if flags.len() == 0 {
        0
    } else {
        kind_count(flags.drop_last(), kind) + if flags.last() == kind { 1nat } else { 0nat }
    }
}

/// The index that the `i`-th attribute of `flags` receives: its position among
/// the attributes of its own kind.
pub open spec fn ast_index_of(flags: Seq<bool>, i: int) -> nat {
    kind_count(flags.take(i), flags[i])
}

proof fn lemma_kind_count_le(flags: Seq<bool>, kind: bool)
    ensures
        kind_count(flags, kind) <= flags.len(),
    decreases flags.len(),
{
    if flags.len() > 0 {
        lemma_kind_count_le(flags.drop_last(), kind);
    }
}

/// Where no attribute is a doc comment, the doc-comment counter is zero and the
/// explicit attributes are numbered 0, 1, 2, ... without a gap.
pub proof fn lemma_no_docs_contiguous(flags: Seq<bool>)
    requires
        forall|i: int| 0 <= i < flags.len() ==> !flags[i],
    ensures
        kind_count(flags, true) == 0,
        kind_count(flags, false) == flags.len(),
        forall|i: int| 0 <= i < flags.len() ==> ast_index_of(flags, i) == i,
    decreases flags.len(),
{
    if flags.len() > 0 {
        let init = flags.drop_last();
        lemma_no_docs_contiguous(init);
        assert forall|i: int| 0 <= i < flags.len() implies ast_index_of(flags, i) == i by {
            if i < init.len() {
                assert(flags.take(i) =~= init.take(i));
                assert(flags[i] == init[i]);
                assert(ast_index_of(init, i) == i);
            } else {
                assert(flags.take(i) =~= init);
            }
        }
    }
}

/// Whether `s` is the lowering of the raw attributes `raw`.
pub open spec fn attrs_lowered(raw: Seq<RawAttr>, s: AttrSet) -> bool {
    &&& s.attrs@.len() == raw.len()
    &&& s.n_doc == kind_count(doc_flags(raw), true)
    &&& s.n_regular == kind_count(doc_flags(raw), false)
    &&& forall|i: int|
        0 <= i < raw.len() ==> {
            &&& (#[trigger] s.attrs@[i]).id.is_doc_comment == raw[i].is_doc
            &&& s.attrs@[i].id.ast_index == ast_index_of(doc_flags(raw), i)
            &&& s.attrs@[i].path == raw[i].path
            &&& s.attrs@[i].args == raw[i].args
        }
}

impl RawAttr {
    pub fn clone_raw(&self) -> (r: RawAttr)
        ensures
            r == *self,
    {
        RawAttr { is_doc: self.is_doc, path: self.path.clone(), args: clone_opt_string(&self.args) }
    }
}

/// The attributes written outside an item followed by those written inside
/// it (`#![..]`, `//!`): they share one owner.
pub fn concat_attrs(outer: &Vec<RawAttr>, inner: &Vec<RawAttr>) -> (r: Vec<RawAttr>)
    ensures
        r@ == outer@ + inner@,
{
    let mut r: Vec<RawAttr> = Vec::new();
    let mut i: usize = 0;
    while i < outer.len()
        invariant
            i <= outer@.len(),
            r@ == outer@.take(i as int),
        decreases outer@.len() - i,
    {
        r.push(outer[i].clone_raw());
        proof {
            assert(r@ =~= outer@.take(i as int + 1));
        }
        i = i + 1;
    }
    let mut j: usize = 0;
    while j < inner.len()
        invariant
            i == outer@.len(),
            j <= inner@.len(),
            r@ == outer@.take(i as int) + inner@.take(j as int),
        decreases inner@.len() - j,
    {
        r.push(inner[j].clone_raw());
        proof {
            assert(r@ =~= outer@.take(i as int) + inner@.take(j as int + 1));
        }
        j = j + 1;
    }
    proof {
        assert(outer@.take(i as int) =~= outer@);
        assert(inner@.take(j as int) =~= inner@);
    }
    r
}

/// A copy of an optional string.
pub fn clone_opt_string(s: &Option<String>) -> (r: Option<String>)
    ensures
        r == *s,
{
    match s {
        Some(t) => Some(t.clone()),
        None => None,
    }
}

/// Lowers an owner's attributes in source order. The `i`-th attribute keeps
/// its path and argument and is numbered among the attributes of its own kind
/// (doc comment or explicit) that precede it.
pub fn lower_attrs(raw: &Vec<RawAttr>) -> (r: AttrSet)
    ensures
        attrs_lowered(raw@, r),
        r.attrs@.len() == raw@.len(),
        r.n_doc == kind_count(doc_flags(raw@), true),
        r.n_regular == kind_count(doc_flags(raw@), false),
        forall|i: int|
            0 <= i < raw@.len() ==> {
                &&& (#[trigger] r.attrs@[i]).id.is_doc_comment == raw@[i].is_doc
                &&& r.attrs@[i].id.ast_index == ast_index_of(doc_flags(raw@), i)
                &&& r.attrs@[i].path == raw@[i].path
                &&& r.attrs@[i].args == raw@[i].args
            },
{
    let mut attrs: Vec<Attr> = Vec::new();
    let mut n_doc: usize = 0;
    let mut n_regular: usize = 0;
    let mut i: usize = 0;
    let ghost flags = doc_flags(raw@);
    while i < raw.len()
        invariant
            i <= raw@.len(),
            flags == doc_flags(raw@),
            attrs@.len() == i,
            n_doc == kind_count(flags.take(i as int), true),
            n_regular == kind_count(flags.take(i as int), false),
            forall|j: int|
                0 <= j < i ==> {
                    &&& (#[trigger] attrs@[j]).id.is_doc_comment == raw@[j].is_doc
                    &&& attrs@[j].id.ast_index == ast_index_of(flags, j)
                    &&& attrs@[j].path == raw@[j].path
                    &&& attrs@[j].args == raw@[j].args
                },
        decreases raw@.len() - i,
    {
        let a = &raw[i];
        proof {
            assert(flags.take(i as int + 1).drop_last() =~= flags.take(i as int));
            lemma_kind_count_le(flags.take(i as int), true);
            lemma_kind_count_le(flags.take(i as int), false);
        }
        let index = if a.is_doc { n_doc } else { n_regular };
        attrs.push(Attr {
            id: AttrId { is_doc_comment: a.is_doc, ast_index: index },
            path: a.path.clone(),
            args: clone_opt_string(&a.args),
        });
        if a.is_doc {
            n_doc = n_doc + 1;
        } else {
            n_regular = n_regular + 1;
        }
        i = i + 1;
    }
    proof {
        assert(flags.take(raw@.len() as int) =~= flags);
    }
    AttrSet { attrs, n_doc, n_regular }
}

} // verus!
