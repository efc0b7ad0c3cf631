use item_tree::attrs::{lower_attrs, RawAttr};
use item_tree::generics::{
    lower_fn_generics, lower_generics, LoweredType, PredTarget, SyntaxGenericParam, SyntaxType,
    SyntaxWherePred, TypeParamProvenance,
};
use item_tree::items::{ItemData, SyntaxFn, SyntaxItem, SyntaxItemKind, SyntaxParam};
use item_tree::paths::{lower_path, PathKind, PathSeg, SyntaxPath};
use item_tree::print::{decimal_text, path_text, record_text, vis_text};
use item_tree::tree::{build_item_tree, SyntaxNode};
use item_tree::use_tree::{flatten_use_tree, ImportAlias, UseTreeEvent};
use item_tree::visibility::{lower_visibility, SyntaxVis};

fn s(t: &str) -> String {
    t.to_string()
}

fn name(t: &str) -> PathSeg {
    PathSeg::Name(s(t))
}

fn raw(is_doc: bool, path: &str) -> RawAttr {
    RawAttr { is_doc, path: s(path), args: None }
}

#[test]
fn no_doc_comments_numbers_attributes_from_zero() {
    let set = lower_attrs(&vec![raw(false, "a"), raw(false, "b"), raw(false, "c")]);
    assert_eq!(set.n_doc, 0);
    assert_eq!(set.n_regular, 3);
    let idx: Vec<usize> = set.attrs.iter().map(|a| a.id.ast_index).collect();
    assert_eq!(idx, vec![0, 1, 2]);
}

#[test]
fn doc_and_regular_attributes_are_numbered_apart() {
    let set = lower_attrs(&vec![raw(true, "doc"), raw(false, "x"), raw(true, "doc"), raw(false, "y")]);
    let ids: Vec<(bool, usize)> = set.attrs.iter().map(|a| (a.id.is_doc_comment, a.id.ast_index)).collect();
    assert_eq!(ids, vec![(true, 0), (false, 0), (true, 1), (false, 1)]);
    assert_eq!(set.n_doc, 2);
    assert_eq!(lower_attrs(&vec![]).attrs.len(), 0);
}

#[test]
fn nested_use_tree_gives_one_record_per_leaf() {
    // a::{b::{c, d as e}, f::*, g}
    let events = vec![
        UseTreeEvent::Open(vec![name("a")]),
        UseTreeEvent::Open(vec![name("b")]),
        UseTreeEvent::Leaf(vec![name("c")], None),
        UseTreeEvent::Leaf(vec![name("d")], Some(ImportAlias::Alias(s("e")))),
        UseTreeEvent::Close,
        UseTreeEvent::Glob(vec![name("f")]),
        UseTreeEvent::Leaf(vec![name("g")], None),
        UseTreeEvent::Close,
    ];
    let recs = flatten_use_tree(&events);
    assert_eq!(recs.len(), 4);
    let idx: Vec<usize> = recs.iter().map(|r| r.index).collect();
    assert_eq!(idx, vec![0, 1, 2, 3]);
    let paths: Vec<String> = recs
        .iter()
        .map(|r| {
            let p = lower_path(&SyntaxPath { leading_colons: false, segments: r.path.iter().map(|g| match g {
                PathSeg::Name(n) => PathSeg::Name(n.clone()),
                PathSeg::SelfKw => PathSeg::SelfKw,
                PathSeg::SuperKw => PathSeg::SuperKw,
                PathSeg::CrateKw => PathSeg::CrateKw,
            }).collect() });
            path_text(&p.unwrap())
        })
        .collect();
    assert_eq!(paths, vec!["a::b::c", "a::b::d", "a::f", "a::g"]);
    assert!(recs[2].is_glob);
    assert!(matches!(&recs[1].alias, Some(ImportAlias::Alias(n)) if n == "e"));
    let mut distinct = paths.clone();
    distinct.dedup();
    assert_eq!(distinct.len(), paths.len());
}

#[test]
fn pub_use_with_group_scenario() {
    let events = vec![
        UseTreeEvent::Open(vec![PathSeg::CrateKw, name("path")]),
        UseTreeEvent::Leaf(vec![name("nested")], None),
        UseTreeEvent::Leaf(vec![name("items")], Some(ImportAlias::Alias(s("renamed")))),
        UseTreeEvent::Leaf(vec![name("Trait")], Some(ImportAlias::Underscore)),
        UseTreeEvent::Close,
    ];
    let tree = build_item_tree(&vec![], &vec![SyntaxNode::Item(SyntaxItem {
        attrs: vec![],
        inner_attrs: vec![],
        vis: SyntaxVis::Pub,
        kind: SyntaxItemKind::Use { tree: events },
    })]);
    match &tree.items[0].data {
        ItemData::Use { records } => {
            assert_eq!(records.len(), 3);
            let idx: Vec<usize> = records.iter().map(|r| r.index).collect();
            assert_eq!(idx, vec![0, 1, 2]);
            assert!(records[0].alias.is_none());
            assert!(matches!(&records[1].alias, Some(ImportAlias::Alias(n)) if n == "renamed"));
            assert!(matches!(records[2].alias, Some(ImportAlias::Underscore)));
            for r in records {
                assert!(record_text(&tree.items[0].vis, r).starts_with("pub use crate::path::"));
            }
        }
        _ => panic!("expected a use item"),
    }
    assert_eq!(vis_text(&tree.items[0].vis), "pub");
}

#[test]
fn visibility_normalization_is_idempotent() {
    let cases = vec![
        SyntaxVis::Absent,
        SyntaxVis::Pub,
        SyntaxVis::PubCrate,
        SyntaxVis::PubSelf,
        SyntaxVis::PubSuper,
        SyntaxVis::PubIn(SyntaxPath { leading_colons: false, segments: vec![PathSeg::CrateKw, name("a")] }),
    ];
    let expected = vec!["pub(self)", "pub", "pub(crate)", "pub(self)", "pub(super)", "pub(in crate::a)"];
    for (v, e) in cases.iter().zip(expected) {
        let once = lower_visibility(v);
        assert_eq!(vis_text(&once), e);
        let again = match vis_text(&once).as_str() {
            "pub" => SyntaxVis::Pub,
            "pub(self)" => SyntaxVis::PubSelf,
            "pub(crate)" => SyntaxVis::PubCrate,
            "pub(super)" => SyntaxVis::PubSuper,
            _ => SyntaxVis::PubIn(SyntaxPath {
                leading_colons: false,
                segments: vec![PathSeg::CrateKw, name("a")],
            }),
        };
        assert_eq!(vis_text(&lower_visibility(&again)), e);
    }
}

#[test]
fn ill_formed_paths_lower_to_nothing() {
    let bad = SyntaxPath { leading_colons: false, segments: vec![name("a"), PathSeg::SuperKw] };
    assert!(lower_path(&bad).is_none());
    let bad_abs = SyntaxPath { leading_colons: true, segments: vec![PathSeg::CrateKw] };
    assert!(lower_path(&bad_abs).is_none());
    let v = lower_visibility(&SyntaxVis::PubIn(bad));
    assert_eq!(vis_text(&v), "pub(self)");
    assert!(v.is_private());
    let supers = SyntaxPath { leading_colons: false, segments: vec![PathSeg::SuperKw, PathSeg::SuperKw] };
    let m = lower_path(&supers).unwrap();
    assert_eq!(m.kind, PathKind::Super(2));
    assert!(m.segments.is_empty());
}

#[test]
fn relowering_split_bounds_keeps_predicates() {
    let params = vec![
        SyntaxGenericParam::Lifetime { name: s("'a"), bounds: vec![] },
        SyntaxGenericParam::Type { name: s("T"), bounds: vec![s("Copy"), s("'a")], default: None },
    ];
    let wc = vec![SyntaxWherePred { target: s("U"), bounds: vec![s("Clone")] }];
    let first = lower_generics(&params, &wc);
    let split_params = vec![
        SyntaxGenericParam::Lifetime { name: s("'a"), bounds: vec![] },
        SyntaxGenericParam::Type { name: s("T"), bounds: vec![], default: None },
    ];
    let split_wc: Vec<SyntaxWherePred> = first
        .where_predicates
        .iter()
        .map(|p| match &p.target {
            PredTarget::Named(n) => SyntaxWherePred { target: n.clone(), bounds: vec![p.bound.clone()] },
            PredTarget::Param(_) => panic!("no implicit parameter here"),
        })
        .collect();
    let second = lower_generics(&split_params, &split_wc);
    let show = |g: &item_tree::generics::GenericParams| -> Vec<(String, String)> {
        g.where_predicates
            .iter()
            .map(|p| match &p.target {
                PredTarget::Named(n) => (n.clone(), p.bound.clone()),
                PredTarget::Param(i) => (format!("#{}", i), p.bound.clone()),
            })
            .collect()
    };
    assert_eq!(show(&first), show(&second));
    assert_eq!(show(&first), vec![(s("T"), s("Copy")), (s("T"), s("'a")), (s("U"), s("Clone"))]);
}

#[test]
fn building_twice_prints_the_same() {
    let make = || {
        vec![
            SyntaxNode::Item(SyntaxItem {
                attrs: vec![],
                inner_attrs: vec![],
                vis: SyntaxVis::PubCrate,
                kind: SyntaxItemKind::Use {
                    tree: vec![
                        UseTreeEvent::Open(vec![PathSeg::SuperKw]),
                        UseTreeEvent::Leaf(vec![name("x")], None),
                        UseTreeEvent::Glob(vec![name("y")]),
                        UseTreeEvent::Close,
                    ],
                },
            }),
        ]
    };
    let lines = |nodes: Vec<SyntaxNode>| -> Vec<String> {
        let t = build_item_tree(&vec![], &nodes);
        match &t.items[0].data {
            ItemData::Use { records } => records.iter().map(|r| record_text(&t.items[0].vis, r)).collect(),
            _ => panic!("expected a use item"),
        }
    };
    let a = lines(make());
    let b = lines(make());
    assert_eq!(a, b);
    assert_eq!(a, vec!["pub(crate) use super::x;  // 0", "pub(crate) use super::y::*;  // 1"]);
}

#[test]
fn impl_trait_argument_is_hoisted() {
    let params = vec![SyntaxGenericParam::Type { name: s("G"), bounds: vec![s("'a")], default: None }];
    let args = vec![SyntaxType::ImplTrait(vec![s("Copy")])];
    let (g, lowered) = lower_fn_generics(&params, &vec![], &args);
    assert_eq!(g.types.len(), 2);
    assert_eq!(g.types[0].name, Some(s("G")));
    assert_eq!(g.types[0].provenance, TypeParamProvenance::Explicit);
    assert_eq!(g.types[1].name, None);
    assert_eq!(g.types[1].provenance, TypeParamProvenance::ArgumentImplTrait);
    assert_eq!(g.where_predicates.len(), 2);
    assert!(matches!(&g.where_predicates[0].target, PredTarget::Named(n) if n == "G"));
    assert!(matches!(g.where_predicates[1].target, PredTarget::Param(1)));
    assert_eq!(g.where_predicates[1].bound, "Copy");
    assert!(matches!(lowered[0], LoweredType::ImplicitParam(1)));

    let f = SyntaxFn {
        name: s("f"),
        generics: params,
        where_clause: vec![],
        params: vec![SyntaxParam { attrs: vec![], ty: SyntaxType::ImplTrait(vec![s("Copy")]) }],
        ret: Some(SyntaxType::ImplTrait(vec![s("Copy")])),
        has_self_param: false,
        has_body: true,
        is_default: false,
        is_const: false,
        is_async: false,
        is_unsafe: false,
        is_varargs: false,
    };
    let lowered_fn = item_tree::items::lower_fn(&f, false);
    assert!(matches!(&lowered_fn.ret, LoweredType::ImplTrait(b) if b == &vec![s("Copy")]));
    assert!(matches!(lowered_fn.params[0].ty, LoweredType::ImplicitParam(1)));
    assert_eq!(lowered_fn.flags, 0x2);
}

#[test]
fn function_flags_pack_each_bit() {
    let mut f = SyntaxFn {
        name: s("g"),
        generics: vec![],
        where_clause: vec![],
        params: vec![],
        ret: None,
        has_self_param: true,
        has_body: true,
        is_default: true,
        is_const: true,
        is_async: true,
        is_unsafe: true,
        is_varargs: true,
    };
    assert_eq!(item_tree::items::fn_flags(&f, false), 0xbf);
    assert_eq!(item_tree::items::fn_flags(&f, true), 0xfd);
    f.has_body = false;
    f.is_unsafe = false;
    assert_eq!(item_tree::items::fn_flags(&f, false), 0x9d);
}

#[test]
fn foreign_block_function_has_no_body() {
    let mut f = item_tree::items::lower_fn(
        &SyntaxFn {
            name: s("ex_fn"),
            generics: vec![],
            where_clause: vec![],
            params: vec![],
            ret: None,
            has_self_param: false,
            has_body: true,
            is_default: false,
            is_const: false,
            is_async: false,
            is_unsafe: false,
            is_varargs: false,
        },
        true,
    );
    assert_eq!(f.flags, 0x60);
    assert!(matches!(&f.ret, LoweredType::Plain(t) if t == "()"));
    f.flags = 0;
    assert_eq!(f.flags, 0);
}

#[test]
fn decimal_rendering() {
    assert_eq!(decimal_text(0), "0");
    assert_eq!(decimal_text(7), "7");
    assert_eq!(decimal_text(10), "10");
    assert_eq!(decimal_text(1234), "1234");
    assert_eq!(decimal_text(usize::MAX), usize::MAX.to_string());
}

#[test]
fn unmatched_end_is_ignored() {
    let tree = build_item_tree(&vec![], &vec![
        SyntaxNode::End,
        SyntaxNode::Item(SyntaxItem {
            attrs: vec![],
            inner_attrs: vec![],
            vis: SyntaxVis::Absent,
            kind: SyntaxItemKind::Module { name: s("m"), has_body: false },
        }),
    ]);
    assert_eq!(tree.items.len(), 1);
    assert_eq!(tree.items[0].parent, None);
    assert_eq!(tree.items[0].source, 1);
    assert_eq!(tree.children_of(None), vec![0]);
}

#[test]
fn items_are_found_by_kind_and_identifier() {
    let m = |n: &str| {
        SyntaxNode::Item(SyntaxItem {
            attrs: vec![],
            inner_attrs: vec![],
            vis: SyntaxVis::Absent,
            kind: SyntaxItemKind::Module { name: s(n), has_body: false },
        })
    };
    let c = SyntaxNode::Item(SyntaxItem {
        attrs: vec![],
        inner_attrs: vec![],
        vis: SyntaxVis::Absent,
        kind: SyntaxItemKind::Const { ident: Some(s("C")), ty: s("u8") },
    });
    let tree = build_item_tree(&vec![], &vec![m("a"), c, m("b")]);
    let ids: Vec<usize> = tree.items.iter().map(|i| i.id).collect();
    assert_eq!(ids, vec![0, 0, 1]);
    let module_tag = item_tree::tree::tag_of_data(&tree.items[0].data);
    let const_tag = item_tree::tree::tag_of_data(&tree.items[1].data);
    assert_ne!(module_tag, const_tag);
    assert_eq!(tree.find(module_tag, 1), Some(2));
    assert_eq!(tree.find(const_tag, 0), Some(1));
    assert_eq!(tree.find(const_tag, 1), None);
}

#[test]
fn attributes_render_with_their_identity() {
    let set = lower_attrs(&vec![
        RawAttr { is_doc: true, path: s("doc"), args: Some(s(" file comment")) },
        RawAttr { is_doc: false, path: s("no_std"), args: None },
        RawAttr { is_doc: false, path: s("derive"), args: Some(s("(Debug)")) },
    ]);
    assert_eq!(
        item_tree::print::attr_text(&set.attrs[0], true),
        "#![doc = \" file comment\"]  // AttrId { is_doc_comment: true, ast_index: 0 }"
    );
    assert_eq!(
        item_tree::print::attr_text(&set.attrs[1], true),
        "#![no_std]  // AttrId { is_doc_comment: false, ast_index: 0 }"
    );
    assert_eq!(
        item_tree::print::attr_text(&set.attrs[2], false),
        "#[derive(Debug)]  // AttrId { is_doc_comment: false, ast_index: 1 }"
    );
}
