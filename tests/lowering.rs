use item_tree::attrs::{lower_attrs, RawAttr};
use item_tree::generics::{
    LoweredType, PredTarget, SyntaxGenericParam, SyntaxType, SyntaxWherePred, TypeParamProvenance,
};
use item_tree::items::{
    FieldName, FieldsShape, ItemData, SyntaxField, SyntaxTypeRef, TypeRef, SyntaxFn, SyntaxItem, SyntaxItemKind,
    SyntaxParam, SyntaxVariant,
};
use item_tree::paths::{lower_type_path, PathKind, PathSeg, Qualifier, SyntaxPath, SyntaxTypePath};
use item_tree::print::{record_text, vis_text};
use item_tree::tree::{build_item_tree, ItemTree, SyntaxNode};
use item_tree::use_tree::{ImportAlias, UseTreeEvent};
use item_tree::visibility::SyntaxVis;

fn s(t: &str) -> String {
    t.to_string()
}

fn attr(path: &str) -> RawAttr {
    RawAttr { is_doc: false, path: s(path), args: None }
}

fn doc(body: &str) -> RawAttr {
    RawAttr { is_doc: true, path: s("doc"), args: Some(s(body)) }
}

fn seg(t: &str) -> PathSeg {
    match t {
        "self" => PathSeg::SelfKw,
        "super" => PathSeg::SuperKw,
        "crate" => PathSeg::CrateKw,
        _ => PathSeg::Name(s(t)),
    }
}

fn segs(t: &[&str]) -> Vec<PathSeg> {
    t.iter().map(|x| seg(x)).collect()
}

fn item(attrs: Vec<RawAttr>, vis: SyntaxVis, kind: SyntaxItemKind) -> SyntaxNode {
    SyntaxNode::Item(SyntaxItem { attrs, inner_attrs: vec![], vis, kind })
}

fn plain_fn(name: &str) -> SyntaxFn {
    SyntaxFn {
        name: s(name),
        generics: vec![],
        where_clause: vec![],
        params: vec![],
        ret: None,
        has_self_param: false,
        has_body: false,
        is_default: false,
        is_const: false,
        is_async: false,
        is_unsafe: false,
        is_varargs: false,
    }
}

fn field(attrs: Vec<RawAttr>, name: Option<&str>, ty: &str) -> SyntaxField {
    SyntaxField { attrs, vis: SyntaxVis::Absent, name: name.map(s), ty: SyntaxTypeRef::Text(s(ty)) }
}

fn path_field(name: &str, leading_colons: bool, p: &[&str]) -> SyntaxField {
    SyntaxField {
        attrs: vec![],
        vis: SyntaxVis::Absent,
        name: Some(s(name)),
        ty: SyntaxTypeRef::Path(SyntaxTypePath {
            qualifier: None,
            path: SyntaxPath { leading_colons, segments: segs(p) },
            args: p.iter().map(|_| None).collect(),
        }),
    }
}

fn build(file_attrs: Vec<RawAttr>, nodes: Vec<SyntaxNode>) -> ItemTree {
    build_item_tree(&file_attrs, &nodes)
}

fn use_lines(tree: &ItemTree, k: usize) -> Vec<String> {
    match &tree.items[k].data {
        ItemData::Use { records } => records.iter().map(|r| record_text(&tree.items[k].vis, r)).collect(),
        _ => panic!("not a use item"),
    }
}

fn attr_ids(tree: &ItemTree, k: usize) -> Vec<(bool, usize)> {
    tree.items[k].attrs.attrs.iter().map(|a| (a.id.is_doc_comment, a.id.ast_index)).collect()
}

#[test]
fn imports() {
    let file_attrs = vec![doc(" file comment"), attr("no_std"), doc(" another file comment")];
    let nested = vec![
        UseTreeEvent::Open(segs(&["crate", "path"])),
        UseTreeEvent::Leaf(segs(&["nested"]), None),
        UseTreeEvent::Leaf(segs(&["items"]), Some(ImportAlias::Alias(s("renamed")))),
        UseTreeEvent::Leaf(segs(&["Trait"]), Some(ImportAlias::Underscore)),
        UseTreeEvent::Close,
    ];
    let nodes = vec![
        item(vec![], SyntaxVis::Absent, SyntaxItemKind::CrateDecl {
            name: s("self"),
            alias: Some(ImportAlias::Alias(s("renamed"))),
        }),
        item(vec![], SyntaxVis::PubSuper, SyntaxItemKind::CrateDecl { name: s("bli"), alias: None }),
        item(vec![], SyntaxVis::Pub, SyntaxItemKind::Use { tree: nested }),
        item(vec![], SyntaxVis::Absent, SyntaxItemKind::Use {
            tree: vec![UseTreeEvent::Glob(segs(&["globs"]))],
        }),
        item(vec![doc(" docs on import")], SyntaxVis::Absent, SyntaxItemKind::Use {
            tree: vec![
                UseTreeEvent::Open(segs(&["crate"])),
                UseTreeEvent::Leaf(segs(&["A"]), None),
                UseTreeEvent::Leaf(segs(&["B"]), None),
                UseTreeEvent::Close,
            ],
        }),
    ];
    let tree = build(file_attrs, nodes);
    let file_ids: Vec<(bool, usize)> =
        tree.attrs.attrs.iter().map(|a| (a.id.is_doc_comment, a.id.ast_index)).collect();
    assert_eq!(file_ids, vec![(true, 0), (false, 0), (true, 1)]);
    assert_eq!(tree.attrs.attrs[0].args, Some(s(" file comment")));
    assert_eq!(vis_text(&tree.items[0].vis), "pub(self)");
    assert_eq!(vis_text(&tree.items[1].vis), "pub(super)");
    assert_eq!(
        use_lines(&tree, 2),
        vec![
            "pub use crate::path::nested;  // 0",
            "pub use crate::path::items as renamed;  // 1",
            "pub use crate::path::Trait as _;  // 2",
        ]
    );
    assert_eq!(use_lines(&tree, 3), vec!["pub(self) use globs::*;  // 0"]);
    assert_eq!(
        use_lines(&tree, 4),
        vec!["pub(self) use crate::A;  // 0", "pub(self) use crate::B;  // 1"]
    );
    assert_eq!(attr_ids(&tree, 4), vec![(true, 0)]);
    let ids: Vec<usize> = tree.items.iter().map(|i| i.id).collect();
    assert_eq!(ids, vec![0, 1, 0, 1, 2]);
}

#[test]
fn extern_blocks() {
    let nodes = vec![
        item(vec![attr("on_extern_block")], SyntaxVis::Absent, SyntaxItemKind::ForeignBlock {
            abi: Some(s("\"C\"")),
        }),
        item(vec![attr("on_extern_type")], SyntaxVis::Absent, SyntaxItemKind::TypeAlias {
            name: s("ExType"),
            generics: vec![],
            where_clause: vec![],
            bounds: vec![],
            aliased: None,
        }),
        item(vec![attr("on_extern_static")], SyntaxVis::Absent, SyntaxItemKind::Static {
            name: s("EX_STATIC"),
            mutable: false,
            ty: s("u8"),
        }),
        item(vec![attr("on_extern_fn")], SyntaxVis::Absent, SyntaxItemKind::Function(plain_fn("ex_fn"))),
        SyntaxNode::End,
    ];
    let tree = build(vec![], nodes);
    assert_eq!(tree.items.len(), 4);
    for k in 0..4 {
        assert_eq!(attr_ids(&tree, k), vec![(false, 0)]);
    }
    assert!(matches!(tree.items[1].data, ItemData::TypeAlias { is_foreign: true, .. }));
    assert!(matches!(tree.items[2].data, ItemData::Static { is_foreign: true, .. }));
    match &tree.items[3].data {
        ItemData::Function(f) => {
            assert_eq!(f.flags, 0x60);
            assert!(matches!(&f.ret, LoweredType::Plain(t) if t == "()"));
        }
        _ => panic!("expected a function"),
    }
    assert_eq!(tree.items[3].parent, Some(0));
    assert_eq!(tree.children_of(Some(0)), vec![1, 2, 3]);
    assert_eq!(tree.children_of(None), vec![0]);
}

#[test]
fn adts() {
    let nodes = vec![
        item(vec![], SyntaxVis::Absent, SyntaxItemKind::Struct {
            name: s("Unit"),
            generics: vec![],
            where_clause: vec![],
            shape: FieldsShape::Unit,
            fields: vec![],
        }),
        item(vec![attr("derive")], SyntaxVis::Absent, SyntaxItemKind::Struct {
            name: s("Struct"),
            generics: vec![],
            where_clause: vec![],
            shape: FieldsShape::Record,
            fields: vec![field(vec![doc(" fld docs")], Some("fld"), "()")],
        }),
        item(vec![], SyntaxVis::Absent, SyntaxItemKind::Struct {
            name: s("Tuple"),
            generics: vec![],
            where_clause: vec![],
            shape: FieldsShape::Tuple,
            fields: vec![field(vec![attr("attr")], None, "u8")],
        }),
        item(vec![], SyntaxVis::Absent, SyntaxItemKind::Union {
            name: s("Ize"),
            generics: vec![],
            where_clause: vec![],
            fields: vec![field(vec![], Some("a"), "()"), field(vec![], Some("b"), "()")],
        }),
        item(vec![], SyntaxVis::Absent, SyntaxItemKind::Enum {
            name: s("E"),
            generics: vec![],
            where_clause: vec![],
            variants: vec![
                SyntaxVariant {
                    attrs: vec![doc(" comment on Unit")],
                    name: s("Unit"),
                    shape: FieldsShape::Unit,
                    fields: vec![],
                },
                SyntaxVariant {
                    attrs: vec![doc(" comment on Tuple")],
                    name: s("Tuple"),
                    shape: FieldsShape::Tuple,
                    fields: vec![field(vec![], None, "u8")],
                },
                SyntaxVariant {
                    attrs: vec![],
                    name: s("Struct"),
                    shape: FieldsShape::Record,
                    fields: vec![field(vec![doc(" comment on a: u8")], Some("a"), "u8")],
                },
            ],
        }),
    ];
    let tree = build(vec![], nodes);
    let ids: Vec<usize> = tree.items.iter().map(|i| i.id).collect();
    assert_eq!(ids, vec![0, 1, 2, 0, 0]);
    match &tree.items[1].data {
        ItemData::Struct { fields, .. } => {
            assert_eq!(fields[0].attrs.attrs[0].id.is_doc_comment, true);
            assert_eq!(fields[0].attrs.attrs[0].args, Some(s(" fld docs")));
            assert!(matches!(&fields[0].name, FieldName::Named(n) if n == "fld"));
        }
        _ => panic!("expected a struct"),
    }
    match &tree.items[2].data {
        ItemData::Struct { fields, shape, .. } => {
            assert_eq!(*shape, FieldsShape::Tuple);
            assert_eq!(fields.len(), 1);
            assert!(matches!(fields[0].name, FieldName::Positional(0)));
            assert_eq!(vis_text(&fields[0].vis), "pub(self)");
            assert_eq!(fields[0].attrs.n_doc, 0);
            assert_eq!(fields[0].attrs.attrs[0].id.ast_index, 0);
            assert!(!fields[0].attrs.attrs[0].id.is_doc_comment);
        }
        _ => panic!("expected a struct"),
    }
    match &tree.items[4].data {
        ItemData::Enum { variants, .. } => {
            assert_eq!(variants.len(), 3);
            assert_eq!(variants[0].attrs.attrs[0].id.ast_index, 0);
            assert!(matches!(variants[1].fields[0].name, FieldName::Positional(0)));
            assert_eq!(variants[2].fields[0].attrs.attrs[0].args, Some(s(" comment on a: u8")));
        }
        _ => panic!("expected an enum"),
    }
}

#[test]
fn misc() {
    let mut f = plain_fn("f");
    f.has_body = true;
    f.params = vec![
        SyntaxParam { attrs: vec![attr("attr")], ty: SyntaxType::Plain(s("u8")) },
        SyntaxParam { attrs: vec![], ty: SyntaxType::Plain(s("()")) },
    ];
    let mut method = plain_fn("method");
    method.has_self_param = true;
    method.params = vec![SyntaxParam { attrs: vec![], ty: SyntaxType::Plain(s("&Self")) }];
    let nodes = vec![
        item(vec![], SyntaxVis::Pub, SyntaxItemKind::Static { name: s("ST"), mutable: true, ty: s("()") }),
        item(vec![], SyntaxVis::Absent, SyntaxItemKind::Const { ident: None, ty: s("Anon") }),
        SyntaxNode::Item(SyntaxItem {
            attrs: vec![attr("attr")],
            inner_attrs: vec![attr("inner_attr_in_fn")],
            vis: SyntaxVis::Absent,
            kind: SyntaxItemKind::Function(f),
        }),
        item(vec![], SyntaxVis::Absent, SyntaxItemKind::Trait {
            name: s("Tr"),
            generics: vec![],
            where_clause: vec![],
            supertraits: vec![s("SuperTrait"), s("'lifetime")],
        }),
        item(vec![], SyntaxVis::Absent, SyntaxItemKind::TypeAlias {
            name: s("Assoc"),
            generics: vec![],
            where_clause: vec![],
            bounds: vec![s("AssocBound")],
            aliased: Some(s("Default")),
        }),
        item(vec![], SyntaxVis::Absent, SyntaxItemKind::Function(method)),
        SyntaxNode::End,
    ];
    let tree = build(vec![], nodes);
    assert_eq!(vis_text(&tree.items[0].vis), "pub");
    assert!(matches!(tree.items[0].data, ItemData::Static { mutable: true, is_foreign: false, .. }));
    assert_eq!(attr_ids(&tree, 2), vec![(false, 0), (false, 1)]);
    match &tree.items[2].data {
        ItemData::Function(f) => {
            assert_eq!(f.flags, 0x2);
            assert_eq!(f.params.len(), 2);
            assert_eq!(f.params[0].attrs.attrs[0].id.ast_index, 0);
        }
        _ => panic!("expected a function"),
    }
    match &tree.items[3].data {
        ItemData::Trait { generics, .. } => {
            assert_eq!(generics.types.len(), 1);
            assert_eq!(generics.types[0].provenance, TypeParamProvenance::TraitSelf);
            let preds: Vec<String> = generics.where_predicates.iter().map(|p| p.bound.clone()).collect();
            assert_eq!(preds, vec![s("SuperTrait"), s("'lifetime")]);
            assert!(generics.where_predicates.iter().all(|p| matches!(p.target, PredTarget::Param(0))));
        }
        _ => panic!("expected a trait"),
    }
    match &tree.items[5].data {
        ItemData::Function(f) => assert_eq!(f.flags, 0x1),
        _ => panic!("expected a function"),
    }
    assert_eq!(tree.children_of(Some(3)), vec![4, 5]);
}

#[test]
fn modules() {
    let nodes = vec![
        SyntaxNode::Item(SyntaxItem {
            attrs: vec![doc(" outer")],
            inner_attrs: vec![doc(" inner")],
            vis: SyntaxVis::Absent,
            kind: SyntaxItemKind::Module { name: s("inline"), has_body: true },
        }),
        item(vec![], SyntaxVis::Absent, SyntaxItemKind::Use {
            tree: vec![UseTreeEvent::Glob(segs(&["super"]))],
        }),
        item(vec![], SyntaxVis::Absent, SyntaxItemKind::Function({
            let mut f = plain_fn("fn_in_module");
            f.has_body = true;
            f
        })),
        SyntaxNode::End,
        item(vec![], SyntaxVis::Absent, SyntaxItemKind::Module { name: s("outline"), has_body: false }),
    ];
    let tree = build(vec![], nodes);
    assert_eq!(attr_ids(&tree, 0), vec![(true, 0), (true, 1)]);
    assert_eq!(use_lines(&tree, 1), vec!["pub(self) use super::*;  // 0"]);
    assert_eq!(tree.children_of(Some(0)), vec![1, 2]);
    assert_eq!(tree.children_of(None), vec![0, 3]);
    assert!(matches!(tree.items[3].data, ItemData::Module { inline: false, .. }));
    assert_eq!(tree.items[3].id, 1);
    assert_eq!(tree.items[3].source, 4);
}

#[test]
fn macros() {
    let nodes = vec![
        item(vec![], SyntaxVis::Absent, SyntaxItemKind::MacroRules { name: s("m") }),
        item(vec![], SyntaxVis::Pub, SyntaxItemKind::MacroDef { name: s("m2") }),
        item(vec![], SyntaxVis::Absent, SyntaxItemKind::MacroCall {
            path: SyntaxPath { leading_colons: false, segments: segs(&["m"]) },
            args: s(""),
        }),
    ];
    let tree = build(vec![], nodes);
    assert!(matches!(&tree.items[0].data, ItemData::MacroRules { name } if name == "m"));
    assert!(matches!(&tree.items[1].data, ItemData::MacroDef { name } if name == "m2"));
    match &tree.items[2].data {
        ItemData::MacroCall { path: Some(p), .. } => assert_eq!(p.segments, vec![s("m")]),
        _ => panic!("expected a macro call"),
    }
}

#[test]
fn mod_paths() {
    let nodes = vec![item(vec![], SyntaxVis::Absent, SyntaxItemKind::Struct {
        name: s("S"),
        generics: vec![],
        where_clause: vec![],
        shape: FieldsShape::Record,
        fields: vec![
            path_field("a", false, &["self", "Ty"]),
            path_field("b", false, &["super", "SuperTy"]),
            path_field("c", false, &["super", "super", "SuperSuperTy"]),
            path_field("d", true, &["abs", "Path"]),
            path_field("e", false, &["crate", "Crate"]),
            path_field("f", false, &["plain", "path", "Ty"]),
        ],
    })];
    let tree = build(vec![], nodes);
    let expected = vec![
        "self::Ty",
        "super::SuperTy",
        "super::super::SuperSuperTy",
        "::abs::Path",
        "crate::Crate",
        "plain::path::Ty",
    ];
    match &tree.items[0].data {
        ItemData::Struct { fields, .. } => {
            let printed: Vec<String> = fields
                .iter()
                .map(|f| match &f.ty {
                    TypeRef::Path(tp) => item_tree::print::path_text(&tp.path),
                    _ => panic!("expected a path"),
                })
                .collect();
            assert_eq!(printed, expected);
            for f in fields {
                assert_eq!(vis_text(&f.vis), "pub(self)");
            }
        }
        _ => panic!("expected a struct"),
    }
    let bad = build(vec![], vec![item(vec![], SyntaxVis::Absent, SyntaxItemKind::Struct {
        name: s("B"),
        generics: vec![],
        where_clause: vec![],
        shape: FieldsShape::Record,
        fields: vec![path_field("x", false, &["a", "crate"])],
    })]);
    match &bad.items[0].data {
        ItemData::Struct { fields, .. } => assert!(matches!(fields[0].ty, TypeRef::Error)),
        _ => panic!("expected a struct"),
    }
}

#[test]
fn generics() {
    let params = vec![
        SyntaxGenericParam::Lifetime { name: s("'a"), bounds: vec![] },
        SyntaxGenericParam::Lifetime { name: s("'b"), bounds: vec![s("'a")] },
        SyntaxGenericParam::Type {
            name: s("T"),
            bounds: vec![s("Copy"), s("'a"), s("'b")],
            default: None,
        },
        SyntaxGenericParam::Const { name: s("K"), ty: s("u8"), default: Some(s("0")) },
    ];
    let g = item_tree::generics::lower_generics(&params, &vec![]);
    assert_eq!(g.lifetimes, vec![s("'a"), s("'b")]);
    assert_eq!(g.types.len(), 1);
    assert_eq!(g.types[0].name, Some(s("T")));
    assert_eq!(g.consts[0].default, Some(s("0")));
    let preds: Vec<(String, String)> = g
        .where_predicates
        .iter()
        .map(|p| match &p.target {
            PredTarget::Named(n) => (n.clone(), p.bound.clone()),
            PredTarget::Param(i) => (format!("#{}", i), p.bound.clone()),
        })
        .collect();
    assert_eq!(
        preds,
        vec![
            (s("'b"), s("'a")),
            (s("T"), s("Copy")),
            (s("T"), s("'a")),
            (s("T"), s("'b")),
        ]
    );

    let trait_params = vec![
        SyntaxGenericParam::Lifetime { name: s("'a"), bounds: vec![] },
        SyntaxGenericParam::Type { name: s("T"), bounds: vec![s("'a")], default: None },
    ];
    let tg = item_tree::generics::lower_trait_generics(&trait_params, &vec![], &vec![s("Super")]);
    assert_eq!(tg.types.len(), 2);
    assert_eq!(tg.types[0].provenance, TypeParamProvenance::TraitSelf);
    assert_eq!(tg.types[1].name, Some(s("T")));
    assert!(matches!(tg.where_predicates[0].target, PredTarget::Param(0)));
    assert_eq!(tg.where_predicates[0].bound, "Super");
    assert!(matches!(&tg.where_predicates[1].target, PredTarget::Named(n) if n == "T"));

    let wc = vec![SyntaxWherePred { target: s("T"), bounds: vec![s("Copy")] }];
    let tuple = item_tree::generics::lower_generics(
        &vec![SyntaxGenericParam::Type { name: s("T"), bounds: vec![], default: None }],
        &wc,
    );
    assert_eq!(tuple.where_predicates.len(), 1);
    assert_eq!(tuple.where_predicates[0].bound, "Copy");
}

#[test]
fn types() {
    // Mixed<'a, T, Item=(), OtherItem=u8>
    let mixed = SyntaxTypePath {
        qualifier: None,
        path: SyntaxPath { leading_colons: false, segments: segs(&["Mixed"]) },
        args: vec![Some(s("'a, T, Item = (), OtherItem = u8"))],
    };
    let m = lower_type_path(&mixed).unwrap();
    assert_eq!(m.path.kind, PathKind::Plain);
    assert_eq!(m.path.segments, vec![s("Mixed")]);
    assert_eq!(m.args, vec![Some(s("'a, T, Item = (), OtherItem = u8"))]);
    assert!(m.anchor.is_none() && m.self_binding.is_none());

    // <Fully as Qualified>::Syntax
    let qualified = SyntaxTypePath {
        qualifier: Some(Qualifier {
            self_ty: s("Fully"),
            trait_path: Some(SyntaxPath { leading_colons: false, segments: segs(&["Qualified"]) }),
            trait_args: None,
        }),
        path: SyntaxPath { leading_colons: false, segments: segs(&["Syntax"]) },
        args: vec![None],
    };
    let q = lower_type_path(&qualified).unwrap();
    assert_eq!(q.path.segments, vec![s("Qualified"), s("Syntax")]);
    assert_eq!(q.self_binding, Some(s("Fully")));
    assert!(q.anchor.is_none());
    assert_eq!(q.args, vec![None, None]);

    // <TypeAnchored>::Path::<'a>
    let anchored = SyntaxTypePath {
        qualifier: Some(Qualifier { self_ty: s("TypeAnchored"), trait_path: None, trait_args: None }),
        path: SyntaxPath { leading_colons: false, segments: segs(&["Path"]) },
        args: vec![Some(s("'a"))],
    };
    let a = lower_type_path(&anchored).unwrap();
    assert_eq!(a.anchor, Some(s("TypeAnchored")));
    assert_eq!(a.path.segments, vec![s("Path")]);
    assert_eq!(a.args, vec![Some(s("'a"))]);

    // crate::a::B<T>: the keyword takes no argument slot
    let keyed = SyntaxTypePath {
        qualifier: None,
        path: SyntaxPath { leading_colons: false, segments: segs(&["crate", "a", "B"]) },
        args: vec![None, None, Some(s("T"))],
    };
    let k = lower_type_path(&keyed).unwrap();
    assert_eq!(k.path.kind, PathKind::Crate);
    assert_eq!(k.args, vec![None, Some(s("T"))]);

    // a mismatched argument list is ill-formed
    let bad = SyntaxTypePath {
        qualifier: None,
        path: SyntaxPath { leading_colons: false, segments: segs(&["A"]) },
        args: vec![],
    };
    assert!(lower_type_path(&bad).is_none());
}
