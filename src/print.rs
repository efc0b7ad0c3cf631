//! Rendering of canonical visibilities, paths and imports as text, as the
//! tree's printed form shows them.
use vstd::prelude::*;
use vstd::string::StringExecFns;
use crate::paths::{ModPath, PathKind, PathModel};
use crate::use_tree::AliasModel;
use crate::visibility::{RawVisibility, VisModel};
use crate::items::{opt_path_model, ImportRecord};
use crate::use_tree::{alias_model, ImportAlias};
use crate::items::ItemData;
use crate::tree::{item_built, item_tags, tree_built, ItemTree, SyntaxNode};
use crate::attrs::{Attr, RawAttr};

verus! {

/// Parts joined by `::`.
pub open spec fn joined_parts(parts: Seq<Seq<char>>) -> Seq<char>
    decreases parts.len(),
{
    if parts.len() == 0 {
        Seq::empty()
    } else if parts.len() == 1 {
        parts[0]
    } else {
        joined_parts(parts.drop_last()) + "::"@ + parts.last()
    }
}

/// The keyword parts that a path of the given kind starts with.
pub open spec fn kind_parts(kind: PathKind) -> Seq<Seq<char>> {
    match kind {
        PathKind::Plain => Seq::empty(),
        PathKind::Super(0) => seq!["self"@],
        PathKind::Super(n) => Seq::new(n as nat, |i: int| "super"@),
        PathKind::Crate => seq!["crate"@],
        PathKind::Abs => Seq::empty(),
    }
}

/// The text of a canonical path: its keyword parts and names joined by
/// `::`, after a leading `::` for an absolute path.
pub open spec fn path_text_spec(m: PathModel) -> Seq<char> {
    (if m.kind == PathKind::Abs { "::"@ } else { Seq::empty() }) + joined_parts(
        kind_parts(m.kind) + m.segments,
    )
}

/// The text of a canonical visibility.
pub open spec fn vis_text_spec(v: VisModel) -> Seq<char> {
    match v {
        VisModel::Public => "pub"@,
        VisModel::Module(m) => if m.segments.len() == 0 && m.kind == PathKind::Super(0) {
            "pub(self)"@
        } else if m.segments.len() == 0 && m.kind == PathKind::Super(1) {
            "pub(super)"@
        } else if m.segments.len() == 0 && m.kind == PathKind::Crate {
            "pub(crate)"@
        } else {
            "pub(in "@ + path_text_spec(m) + ")"@
        },
    }
}

fn join_into(out: &mut String, parts: &Vec<String>)
    ensures
        final(out)@ == old(out)@ + joined_parts(parts@.map_values(|s: String| s@)),
{
    let ghost o = out@;
    let ghost ps = parts@.map_values(|s: String| s@);
    let mut i: usize = 0;
    while i < parts.len()
        invariant
            i <= parts@.len(),
            ps == parts@.map_values(|s: String| s@),
            out@ == o + joined_parts(ps.take(i as int)),
        decreases parts@.len() - i,
    {
        proof {
            assert(ps.take(i as int + 1).drop_last() =~= ps.take(i as int));
            assert(ps.take(i as int + 1).last() == parts@[i as int]@);
        }
        if i > 0 {
            out.append("::");
        } else {
            proof {
                assert(ps.take(0) =~= Seq::<Seq<char>>::empty());
                assert(ps.take(1)[0] == parts@[0]@);
            }
        }
        out.append(parts[i].as_str());
        proof {
            if i > 0 {
                assert(out@ =~= o + joined_parts(ps.take(i as int + 1)));
            } else {
                assert(out@ =~= o + joined_parts(ps.take(1)));
            }
        }
        i = i + 1;
    }
    proof {
        assert(ps.take(i as int) =~= ps);
    }
}

/// Renders a canonical path.
pub fn path_text(m: &ModPath) -> (r: String)
    ensures
        r@ == path_text_spec(m@),
{
    let mut parts: Vec<String> = Vec::new();
    match m.kind {
        PathKind::Super(0) => parts.push(String::from_str("self")),
        PathKind::Super(n) => {
            let mut k: usize = 0;
            while k < n
                invariant
                    k <= n,
                    parts@.len() == k,
                    forall|j: int| 0 <= j < k ==> (#[trigger] parts@[j])@ == "super"@,
                decreases n - k,
            {
                parts.push(String::from_str("super"));
                k = k + 1;
            }
        },
        PathKind::Crate => parts.push(String::from_str("crate")),
        _ => {},
    }
    let ghost kp = parts@;
    let mut i: usize = 0;
    while i < m.segments.len()
        invariant
            i <= m.segments@.len(),
            parts@.len() == kp.len() + i,
            forall|j: int| 0 <= j < kp.len() ==> #[trigger] parts@[j] == kp[j],
            forall|j: int| 0 <= j < i ==> (#[trigger] parts@[kp.len() + j])@ == m.segments@[j]@,
        decreases m.segments@.len() - i,
    {
        parts.push(m.segments[i].clone());
        i = i + 1;
    }
    proof {
        assert(parts@.map_values(|s: String| s@) =~= kind_parts(m.kind) + m@.segments) by {
            assert forall|j: int| 0 <= j < parts@.len() implies parts@.map_values(|s: String| s@)[j]
                == (kind_parts(m.kind) + m@.segments)[j] by {
                if j >= kp.len() {
                    assert(parts@[kp.len() + (j - kp.len())]@ == m.segments@[j - kp.len()]@);
                }
            }
        }
    }
    let mut out = if matches!(m.kind, PathKind::Abs) {
        String::from_str("::")
    } else {
        String::new()
    };
    join_into(&mut out, &parts);
    out
}

/// Renders a canonical visibility.
pub fn vis_text(v: &RawVisibility) -> (r: String)
    ensures
        r@ == vis_text_spec(v@),
{
    match v {
        RawVisibility::Public => String::from_str("pub"),
        RawVisibility::Module(m) => {
            if m.segments.len() == 0 && m.kind == PathKind::Super(0) {
                String::from_str("pub(self)")
            } else if m.segments.len() == 0 && m.kind == PathKind::Super(1) {
                String::from_str("pub(super)")
            } else if m.segments.len() == 0 && m.kind == PathKind::Crate {
                String::from_str("pub(crate)")
            } else {
                let mut out = String::from_str("pub(in ");
                let p = path_text(m);
                out.append(p.as_str());
                out.append(")");
                out
            }
        },
    }
}

/// The decimal digits of `n`.
pub open spec fn decimal_spec(n: nat) -> Seq<char>
    decreases n,
{
    if n < 10 {
        seq![digit_char(n)]
    } else {
        decimal_spec(n / 10) + seq![digit_char(n % 10)]
    }
}

pub open spec fn digit_char(d: nat) -> char {
    (('0' as u8) + (d as u8)) as char
}

/// Renders `n` in decimal.
pub fn decimal_text(n: usize) -> (r: String)
    ensures
        r@ == decimal_spec(n as nat),
    decreases n,
{
    let d = (n % 10) as u8;
    let c: char = (('0' as u8) + d) as char;
    let digit = match d {
        0 => "0",
        1 => "1",
        2 => "2",
        3 => "3",
        4 => "4",
        5 => "5",
        6 => "6",
        7 => "7",
        8 => "8",
        _ => "9",
    };
    proof {
        reveal_strlit("0");
        reveal_strlit("1");
        reveal_strlit("2");
        reveal_strlit("3");
        reveal_strlit("4");
        reveal_strlit("5");
        reveal_strlit("6");
        reveal_strlit("7");
        reveal_strlit("8");
        reveal_strlit("9");
        assert(digit@ =~= seq![digit_char((n % 10) as nat)]);
    }
    if n < 10 {
        String::from_str(digit)
    } else {
        let mut out = decimal_text(n / 10);
        out.append(digit);
        out
    }
}

pub open spec fn opt_seq(o: Option<String>) -> Seq<char> {
    match o {
        Some(s) => s@,
        None => Seq::empty(),
    }
}

/// The line of one attribute: `#[..]` (`#![..]` for an inner one), a doc
/// comment as `doc = "body"`, then its identity as a trailing comment.
pub open spec fn attr_text_spec(a: Attr, inner: bool) -> Seq<char> {
    (if inner { "#!["@ } else { "#["@ }) + (if a.id.is_doc_comment {
        "doc = \""@ + opt_seq(a.args) + "\""@
    } else {
        a.path@ + opt_seq(a.args)
    }) + "]  // AttrId { is_doc_comment: "@ + (if a.id.is_doc_comment { "true"@ } else { "false"@ })
        + ", ast_index: "@ + decimal_spec(a.id.ast_index as nat) + " }"@
}

/// Renders one attribute with its identity.
pub fn attr_text(a: &Attr, inner: bool) -> (r: String)
    ensures
        r@ == attr_text_spec(*a, inner),
{
    let mut out = if inner { String::from_str("#![") } else { String::from_str("#[") };
    if a.id.is_doc_comment {
        out.append("doc = \"");
        match &a.args {
            Some(t) => out.append(t.as_str()),
            None => {},
        }
        out.append("\"");
    } else {
        out.append(a.path.as_str());
        match &a.args {
            Some(t) => out.append(t.as_str()),
            None => {},
        }
    }
    out.append("]  // AttrId { is_doc_comment: ");
    if a.id.is_doc_comment {
        out.append("true");
    } else {
        out.append("false");
    }
    out.append(", ast_index: ");
    let idx = decimal_text(a.id.ast_index);
    out.append(idx.as_str());
    out.append(" }");
    proof {
        assert(out@ =~= attr_text_spec(*a, inner));
    }
    out
}

/// A path with nothing to print before a glob's `*`.
pub open spec fn bare_path(path: Option<PathModel>) -> bool {
    match path {
        Some(m) => m.kind == PathKind::Plain && m.segments.len() == 0,
        None => false,
    }
}

/// The line of one import record: its visibility, `use`, its path (with
/// `::*` for a glob), its alias, and its index as a trailing comment.
pub open spec fn record_text_spec(vis: VisModel, path: Option<PathModel>, alias: Option<AliasModel>, is_glob: bool, index: nat) -> Seq<char> {
    let p = match path {
        Some(m) => path_text_spec(m),
        None => "{error}"@,
    };
    let g = if is_glob {
        if bare_path(path) { "*"@ } else { "::*"@ }
    } else {
        Seq::empty()
    };
    let a = match alias {
        Some(AliasModel::Underscore) => " as _"@,
        Some(AliasModel::Alias(n)) => " as "@ + n,
        None => Seq::empty(),
    };
    vis_text_spec(vis) + " use "@ + p + g + a + ";  // "@ + decimal_spec(index)
}

/// Renders one import record under the visibility of its `use` item.
pub fn record_text(vis: &RawVisibility, rec: &ImportRecord) -> (r: String)
    ensures
        r@ == record_text_spec(vis@, opt_path_model(rec.path), alias_model(rec.alias), rec.is_glob, rec.index as nat),
{
    let mut out = vis_text(vis);
    out.append(" use ");
    let p = match &rec.path {
        Some(m) => path_text(m),
        None => String::from_str("{error}"),
    };
    out.append(p.as_str());
    if rec.is_glob {
        let bare = match &rec.path {
            Some(m) => m.kind == PathKind::Plain && m.segments.len() == 0,
            None => false,
        };
        if bare {
            out.append("*");
        } else {
            out.append("::*");
        }
    }
    match &rec.alias {
        Some(ImportAlias::Underscore) => out.append(" as _"),
        Some(ImportAlias::Alias(n)) => {
            out.append(" as ");
            out.append(n.as_str());
        },
        None => {},
    }
    out.append(";  // ");
    let idx = decimal_text(rec.index);
    out.append(idx.as_str());
    proof {
        let sp = record_text_spec(
            vis@,
            opt_path_model(rec.path),
            alias_model(rec.alias),
            rec.is_glob,
            rec.index as nat,
        );
        assert(out@ =~= sp);
    }
    out
}

/// The printed lines of the records of a `use` item.
pub open spec fn use_lines(vis: VisModel, recs: Seq<ImportRecord>) -> Seq<Seq<char>> {
    recs.map_values(
        |r: ImportRecord|
            record_text_spec(vis, opt_path_model(r.path), alias_model(r.alias), r.is_glob, r.index as nat),
    )
}

proof fn lemma_item_tags_grow(ns: Seq<SyntaxNode>, a: int, b: int)
    requires
        0 <= a < b <= ns.len(),
        ns[a] is Item,
    ensures
        item_tags(ns.take(b)).len() >= item_tags(ns.take(a)).len() + 1,
    decreases b - a,
{
    let tb = ns.take(b);
    assert(tb.drop_last() =~= ns.take(b - 1));
    if b == a + 1 {
        assert(tb.last() == ns[a]);
    } else {
        lemma_item_tags_grow(ns, a, b - 1);
    }
}

/// The written item that item `k` comes from is the `k`-th one of the walk.
proof fn lemma_source_determined(ns: Seq<SyntaxNode>, x: Seq<crate::tree::Item>, y: Seq<crate::tree::Item>, k: int)
    requires
        0 <= k < x.len(),
        k < y.len(),
        item_built(ns, x, k),
        item_built(ns, y, k),
    ensures
        x[k].source == y[k].source,
{
    let a = x[k].source as int;
    let b = y[k].source as int;
    if a < b {
        lemma_item_tags_grow(ns, a, b);
    } else if b < a {
        lemma_item_tags_grow(ns, b, a);
    }
}

/// Building is deterministic: two trees built from the same file agree item
/// by item on the written item each comes from, its identifier, its parent
/// and its printed visibility, and a `use` item prints the same import lines.
pub proof fn lemma_build_deterministic(file_attrs: Seq<RawAttr>, ns: Seq<SyntaxNode>, t1: ItemTree, t2: ItemTree)
    requires
        tree_built(file_attrs, ns, t1),
        tree_built(file_attrs, ns, t2),
    ensures
        t1.items@.len() == t2.items@.len(),
        forall|k: int|
            0 <= k < t1.items@.len() ==> {
                &&& (#[trigger] t1.items@[k]).source == t2.items@[k].source
                &&& t1.items@[k].id == t2.items@[k].id
                &&& t1.items@[k].parent == t2.items@[k].parent
                &&& vis_text_spec(t1.items@[k].vis@) == vis_text_spec(t2.items@[k].vis@)
            },
        forall|k: int|
            0 <= k < t1.items@.len() && (#[trigger] t1.items@[k]).data is Use ==> t2.items@[k].data is Use
                && use_lines(t1.items@[k].vis@, t1.items@[k].data->Use_records@) == use_lines(
                t2.items@[k].vis@,
                t2.items@[k].data->Use_records@,
            ),
{
    assert forall|k: int| 0 <= k < t1.items@.len() implies {
        &&& (#[trigger] t1.items@[k]).source == t2.items@[k].source
        &&& t1.items@[k].id == t2.items@[k].id
        &&& t1.items@[k].parent == t2.items@[k].parent
        &&& vis_text_spec(t1.items@[k].vis@) == vis_text_spec(t2.items@[k].vis@)
    } by {
        assert(item_built(ns, t1.items@, k));
        assert(item_built(ns, t2.items@, k));
        lemma_source_determined(ns, t1.items@, t2.items@, k);
    }
    assert forall|k: int|
        0 <= k < t1.items@.len() && (#[trigger] t1.items@[k]).data is Use implies t2.items@[k].data is Use
            && use_lines(t1.items@[k].vis@, t1.items@[k].data->Use_records@) == use_lines(
            t2.items@[k].vis@,
            t2.items@[k].data->Use_records@,
        ) by {
        assert(item_built(ns, t1.items@, k));
        assert(item_built(ns, t2.items@, k));
        lemma_source_determined(ns, t1.items@, t2.items@, k);
        let r1 = t1.items@[k].data->Use_records@;
        let r2 = t2.items@[k].data->Use_records@;
        assert(use_lines(t1.items@[k].vis@, r1) =~= use_lines(t2.items@[k].vis@, r2));
    }
}

} // verus!
