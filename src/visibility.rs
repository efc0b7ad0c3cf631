//! Visibility resolution: every written visibility modifier becomes one of a
//! small canonical set, the most private one where none is written.
use vstd::prelude::*;
use crate::paths::{
    lower_path, lower_path_spec, path_syntax_spec, seg_models, ModPath, PathKind, PathModel,
    SyntaxPath, lemma_path_round_trip,
};

verus! {

/// A visibility modifier as written.
pub enum SyntaxVis {
    Absent,
    Pub,
    PubCrate,
    PubSelf,
    PubSuper,
    PubIn(SyntaxPath),
}

/// A canonical visibility.
pub enum RawVisibility {
    Public,
    Module(ModPath),
}

/// The model of a canonical visibility.
pub enum VisModel {
    Public,
    Module(PathModel),
}

/// The model of a written visibility: `pub(in path)` keeps its written path.
pub enum SyntaxVisModel {
    Absent,
    Pub,
    PubCrate,
    PubSelf,
    PubSuper,
    PubIn(bool, Seq<crate::paths::SegModel>),
}

impl View for RawVisibility {
    type V = VisModel;

    open spec fn view(&self) -> VisModel {
        match self {
            RawVisibility::Public => VisModel::Public,
            RawVisibility::Module(m) => VisModel::Module(m@),
        }
    }
}

impl View for SyntaxVis {
    type V = SyntaxVisModel;

    open spec fn view(&self) -> SyntaxVisModel {
        match self {
            SyntaxVis::Absent => SyntaxVisModel::Absent,
            SyntaxVis::Pub => SyntaxVisModel::Pub,
            SyntaxVis::PubCrate => SyntaxVisModel::PubCrate,
            SyntaxVis::PubSelf => SyntaxVisModel::PubSelf,
            SyntaxVis::PubSuper => SyntaxVisModel::PubSuper,
            SyntaxVis::PubIn(p) => SyntaxVisModel::PubIn(p.leading_colons, seg_models(p.segments@)),
        }
    }
}

/// Private to the current module: `pub(self)`.
pub open spec fn private_model() -> VisModel {
    VisModel::Module(PathModel { kind: PathKind::Super(0), segments: Seq::empty() })
}

/// The canonical form of a written visibility. An absent modifier and
/// `pub(self)` are the same; `pub(super)` is the module one level up; an
/// ill-formed `pub(in ..)` path counts as absent.
pub open spec fn lower_vis_spec(v: SyntaxVisModel) -> VisModel {
    match v {
        SyntaxVisModel::Absent => private_model(),
        SyntaxVisModel::PubSelf => private_model(),
        SyntaxVisModel::Pub => VisModel::Public,
        SyntaxVisModel::PubCrate => VisModel::Module(
            PathModel { kind: PathKind::Crate, segments: Seq::empty() },
        ),
        SyntaxVisModel::PubSuper => VisModel::Module(
            PathModel { kind: PathKind::Super(1), segments: Seq::empty() },
        ),
        SyntaxVisModel::PubIn(lc, s) => match lower_path_spec(lc, s) {
            Some(m) => VisModel::Module(m),
            None => private_model(),
        },
    }
}

/// The written form of a canonical visibility, as it is printed.
pub open spec fn vis_syntax_spec(v: VisModel) -> SyntaxVisModel {
    match v {
        VisModel::Public => SyntaxVisModel::Pub,
        VisModel::Module(m) => {
            if m.segments.len() == 0 && m.kind == PathKind::Super(0) {
                SyntaxVisModel::PubSelf
            } else if m.segments.len() == 0 && m.kind == PathKind::Super(1) {
                SyntaxVisModel::PubSuper
            } else if m.segments.len() == 0 && m.kind == PathKind::Crate {
                SyntaxVisModel::PubCrate
            } else {
                SyntaxVisModel::PubIn(path_syntax_spec(m).0, path_syntax_spec(m).1)
            }
        },
    }
}

fn module_vis(kind: PathKind) -> (r: RawVisibility)
    ensures
        r@ == VisModel::Module(PathModel { kind, segments: Seq::empty() }),
{
    let segments: Vec<String> = Vec::new();
    proof {
        assert(segments@.map_values(|s: String| s@) =~= Seq::empty());
    }
    RawVisibility::Module(ModPath { kind, segments })
}

/// Resolves a written visibility to its canonical form.
pub fn lower_visibility(v: &SyntaxVis) -> (r: RawVisibility)
    ensures
        r@ == lower_vis_spec(v@),
{
    match v {
        SyntaxVis::Absent => module_vis(PathKind::Super(0)),
        SyntaxVis::PubSelf => module_vis(PathKind::Super(0)),
        SyntaxVis::Pub => RawVisibility::Public,
        SyntaxVis::PubCrate => module_vis(PathKind::Crate),
        SyntaxVis::PubSuper => module_vis(PathKind::Super(1)),
        SyntaxVis::PubIn(p) => match lower_path(p) {
            Some(m) => RawVisibility::Module(m),
            None => module_vis(PathKind::Super(0)),
        },
    }
}

impl RawVisibility {
    /// Whether this is the visibility private to the current module.
    pub fn is_private(&self) -> (r: bool)
        ensures
            r == (self@ == private_model()),
    {
        match self {
            RawVisibility::Public => false,
            RawVisibility::Module(m) => {
                let r = m.segments.len() == 0 && m.kind == PathKind::Super(0);
                proof {
                    if r {
                        assert(m@.segments =~= Seq::<Seq<char>>::empty());
                    }
                }
                r
            },
        }
    }
}

/// Normalization is idempotent: writing a canonical visibility back as
/// syntax and resolving it again gives the same canonical visibility.
pub proof fn lemma_visibility_idempotent(v: SyntaxVisModel)
    ensures
        lower_vis_spec(vis_syntax_spec(lower_vis_spec(v))) == lower_vis_spec(v),
{
    let c = lower_vis_spec(v);
    match c {
        VisModel::Public => {},
        VisModel::Module(m) => {
            lemma_path_round_trip(m);
            if m.segments.len() == 0 {
                assert(m.segments =~= Seq::<Seq<char>>::empty());
            }
        },
    }
}

} // verus!
