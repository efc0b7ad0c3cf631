//! Path lowering: a written path becomes a canonical module path that keeps
//! its qualifier kind and its segments, without being resolved.
use vstd::prelude::*;

verus! {

/// One segment of a path as written.
pub enum PathSeg {
    SelfKw,
    SuperKw,
    CrateKw,
    Name(String),
}

/// A path as written: an optional leading `::` and its segments.
pub struct SyntaxPath {
    pub leading_colons: bool,
    pub segments: Vec<PathSeg>,
}

/// What a path is relative to.
#[derive(Clone, Copy, Debug, PartialEq, Eq, Structural)]
pub enum PathKind {
    /// Relative to the current scope.
    Plain,
    /// `self` (depth 0) or a chain of `super` of the given depth.
    Super(usize),
    /// `crate`.
    Crate,
    /// A leading `::`.
    Abs,
}

/// A canonical path: its kind and its plain segment names.
pub struct ModPath {
    pub kind: PathKind,
    pub segments: Vec<String>,
}

/// The model of a written segment.
pub enum SegModel {
    SelfKw,
    SuperKw,
    CrateKw,
    Name(Seq<char>),
}

/// The model of a canonical path.
pub struct PathModel {
    pub kind: PathKind,
    pub segments: Seq<Seq<char>>,
}

impl View for PathSeg {
    type V = SegModel;

    open spec fn view(&self) -> SegModel {
        match self {
            PathSeg::SelfKw => SegModel::SelfKw,
            PathSeg::SuperKw => SegModel::SuperKw,
            PathSeg::CrateKw => SegModel::CrateKw,
            PathSeg::Name(n) => SegModel::Name(n@),
        }
    }
}

impl View for ModPath {
    type V = PathModel;

    open spec fn view(&self) -> PathModel {
        PathModel { kind: self.kind, segments: self.segments@.map_values(|s: String| s@) }
    }
}

pub open spec fn seg_models(s: Seq<PathSeg>) -> Seq<SegModel> {
    s.map_values(|g: PathSeg| g@)
}

pub open spec fn all_names(s: Seq<SegModel>) -> bool {
    forall|i: int| 0 <= i < s.len() ==> (#[trigger] s[i]) is Name
}

pub open spec fn names_of(s: Seq<SegModel>) -> Seq<Seq<char>> {
    s.map_values(|g: SegModel| match g {
        SegModel::Name(n) => n,
        _ => Seq::empty(),
    })
}

/// The number of `super` segments at the front of `s`.
pub open spec fn leading_supers(s: Seq<SegModel>) -> nat
    decreases s.len(),
{
    if s.len() > 0 && s[0] is SuperKw {
        1 + leading_supers(s.drop_first())
    } else {
        0
    }
}

/// The canonical form of `rest` under `kind`, where `rest` holds names only.
pub open spec fn with_names(kind: PathKind, rest: Seq<SegModel>) -> Option<PathModel> {
    if all_names(rest) {
        Some(PathModel { kind, segments: names_of(rest) })
    } else {
        None
    }
}

/// Lowering of a written path: the qualifier (`::`, `crate`, `self`, or a
/// chain of `super`) must stand at the front, and names follow. Any other
/// shape is ill-formed and lowers to nothing.
pub open spec fn lower_path_spec(leading_colons: bool, s: Seq<SegModel>) -> Option<PathModel> {
    if leading_colons {
        with_names(PathKind::Abs, s)
    } else if s.len() > 0 && s[0] is CrateKw {
        with_names(PathKind::Crate, s.drop_first())
    } else if s.len() > 0 && s[0] is SelfKw {
        with_names(PathKind::Super(0), s.drop_first())
    } else {
        let n = leading_supers(s);
        with_names(
            if n == 0 { PathKind::Plain } else { PathKind::Super(n as usize) },
            s.skip(n as int),
        )
    }
}

/// The written form that a canonical path is printed as.
pub open spec fn path_syntax_spec(m: PathModel) -> (bool, Seq<SegModel>) {
    let names = m.segments.map_values(|n: Seq<char>| SegModel::Name(n));
    match m.kind {
        PathKind::Plain => (false, names),
        PathKind::Super(0) => (false, seq![SegModel::SelfKw] + names),
        PathKind::Super(n) => (false, Seq::new(n as nat, |i: int| SegModel::SuperKw) + names),
        PathKind::Crate => (false, seq![SegModel::CrateKw] + names),
        PathKind::Abs => (true, names),
    }
}

impl PathSeg {
    pub fn clone_seg(&self) -> (r: PathSeg)
        ensures
            r@ == self@,
    {
        match self {
            PathSeg::SelfKw => PathSeg::SelfKw,
            PathSeg::SuperKw => PathSeg::SuperKw,
            PathSeg::CrateKw => PathSeg::CrateKw,
            PathSeg::Name(n) => PathSeg::Name(n.clone()),
        }
    }
}

/// A copy of a list of written segments.
pub fn clone_segs(s: &Vec<PathSeg>) -> (r: Vec<PathSeg>)
    ensures
        seg_models(r@) == seg_models(s@),
{
    let mut r: Vec<PathSeg> = Vec::new();
    let mut i: usize = 0;
    while i < s.len()
        invariant
            i <= s@.len(),
            r@.len() == i,
            forall|j: int| 0 <= j < i ==> (#[trigger] r@[j])@ == s@[j]@,
        decreases s@.len() - i,
    {
        r.push(s[i].clone_seg());
        i = i + 1;
    }
    proof {
        assert(seg_models(r@) =~= seg_models(s@));
    }
    r
}

impl ModPath {
    pub fn clone_path(&self) -> (r: ModPath)
        ensures
            r@ == self@,
    {
        let mut segments: Vec<String> = Vec::new();
        let mut i: usize = 0;
        while i < self.segments.len()
            invariant
                i <= self.segments@.len(),
                segments@.len() == i,
                forall|j: int| 0 <= j < i ==> (#[trigger] segments@[j])@ == self.segments@[j]@,
            decreases self.segments@.len() - i,
        {
            segments.push(self.segments[i].clone());
            i = i + 1;
        }
        proof {
            assert(segments@.map_values(|s: String| s@) =~= self.segments@.map_values(
                |s: String| s@,
            ));
        }
        ModPath { kind: self.kind, segments }
    }
}

/// Collects the names of `segs[start..]`, or nothing where another kind of
/// segment stands there.
fn names_from(segs: &Vec<PathSeg>, start: usize) -> (r: Option<Vec<String>>)
    requires
        start <= segs@.len(),
    ensures
        all_names(seg_models(segs@).skip(start as int)) <==> r is Some,
        r is Some ==> r->0@.map_values(|s: String| s@) == names_of(
            seg_models(segs@).skip(start as int),
        ),
{
    let ghost rest = seg_models(segs@).skip(start as int);
    let mut out: Vec<String> = Vec::new();
    let mut i: usize = start;
    while i < segs.len()
        invariant
            start <= i <= segs@.len(),
            rest == seg_models(segs@).skip(start as int),
            rest.len() == segs@.len() - start,
            forall|j: int| 0 <= j < i - start ==> (#[trigger] rest[j]) is Name,
            out@.len() == i - start,
            forall|j: int| 0 <= j < i - start ==> (#[trigger] out@[j])@ == names_of(rest)[j],
        decreases segs@.len() - i,
    {
        match &segs[i] {
            PathSeg::Name(n) => {
                out.push(n.clone());
            },
            _ => {
                assert(!(rest[i - start] is Name));
                return None;
            },
        }
        i = i + 1;
    }
    proof {
        assert(out@.map_values(|s: String| s@) =~= names_of(rest));
    }
    Some(out)
}

proof fn lemma_leading_supers_bound(s: Seq<SegModel>)
    ensures
        leading_supers(s) <= s.len(),
        forall|i: int| 0 <= i < leading_supers(s) ==> (#[trigger] s[i]) is SuperKw,
        leading_supers(s) < s.len() ==> !(s[leading_supers(s) as int] is SuperKw),
    decreases s.len(),
{
    if s.len() > 0 && s[0] is SuperKw {
        lemma_leading_supers_bound(s.drop_first());
        assert forall|i: int| 0 <= i < leading_supers(s) implies (#[trigger] s[i]) is SuperKw by {
            if i > 0 {
                assert(s[i] == s.drop_first()[i - 1]);
            }
        }
    }
}

/// Lowers a written path to its canonical form; an ill-formed path gives
/// nothing.
pub fn lower_path(p: &SyntaxPath) -> (r: Option<ModPath>)
    ensures
        match r {
            Some(m) => lower_path_spec(p.leading_colons, seg_models(p.segments@)) == Some(m@),
            None => lower_path_spec(p.leading_colons, seg_models(p.segments@)) is None,
        },
{
    let ghost s = seg_models(p.segments@);
    let segs = &p.segments;
    let (kind, start) = if p.leading_colons {
        (PathKind::Abs, 0usize)
    } else if segs.len() > 0 && matches!(segs[0], PathSeg::CrateKw) {
        (PathKind::Crate, 1usize)
    } else if segs.len() > 0 && matches!(segs[0], PathSeg::SelfKw) {
        (PathKind::Super(0), 1usize)
    } else {
        let mut n: usize = 0;
        proof {
            assert(s.skip(0) =~= s);
        }
        while n < segs.len() && matches!(segs[n], PathSeg::SuperKw)
            invariant
                n <= segs@.len(),
                s == seg_models(segs@),
                leading_supers(s) == n + leading_supers(s.skip(n as int)),
            decreases segs@.len() - n,
        {
            proof {
                assert(s.skip(n as int)[0] == s[n as int]);
                assert(s.skip(n as int).drop_first() =~= s.skip(n as int + 1));
            }
            n = n + 1;
        }
        proof {
            if n < segs@.len() {
                assert(s.skip(n as int)[0] == s[n as int]);
            }
        }
        (if n == 0 { PathKind::Plain } else { PathKind::Super(n) }, n)
    };
    proof {
        assert(s.skip(0) =~= s);
        assert(s.skip(1) =~= s.drop_first());
    }
    match names_from(segs, start) {
        Some(segments) => Some(ModPath { kind, segments }),
        None => None,
    }
}

/// Printing a canonical path and lowering the printed form gives the path
/// back.
pub proof fn lemma_path_round_trip(m: PathModel)
    ensures
        lower_path_spec(path_syntax_spec(m).0, path_syntax_spec(m).1) == Some(m),
{
    let names = m.segments.map_values(|n: Seq<char>| SegModel::Name(n));
    assert(all_names(names));
    assert(names_of(names) =~= m.segments);
    match m.kind {
        PathKind::Super(n) => {
            if n == 0 {
                assert((seq![SegModel::SelfKw] + names).drop_first() =~= names);
            } else {
                let s = Seq::new(n as nat, |i: int| SegModel::SuperKw) + names;
                lemma_supers_prefix(n as nat, names);
                assert(s[0] is SuperKw);
                assert(s.skip(n as int) =~= names);
            }
        },
        PathKind::Crate => {
            assert((seq![SegModel::CrateKw] + names).drop_first() =~= names);
        },
        PathKind::Plain => {
            if names.len() > 0 {
                assert(names[0] is Name);
                assert(leading_supers(names) == 0);
            }
            assert(names.skip(0) =~= names);
        },
        PathKind::Abs => {},
    }
}

proof fn lemma_supers_prefix(n: nat, names: Seq<SegModel>)
    requires
        all_names(names),
    ensures
        leading_supers(Seq::new(n, |i: int| SegModel::SuperKw) + names) == n,
    decreases n,
{
    let s = Seq::new(n, |i: int| SegModel::SuperKw) + names;
    if n == 0 {
        assert(s =~= names);
        if names.len() > 0 {
            assert(names[0] is Name);
        }
    } else {
        lemma_supers_prefix((n - 1) as nat, names);
        assert(s.drop_first() =~= Seq::new((n - 1) as nat, |i: int| SegModel::SuperKw) + names);
    }
}

/// The `<..>` in front of a type path: `<T as Trait<args>>` or `<T>`.
pub struct Qualifier {
    pub self_ty: String,
    pub trait_path: Option<SyntaxPath>,
    /// The generic arguments written on the trait path, verbatim.
    pub trait_args: Option<String>,
}

/// A path in type position, with the generic arguments written on each
/// segment (verbatim, `None` where none are written).
pub struct SyntaxTypePath {
    pub qualifier: Option<Qualifier>,
    pub path: SyntaxPath,
    pub args: Vec<Option<String>>,
}

/// A lowered type path: a canonical path with the generic arguments of each
/// of its segments; a qualified path binds `Self` of its trait, a
/// type-anchored path keeps its anchor type.
pub struct TypePath {
    pub anchor: Option<String>,
    pub self_binding: Option<String>,
    pub path: ModPath,
    pub args: Vec<Option<String>>,
}

pub struct TypePathModel {
    pub anchor: Option<Seq<char>>,
    pub self_binding: Option<Seq<char>>,
    pub path: PathModel,
    pub args: Seq<Option<Seq<char>>>,
}

pub open spec fn opt_text(o: Option<String>) -> Option<Seq<char>> {
    match o {
        Some(s) => Some(s@),
        None => None,
    }
}

pub open spec fn opt_texts(v: Seq<Option<String>>) -> Seq<Option<Seq<char>>> {
    v.map_values(|o: Option<String>| opt_text(o))
}

impl View for TypePath {
    type V = TypePathModel;

    open spec fn view(&self) -> TypePathModel {
        TypePathModel {
            anchor: opt_text(self.anchor),
            self_binding: opt_text(self.self_binding),
            path: self.path@,
            args: opt_texts(self.args@),
        }
    }
}

/// Lowering of a type path. Without a qualifier it is a path whose leading
/// keywords carry no arguments. `<T as Trait>::rest` becomes the trait's path
/// followed by `rest`, with `Self` bound to `T` and the trait's arguments on
/// its last segment. `<T>::rest` keeps `T` as anchor; arguments written after
/// a segment stay on that segment. Anything else is ill-formed.
pub open spec fn lower_type_path_spec(
    q: Option<(Seq<char>, Option<(bool, Seq<SegModel>)>, Option<Seq<char>>)>,
    lc: bool,
    segs: Seq<SegModel>,
    args: Seq<Option<Seq<char>>>,
) -> Option<TypePathModel> {
    if args.len() != segs.len() {
        None
    } else {
        match q {
            None => match lower_path_spec(lc, segs) {
                Some(m) => Some(
                    TypePathModel {
                        anchor: None,
                        self_binding: None,
                        path: m,
                        args: args.skip(segs.len() - m.segments.len()),
                    },
                ),
                None => None,
            },
            Some((ty, None, _)) => match lower_path_spec(lc, segs) {
                Some(m) => if !lc && m.kind == PathKind::Plain {
                    Some(TypePathModel { anchor: Some(ty), self_binding: None, path: m, args })
                } else {
                    None
                },
                None => None,
            },
            Some((ty, Some((tlc, tsegs)), targs)) => match (
                lower_path_spec(tlc, tsegs),
                lower_path_spec(lc, segs),
            ) {
                (Some(t), Some(m)) => if !lc && m.kind == PathKind::Plain && t.segments.len() > 0 {
                    Some(
                        TypePathModel {
                            anchor: None,
                            self_binding: Some(ty),
                            path: PathModel { kind: t.kind, segments: t.segments + m.segments },
                            args: Seq::new((t.segments.len() - 1) as nat, |i: int| None::<Seq<char>>)
                                + seq![targs] + args,
                        },
                    )
                } else {
                    None
                },
                _ => None,
            },
        }
    }
}

pub open spec fn qualifier_model(q: Option<Qualifier>) -> Option<
    (Seq<char>, Option<(bool, Seq<SegModel>)>, Option<Seq<char>>),
> {
    match q {
        None => None,
        Some(q) => Some(
            (
                q.self_ty@,
                match q.trait_path {
                    Some(p) => Some((p.leading_colons, seg_models(p.segments@))),
                    None => None,
                },
                opt_text(q.trait_args),
            ),
        ),
    }
}

fn clone_opt_text(o: &Option<String>) -> (r: Option<String>)
    ensures
        opt_text(r) == opt_text(*o),
{
    match o {
        Some(s) => Some(s.clone()),
        None => None,
    }
}

/// Appends copies of `src[start..]` to `dst`.
fn push_args_from(dst: &mut Vec<Option<String>>, src: &Vec<Option<String>>, start: usize)
    requires
        start <= src@.len(),
    ensures
        opt_texts(final(dst)@) == opt_texts(old(dst)@) + opt_texts(src@).skip(start as int),
{
    let ghost d0 = dst@;
    let mut i: usize = start;
    while i < src.len()
        invariant
            start <= i <= src@.len(),
            dst@.len() == d0.len() + (i - start),
            forall|j: int| 0 <= j < d0.len() ==> opt_text(#[trigger] dst@[j]) == opt_text(d0[j]),
            forall|j: int|
                0 <= j < i - start ==> opt_text(#[trigger] dst@[d0.len() + j]) == opt_text(src@[start + j]),
        decreases src@.len() - i,
    {
        dst.push(clone_opt_text(&src[i]));
        i = i + 1;
    }
    proof {
        assert forall|j: int| 0 <= j < dst@.len() implies opt_texts(dst@)[j] == (opt_texts(d0)
            + opt_texts(src@).skip(start as int))[j] by {
            if j >= d0.len() {
                assert(dst@[d0.len() + (j - d0.len())] == dst@[j]);
            }
        }
        assert(opt_texts(dst@) =~= opt_texts(d0) + opt_texts(src@).skip(start as int));
    }
}

proof fn lemma_lowered_names_fit(lc: bool, s: Seq<SegModel>)
    ensures
        lower_path_spec(lc, s) matches Some(m) ==> m.segments.len() <= s.len(),
{
    if !lc && !(s.len() > 0 && (s[0] is CrateKw || s[0] is SelfKw)) {
        lemma_leading_supers_bound(s);
    }
}

/// Lowers a type path; an ill-formed one gives nothing.
pub fn lower_type_path(p: &SyntaxTypePath) -> (r: Option<TypePath>)
    ensures
        match r {
            Some(t) => lower_type_path_spec(
                qualifier_model(p.qualifier),
                p.path.leading_colons,
                seg_models(p.path.segments@),
                opt_texts(p.args@),
            ) == Some(t@),
            None => lower_type_path_spec(
                qualifier_model(p.qualifier),
                p.path.leading_colons,
                seg_models(p.path.segments@),
                opt_texts(p.args@),
            ) is None,
        },
{
    if p.args.len() != p.path.segments.len() {
        return None;
    }
    let m = match lower_path(&p.path) {
        Some(m) => m,
        None => return None,
    };
    proof {
        lemma_lowered_names_fit(p.path.leading_colons, seg_models(p.path.segments@));
    }
    match &p.qualifier {
        None => {
            let mut args: Vec<Option<String>> = Vec::new();
            push_args_from(&mut args, &p.args, p.path.segments.len() - m.segments.len());
            proof {
                assert(opt_texts(args@) =~= opt_texts(p.args@).skip(
                    p.path.segments@.len() - m.segments@.len(),
                ));
            }
            Some(TypePath { anchor: None, self_binding: None, path: m, args })
        },
        Some(q) => {
            if p.path.leading_colons || !matches!(m.kind, PathKind::Plain) {
                return None;
            }
            let mut args: Vec<Option<String>> = Vec::new();
            match &q.trait_path {
                None => {
                    push_args_from(&mut args, &p.args, 0);
                    proof {
                        assert(opt_texts(args@) =~= opt_texts(p.args@));
                    }
                    Some(TypePath { anchor: Some(q.self_ty.clone()), self_binding: None, path: m, args })
                },
                Some(tp) => {
                    let t = match lower_path(tp) {
                        Some(t) => t,
                        None => return None,
                    };
                    if t.segments.len() == 0 {
                        return None;
                    }
                    let mut segments: Vec<String> = Vec::new();
                    let mut k: usize = 0;
                    while k < t.segments.len() - 1
                        invariant
                            k < t.segments@.len(),
                            args@.len() == k,
                            segments@.len() == k,
                            forall|j: int| 0 <= j < k ==> (#[trigger] args@[j]) is None,
                            forall|j: int| 0 <= j < k ==> (#[trigger] segments@[j])@ == t.segments@[j]@,
                        decreases t.segments@.len() - k,
                    {
                        args.push(None);
                        segments.push(t.segments[k].clone());
                        k = k + 1;
                    }
                    args.push(clone_opt_text(&q.trait_args));
                    segments.push(t.segments[k].clone());
                    let ghost a0 = args@;
                    push_args_from(&mut args, &p.args, 0);
                    let ghost s0 = segments@;
                    let mut i: usize = 0;
                    while i < m.segments.len()
                        invariant
                            i <= m.segments@.len(),
                            segments@.len() == s0.len() + i,
                            forall|j: int| 0 <= j < s0.len() ==> #[trigger] segments@[j] == s0[j],
                            forall|j: int|
                                0 <= j < i ==> (#[trigger] segments@[s0.len() + j])@ == m.segments@[j]@,
                        decreases m.segments@.len() - i,
                    {
                        segments.push(m.segments[i].clone());
                        i = i + 1;
                    }
                    proof {
                        let tl = t.segments@.len();
                        assert(opt_texts(a0) =~= Seq::new((tl - 1) as nat, |i: int| None::<Seq<char>>)
                            + seq![opt_text(q.trait_args)]);
                        assert(opt_texts(p.args@).skip(0) =~= opt_texts(p.args@));
                        assert forall|j: int| 0 <= j < segments@.len() implies segments@.map_values(
                            |s: String| s@,
                        )[j] == (t@.segments + m@.segments)[j] by {
                            if j >= s0.len() {
                                assert(segments@[s0.len() + (j - s0.len())] == segments@[j]);
                            }
                        }
                        assert(segments@.map_values(|s: String| s@) =~= t@.segments + m@.segments);
                    }
                    Some(
                        TypePath {
                            anchor: None,
                            self_binding: Some(q.self_ty.clone()),
                            path: ModPath { kind: t.kind, segments },
                            args,
                        },
                    )
                },
            }
        },
    }
}

} // verus!
