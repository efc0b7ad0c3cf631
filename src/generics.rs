//! Generics lowering: a written parameter list with inline bounds and a
//! where clause becomes one canonical parameter list and a flat list of
//! where-predicates.
use vstd::prelude::*;
use crate::attrs::clone_opt_string;

verus! {

/// A generic parameter as written, with its inline bounds.
pub enum SyntaxGenericParam {
    Lifetime { name: String, bounds: Vec<String> },
    Type { name: String, bounds: Vec<String>, default: Option<String> },
    Const { name: String, ty: String, default: Option<String> },
}

/// One entry of a written where clause: `target: b1 + b2 + ...`.
pub struct SyntaxWherePred {
    pub target: String,
    pub bounds: Vec<String>,
}

/// A type in parameter or return position, as far as lowering needs it.
pub enum SyntaxType {
    Plain(String),
    /// `impl B1 + B2`.
    ImplTrait(Vec<String>),
}

/// Where a type parameter comes from.
#[derive(Clone, Copy, Debug, PartialEq, Eq, Structural)]
pub enum TypeParamProvenance {
    Explicit,
    /// The implicit `Self` of a trait.
    TraitSelf,
    /// Hoisted from an argument-position `impl Trait`.
    ArgumentImplTrait,
}

pub struct TypeParam {
    /// `None` for the implicit parameters.
    pub name: Option<String>,
    pub default: Option<String>,
    pub provenance: TypeParamProvenance,
}

pub struct ConstParam {
    pub name: String,
    pub ty: String,
    pub default: Option<String>,
}

/// What a where-predicate constrains.
pub enum PredTarget {
    /// A parameter or lifetime by its written name.
    Named(String),
    /// A type parameter by its position, for those without a written name.
    Param(usize),
}

pub struct WherePred {
    pub target: PredTarget,
    pub bound: String,
}

/// The canonical generic signature of a declaration.
pub struct GenericParams {
    pub lifetimes: Vec<String>,
    pub types: Vec<TypeParam>,
    pub consts: Vec<ConstParam>,
    pub where_predicates: Vec<WherePred>,
}

/// A lowered type in parameter or return position.
pub enum LoweredType {
    Plain(String),
    ImplTrait(Vec<String>),
    /// A reference to the implicit type parameter of the given position.
    ImplicitParam(usize),
}

// ---- models ----

pub enum SynParamModel {
    Lifetime { name: Seq<char>, bounds: Seq<Seq<char>> },
    Type { name: Seq<char>, bounds: Seq<Seq<char>>, default: Option<Seq<char>> },
    Const { name: Seq<char>, ty: Seq<char>, default: Option<Seq<char>> },
}

pub struct SynWhereModel {
    pub target: Seq<char>,
    pub bounds: Seq<Seq<char>>,
}

pub enum SynTypeModel {
    Plain(Seq<char>),
    ImplTrait(Seq<Seq<char>>),
}

pub struct TypeParamModel {
    pub name: Option<Seq<char>>,
    pub default: Option<Seq<char>>,
    pub provenance: TypeParamProvenance,
}

pub struct ConstParamModel {
    pub name: Seq<char>,
    pub ty: Seq<char>,
    pub default: Option<Seq<char>>,
}

pub enum TargetModel {
    Named(Seq<char>),
    Param(nat),
}

pub struct PredModel {
    pub target: TargetModel,
    pub bound: Seq<char>,
}

pub struct GenericsModel {
    pub lifetimes: Seq<Seq<char>>,
    pub types: Seq<TypeParamModel>,
    pub consts: Seq<ConstParamModel>,
    pub preds: Seq<PredModel>,
}

pub enum LoweredTypeModel {
    Plain(Seq<char>),
    ImplTrait(Seq<Seq<char>>),
    ImplicitParam(nat),
}

pub open spec fn strs(v: Seq<String>) -> Seq<Seq<char>> {
    v.map_values(|s: String| s@)
}

pub open spec fn opt_str(o: Option<String>) -> Option<Seq<char>> {
    match o {
        Some(s) => Some(s@),
        None => None,
    }
}

impl View for SyntaxGenericParam {
    type V = SynParamModel;

    open spec fn view(&self) -> SynParamModel {
        match self {
            SyntaxGenericParam::Lifetime { name, bounds } => SynParamModel::Lifetime {
                name: name@,
                bounds: strs(bounds@),
            },
            SyntaxGenericParam::Type { name, bounds, default } => SynParamModel::Type {
                name: name@,
                bounds: strs(bounds@),
                default: opt_str(*default),
            },
            SyntaxGenericParam::Const { name, ty, default } => SynParamModel::Const {
                name: name@,
                ty: ty@,
                default: opt_str(*default),
            },
        }
    }
}

impl View for SyntaxWherePred {
    type V = SynWhereModel;

    open spec fn view(&self) -> SynWhereModel {
        SynWhereModel { target: self.target@, bounds: strs(self.bounds@) }
    }
}

impl View for SyntaxType {
    type V = SynTypeModel;

    open spec fn view(&self) -> SynTypeModel {
        match self {
            SyntaxType::Plain(s) => SynTypeModel::Plain(s@),
            SyntaxType::ImplTrait(b) => SynTypeModel::ImplTrait(strs(b@)),
        }
    }
}

impl View for TypeParam {
    type V = TypeParamModel;

    open spec fn view(&self) -> TypeParamModel {
        TypeParamModel {
            name: opt_str(self.name),
            default: opt_str(self.default),
            provenance: self.provenance,
        }
    }
}

impl View for ConstParam {
    type V = ConstParamModel;

    open spec fn view(&self) -> ConstParamModel {
        ConstParamModel { name: self.name@, ty: self.ty@, default: opt_str(self.default) }
    }
}

pub open spec fn target_model(t: PredTarget) -> TargetModel {
    match t {
        PredTarget::Named(s) => TargetModel::Named(s@),
        PredTarget::Param(i) => TargetModel::Param(i as nat),
    }
}

impl View for WherePred {
    type V = PredModel;

    open spec fn view(&self) -> PredModel {
        PredModel {
            target: target_model(self.target),
            bound: self.bound@,
        }
    }
}

impl View for GenericParams {
    type V = GenericsModel;

    open spec fn view(&self) -> GenericsModel {
        GenericsModel {
            lifetimes: strs(self.lifetimes@),
            types: self.types@.map_values(|t: TypeParam| t@),
            consts: self.consts@.map_values(|c: ConstParam| c@),
            preds: self.where_predicates@.map_values(|p: WherePred| p@),
        }
    }
}

impl View for LoweredType {
    type V = LoweredTypeModel;

    open spec fn view(&self) -> LoweredTypeModel {
        match self {
            LoweredType::Plain(s) => LoweredTypeModel::Plain(s@),
            LoweredType::ImplTrait(b) => LoweredTypeModel::ImplTrait(strs(b@)),
            LoweredType::ImplicitParam(i) => LoweredTypeModel::ImplicitParam(*i as nat),
        }
    }
}

pub open spec fn param_models(ps: Seq<SyntaxGenericParam>) -> Seq<SynParamModel> {
    ps.map_values(|p: SyntaxGenericParam| p@)
}

pub open spec fn where_models(ws: Seq<SyntaxWherePred>) -> Seq<SynWhereModel> {
    ws.map_values(|w: SyntaxWherePred| w@)
}

pub open spec fn type_models(ts: Seq<SyntaxType>) -> Seq<SynTypeModel> {
    ts.map_values(|t: SyntaxType| t@)
}

// ---- the lowering, stated ----

/// One predicate per bound, in the order the bounds were written.
pub open spec fn bound_preds(target: TargetModel, bounds: Seq<Seq<char>>) -> Seq<PredModel> {
    bounds.map_values(|b: Seq<char>| PredModel { target, bound: b })
}

/// The predicates of the inline bounds, parameter by parameter.
pub open spec fn inline_preds(ps: Seq<SynParamModel>) -> Seq<PredModel>
    decreases ps.len(),
{
    if ps.len() == 0 {
        Seq::empty()
    } else {
        inline_preds(ps.drop_last()) + match ps.last() {
            SynParamModel::Lifetime { name, bounds } => bound_preds(TargetModel::Named(name), bounds),
            SynParamModel::Type { name, bounds, .. } => bound_preds(TargetModel::Named(name), bounds),
            SynParamModel::Const { .. } => Seq::empty(),
        }
    }
}

/// The predicates of a where clause, entry by entry.
pub open spec fn clause_preds(ws: Seq<SynWhereModel>) -> Seq<PredModel>
    decreases ws.len(),
{
    if ws.len() == 0 {
        Seq::empty()
    } else {
        clause_preds(ws.drop_last()) + bound_preds(TargetModel::Named(ws.last().target), ws.last().bounds)
    }
}

pub open spec fn lifetimes_of(ps: Seq<SynParamModel>) -> Seq<Seq<char>>
    decreases ps.len(),
{
    if ps.len() == 0 {
        Seq::empty()
    } else {
        lifetimes_of(ps.drop_last()) + match ps.last() {
            SynParamModel::Lifetime { name, .. } => seq![name],
            _ => Seq::empty(),
        }
    }
}

pub open spec fn types_of(ps: Seq<SynParamModel>) -> Seq<TypeParamModel>
    decreases ps.len(),
{
    if ps.len() == 0 {
        Seq::empty()
    } else {
        types_of(ps.drop_last()) + match ps.last() {
            SynParamModel::Type { name, default, .. } => seq![
                TypeParamModel { name: Some(name), default, provenance: TypeParamProvenance::Explicit },
            ],
            _ => Seq::empty(),
        }
    }
}

pub open spec fn consts_of(ps: Seq<SynParamModel>) -> Seq<ConstParamModel>
    decreases ps.len(),
{
    if ps.len() == 0 {
        Seq::empty()
    } else {
        consts_of(ps.drop_last()) + match ps.last() {
            SynParamModel::Const { name, ty, default } => seq![ConstParamModel { name, ty, default }],
            _ => Seq::empty(),
        }
    }
}

/// The canonical form of a parameter list and where clause: lifetimes, types
/// and consts each in declaration order; the inline bounds' predicates first,
/// then the where clause's.
pub open spec fn lower_generics_spec(ps: Seq<SynParamModel>, ws: Seq<SynWhereModel>) -> GenericsModel {
    GenericsModel {
        lifetimes: lifetimes_of(ps),
        types: types_of(ps),
        consts: consts_of(ps),
        preds: inline_preds(ps) + clause_preds(ws),
    }
}

// ---- the lowering, executed ----

/// A copy of a list of strings.
pub fn clone_strings(v: &Vec<String>) -> (r: Vec<String>)
    ensures
        strs(r@) == strs(v@),
{
    let mut r: Vec<String> = Vec::new();
    let mut i: usize = 0;
    while i < v.len()
        invariant
            i <= v@.len(),
            strs(r@) == strs(v@.take(i as int)),
        decreases v@.len() - i,
    {
        let ghost before = r@;
        r.push(v[i].clone());
        proof {
            assert(v@.take(i as int + 1) =~= v@.take(i as int).push(v@[i as int]));
            assert(strs(r@) =~= strs(before).push(v@[i as int]@));
            assert(strs(v@.take(i as int + 1)) =~= strs(v@.take(i as int)).push(v@[i as int]@));
        }
        i = i + 1;
    }
    proof {
        assert(v@.take(i as int) =~= v@);
    }
    r
}

impl PredTarget {
    pub fn clone_target(&self) -> (r: PredTarget)
        ensures
            target_model(r) == target_model(*self),
    {
        match self {
            PredTarget::Named(s) => PredTarget::Named(s.clone()),
            PredTarget::Param(i) => PredTarget::Param(*i),
        }
    }
}

pub open spec fn pred_models(v: Seq<WherePred>) -> Seq<PredModel> {
    v.map_values(|p: WherePred| p@)
}

/// Appends one predicate per bound on `target`.
fn push_bound_preds(preds: &mut Vec<WherePred>, target: &PredTarget, bounds: &Vec<String>)
    ensures
        pred_models(final(preds)@) == pred_models(old(preds)@) + bound_preds(
            target_model(*target),
            strs(bounds@),
        ),
{
    let ghost p0 = pred_models(preds@);
    let ghost t = target_model(*target);
    let mut i: usize = 0;
    while i < bounds.len()
        invariant
            i <= bounds@.len(),
            pred_models(preds@) == p0 + bound_preds(t, strs(bounds@.take(i as int))),
            t == target_model(*target),
        decreases bounds@.len() - i,
    {
        let ghost before = preds@;
        preds.push(WherePred { target: target.clone_target(), bound: bounds[i].clone() });
        proof {
            assert(bounds@.take(i as int + 1) =~= bounds@.take(i as int).push(bounds@[i as int]));
            assert(pred_models(preds@) =~= pred_models(before).push(
                PredModel { target: t, bound: bounds@[i as int]@ },
            ));
            assert(bound_preds(t, strs(bounds@.take(i as int + 1))) =~= bound_preds(
                t,
                strs(bounds@.take(i as int)),
            ).push(PredModel { target: t, bound: bounds@[i as int]@ }));
        }
        i = i + 1;
    }
    proof {
        assert(bounds@.take(i as int) =~= bounds@);
    }
}

pub open spec fn type_param_models(v: Seq<TypeParam>) -> Seq<TypeParamModel> {
    v.map_values(|t: TypeParam| t@)
}

pub open spec fn const_param_models(v: Seq<ConstParam>) -> Seq<ConstParamModel> {
    v.map_values(|c: ConstParam| c@)
}

/// Lowers a written parameter list and where clause to the canonical
/// generic signature.
pub fn lower_generics(params: &Vec<SyntaxGenericParam>, where_clause: &Vec<SyntaxWherePred>) -> (r:
    GenericParams)
    ensures
        r@ == lower_generics_spec(param_models(params@), where_models(where_clause@)),
{
    let ghost pm = param_models(params@);
    let ghost wm = where_models(where_clause@);
    let mut lifetimes: Vec<String> = Vec::new();
    let mut types: Vec<TypeParam> = Vec::new();
    let mut consts: Vec<ConstParam> = Vec::new();
    let mut preds: Vec<WherePred> = Vec::new();
    let mut i: usize = 0;
    while i < params.len()
        invariant
            i <= params@.len(),
            pm == param_models(params@),
            strs(lifetimes@) == lifetimes_of(pm.take(i as int)),
            type_param_models(types@) == types_of(pm.take(i as int)),
            const_param_models(consts@) == consts_of(pm.take(i as int)),
            pred_models(preds@) == inline_preds(pm.take(i as int)),
        decreases params@.len() - i,
    {
        let ghost lt0 = lifetimes@;
        let ghost ty0 = types@;
        let ghost c0 = consts@;
        proof {
            assert(pm.take(i as int + 1).drop_last() =~= pm.take(i as int));
            assert(pm.take(i as int + 1).last() == params@[i as int]@);
        }
        match &params[i] {
            SyntaxGenericParam::Lifetime { name, bounds } => {
                lifetimes.push(name.clone());
                push_bound_preds(&mut preds, &PredTarget::Named(name.clone()), bounds);
                proof {
                    assert(strs(lifetimes@) =~= strs(lt0) + seq![name@]);
                }
            },
            SyntaxGenericParam::Type { name, bounds, default } => {
                types.push(
                    TypeParam {
                        name: Some(name.clone()),
                        default: clone_opt_string(default),
                        provenance: TypeParamProvenance::Explicit,
                    },
                );
                push_bound_preds(&mut preds, &PredTarget::Named(name.clone()), bounds);
                proof {
                    assert(type_param_models(types@) =~= type_param_models(ty0) + seq![
                        TypeParamModel {
                            name: Some(name@),
                            default: opt_str(*default),
                            provenance: TypeParamProvenance::Explicit,
                        },
                    ]);
                }
            },
            SyntaxGenericParam::Const { name, ty, default } => {
                consts.push(
                    ConstParam { name: name.clone(), ty: ty.clone(), default: clone_opt_string(default) },
                );
                proof {
                    assert(const_param_models(consts@) =~= const_param_models(c0) + seq![
                        ConstParamModel { name: name@, ty: ty@, default: opt_str(*default) },
                    ]);
                    assert(inline_preds(pm.take(i as int + 1)) =~= inline_preds(pm.take(i as int)));
                }
            },
        }
        proof {
            assert(strs(lifetimes@) =~= lifetimes_of(pm.take(i as int + 1)));
            assert(type_param_models(types@) =~= types_of(pm.take(i as int + 1)));
            assert(const_param_models(consts@) =~= consts_of(pm.take(i as int + 1)));
        }
        i = i + 1;
    }
    proof {
        assert(pm.take(i as int) =~= pm);
    }
    let ghost inl = pred_models(preds@);
    let mut j: usize = 0;
    while j < where_clause.len()
        invariant
            j <= where_clause@.len(),
            wm == where_models(where_clause@),
            pred_models(preds@) == inl + clause_preds(wm.take(j as int)),
        decreases where_clause@.len() - j,
    {
        let w = &where_clause[j];
        push_bound_preds(&mut preds, &PredTarget::Named(w.target.clone()), &w.bounds);
        proof {
            assert(wm.take(j as int + 1).drop_last() =~= wm.take(j as int));
            assert(wm.take(j as int + 1).last() == where_clause@[j as int]@);
        }
        j = j + 1;
    }
    proof {
        assert(wm.take(j as int) =~= wm);
    }
    GenericParams { lifetimes, types, consts, where_predicates: preds }
}

/// A parameter list with every inline bound removed.
pub open spec fn without_bounds(ps: Seq<SynParamModel>) -> Seq<SynParamModel> {
    ps.map_values(
        |p: SynParamModel| match p {
            SynParamModel::Lifetime { name, .. } => SynParamModel::Lifetime { name, bounds: Seq::empty() },
            SynParamModel::Type { name, default, .. } => SynParamModel::Type {
                name,
                bounds: Seq::empty(),
                default,
            },
            c => c,
        },
    )
}

/// The where clause that writes each predicate on a named target as one
/// entry with a single bound.
pub open spec fn as_where_clause(preds: Seq<PredModel>) -> Seq<SynWhereModel> {
    preds.map_values(
        |p: PredModel| SynWhereModel {
            target: match p.target {
                TargetModel::Named(n) => n,
                TargetModel::Param(_) => Seq::empty(),
            },
            bounds: seq![p.bound],
        },
    )
}

proof fn lemma_without_bounds(ps: Seq<SynParamModel>)
    ensures
        inline_preds(without_bounds(ps)) == Seq::<PredModel>::empty(),
        lifetimes_of(without_bounds(ps)) == lifetimes_of(ps),
        types_of(without_bounds(ps)) == types_of(ps),
        consts_of(without_bounds(ps)) == consts_of(ps),
    decreases ps.len(),
{
    if ps.len() > 0 {
        assert(without_bounds(ps).drop_last() =~= without_bounds(ps.drop_last()));
        lemma_without_bounds(ps.drop_last());
        assert(bound_preds(TargetModel::Named(Seq::empty()), Seq::empty()) =~= Seq::<PredModel>::empty());
        match ps.last() {
            SynParamModel::Lifetime { name, .. } => {
                assert(bound_preds(TargetModel::Named(name), Seq::empty()) =~= Seq::<PredModel>::empty());
            },
            SynParamModel::Type { name, .. } => {
                assert(bound_preds(TargetModel::Named(name), Seq::empty()) =~= Seq::<PredModel>::empty());
            },
            _ => {},
        }
        assert(inline_preds(without_bounds(ps)) =~= Seq::<PredModel>::empty());
    }
}

pub open spec fn all_named(preds: Seq<PredModel>) -> bool {
    forall|i: int| 0 <= i < preds.len() ==> (#[trigger] preds[i]).target is Named
}

proof fn lemma_clause_round_trip(preds: Seq<PredModel>)
    requires
        all_named(preds),
    ensures
        clause_preds(as_where_clause(preds)) == preds,
    decreases preds.len(),
{
    if preds.len() > 0 {
        assert(as_where_clause(preds).drop_last() =~= as_where_clause(preds.drop_last()));
        lemma_clause_round_trip(preds.drop_last());
        let w = as_where_clause(preds).last();
        assert(bound_preds(TargetModel::Named(w.target), w.bounds) =~= seq![preds.last()]);
        assert(clause_preds(as_where_clause(preds)) =~= preds);
    }
}

proof fn lemma_preds_named(ps: Seq<SynParamModel>, ws: Seq<SynWhereModel>)
    ensures
        all_named(inline_preds(ps) + clause_preds(ws)),
    decreases ps.len() + ws.len(),
{
    if ws.len() > 0 {
        lemma_preds_named(ps, ws.drop_last());
        assert(inline_preds(ps) + clause_preds(ws) =~= (inline_preds(ps) + clause_preds(ws.drop_last()))
            + bound_preds(TargetModel::Named(ws.last().target), ws.last().bounds));
    } else if ps.len() > 0 {
        lemma_preds_named(ps.drop_last(), ws);
        assert(clause_preds(ws) =~= Seq::<PredModel>::empty());
        assert(clause_preds(Seq::<SynWhereModel>::empty()) =~= Seq::<PredModel>::empty());
    }
}

/// Lowering keeps the order of predicates: moving every inline bound into the
/// where clause, in the order lowering produced, and lowering again gives the
/// same predicates and the same parameters.
pub proof fn lemma_relower_same_predicates(ps: Seq<SynParamModel>, ws: Seq<SynWhereModel>)
    ensures
        lower_generics_spec(
            without_bounds(ps),
            as_where_clause(lower_generics_spec(ps, ws).preds),
        ) == lower_generics_spec(ps, ws),
{
    let preds = lower_generics_spec(ps, ws).preds;
    lemma_without_bounds(ps);
    lemma_preds_named(ps, ws);
    lemma_clause_round_trip(preds);
    assert(Seq::<PredModel>::empty() + preds =~= preds);
}

/// The implicit `Self` parameter of a trait.
pub open spec fn self_param_model() -> TypeParamModel {
    TypeParamModel { name: None, default: None, provenance: TypeParamProvenance::TraitSelf }
}

/// The generics of a trait or trait alias: a leading implicit `Self` type
/// parameter, and one `Self: supertrait` predicate per supertrait before the
/// other predicates.
pub open spec fn trait_generics_spec(
    ps: Seq<SynParamModel>,
    ws: Seq<SynWhereModel>,
    supers: Seq<Seq<char>>,
) -> GenericsModel {
    let g = lower_generics_spec(ps, ws);
    GenericsModel {
        types: seq![self_param_model()] + g.types,
        preds: bound_preds(TargetModel::Param(0), supers) + g.preds,
        ..g
    }
}

/// Lowers the generics of a trait or trait alias with the given supertraits.
pub fn lower_trait_generics(
    params: &Vec<SyntaxGenericParam>,
    where_clause: &Vec<SyntaxWherePred>,
    supertraits: &Vec<String>,
) -> (r: GenericParams)
    ensures
        r@ == trait_generics_spec(
            param_models(params@),
            where_models(where_clause@),
            strs(supertraits@),
        ),
{
    let mut g = lower_generics(params, where_clause);
    let ghost t0 = g.types@;
    g.types.insert(0, TypeParam { name: None, default: None, provenance: TypeParamProvenance::TraitSelf });
    let mut preds: Vec<WherePred> = Vec::new();
    push_bound_preds(&mut preds, &PredTarget::Param(0), supertraits);
    let ghost p0 = preds@;
    let ghost p1 = g.where_predicates@;
    preds.append(&mut g.where_predicates);
    proof {
        assert(type_param_models(g.types@) =~= seq![self_param_model()] + type_param_models(t0));
        assert(pred_models(preds@) =~= pred_models(p0) + pred_models(p1));
        assert(pred_models(Seq::<WherePred>::empty()) =~= Seq::<PredModel>::empty());
    }
    GenericParams { lifetimes: g.lifetimes, types: g.types, consts: g.consts, where_predicates: preds }
}

/// A parameter type as lowered in a signature where nothing is hoisted.
pub open spec fn plain_lowering(t: SynTypeModel) -> LoweredTypeModel {
    match t {
        SynTypeModel::Plain(s) => LoweredTypeModel::Plain(s),
        SynTypeModel::ImplTrait(b) => LoweredTypeModel::ImplTrait(b),
    }
}

/// Hoisting of argument-position `impl Trait`: each such argument, left to
/// right, appends an implicit type parameter and one predicate per bound on
/// it, and the argument then refers to that parameter. Other arguments stay.
pub open spec fn hoist_spec(g: GenericsModel, args: Seq<SynTypeModel>) -> (GenericsModel, Seq<
    LoweredTypeModel,
>)
    decreases args.len(),
{
    if args.len() == 0 {
        (g, Seq::empty())
    } else {
        let (g0, ts0) = hoist_spec(g, args.drop_last());
        match args.last() {
            SynTypeModel::Plain(s) => (g0, ts0.push(LoweredTypeModel::Plain(s))),
            SynTypeModel::ImplTrait(b) => {
                let idx = g0.types.len();
                (
                    GenericsModel {
                        types: g0.types.push(
                            TypeParamModel {
                                name: None,
                                default: None,
                                provenance: TypeParamProvenance::ArgumentImplTrait,
                            },
                        ),
                        preds: g0.preds + bound_preds(TargetModel::Param(idx), b),
                        ..g0
                    },
                    ts0.push(LoweredTypeModel::ImplicitParam(idx)),
                )
            },
        }
    }
}

/// Hoisting gives one lowered type per argument.
pub proof fn lemma_hoist_len(g: GenericsModel, args: Seq<SynTypeModel>)
    ensures
        hoist_spec(g, args).1.len() == args.len(),
    decreases args.len(),
{
    if args.len() > 0 {
        lemma_hoist_len(g, args.drop_last());
    }
}

pub open spec fn lowered_models(v: Seq<LoweredType>) -> Seq<LoweredTypeModel> {
    v.map_values(|t: LoweredType| t@)
}

/// Lowers a type where nothing is hoisted, as in return position.
pub fn lower_type(t: &SyntaxType) -> (r: LoweredType)
    ensures
        r@ == plain_lowering(t@),
{
    match t {
        SyntaxType::Plain(s) => LoweredType::Plain(s.clone()),
        SyntaxType::ImplTrait(b) => LoweredType::ImplTrait(clone_strings(b)),
    }
}

/// Lowers a function's generics together with its parameter types, hoisting
/// each argument-position `impl Trait` into an implicit type parameter.
pub fn lower_fn_generics(
    params: &Vec<SyntaxGenericParam>,
    where_clause: &Vec<SyntaxWherePred>,
    args: &Vec<SyntaxType>,
) -> (r: (GenericParams, Vec<LoweredType>))
    ensures
        (r.0@, lowered_models(r.1@)) == hoist_spec(
            lower_generics_spec(param_models(params@), where_models(where_clause@)),
            type_models(args@),
        ),
{
    let ghost am = type_models(args@);
    let ghost g_init = lower_generics_spec(param_models(params@), where_models(where_clause@));
    let mut g = lower_generics(params, where_clause);
    let mut lowered: Vec<LoweredType> = Vec::new();
    let mut i: usize = 0;
    while i < args.len()
        invariant
            i <= args@.len(),
            am == type_models(args@),
            (g@, lowered_models(lowered@)) == hoist_spec(g_init, am.take(i as int)),
        decreases args@.len() - i,
    {
        proof {
            assert(am.take(i as int + 1).drop_last() =~= am.take(i as int));
            assert(am.take(i as int + 1).last() == args@[i as int]@);
        }
        let ghost l0 = lowered@;
        let ghost t0 = g.types@;
        match &args[i] {
            SyntaxType::Plain(s) => {
                lowered.push(LoweredType::Plain(s.clone()));
                proof {
                    assert(lowered_models(lowered@) =~= lowered_models(l0).push(
                        LoweredTypeModel::Plain(s@),
                    ));
                }
            },
            SyntaxType::ImplTrait(b) => {
                let idx = g.types.len();
                g.types.push(
                    TypeParam {
                        name: None,
                        default: None,
                        provenance: TypeParamProvenance::ArgumentImplTrait,
                    },
                );
                push_bound_preds(&mut g.where_predicates, &PredTarget::Param(idx), b);
                lowered.push(LoweredType::ImplicitParam(idx));
                proof {
                    assert(type_param_models(g.types@) =~= type_param_models(t0).push(
                        TypeParamModel {
                            name: None,
                            default: None,
                            provenance: TypeParamProvenance::ArgumentImplTrait,
                        },
                    ));
                    assert(lowered_models(lowered@) =~= lowered_models(l0).push(
                        LoweredTypeModel::ImplicitParam(idx as nat),
                    ));
                }
            },
        }
        i = i + 1;
    }
    proof {
        assert(am.take(i as int) =~= am);
    }
    (g, lowered)
}

} // verus!
