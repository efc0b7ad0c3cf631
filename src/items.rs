//! The items of the tree and the lowering of one written item into one
//! item node.
use vstd::prelude::*;
use crate::attrs::{attrs_lowered, clone_opt_string, concat_attrs, lower_attrs, AttrSet, RawAttr};
use crate::generics::{
    clone_strings, hoist_spec, lower_fn_generics, lower_generics, lower_generics_spec,
    lower_trait_generics, lower_type, lowered_models, param_models, plain_lowering, strs,
    trait_generics_spec, type_models, where_models, GenericParams, LoweredType, SyntaxGenericParam,
    SyntaxType, SyntaxWherePred,
};
use crate::paths::{
    lower_path, lower_path_spec, lower_type_path, lower_type_path_spec, opt_texts, qualifier_model,
    seg_models, ModPath, PathModel, SyntaxPath, SyntaxTypePath, TypePath,
};
use crate::use_tree::{
    alias_model, clone_opt_alias, event_models, flatten_use_tree, records_spec, ImportAlias, UseTreeEvent,
};
use crate::visibility::{lower_vis_spec, lower_visibility, RawVisibility, SyntaxVis};

verus! {

/// The shape of a struct's or variant's fields.
#[derive(Clone, Copy, Debug, PartialEq, Eq, Structural)]
pub enum FieldsShape {
    Record,
    Tuple,
    Unit,
}

/// A type as written: a path, or another form kept as text.
pub enum SyntaxTypeRef {
    Path(SyntaxTypePath),
    Text(String),
}

/// A lowered type: a lowered path, another form as text, or an ill-formed
/// path.
pub enum TypeRef {
    Path(TypePath),
    Text(String),
    Error,
}

pub open spec fn type_path_spec_of(p: SyntaxTypePath) -> Option<crate::paths::TypePathModel> {
    lower_type_path_spec(
        qualifier_model(p.qualifier),
        p.path.leading_colons,
        seg_models(p.path.segments@),
        opt_texts(p.args@),
    )
}

pub open spec fn type_ref_lowered(t: SyntaxTypeRef, out: TypeRef) -> bool {
    match (t, out) {
        (SyntaxTypeRef::Path(p), TypeRef::Path(tp)) => type_path_spec_of(p) == Some(tp@),
        (SyntaxTypeRef::Path(p), TypeRef::Error) => type_path_spec_of(p) is None,
        (SyntaxTypeRef::Text(a), TypeRef::Text(b)) => a@ == b@,
        _ => false,
    }
}

/// Lowers a written type.
pub fn lower_type_ref(t: &SyntaxTypeRef) -> (r: TypeRef)
    ensures
        type_ref_lowered(*t, r),
{
    match t {
        SyntaxTypeRef::Path(p) => match lower_type_path(p) {
            Some(tp) => TypeRef::Path(tp),
            None => TypeRef::Error,
        },
        SyntaxTypeRef::Text(s) => TypeRef::Text(s.clone()),
    }
}

/// A field as written; a tuple field has no name.
pub struct SyntaxField {
    pub attrs: Vec<RawAttr>,
    pub vis: SyntaxVis,
    pub name: Option<String>,
    pub ty: SyntaxTypeRef,
}

pub struct SyntaxVariant {
    pub attrs: Vec<RawAttr>,
    pub name: String,
    pub shape: FieldsShape,
    pub fields: Vec<SyntaxField>,
}

pub struct SyntaxParam {
    pub attrs: Vec<RawAttr>,
    pub ty: SyntaxType,
}

pub struct SyntaxFn {
    pub name: String,
    pub generics: Vec<SyntaxGenericParam>,
    pub where_clause: Vec<SyntaxWherePred>,
    pub params: Vec<SyntaxParam>,
    /// `None` where no return type is written.
    pub ret: Option<SyntaxType>,
    pub has_self_param: bool,
    pub has_body: bool,
    pub is_default: bool,
    pub is_const: bool,
    pub is_async: bool,
    pub is_unsafe: bool,
    pub is_varargs: bool,
}

/// What a written item is, with its own parts.
pub enum SyntaxItemKind {
    /// `mod name { .. }` (with a body) or `mod name;`.
    Module { name: String, has_body: bool },
    Struct {
        name: String,
        generics: Vec<SyntaxGenericParam>,
        where_clause: Vec<SyntaxWherePred>,
        shape: FieldsShape,
        fields: Vec<SyntaxField>,
    },
    Union {
        name: String,
        generics: Vec<SyntaxGenericParam>,
        where_clause: Vec<SyntaxWherePred>,
        fields: Vec<SyntaxField>,
    },
    Enum {
        name: String,
        generics: Vec<SyntaxGenericParam>,
        where_clause: Vec<SyntaxWherePred>,
        variants: Vec<SyntaxVariant>,
    },
    Function(SyntaxFn),
    TypeAlias {
        name: String,
        generics: Vec<SyntaxGenericParam>,
        where_clause: Vec<SyntaxWherePred>,
        bounds: Vec<String>,
        aliased: Option<String>,
    },
    Static { name: String, mutable: bool, ty: String },
    /// `const _: T` has no name.
    Const { ident: Option<String>, ty: String },
    Trait {
        name: String,
        generics: Vec<SyntaxGenericParam>,
        where_clause: Vec<SyntaxWherePred>,
        supertraits: Vec<String>,
    },
    TraitAlias {
        name: String,
        generics: Vec<SyntaxGenericParam>,
        where_clause: Vec<SyntaxWherePred>,
        supertraits: Vec<String>,
    },
    Impl {
        generics: Vec<SyntaxGenericParam>,
        where_clause: Vec<SyntaxWherePred>,
        trait_ref: Option<String>,
        self_ty: String,
    },
    /// A block of foreign declarations with its ABI string.
    ForeignBlock { abi: Option<String> },
    /// A dependency declared with `crate name [as alias]`.
    CrateDecl { name: String, alias: Option<ImportAlias> },
    Use { tree: Vec<UseTreeEvent> },
    MacroRules { name: String },
    MacroDef { name: String },
    MacroCall { path: SyntaxPath, args: String },
}

/// A written item: its outer attributes, the attributes written inside its
/// body (`#![..]`, `//!`), its visibility and its kind.
pub struct SyntaxItem {
    pub attrs: Vec<RawAttr>,
    pub inner_attrs: Vec<RawAttr>,
    pub vis: SyntaxVis,
    pub kind: SyntaxItemKind,
}

/// The name of a lowered field: its written name, or its position.
pub enum FieldName {
    Named(String),
    Positional(usize),
}

pub struct Field {
    pub attrs: AttrSet,
    pub vis: RawVisibility,
    pub name: FieldName,
    pub ty: TypeRef,
}

pub struct Variant {
    pub attrs: AttrSet,
    pub name: String,
    pub shape: FieldsShape,
    pub fields: Vec<Field>,
}

pub struct Param {
    pub attrs: AttrSet,
    pub ty: LoweredType,
}

pub struct Function {
    pub name: String,
    pub generics: GenericParams,
    pub params: Vec<Param>,
    pub ret: LoweredType,
    /// The function's flags packed as bits; see the `FN_` constants.
    pub flags: u8,
}

pub const FN_HAS_SELF_PARAM: u8 = 1;
pub const FN_HAS_BODY: u8 = 2;
pub const FN_IS_DEFAULT: u8 = 4;
pub const FN_IS_CONST: u8 = 8;
pub const FN_IS_ASYNC: u8 = 16;
pub const FN_IS_UNSAFE: u8 = 32;
pub const FN_IS_IN_FOREIGN_BLOCK: u8 = 64;
pub const FN_IS_VARARGS: u8 = 128;

/// A lowered item's own parts.
pub enum ItemData {
    Module { name: String, inline: bool },
    Struct { name: String, generics: GenericParams, shape: FieldsShape, fields: Vec<Field> },
    Union { name: String, generics: GenericParams, fields: Vec<Field> },
    Enum { name: String, generics: GenericParams, variants: Vec<Variant> },
    Function(Function),
    TypeAlias {
        name: String,
        generics: GenericParams,
        bounds: Vec<String>,
        aliased: Option<String>,
        is_foreign: bool,
    },
    Static { name: String, mutable: bool, ty: String, is_foreign: bool },
    Const { ident: Option<String>, ty: String },
    Trait { name: String, generics: GenericParams },
    TraitAlias { name: String, generics: GenericParams },
    Impl { generics: GenericParams, trait_ref: Option<String>, self_ty: String },
    ForeignBlock { abi: Option<String> },
    CrateDecl { name: String, alias: Option<ImportAlias> },
    Use { records: Vec<ImportRecord> },
    MacroRules { name: String },
    MacroDef { name: String },
    MacroCall { path: Option<ModPath>, args: String },
}

/// One flattened import of a `use` item; `path` is absent where the written
/// path is ill-formed.
pub struct ImportRecord {
    pub path: Option<ModPath>,
    pub alias: Option<ImportAlias>,
    pub is_glob: bool,
    pub index: usize,
}

pub open spec fn opt_path_model(p: Option<ModPath>) -> Option<PathModel> {
    match p {
        Some(m) => Some(m@),
        None => None,
    }
}

pub open spec fn opt_str_eq(a: Option<String>, b: Option<String>) -> bool {
    match (a, b) {
        (Some(x), Some(y)) => x@ == y@,
        (None, None) => true,
        _ => false,
    }
}

pub open spec fn field_lowered(f: SyntaxField, k: int, out: Field) -> bool {
    &&& attrs_lowered(f.attrs@, out.attrs)
    &&& out.vis@ == lower_vis_spec(f.vis@)
    &&& type_ref_lowered(f.ty, out.ty)
    &&& match (f.name, out.name) {
        (Some(a), FieldName::Named(b)) => a@ == b@,
        (None, FieldName::Positional(i)) => i == k,
        _ => false,
    }
}

/// Each field lowered in order; a tuple field is named by its position.
pub open spec fn fields_lowered(fs: Seq<SyntaxField>, out: Seq<Field>) -> bool {
    &&& out.len() == fs.len()
    &&& forall|k: int| 0 <= k < fs.len() ==> field_lowered(fs[k], k, #[trigger] out[k])
}

pub open spec fn variants_lowered(vs: Seq<SyntaxVariant>, out: Seq<Variant>) -> bool {
    &&& out.len() == vs.len()
    &&& forall|k: int|
        0 <= k < vs.len() ==> {
            &&& attrs_lowered(vs[k].attrs@, (#[trigger] out[k]).attrs)
            &&& out[k].name@ == vs[k].name@
            &&& out[k].shape == vs[k].shape
            &&& fields_lowered(vs[k].fields@, out[k].fields@)
        }
}

/// The packed flags of a function; one inside a foreign block is unsafe and
/// has no body.
pub open spec fn fn_flags_spec(f: SyntaxFn, in_foreign: bool) -> int {
    (if f.has_self_param { 1int } else { 0 }) + (if f.has_body && !in_foreign { 2int } else { 0 }) + (
    if f.is_default { 4int } else { 0 }) + (if f.is_const { 8int } else { 0 }) + (if f.is_async {
        16int
    } else {
        0
    }) + (if f.is_unsafe || in_foreign { 32int } else { 0 }) + (if in_foreign { 64int } else { 0 }) + (
    if f.is_varargs { 128int } else { 0 })
}

/// The written return type, or `()` where none is written.
pub open spec fn ret_lowered(ret: Option<SyntaxType>, out: LoweredType) -> bool {
    match ret {
        Some(t) => out@ == plain_lowering(t@),
        None => out@ == crate::generics::LoweredTypeModel::Plain(seq!['(', ')']),
    }
}

pub open spec fn param_types(ps: Seq<SyntaxParam>) -> Seq<SyntaxType> {
    ps.map_values(|p: SyntaxParam| p.ty)
}

pub open spec fn fn_lowered(f: SyntaxFn, out: Function, in_foreign: bool) -> bool {
    let h = hoist_spec(
        lower_generics_spec(param_models(f.generics@), where_models(f.where_clause@)),
        type_models(param_types(f.params@)),
    );
    &&& out.name@ == f.name@
    &&& out.generics@ == h.0
    &&& out.params@.len() == f.params@.len()
    &&& forall|k: int|
        0 <= k < f.params@.len() ==> {
            &&& attrs_lowered(f.params@[k].attrs@, (#[trigger] out.params@[k]).attrs)
            &&& out.params@[k].ty@ == h.1[k]
        }
    &&& ret_lowered(f.ret, out.ret)
    &&& out.flags == fn_flags_spec(f, in_foreign)
}

pub open spec fn generics_of(
    g: Vec<SyntaxGenericParam>,
    w: Vec<SyntaxWherePred>,
) -> crate::generics::GenericsModel {
    lower_generics_spec(param_models(g@), where_models(w@))
}

/// The records of a `use` item: the flattened tree, each path lowered.
pub open spec fn records_lowered(tree: Seq<UseTreeEvent>, out: Seq<ImportRecord>) -> bool {
    let rs = records_spec(event_models(tree));
    &&& out.len() == rs.len()
    &&& forall|k: int|
        0 <= k < rs.len() ==> {
            &&& opt_path_model((#[trigger] out[k]).path) == lower_path_spec(false, rs[k].path)
            &&& alias_model(out[k].alias) == rs[k].alias
            &&& out[k].is_glob == rs[k].is_glob
            &&& out[k].index == k
        }
}

/// How one written item kind lowers, inside a foreign block or not.
pub open spec fn data_lowered(k: SyntaxItemKind, d: ItemData, in_foreign: bool) -> bool {
    match (k, d) {
        (SyntaxItemKind::Module { name, has_body }, ItemData::Module { name: n, inline }) => n@
            == name@ && inline == has_body,
        (
            SyntaxItemKind::Struct { name, generics, where_clause, shape, fields },
            ItemData::Struct { name: n, generics: g, shape: s, fields: fs },
        ) => n@ == name@ && g@ == generics_of(generics, where_clause) && s == shape
            && fields_lowered(fields@, fs@),
        (
            SyntaxItemKind::Union { name, generics, where_clause, fields },
            ItemData::Union { name: n, generics: g, fields: fs },
        ) => n@ == name@ && g@ == generics_of(generics, where_clause) && fields_lowered(fields@, fs@),
        (
            SyntaxItemKind::Enum { name, generics, where_clause, variants },
            ItemData::Enum { name: n, generics: g, variants: vs },
        ) => n@ == name@ && g@ == generics_of(generics, where_clause) && variants_lowered(
            variants@,
            vs@,
        ),
        (SyntaxItemKind::Function(f), ItemData::Function(o)) => fn_lowered(f, o, in_foreign),
        (
            SyntaxItemKind::TypeAlias { name, generics, where_clause, bounds, aliased },
            ItemData::TypeAlias { name: n, generics: g, bounds: b, aliased: t, is_foreign },
        ) => n@ == name@ && g@ == generics_of(generics, where_clause) && strs(b@) == strs(bounds@)
            && opt_str_eq(t, aliased) && is_foreign == in_foreign,
        (
            SyntaxItemKind::Static { name, mutable, ty },
            ItemData::Static { name: n, mutable: m, ty: t, is_foreign },
        ) => n@ == name@ && m == mutable && t@ == ty@ && is_foreign == in_foreign,
        (SyntaxItemKind::Const { ident, ty }, ItemData::Const { ident: n, ty: t }) => opt_str_eq(n, ident)
            && t@ == ty@,
        (
            SyntaxItemKind::Trait { name, generics, where_clause, supertraits },
            ItemData::Trait { name: n, generics: g },
        ) => n@ == name@ && g@ == trait_generics_spec(
            param_models(generics@),
            where_models(where_clause@),
            strs(supertraits@),
        ),
        (
            SyntaxItemKind::TraitAlias { name, generics, where_clause, supertraits },
            ItemData::TraitAlias { name: n, generics: g },
        ) => n@ == name@ && g@ == trait_generics_spec(
            param_models(generics@),
            where_models(where_clause@),
            strs(supertraits@),
        ),
        (
            SyntaxItemKind::Impl { generics, where_clause, trait_ref, self_ty },
            ItemData::Impl { generics: g, trait_ref: t, self_ty: s },
        ) => g@ == generics_of(generics, where_clause) && opt_str_eq(t, trait_ref) && s@ == self_ty@,
        (SyntaxItemKind::ForeignBlock { abi }, ItemData::ForeignBlock { abi: a }) => opt_str_eq(a, abi),
        (SyntaxItemKind::CrateDecl { name, alias }, ItemData::CrateDecl { name: n, alias: a }) => n@
            == name@ && alias_model(a) == alias_model(alias),
        (SyntaxItemKind::Use { tree }, ItemData::Use { records }) => records_lowered(tree@, records@),
        (SyntaxItemKind::MacroRules { name }, ItemData::MacroRules { name: n }) => n@ == name@,
        (SyntaxItemKind::MacroDef { name }, ItemData::MacroDef { name: n }) => n@ == name@,
        (SyntaxItemKind::MacroCall { path, args }, ItemData::MacroCall { path: p, args: a }) => {
            opt_path_model(p) == lower_path_spec(path.leading_colons, seg_models(path.segments@))
                && a@ == args@
        },
        _ => false,
    }
}

/// Lowers a field list; a field without a name is named by its position.
pub fn lower_fields(fields: &Vec<SyntaxField>) -> (r: Vec<Field>)
    ensures
        fields_lowered(fields@, r@),
{
    let mut out: Vec<Field> = Vec::new();
    let mut k: usize = 0;
    while k < fields.len()
        invariant
            k <= fields@.len(),
            out@.len() == k,
            forall|j: int| 0 <= j < k ==> field_lowered(fields@[j], j, #[trigger] out@[j]),
        decreases fields@.len() - k,
    {
        let f = &fields[k];
        let name = match &f.name {
            Some(n) => FieldName::Named(n.clone()),
            None => FieldName::Positional(k),
        };
        out.push(
            Field {
                attrs: lower_attrs(&f.attrs),
                vis: lower_visibility(&f.vis),
                name,
                ty: lower_type_ref(&f.ty),
            },
        );
        k = k + 1;
    }
    out
}

pub fn lower_variants(variants: &Vec<SyntaxVariant>) -> (r: Vec<Variant>)
    ensures
        variants_lowered(variants@, r@),
{
    let mut out: Vec<Variant> = Vec::new();
    let mut k: usize = 0;
    while k < variants.len()
        invariant
            k <= variants@.len(),
            out@.len() == k,
            forall|j: int|
                0 <= j < k ==> {
                    &&& attrs_lowered(variants@[j].attrs@, (#[trigger] out@[j]).attrs)
                    &&& out@[j].name@ == variants@[j].name@
                    &&& out@[j].shape == variants@[j].shape
                    &&& fields_lowered(variants@[j].fields@, out@[j].fields@)
                },
        decreases variants@.len() - k,
    {
        let v = &variants[k];
        out.push(
            Variant {
                attrs: lower_attrs(&v.attrs),
                name: v.name.clone(),
                shape: v.shape,
                fields: lower_fields(&v.fields),
            },
        );
        k = k + 1;
    }
    out
}

impl SyntaxType {
    pub fn clone_type(&self) -> (r: SyntaxType)
        ensures
            r@ == self@,
    {
        match self {
            SyntaxType::Plain(s) => SyntaxType::Plain(s.clone()),
            SyntaxType::ImplTrait(b) => SyntaxType::ImplTrait(clone_strings(b)),
        }
    }
}

fn unit_type() -> (r: LoweredType)
    ensures
        r@ == crate::generics::LoweredTypeModel::Plain(seq!['(', ')']),
{
    let s = "()".to_owned();
    proof {
        reveal_strlit("()");
        assert(s@ =~= seq!['(', ')']);
    }
    LoweredType::Plain(s)
}

/// The packed flags of a function.
pub fn fn_flags(f: &SyntaxFn, in_foreign: bool) -> (r: u8)
    ensures
        r == fn_flags_spec(*f, in_foreign),
{
    let mut flags: u8 = 0;
    if f.has_self_param {
        flags = flags + FN_HAS_SELF_PARAM;
    }
    if f.has_body && !in_foreign {
        flags = flags + FN_HAS_BODY;
    }
    if f.is_default {
        flags = flags + FN_IS_DEFAULT;
    }
    if f.is_const {
        flags = flags + FN_IS_CONST;
    }
    if f.is_async {
        flags = flags + FN_IS_ASYNC;
    }
    if f.is_unsafe || in_foreign {
        flags = flags + FN_IS_UNSAFE;
    }
    if in_foreign {
        flags = flags + FN_IS_IN_FOREIGN_BLOCK;
    }
    if f.is_varargs {
        flags = flags + FN_IS_VARARGS;
    }
    flags
}

/// Lowers a function: its generics with argument-position `impl Trait`
/// hoisted, its parameters, its return type (`()` where none is written) and
/// its flags.
pub fn lower_fn(f: &SyntaxFn, in_foreign: bool) -> (r: Function)
    ensures
        fn_lowered(*f, r, in_foreign),
{
    let mut tys: Vec<SyntaxType> = Vec::new();
    let mut k: usize = 0;
    while k < f.params.len()
        invariant
            k <= f.params@.len(),
            tys@.len() == k,
            forall|j: int| 0 <= j < k ==> (#[trigger] tys@[j])@ == f.params@[j].ty@,
        decreases f.params@.len() - k,
    {
        tys.push(f.params[k].ty.clone_type());
        k = k + 1;
    }
    proof {
        assert(type_models(tys@) =~= type_models(param_types(f.params@)));
    }
    let (generics, lowered) = lower_fn_generics(&f.generics, &f.where_clause, &tys);
    let ghost lm = lowered_models(lowered@);
    proof {
        crate::generics::lemma_hoist_len(
            lower_generics_spec(param_models(f.generics@), where_models(f.where_clause@)),
            type_models(tys@),
        );
    }
    let mut params: Vec<Param> = Vec::new();
    let mut i: usize = 0;
    while i < f.params.len()
        invariant
            i <= f.params@.len(),
            lowered@.len() == f.params@.len(),
            lm == lowered_models(lowered@),
            params@.len() == i,
            forall|j: int|
                0 <= j < i ==> {
                    &&& attrs_lowered(f.params@[j].attrs@, (#[trigger] params@[j]).attrs)
                    &&& params@[j].ty@ == lm[j]
                },
        decreases f.params@.len() - i,
    {
        let ty = match &lowered[i] {
            LoweredType::Plain(s) => LoweredType::Plain(s.clone()),
            LoweredType::ImplTrait(b) => LoweredType::ImplTrait(clone_strings(b)),
            LoweredType::ImplicitParam(n) => LoweredType::ImplicitParam(*n),
        };
        params.push(Param { attrs: lower_attrs(&f.params[i].attrs), ty });
        i = i + 1;
    }
    let ret = match &f.ret {
        Some(t) => lower_type(t),
        None => unit_type(),
    };
    Function { name: f.name.clone(), generics, params, ret, flags: fn_flags(f, in_foreign) }
}

/// Lowers a `use` item: one record per leaf of its tree, each path lowered.
pub fn lower_use(tree: &Vec<UseTreeEvent>) -> (r: Vec<ImportRecord>)
    ensures
        records_lowered(tree@, r@),
{
    let flat = flatten_use_tree(tree);
    let ghost rs = records_spec(event_models(tree@));
    let mut out: Vec<ImportRecord> = Vec::new();
    let mut k: usize = 0;
    while k < flat.len()
        invariant
            k <= flat@.len(),
            flat@.len() == rs.len(),
            rs == records_spec(event_models(tree@)),
            forall|j: int| 0 <= j < flat@.len() ==> (#[trigger] flat@[j])@ == rs[j] && flat@[j].index == j,
            out@.len() == k,
            forall|j: int|
                0 <= j < k ==> {
                    &&& opt_path_model((#[trigger] out@[j]).path) == lower_path_spec(false, rs[j].path)
                    &&& alias_model(out@[j].alias) == rs[j].alias
                    &&& out@[j].is_glob == rs[j].is_glob
                    &&& out@[j].index == j
                },
        decreases flat@.len() - k,
    {
        let rec = &flat[k];
        let sp = SyntaxPath { leading_colons: false, segments: crate::paths::clone_segs(&rec.path) };
        out.push(
            ImportRecord {
                path: lower_path(&sp),
                alias: clone_opt_alias(&rec.alias),
                is_glob: rec.is_glob,
                index: rec.index,
            },
        );
        k = k + 1;
    }
    out
}

/// Lowers the parts of one written item.
pub fn lower_item_data(k: &SyntaxItemKind, in_foreign: bool) -> (r: ItemData)
    ensures
        data_lowered(*k, r, in_foreign),
{
    match k {
        SyntaxItemKind::Module { name, has_body } => ItemData::Module {
            name: name.clone(),
            inline: *has_body,
        },
        SyntaxItemKind::Struct { name, generics, where_clause, shape, fields } => ItemData::Struct {
            name: name.clone(),
            generics: lower_generics(generics, where_clause),
            shape: *shape,
            fields: lower_fields(fields),
        },
        SyntaxItemKind::Union { name, generics, where_clause, fields } => ItemData::Union {
            name: name.clone(),
            generics: lower_generics(generics, where_clause),
            fields: lower_fields(fields),
        },
        SyntaxItemKind::Enum { name, generics, where_clause, variants } => ItemData::Enum {
            name: name.clone(),
            generics: lower_generics(generics, where_clause),
            variants: lower_variants(variants),
        },
        SyntaxItemKind::Function(f) => ItemData::Function(lower_fn(f, in_foreign)),
        SyntaxItemKind::TypeAlias { name, generics, where_clause, bounds, aliased } => {
            ItemData::TypeAlias {
            name: name.clone(),
            generics: lower_generics(generics, where_clause),
            bounds: clone_strings(bounds),
            aliased: clone_opt_string(aliased),
            is_foreign: in_foreign,
        }
        },
        SyntaxItemKind::Static { name, mutable, ty } => ItemData::Static {
            name: name.clone(),
            mutable: *mutable,
            ty: ty.clone(),
            is_foreign: in_foreign,
        },
        SyntaxItemKind::Const { ident, ty } => ItemData::Const {
            ident: clone_opt_string(ident),
            ty: ty.clone(),
        },
        SyntaxItemKind::Trait { name, generics, where_clause, supertraits } => ItemData::Trait {
            name: name.clone(),
            generics: lower_trait_generics(generics, where_clause, supertraits),
        },
        SyntaxItemKind::TraitAlias { name, generics, where_clause, supertraits } => {
            ItemData::TraitAlias {
                name: name.clone(),
                generics: lower_trait_generics(generics, where_clause, supertraits),
            }
        },
        SyntaxItemKind::Impl { generics, where_clause, trait_ref, self_ty } => ItemData::Impl {
            generics: lower_generics(generics, where_clause),
            trait_ref: clone_opt_string(trait_ref),
            self_ty: self_ty.clone(),
        },
        SyntaxItemKind::ForeignBlock { abi } => ItemData::ForeignBlock { abi: clone_opt_string(abi) },
        SyntaxItemKind::CrateDecl { name, alias } => ItemData::CrateDecl {
            name: name.clone(),
            alias: clone_opt_alias(alias),
        },
        SyntaxItemKind::Use { tree } => ItemData::Use { records: lower_use(tree) },
        SyntaxItemKind::MacroRules { name } => ItemData::MacroRules { name: name.clone() },
        SyntaxItemKind::MacroDef { name } => ItemData::MacroDef { name: name.clone() },
        SyntaxItemKind::MacroCall { path, args } => ItemData::MacroCall {
            path: lower_path(path),
            args: args.clone(),
        },
    }
}

} // verus!
