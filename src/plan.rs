//! Resolving each field's annotations into a plan (how the builder stores,
//! sets and finally resolves the field) and validating the whole type's
//! policy.
use vstd::prelude::*;
use crate::attrs::{
    all_well_formed, find_expr, find_flag, find_malformed, find_str, flag_of, single_str,
    tokens_text, value_of,
};
use crate::model::{Data, DeriveInput, Field, GenericParam, ParamKind, TypeExpr};
use crate::text::{push, str_eq};
use crate::types::{
    generics_text, get_inner_ty, get_option_inner, inner_types, option_inner, render_generics,
    render_where, views, where_text, Form,
};

verus! {

/// How the builder changes a field.
#[derive(Debug)]
pub enum Mutation {
    /// One setter, taking a value of type `ty`.
    Setter { ty: String },
    /// An accessor that appends one element of type `elem` to a sequence.
    Append { accessor: String, elem: String },
    /// An accessor that inserts one entry into a mapping.
    Insert { accessor: String, key: String, value: String },
    /// None: the field is not part of the builder.
    Fixed,
}

/// How finalizing obtains a field's value.
#[derive(Debug)]
pub enum Resolution {
    /// The stored value, as it is.
    TakeAsIs,
    /// The stored value, or the given expression where none was set.
    DefaultOnAbsent(String),
    /// The stored value, or an error naming the field where none was set.
    ErrorOnAbsent,
    /// The given expression; nothing is stored.
    FixedLiteral(String),
}

/// The resolved policy of one field.
#[derive(Debug)]
pub struct FieldPlan {
    pub name: String,
    /// The declared type's source text.
    pub ty: String,
    /// Whether the builder stores the field as an `Option` of its declared
    /// type, to tell a value set from none.
    pub presence_wrapped: bool,
    pub mutation: Mutation,
    pub resolution: Resolution,
}

impl FieldPlan {
    /// The plan is coherent: a field is stored raw exactly where its own type
    /// expresses absence (optional, accumulator) or it is not stored at all
    /// (fixed); accumulators are taken as they are; fixed fields resolve to
    /// their expression.
    pub open spec fn wf(&self) -> bool {
        &&& !self.presence_wrapped <==> (self.resolution is TakeAsIs || self.resolution is FixedLiteral)
        &&& (self.mutation is Append || self.mutation is Insert) ==> self.resolution is TakeAsIs
        &&& self.mutation is Fixed <==> self.resolution is FixedLiteral
        &&& self.presence_wrapped ==> self.mutation is Setter
    }
}

/// Why a field's annotations cannot be turned into a plan.
#[derive(Clone, Copy, Debug, PartialEq, Eq, Structural)]
pub enum FieldError {
    /// A `builder` annotation is not one recognised argument with a value
    /// of the right kind.
    Malformed,
    /// `vec` with `map`, or an accumulator with `optional` or `disabled`.
    Conflict,
    /// The declared type does not have the accumulator's number of type
    /// arguments (one for `vec`, two for `map`).
    AccumulatorShape,
    /// An `optional` field whose declared type is not `Option<T>`.
    OptionalShape,
    /// `disabled` without `def`.
    DisabledWithoutDefault,
}

/// A generation-time diagnostic.
#[derive(Debug)]
pub enum Diagnostic {
    /// The type is an enum or a union, not a struct.
    NotStruct,
    /// The type is a tuple struct or a unit struct.
    UnnamedFields,
    /// A type-level annotation is malformed or not recognised.
    TypeAnnotation,
    /// A field's annotations cannot be turned into a plan.
    Field { field: String, error: FieldError },
    /// Two fields of the builder would have a method of the same name.
    NameCollision { name: String },
    /// The type is `infallible` but these fields would fail when unset.
    Infallible { fields: Vec<String> },
    /// A conversion into an enum names no enum.
    MissingEnumName,
}

/// `optional`: the field's own `Option` type expresses absence.
pub open spec fn is_optional(f: Field) -> bool {
    flag_of(f.attrs@, "optional"@)
}

/// `disabled`: the field is not part of the builder.
pub open spec fn is_disabled(f: Field) -> bool {
    flag_of(f.attrs@, "disabled"@)
}

/// The accessor name given by `vec = "..."`.
pub open spec fn vec_accessor(f: Field) -> Option<Seq<char>> {
    match value_of(f.attrs@, "vec"@) {
        Some(v) => single_str(v),
        None => None,
    }
}

/// The accessor name given by `map = "..."`.
pub open spec fn map_accessor(f: Field) -> Option<Seq<char>> {
    match value_of(f.attrs@, "map"@) {
        Some(v) => single_str(v),
        None => None,
    }
}

/// Whether the field accumulates into a sequence or a mapping.
pub open spec fn is_each(f: Field) -> bool {
    vec_accessor(f) is Some || map_accessor(f) is Some
}

/// The source text of the field's `def` expression, all of its tokens.
pub open spec fn default_expr(f: Field) -> Option<Seq<char>> {
    match value_of(f.attrs@, "def"@) {
        Some(v) => Some(tokens_text(v)),
        None => None,
    }
}

/// The type has exactly `n` type arguments.
pub open spec fn has_arity(t: TypeExpr, n: nat) -> bool {
    inner_types(t) matches Some(a) && a.len() == n
}

/// Why the field cannot be planned, if it cannot.
pub open spec fn field_error(f: Field) -> Option<FieldError> {
    if !all_well_formed(f.attrs@, true) {
        Some(FieldError::Malformed)
    } else if (vec_accessor(f) is Some && map_accessor(f) is Some) || (is_each(f)
        && (is_optional(f) || is_disabled(f))) {
        Some(FieldError::Conflict)
    } else if is_disabled(f) {
        if default_expr(f) is None {
            Some(FieldError::DisabledWithoutDefault)
        } else {
            None
        }
    } else if vec_accessor(f) is Some {
        if has_arity(f.ty, 1) {
            None
        } else {
            Some(FieldError::AccumulatorShape)
        }
    } else if map_accessor(f) is Some {
        if has_arity(f.ty, 2) {
            None
        } else {
            Some(FieldError::AccumulatorShape)
        }
    } else if is_optional(f) && option_inner(f.ty) is None {
        Some(FieldError::OptionalShape)
    } else {
        None
    }
}

/// A field that finalizing reports as missing when it was not set: a plain
/// field without a default.
pub open spec fn is_required(f: Field) -> bool {
    field_error(f) is None && !is_disabled(f) && !is_each(f) && !is_optional(f)
        && default_expr(f) is None
}

/// The name of the builder method that sets or fills the field.
pub open spec fn method_name(f: Field) -> Option<Seq<char>> {
    if is_disabled(f) {
        None
    } else if vec_accessor(f) is Some {
        vec_accessor(f)
    } else if map_accessor(f) is Some {
        map_accessor(f)
    } else {
        Some(f.ident@)
    }
}

/// `p` is the plan of the field `f` (which has no error).
pub open spec fn plan_of(p: FieldPlan, f: Field) -> bool {
    &&& p.name@ == f.ident@
    &&& p.ty@ == f.ty.text@
    &&& if is_disabled(f) {
        &&& p.mutation is Fixed
        &&& p.resolution matches Resolution::FixedLiteral(e) && Some(e@) == default_expr(f)
        &&& !p.presence_wrapped
    } else if vec_accessor(f) is Some {
        &&& p.mutation matches Mutation::Append { accessor, elem } && Some(accessor@)
            == vec_accessor(f) && elem@ == inner_types(f.ty)->0[0]
        &&& p.resolution is TakeAsIs
        &&& !p.presence_wrapped
    } else if map_accessor(f) is Some {
        &&& p.mutation matches Mutation::Insert { accessor, key, value } && Some(accessor@)
            == map_accessor(f) && key@ == inner_types(f.ty)->0[0] && value@ == inner_types(
            f.ty,
        )->0[1]
        &&& p.resolution is TakeAsIs
        &&& !p.presence_wrapped
    } else if is_optional(f) {
        &&& p.mutation matches Mutation::Setter { ty } && Some(ty@) == option_inner(f.ty)
        &&& p.resolution is TakeAsIs
        &&& !p.presence_wrapped
    } else {
        &&& p.mutation matches Mutation::Setter { ty } && ty@ == f.ty.text@
        &&& p.presence_wrapped
        &&& match default_expr(f) {
            Some(d) => p.resolution matches Resolution::DefaultOnAbsent(e) && e@ == d,
            None => p.resolution is ErrorOnAbsent,
        }
    }
}

} // verus!

verus! {

/// Resolves one field's annotations into its plan, or the reason it has none.
pub fn resolve_field(f: &Field) -> (r: Result<FieldPlan, FieldError>)
    ensures
        match r {
            Ok(p) => field_error(*f) is None && plan_of(p, *f) && p.wf(),
            Err(e) => field_error(*f) == Some(e),
        },
{
    if find_malformed(&f.attrs, true).is_some() {
        return Err(FieldError::Malformed);
    }
    let opt = find_flag(&f.attrs, "optional");
    let dis = find_flag(&f.attrs, "disabled");
    let vec = find_str(&f.attrs, "vec");
    let map = find_str(&f.attrs, "map");
    let def = find_expr(&f.attrs, "def");
    let each = vec.is_some() || map.is_some();
    if (vec.is_some() && map.is_some()) || (each && (opt || dis)) {
        return Err(FieldError::Conflict);
    }
    let name = f.ident.clone();
    let ty = f.ty.text.clone();
    if dis {
        return match def {
            Some(d) => Ok(
                FieldPlan {
                    name,
                    ty,
                    presence_wrapped: false,
                    mutation: Mutation::Fixed,
                    resolution: Resolution::FixedLiteral(d),
                },
            ),
            None => Err(FieldError::DisabledWithoutDefault),
        };
    }
    if let Some(accessor) = vec {
        return match get_inner_ty(&f.ty) {
            Some(a) => {
                if a.len() == 1 {
                    assert(views(a@)[0] == a@[0]@);
                    Ok(
                        FieldPlan {
                            name,
                            ty,
                            presence_wrapped: false,
                            mutation: Mutation::Append { accessor, elem: a[0].clone() },
                            resolution: Resolution::TakeAsIs,
                        },
                    )
                } else {
                    Err(FieldError::AccumulatorShape)
                }
            },
            None => Err(FieldError::AccumulatorShape),
        };
    }
    if let Some(accessor) = map {
        return match get_inner_ty(&f.ty) {
            Some(a) => {
                if a.len() == 2 {
                    assert(views(a@)[0] == a@[0]@ && views(a@)[1] == a@[1]@);
                    Ok(
                        FieldPlan {
                            name,
                            ty,
                            presence_wrapped: false,
                            mutation: Mutation::Insert {
                                accessor,
                                key: a[0].clone(),
                                value: a[1].clone(),
                            },
                            resolution: Resolution::TakeAsIs,
                        },
                    )
                } else {
                    Err(FieldError::AccumulatorShape)
                }
            },
            None => Err(FieldError::AccumulatorShape),
        };
    }
    if opt {
        return match get_option_inner(&f.ty) {
            Some(inner) => Ok(
                FieldPlan {
                    name,
                    ty,
                    presence_wrapped: false,
                    mutation: Mutation::Setter { ty: inner },
                    resolution: Resolution::TakeAsIs,
                },
            ),
            None => Err(FieldError::OptionalShape),
        };
    }
    let resolution = match def {
        Some(d) => Resolution::DefaultOnAbsent(d),
        None => Resolution::ErrorOnAbsent,
    };
    Ok(
        FieldPlan {
            name,
            ty: ty.clone(),
            presence_wrapped: true,
            mutation: Mutation::Setter { ty },
            resolution,
        },
    )
}

} // verus!

verus! {

/// The plan of a whole type.
#[derive(Debug)]
pub struct StructPlan {
    pub name: String,
    pub vis: String,
    /// The generics with bounds and defaults, for declaring the builder.
    pub decl_generics: String,
    /// The generics with bounds, for opening impl blocks.
    pub impl_generics: String,
    /// The bare parameter names, for naming the types.
    pub use_generics: String,
    /// The record's where-clause.
    pub where_clause: String,
    /// The record's where-clause with `Clone` required of every type parameter.
    pub clone_where: String,
    /// The fields' plans, in declaration order.
    pub fields: Vec<FieldPlan>,
    /// Finalizing cannot fail and returns the record itself.
    pub infallible: bool,
    /// The builder can be duplicated.
    pub cloneable: bool,
}

/// The fields of a struct with named fields.
pub open spec fn named_fields(input: DeriveInput) -> Option<Seq<Field>> {
    match input.data {
        Data::Named(fs) => Some(fs@),
        _ => None,
    }
}

/// The names of the two methods that the builder gets for a field, the one
/// that takes the builder by value and its `set_` variant; none for a fixed
/// field.
pub open spec fn method_names(f: Field) -> Seq<Seq<char>> {
    match method_name(f) {
        Some(m) => seq![m, "set_"@ + m],
        None => Seq::empty(),
    }
}

/// The names of the builder's field methods, in declaration order.
pub open spec fn all_method_names(fs: Seq<Field>) -> Seq<Seq<char>>
    decreases fs.len(),
{
    if fs.len() == 0 {
        Seq::empty()
    } else {
        all_method_names(fs.drop_last()) + method_names(fs.last())
    }
}

/// `name` is the name of two of the builder's field methods, or of one of
/// them and of the finalizer `build`.
pub open spec fn clashes(fs: Seq<Field>, name: Seq<char>) -> bool {
    let ns = all_method_names(fs);
    (exists|i: int, j: int| 0 <= i < j < ns.len() && ns[i] == name && ns[j] == name) || (name
        == "build"@ && ns.contains(name))
}

/// Two of the builder's methods would have the same name.
pub open spec fn collides(fs: Seq<Field>) -> bool {
    let ns = all_method_names(fs);
    (exists|i: int, j: int| 0 <= i < j < ns.len() && ns[i] == ns[j]) || ns.contains("build"@)
}

/// The names of the required fields, in declaration order.
pub open spec fn required_names(fs: Seq<Field>) -> Seq<Seq<char>>
    decreases fs.len(),
{
    if fs.len() == 0 {
        Seq::empty()
    } else if is_required(fs.last()) {
        required_names(fs.drop_last()).push(fs.last().ident@)
    } else {
        required_names(fs.drop_last())
    }
}

/// `Clone` required of each type parameter, each followed by `, `.
pub open spec fn clone_bounds(ps: Seq<GenericParam>) -> Seq<char>
    decreases ps.len(),
{
    if ps.len() == 0 {
        Seq::empty()
    } else if ps.last().kind is Type {
        clone_bounds(ps.drop_last()) + ps.last().name@ + ": ::core::clone::Clone, "@
    } else {
        clone_bounds(ps.drop_last())
    }
}

/// The type-level `infallible` flag.
pub open spec fn is_infallible(input: DeriveInput) -> bool {
    flag_of(input.attrs@, "infallible"@)
}

/// `p` is the plan of the type `input`, whose fields are `fs`.
pub open spec fn struct_plan_of(p: StructPlan, input: DeriveInput, fs: Seq<Field>) -> bool {
    let ps = input.generics.params@;
    &&& p.name@ == input.ident@
    &&& p.vis@ == input.vis@
    &&& p.decl_generics@ == generics_text(ps, Form::Decl)
    &&& p.impl_generics@ == generics_text(ps, Form::Impl)
    &&& p.use_generics@ == generics_text(ps, Form::Use)
    &&& p.where_clause@ == where_text(input.generics.where_preds@, Seq::empty())
    &&& p.clone_where@ == where_text(input.generics.where_preds@, clone_bounds(ps))
    &&& p.fields@.len() == fs.len()
    &&& forall|i: int| 0 <= i < fs.len() ==> plan_of(#[trigger] p.fields@[i], fs[i])
    &&& forall|i: int| 0 <= i < fs.len() ==> (#[trigger] p.fields@[i]).wf()
    &&& p.infallible == is_infallible(input)
    &&& p.cloneable == flag_of(input.attrs@, "clone"@)
}

/// `d` is the diagnostic that stops generation for `input`.
pub open spec fn diagnosed(input: DeriveInput, d: Diagnostic) -> bool {
    match d {
        Diagnostic::NotStruct => input.data is Enum || input.data is Union,
        Diagnostic::UnnamedFields => input.data is Unnamed,
        Diagnostic::TypeAnnotation => named_fields(input) is Some && !all_well_formed(
            input.attrs@,
            false,
        ),
        Diagnostic::Field { field, error } => named_fields(input) matches Some(fs)
            && all_well_formed(input.attrs@, false) && exists|i: int|
            0 <= i < fs.len() && field_error(fs[i]) == Some(error) && fs[i].ident@ == field@
                && forall|j: int| 0 <= j < i ==> field_error(#[trigger] fs[j]) is None,
        Diagnostic::NameCollision { name } => named_fields(input) matches Some(fs)
            && all_well_formed(input.attrs@, false) && (forall|i: int|
            0 <= i < fs.len() ==> field_error(#[trigger] fs[i]) is None) && clashes(fs, name@),
        Diagnostic::Infallible { fields } => named_fields(input) matches Some(fs)
            && all_well_formed(input.attrs@, false) && (forall|i: int|
            0 <= i < fs.len() ==> field_error(#[trigger] fs[i]) is None) && !collides(fs)
            && is_infallible(input) && views(fields@) == required_names(fs) && fields@.len() > 0,
        Diagnostic::MissingEnumName => false,
    }
}

/// Generation goes ahead for `input`, whose fields are `fs`.
pub open spec fn accepted(input: DeriveInput, fs: Seq<Field>) -> bool {
    &&& all_well_formed(input.attrs@, false)
    &&& forall|i: int| 0 <= i < fs.len() ==> field_error(#[trigger] fs[i]) is None
    &&& !collides(fs)
    &&& !(is_infallible(input) && required_names(fs).len() > 0)
}

/// The diagnostic for a type that is not a struct with named fields.
pub open spec fn shape_diagnostic(input: DeriveInput, d: Diagnostic) -> bool {
    match input.data {
        Data::Named(_) => false,
        Data::Unnamed => d is UnnamedFields,
        _ => d is NotStruct,
    }
}

/// The fields of a struct with named fields, or the diagnostic for any
/// other type.
pub fn get_named_struct(input: &DeriveInput) -> (r: Result<&Vec<Field>, Diagnostic>)
    ensures
        match r {
            Ok(fs) => named_fields(*input) == Some(fs@),
            Err(d) => named_fields(*input) is None && shape_diagnostic(*input, d),
        },
{
    match &input.data {
        Data::Named(fs) => Ok(fs),
        Data::Unnamed => Err(Diagnostic::UnnamedFields),
        _ => Err(Diagnostic::NotStruct),
    }
}

/// The name of the method that the plan gives the builder.
fn plan_method(p: &FieldPlan) -> (r: Option<&String>)
    ensures
        forall|f: Field|
            plan_of(*p, f) ==> match r {
                Some(n) => method_name(f) == Some(n@),
                None => method_name(f) is None,
            },
{
    match &p.mutation {
        Mutation::Setter { .. } => Some(&p.name),
        Mutation::Append { accessor, .. } => Some(accessor),
        Mutation::Insert { accessor, .. } => Some(accessor),
        Mutation::Fixed => None,
    }
}

fn render_clone_bounds(ps: &Vec<GenericParam>) -> (r: String)
    ensures
        r@ == clone_bounds(ps@),
{
    let mut out = String::new();
    let mut i: usize = 0;
    while i < ps.len()
        invariant
            i <= ps@.len(),
            out@ == clone_bounds(ps@.subrange(0, i as int)),
        decreases ps@.len() - i,
    {
        assert(ps@.subrange(0, i + 1).drop_last() =~= ps@.subrange(0, i as int));
        if let ParamKind::Type = ps[i].kind {
            push(&mut out, ps[i].name.as_str());
            push(&mut out, ": ::core::clone::Clone, ");
            assert(out@ =~= clone_bounds(ps@.subrange(0, i + 1)));
        }
        i = i + 1;
    }
    assert(ps@.subrange(0, ps@.len() as int) =~= ps@);
    out
}

/// A name shared by two of the builder's methods, if there is one.
fn find_collision(ps: &Vec<FieldPlan>, Ghost(fs): Ghost<Seq<Field>>) -> (r: Option<String>)
    requires
        ps@.len() == fs.len(),
        forall|i: int| 0 <= i < fs.len() ==> plan_of(#[trigger] ps@[i], fs[i]),
    ensures
        match r {
            Some(n) => clashes(fs, n@),
            None => !collides(fs),
        },
{
    let mut names: Vec<String> = Vec::new();
    let mut i: usize = 0;
    while i < ps.len()
        invariant
            i <= ps@.len(),
            ps@.len() == fs.len(),
            forall|k: int| 0 <= k < fs.len() ==> plan_of(#[trigger] ps@[k], fs[k]),
            views(names@) == all_method_names(fs.subrange(0, i as int)),
        decreases ps@.len() - i,
    {
        assert(fs.subrange(0, i + 1).drop_last() =~= fs.subrange(0, i as int));
        assert(plan_of(ps@[i as int], fs[i as int]));
        let ghost before = views(names@);
        if let Some(m) = plan_method(&ps[i]) {
            names.push(m.clone());
            let mut set_m = String::new();
            push(&mut set_m, "set_");
            push(&mut set_m, m.as_str());
            names.push(set_m);
        }
        assert(views(names@) =~= before + method_names(fs[i as int]));
        i = i + 1;
    }
    assert(fs.subrange(0, fs.len() as int) =~= fs);
    let ghost ns = all_method_names(fs);
    let mut k: usize = 0;
    while k < names.len()
        invariant
            k <= names@.len(),
            views(names@) == ns,
            ns == all_method_names(fs),
            forall|a: int| 0 <= a < k ==> ns[a] != "build"@,
        decreases names@.len() - k,
    {
        if str_eq(&names[k], "build") {
            assert(ns[k as int] == "build"@);
            return Some(names[k].clone());
        }
        k = k + 1;
    }
    let mut j: usize = 0;
    while j < names.len()
        invariant
            j <= names@.len(),
            views(names@) == ns,
            ns == all_method_names(fs),
            !ns.contains("build"@),
            forall|a: int, b: int| 0 <= a < b < j ==> ns[a] != ns[b],
        decreases names@.len() - j,
    {
        let mut i: usize = 0;
        while i < j
            invariant
                i <= j < names@.len(),
                views(names@) == ns,
                ns == all_method_names(fs),
                forall|a: int, b: int| 0 <= a < b < j ==> ns[a] != ns[b],
                forall|a: int| 0 <= a < i ==> ns[a] != ns[j as int],
            decreases j - i,
        {
            if str_eq(&names[i], names[j].as_str()) {
                let ghost n = names@[j as int]@;
                assert(ns[i as int] == n && ns[j as int] == n);
                assert(clashes(fs, n));
                return Some(names[j].clone());
            }
            i = i + 1;
        }
        j = j + 1;
    }
    None
}

/// Resolves the type's annotations and its fields' into the type's plan, or
/// the diagnostic that stops generation: in this order, a type that is not a
/// struct with named fields; a malformed type-level annotation; the first
/// field, in declaration order, whose annotations cannot be planned; two
/// methods of the same name; and, for an `infallible` type, every field that
/// would fail when unset, all of them in one diagnostic.
pub fn resolve_struct(input: &DeriveInput) -> (r: Result<StructPlan, Diagnostic>)
    ensures
        match r {
            Err(d) => diagnosed(*input, d),
            Ok(p) => named_fields(*input) matches Some(fs) && accepted(*input, fs)
                && struct_plan_of(p, *input, fs),
        },
{
    let fs = match get_named_struct(input) {
        Ok(fs) => fs,
        Err(d) => { return Err(d); },
    };
    if find_malformed(&input.attrs, false).is_some() {
        return Err(Diagnostic::TypeAnnotation);
    }
    let mut plans: Vec<FieldPlan> = Vec::new();
    let mut i: usize = 0;
    while i < fs.len()
        invariant
            i <= fs@.len(),
            plans@.len() == i,
            all_well_formed(input.attrs@, false),
            named_fields(*input) == Some(fs@),
            forall|k: int| 0 <= k < i ==> field_error(#[trigger] fs@[k]) is None,
            forall|k: int| 0 <= k < i ==> plan_of(#[trigger] plans@[k], fs@[k]),
            forall|k: int| 0 <= k < i ==> (#[trigger] plans@[k]).wf(),
        decreases fs@.len() - i,
    {
        match resolve_field(&fs[i]) {
            Ok(p) => { plans.push(p); },
            Err(error) => {
                assert(field_error(fs@[i as int]) == Some(error));
                return Err(Diagnostic::Field { field: fs[i].ident.clone(), error });
            },
        }
        i = i + 1;
    }
    if let Some(name) = find_collision(&plans, Ghost(fs@)) {
        return Err(Diagnostic::NameCollision { name });
    }
    let infallible = find_flag(&input.attrs, "infallible");
    let cloneable = find_flag(&input.attrs, "clone");
    let mut missing: Vec<String> = Vec::new();
    let mut k: usize = 0;
    while k < plans.len()
        invariant
            k <= plans@.len(),
            plans@.len() == fs@.len(),
            forall|m: int| 0 <= m < fs@.len() ==> (#[trigger] plans@[m]).wf(),
            forall|m: int| 0 <= m < fs@.len() ==> field_error(#[trigger] fs@[m]) is None,
            forall|m: int| 0 <= m < fs@.len() ==> plan_of(#[trigger] plans@[m], fs@[m]),
            views(missing@) == required_names(fs@.subrange(0, k as int)),
        decreases plans@.len() - k,
    {
        assert(fs@.subrange(0, k + 1).drop_last() =~= fs@.subrange(0, k as int));
        assert(plan_of(plans@[k as int], fs@[k as int]));
        if let Resolution::ErrorOnAbsent = plans[k].resolution {
            let ghost before = missing@;
            missing.push(plans[k].name.clone());
            assert(views(missing@) =~= views(before).push(fs@[k as int].ident@));
        }
        k = k + 1;
    }
    assert(fs@.subrange(0, fs@.len() as int) =~= fs@);
    assert(views(missing@).len() == missing@.len());
    if infallible && missing.len() > 0 {
        return Err(Diagnostic::Infallible { fields: missing });
    }
    let clone_extra = render_clone_bounds(&input.generics.params);
    proof {
        reveal_strlit("");
        assert(""@ =~= Seq::<char>::empty());
    }
    let p = StructPlan {
            name: input.ident.clone(),
            vis: input.vis.clone(),
            decl_generics: render_generics(&input.generics, Form::Decl),
            impl_generics: render_generics(&input.generics, Form::Impl),
            use_generics: render_generics(&input.generics, Form::Use),
            where_clause: render_where(&input.generics, ""),
            clone_where: render_where(&input.generics, clone_extra.as_str()),
            fields: plans,
            infallible,
            cloneable,
        };
    assert(struct_plan_of(p, *input, fs@));
    Ok(p)
}

} // verus!

verus! {

/// The names, separated by `, `.
pub open spec fn join_names(s: Seq<Seq<char>>) -> Seq<char>
    decreases s.len(),
{
    if s.len() == 0 {
        Seq::empty()
    } else if s.len() == 1 {
        s[0]
    } else {
        join_names(s.drop_last()) + ", "@ + s.last()
    }
}

/// What a field error says.
pub open spec fn field_error_text(e: FieldError) -> Seq<char> {
    match e {
        FieldError::Malformed => "expected `builder(key)` or `builder(key = value)` with a recognised key"@,
        FieldError::Conflict => "conflicting field policy: an accumulator cannot be combined with `optional`, `disabled` or another accumulator"@,
        FieldError::AccumulatorShape => "declared type incompatible with accumulator annotation"@,
        FieldError::OptionalShape => "an `optional` field must have type `Option<T>`"@,
        FieldError::DisabledWithoutDefault => "a `disabled` field needs `def = ...`"@,
    }
}

/// A diagnostic's message.
pub open spec fn message_text(d: Diagnostic) -> Seq<char> {
    match d {
        Diagnostic::NotStruct => "the derive must be applied to a struct"@,
        Diagnostic::UnnamedFields => "the struct's fields must be named"@,
        Diagnostic::TypeAnnotation => "malformed or unrecognised annotation on the type"@,
        Diagnostic::Field { field, error } => "field `"@ + field@ + "`: "@ + field_error_text(error),
        Diagnostic::NameCollision { name } => "two builder methods would be named `"@ + name@ + "`"@,
        Diagnostic::Infallible { fields } => "an infallible builder needs every field optional, accumulated or given a default; these are not: "@
            + join_names(views(fields@)),
        Diagnostic::MissingEnumName => "missing `enum_name = ...` in `into_enum(...)`"@,
    }
}

impl FieldError {
    /// What the error says.
    pub fn text(&self) -> (r: &'static str)
        ensures
            r@ == field_error_text(*self),
    {
        match self {
            FieldError::Malformed => "expected `builder(key)` or `builder(key = value)` with a recognised key",
            FieldError::Conflict => "conflicting field policy: an accumulator cannot be combined with `optional`, `disabled` or another accumulator",
            FieldError::AccumulatorShape => "declared type incompatible with accumulator annotation",
            FieldError::OptionalShape => "an `optional` field must have type `Option<T>`",
            FieldError::DisabledWithoutDefault => "a `disabled` field needs `def = ...`",
        }
    }
}

impl Diagnostic {
    /// The diagnostic's message.
    pub fn message(&self) -> (r: String)
        ensures
            r@ == message_text(*self),
    {
        let mut out = String::new();
        match self {
            Diagnostic::NotStruct => push(&mut out, "the derive must be applied to a struct"),
            Diagnostic::UnnamedFields => push(&mut out, "the struct's fields must be named"),
            Diagnostic::TypeAnnotation => push(&mut out, "malformed or unrecognised annotation on the type"),
            Diagnostic::Field { field, error } => {
                push(&mut out, "field `");
                push(&mut out, field.as_str());
                push(&mut out, "`: ");
                push(&mut out, error.text());
                assert(out@ =~= message_text(*self));
            },
            Diagnostic::NameCollision { name } => {
                push(&mut out, "two builder methods would be named `");
                push(&mut out, name.as_str());
                push(&mut out, "`");
                assert(out@ =~= message_text(*self));
            },
            Diagnostic::Infallible { fields } => {
                push(
                    &mut out,
                    "an infallible builder needs every field optional, accumulated or given a default; these are not: ",
                );
                let ghost head = out@;
                let mut i: usize = 0;
                while i < fields.len()
                    invariant
                        i <= fields@.len(),
                        out@ == head + join_names(views(fields@.subrange(0, i as int))),
                    decreases fields@.len() - i,
                {
                    let ghost s = views(fields@.subrange(0, i + 1));
                    assert(s.drop_last() =~= views(fields@.subrange(0, i as int)));
                    if i > 0 {
                        push(&mut out, ", ");
                    }
                    push(&mut out, fields[i].as_str());
                    proof {
                        if i == 0 {
                            assert(views(fields@.subrange(0, 0)) =~= Seq::<Seq<char>>::empty());
                        }
                    }
                    assert(out@ =~= head + join_names(s));
                    i = i + 1;
                }
                assert(fields@.subrange(0, fields@.len() as int) =~= fields@);
                assert(out@ =~= message_text(*self));
            },
            Diagnostic::MissingEnumName => push(&mut out, "missing `enum_name = ...` in `into_enum(...)`"),
        }
        assert(out@ =~= message_text(*self));
        out
    }
}

} // verus!
