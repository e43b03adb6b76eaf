//! Emitting the builder's source text from a type's plan: the builder type,
//! its duplication impl, its finalizer and methods, and the entry point on
//! the record type.
use vstd::prelude::*;
use crate::model::DeriveInput;
use crate::plan::{
    accepted, diagnosed, named_fields, resolve_struct, struct_plan_of, Diagnostic, FieldPlan,
    Mutation, Resolution, StructPlan,
};
use crate::text::push;

verus! {

/// The concatenation of `g` applied to each plan, in order.
pub open spec fn concat_map(fs: Seq<FieldPlan>, g: spec_fn(FieldPlan) -> Seq<char>) -> Seq<char>
    decreases fs.len(),
{
    if fs.len() == 0 {
        Seq::empty()
    } else {
        concat_map(fs.drop_last(), g) + g(fs.last())
    }
}

/// The visibility followed by a space, or nothing.
pub open spec fn vis_prefix(vis: Seq<char>) -> Seq<char> {
    if vis.len() == 0 {
        Seq::empty()
    } else {
        vis + " "@
    }
}

/// The builder's storage slot for a field: its declared type where that
/// expresses absence itself, else an `Option` of it; none for a fixed field.
pub open spec fn storage_text(f: FieldPlan) -> Seq<char> {
    if f.mutation is Fixed {
        Seq::empty()
    } else if f.presence_wrapped {
        "    "@ + f.name@ + ": ::core::option::Option<"@ + f.ty@ + ">,\n"@
    } else {
        "    "@ + f.name@ + ": "@ + f.ty@ + ",\n"@
    }
}

/// A pair of methods: one that takes the builder by value and returns it,
/// and one, prefixed `set_`, that takes it by exclusive reference and
/// returns that reference; both run `stmt`.
pub open spec fn method_pair(name: Seq<char>, params: Seq<char>, stmt: Seq<char>) -> Seq<char> {
    "    pub fn "@ + name + "(mut self"@ + params + ") -> Self {\n        "@ + stmt
        + "\n        self\n    }\n    pub fn set_"@ + name + "(&mut self"@ + params
        + ") -> &mut Self {\n        "@ + stmt + "\n        self\n    }\n"@
}

/// A parameter taking anything convertible to `ty`.
pub open spec fn into_param(pname: Seq<char>, ty: Seq<char>) -> Seq<char> {
    ", "@ + pname + ": impl ::core::convert::Into<"@ + ty + ">"@
}

/// The methods that set or fill a field.
pub open spec fn methods_text(f: FieldPlan) -> Seq<char> {
    match f.mutation {
        Mutation::Setter { ty } => method_pair(
            f.name@,
            into_param("value"@, ty@),
            "self."@ + f.name@
                + " = ::core::option::Option::Some(::core::convert::Into::into(value));"@,
        ),
        Mutation::Append { accessor, elem } => method_pair(
            accessor@,
            into_param("value"@, elem@),
            "self."@ + f.name@ + ".push(::core::convert::Into::into(value));"@,
        ),
        Mutation::Insert { accessor, key, value } => method_pair(
            accessor@,
            into_param("key"@, key@) + into_param("value"@, value@),
            "self."@ + f.name@
                + ".insert(::core::convert::Into::into(key), ::core::convert::Into::into(value));"@,
        ),
        Mutation::Fixed => Seq::empty(),
    }
}

/// The expression that finalizing evaluates for a field.
pub open spec fn resolve_text(f: FieldPlan) -> Seq<char> {
    match f.resolution {
        Resolution::TakeAsIs => "self."@ + f.name@,
        Resolution::DefaultOnAbsent(e) => "match self."@ + f.name@
            + " { ::core::option::Option::Some(value) => value, ::core::option::Option::None => ::core::convert::Into::into("@
            + e@ + "), }"@,
        Resolution::ErrorOnAbsent => "match self."@ + f.name@
            + " { ::core::option::Option::Some(value) => value, ::core::option::Option::None => return ::core::result::Result::Err(\""@
            + f.name@ + " is not set\"), }"@,
        Resolution::FixedLiteral(e) => e@,
    }
}

/// The statement of the finalizer that binds a field's value.
pub open spec fn let_text(f: FieldPlan) -> Seq<char> {
    "        let "@ + f.name@ + " = "@ + resolve_text(f) + ";\n"@
}

/// A field's name in the record's construction.
pub open spec fn name_text(f: FieldPlan) -> Seq<char> {
    f.name@ + ", "@
}

/// A field's value in a fresh builder: an empty container for an
/// accumulator, else no value.
pub open spec fn init_text(f: FieldPlan) -> Seq<char> {
    match f.mutation {
        Mutation::Fixed => Seq::empty(),
        Mutation::Append { .. } => f.name@ + ": ::core::default::Default::default(), "@,
        Mutation::Insert { .. } => f.name@ + ": ::core::default::Default::default(), "@,
        Mutation::Setter { .. } => f.name@ + ": ::core::option::Option::None, "@,
    }
}

/// A field's slot in the builder's duplicate.
pub open spec fn clone_text(f: FieldPlan) -> Seq<char> {
    if f.mutation is Fixed {
        Seq::empty()
    } else {
        f.name@ + ": ::core::clone::Clone::clone(&self."@ + f.name@ + "), "@
    }
}

pub open spec fn storage_g() -> spec_fn(FieldPlan) -> Seq<char> {
    |f: FieldPlan| storage_text(f)
}

pub open spec fn methods_g() -> spec_fn(FieldPlan) -> Seq<char> {
    |f: FieldPlan| methods_text(f)
}

pub open spec fn let_g() -> spec_fn(FieldPlan) -> Seq<char> {
    |f: FieldPlan| let_text(f)
}

pub open spec fn name_g() -> spec_fn(FieldPlan) -> Seq<char> {
    |f: FieldPlan| name_text(f)
}

pub open spec fn init_g() -> spec_fn(FieldPlan) -> Seq<char> {
    |f: FieldPlan| init_text(f)
}

pub open spec fn clone_g() -> spec_fn(FieldPlan) -> Seq<char> {
    |f: FieldPlan| clone_text(f)
}

pub open spec fn builder_name(p: StructPlan) -> Seq<char> {
    p.name@ + "Builder"@
}

/// The builder type's declaration.
pub open spec fn decl_text(p: StructPlan) -> Seq<char> {
    vis_prefix(p.vis@) + "struct "@ + builder_name(p) + p.decl_generics@ + p.where_clause@
        + " {\n"@ + concat_map(p.fields@, storage_g()) + "}\n"@
}

/// The builder's duplication, where the type asks for it.
pub open spec fn clone_impl_text(p: StructPlan) -> Seq<char> {
    if p.cloneable {
        "impl"@ + p.impl_generics@ + " ::core::clone::Clone for "@ + builder_name(p)
            + p.use_generics@ + p.clone_where@ + " {\n    fn clone(&self) -> Self {\n        "@
            + builder_name(p) + " { "@ + concat_map(p.fields@, clone_g())
            + "}\n    }\n}\n"@
    } else {
        Seq::empty()
    }
}

/// The record built from the bound field values.
pub open spec fn construct_text(p: StructPlan) -> Seq<char> {
    p.name@ + " { "@ + concat_map(p.fields@, name_g()) + "}"@
}

/// The finalizer: the record itself for an infallible type, else a result
/// holding the record or the first unset required field's error.
pub open spec fn build_text(p: StructPlan) -> Seq<char> {
    let ret = if p.infallible {
        p.name@ + p.use_generics@
    } else {
        "::core::result::Result<"@ + p.name@ + p.use_generics@ + ", &'static str>"@
    };
    let value = if p.infallible {
        construct_text(p)
    } else {
        "::core::result::Result::Ok("@ + construct_text(p) + ")"@
    };
    "    "@ + vis_prefix(p.vis@) + "fn build(self) -> "@ + ret + " {\n"@ + concat_map(p.fields@, let_g()) + "        "@ + value + "\n    }\n"@
}

/// The builder's impl block: the finalizer, then each field's methods.
pub open spec fn impl_text(p: StructPlan) -> Seq<char> {
    "impl"@ + p.impl_generics@ + " "@ + builder_name(p) + p.use_generics@ + p.where_clause@
        + " {\n"@ + build_text(p) + concat_map(p.fields@, methods_g())
        + "}\n"@
}

/// The record type's entry point, which makes an empty builder.
pub open spec fn entry_text(p: StructPlan) -> Seq<char> {
    "impl"@ + p.impl_generics@ + " "@ + p.name@ + p.use_generics@ + p.where_clause@
        + " {\n    "@ + vis_prefix(p.vis@) + "fn builder() -> "@ + builder_name(p)
        + p.use_generics@ + " {\n        "@ + builder_name(p) + " { "@ + concat_map(p.fields@, init_g()) + "}\n    }\n}\n"@
}

/// The whole generated source for a type's plan.
pub open spec fn builder_text(p: StructPlan) -> Seq<char> {
    decl_text(p) + clone_impl_text(p) + impl_text(p) + entry_text(p)
}

} // verus!

verus! {

proof fn lemma_concat_step(fs: Seq<FieldPlan>, i: int, g: spec_fn(FieldPlan) -> Seq<char>)
    requires
        0 <= i < fs.len(),
    ensures
        concat_map(fs.subrange(0, i + 1), g) == concat_map(fs.subrange(0, i), g) + g(fs[i]),
{
    assert(fs.subrange(0, i + 1).drop_last() =~= fs.subrange(0, i));
}

fn push_storage(out: &mut String, f: &FieldPlan)
    ensures
        final(out)@ == old(out)@ + storage_text(*f),
{
    let ghost o = out@;
    if let Mutation::Fixed = f.mutation {
        assert(out@ =~= o + storage_text(*f));
        return;
    }
    push(out, "    ");
    push(out, f.name.as_str());
    if f.presence_wrapped {
        push(out, ": ::core::option::Option<");
        push(out, f.ty.as_str());
        push(out, ">,\n");
    } else {
        push(out, ": ");
        push(out, f.ty.as_str());
        push(out, ",\n");
    }
    assert(out@ =~= o + storage_text(*f));
}

fn push_method_pair(out: &mut String, name: &str, params: &str, stmt: &str)
    ensures
        final(out)@ == old(out)@ + method_pair(name@, params@, stmt@),
{
    let ghost o = out@;
    push(out, "    pub fn ");
    push(out, name);
    push(out, "(mut self");
    push(out, params);
    push(out, ") -> Self {\n        ");
    push(out, stmt);
    push(out, "\n        self\n    }\n    pub fn set_");
    push(out, name);
    push(out, "(&mut self");
    push(out, params);
    push(out, ") -> &mut Self {\n        ");
    push(out, stmt);
    push(out, "\n        self\n    }\n");
    assert(out@ =~= o + method_pair(name@, params@, stmt@));
}

fn push_into_param(out: &mut String, pname: &str, ty: &str)
    ensures
        final(out)@ == old(out)@ + into_param(pname@, ty@),
{
    let ghost o = out@;
    push(out, ", ");
    push(out, pname);
    push(out, ": impl ::core::convert::Into<");
    push(out, ty);
    push(out, ">");
    assert(out@ =~= o + into_param(pname@, ty@));
}

fn push_methods(out: &mut String, f: &FieldPlan)
    ensures
        final(out)@ == old(out)@ + methods_text(*f),
{
    let ghost o = out@;
    let mut params = String::new();
    let mut stmt = String::new();
    push(&mut stmt, "self.");
    push(&mut stmt, f.name.as_str());
    match &f.mutation {
        Mutation::Setter { ty } => {
            push_into_param(&mut params, "value", ty.as_str());
            push(&mut stmt, " = ::core::option::Option::Some(::core::convert::Into::into(value));");
            push_method_pair(out, f.name.as_str(), params.as_str(), stmt.as_str());
        },
        Mutation::Append { accessor, elem } => {
            push_into_param(&mut params, "value", elem.as_str());
            push(&mut stmt, ".push(::core::convert::Into::into(value));");
            push_method_pair(out, accessor.as_str(), params.as_str(), stmt.as_str());
        },
        Mutation::Insert { accessor, key, value } => {
            push_into_param(&mut params, "key", key.as_str());
            push_into_param(&mut params, "value", value.as_str());
            push(
                &mut stmt,
                ".insert(::core::convert::Into::into(key), ::core::convert::Into::into(value));",
            );
            push_method_pair(out, accessor.as_str(), params.as_str(), stmt.as_str());
        },
        Mutation::Fixed => {},
    }
    assert(out@ =~= o + methods_text(*f));
}

fn push_let(out: &mut String, f: &FieldPlan)
    ensures
        final(out)@ == old(out)@ + let_text(*f),
{
    let ghost o = out@;
    push(out, "        let ");
    push(out, f.name.as_str());
    push(out, " = ");
    let ghost m = out@;
    match &f.resolution {
        Resolution::TakeAsIs => {
            push(out, "self.");
            push(out, f.name.as_str());
        },
        Resolution::DefaultOnAbsent(e) => {
            push(out, "match self.");
            push(out, f.name.as_str());
            push(
                out,
                " { ::core::option::Option::Some(value) => value, ::core::option::Option::None => ::core::convert::Into::into(",
            );
            push(out, e.as_str());
            push(out, "), }");
        },
        Resolution::ErrorOnAbsent => {
            push(out, "match self.");
            push(out, f.name.as_str());
            push(
                out,
                " { ::core::option::Option::Some(value) => value, ::core::option::Option::None => return ::core::result::Result::Err(\"",
            );
            push(out, f.name.as_str());
            push(out, " is not set\"), }");
        },
        Resolution::FixedLiteral(e) => {
            push(out, e.as_str());
        },
    }
    assert(out@ =~= m + resolve_text(*f));
    push(out, ";\n");
    assert(out@ =~= o + let_text(*f));
}

fn push_name(out: &mut String, f: &FieldPlan)
    ensures
        final(out)@ == old(out)@ + name_text(*f),
{
    let ghost o = out@;
    push(out, f.name.as_str());
    push(out, ", ");
    assert(out@ =~= o + name_text(*f));
}

fn push_init(out: &mut String, f: &FieldPlan)
    ensures
        final(out)@ == old(out)@ + init_text(*f),
{
    let ghost o = out@;
    match &f.mutation {
        Mutation::Fixed => {},
        Mutation::Setter { .. } => {
            push(out, f.name.as_str());
            push(out, ": ::core::option::Option::None, ");
        },
        _ => {
            push(out, f.name.as_str());
            push(out, ": ::core::default::Default::default(), ");
        },
    }
    assert(out@ =~= o + init_text(*f));
}

fn push_clone(out: &mut String, f: &FieldPlan)
    ensures
        final(out)@ == old(out)@ + clone_text(*f),
{
    let ghost o = out@;
    if let Mutation::Fixed = f.mutation {
    } else {
        push(out, f.name.as_str());
        push(out, ": ::core::clone::Clone::clone(&self.");
        push(out, f.name.as_str());
        push(out, "), ");
    }
    assert(out@ =~= o + clone_text(*f));
}

} // verus!

verus! {

/// The builder type's name.
fn push_builder_name(out: &mut String, p: &StructPlan)
    ensures
        final(out)@ == old(out)@ + builder_name(*p),
{
    let ghost o = out@;
    push(out, p.name.as_str());
    push(out, "Builder");
    assert(out@ =~= o + builder_name(*p));
}

fn push_vis(out: &mut String, vis: &String)
    ensures
        final(out)@ == old(out)@ + vis_prefix(vis@),
{
    let ghost o = out@;
    if !vis.as_str().is_empty() {
        push(out, vis.as_str());
        push(out, " ");
    }
    assert(out@ =~= o + vis_prefix(vis@));
}

/// The per-field pieces of the generated text, each concatenated over the
/// fields in order.
struct Pieces {
    storage: String,
    methods: String,
    lets: String,
    names: String,
    inits: String,
    clones: String,
}

fn field_pieces(fs: &Vec<FieldPlan>) -> (r: Pieces)
    ensures
        r.storage@ == concat_map(fs@, storage_g()),
        r.methods@ == concat_map(fs@, methods_g()),
        r.lets@ == concat_map(fs@, let_g()),
        r.names@ == concat_map(fs@, name_g()),
        r.inits@ == concat_map(fs@, init_g()),
        r.clones@ == concat_map(fs@, clone_g()),
{
    let mut r = Pieces {
        storage: String::new(),
        methods: String::new(),
        lets: String::new(),
        names: String::new(),
        inits: String::new(),
        clones: String::new(),
    };
    let mut i: usize = 0;
    while i < fs.len()
        invariant
            i <= fs@.len(),
            r.storage@ == concat_map(fs@.subrange(0, i as int), storage_g()),
            r.methods@ == concat_map(fs@.subrange(0, i as int), methods_g()),
            r.lets@ == concat_map(fs@.subrange(0, i as int), let_g()),
            r.names@ == concat_map(fs@.subrange(0, i as int), name_g()),
            r.inits@ == concat_map(fs@.subrange(0, i as int), init_g()),
            r.clones@ == concat_map(fs@.subrange(0, i as int), clone_g()),
        decreases fs@.len() - i,
    {
        proof {
            lemma_concat_step(fs@, i as int, storage_g());
            lemma_concat_step(fs@, i as int, methods_g());
            lemma_concat_step(fs@, i as int, let_g());
            lemma_concat_step(fs@, i as int, name_g());
            lemma_concat_step(fs@, i as int, init_g());
            lemma_concat_step(fs@, i as int, clone_g());
        }
        let f = &fs[i];
        push_storage(&mut r.storage, f);
        push_methods(&mut r.methods, f);
        push_let(&mut r.lets, f);
        push_name(&mut r.names, f);
        push_init(&mut r.inits, f);
        push_clone(&mut r.clones, f);
        i = i + 1;
    }
    assert(fs@.subrange(0, fs@.len() as int) =~= fs@);
    r
}

fn push_decl(out: &mut String, p: &StructPlan, storage: &String)
    requires
        storage@ == concat_map(p.fields@, storage_g()),
    ensures
        final(out)@ == old(out)@ + decl_text(*p),
{
    let ghost o = out@;
    push_vis(out, &p.vis);
    push(out, "struct ");
    push_builder_name(out, p);
    push(out, p.decl_generics.as_str());
    push(out, p.where_clause.as_str());
    push(out, " {\n");
    push(out, storage.as_str());
    push(out, "}\n");
    assert(out@ =~= o + decl_text(*p));
}

fn push_clone_impl(out: &mut String, p: &StructPlan, clones: &String)
    requires
        clones@ == concat_map(p.fields@, clone_g()),
    ensures
        final(out)@ == old(out)@ + clone_impl_text(*p),
{
    let ghost o = out@;
    if p.cloneable {
        push(out, "impl");
        push(out, p.impl_generics.as_str());
        push(out, " ::core::clone::Clone for ");
        push_builder_name(out, p);
        push(out, p.use_generics.as_str());
        push(out, p.clone_where.as_str());
        push(out, " {\n    fn clone(&self) -> Self {\n        ");
        push_builder_name(out, p);
        push(out, " { ");
        push(out, clones.as_str());
        push(out, "}\n    }\n}\n");
    }
    assert(out@ =~= o + clone_impl_text(*p));
}

fn push_build(out: &mut String, p: &StructPlan, lets: &String, names: &String)
    requires
        lets@ == concat_map(p.fields@, let_g()),
        names@ == concat_map(p.fields@, name_g()),
    ensures
        final(out)@ == old(out)@ + build_text(*p),
{
    let ghost o = out@;
    push(out, "    ");
    push_vis(out, &p.vis);
    push(out, "fn build(self) -> ");
    let ghost a = out@;
    if p.infallible {
        push(out, p.name.as_str());
        push(out, p.use_generics.as_str());
    } else {
        push(out, "::core::result::Result<");
        push(out, p.name.as_str());
        push(out, p.use_generics.as_str());
        push(out, ", &'static str>");
    }
    let ghost b = out@;
    push(out, " {\n");
    push(out, lets.as_str());
    push(out, "        ");
    let ghost c = out@;
    if !p.infallible {
        push(out, "::core::result::Result::Ok(");
    }
    push(out, p.name.as_str());
    push(out, " { ");
    push(out, names.as_str());
    push(out, "}");
    if !p.infallible {
        push(out, ")");
    }
    let ghost d = out@;
    push(out, "\n    }\n");
    let ghost ret = if p.infallible {
        p.name@ + p.use_generics@
    } else {
        "::core::result::Result<"@ + p.name@ + p.use_generics@ + ", &'static str>"@
    };
    let ghost value = if p.infallible {
        construct_text(*p)
    } else {
        "::core::result::Result::Ok("@ + construct_text(*p) + ")"@
    };
    assert(b =~= a + ret);
    assert(d =~= c + value);
    assert(out@ =~= o + build_text(*p));
}

fn push_impl(out: &mut String, p: &StructPlan, pieces: &Pieces)
    requires
        pieces.lets@ == concat_map(p.fields@, let_g()),
        pieces.names@ == concat_map(p.fields@, name_g()),
        pieces.methods@ == concat_map(p.fields@, methods_g()),
    ensures
        final(out)@ == old(out)@ + impl_text(*p),
{
    let ghost o = out@;
    push(out, "impl");
    push(out, p.impl_generics.as_str());
    push(out, " ");
    push_builder_name(out, p);
    push(out, p.use_generics.as_str());
    push(out, p.where_clause.as_str());
    push(out, " {\n");
    push_build(out, p, &pieces.lets, &pieces.names);
    push(out, pieces.methods.as_str());
    push(out, "}\n");
    assert(out@ =~= o + impl_text(*p));
}

fn push_entry(out: &mut String, p: &StructPlan, inits: &String)
    requires
        inits@ == concat_map(p.fields@, init_g()),
    ensures
        final(out)@ == old(out)@ + entry_text(*p),
{
    let ghost o = out@;
    push(out, "impl");
    push(out, p.impl_generics.as_str());
    push(out, " ");
    push(out, p.name.as_str());
    push(out, p.use_generics.as_str());
    push(out, p.where_clause.as_str());
    push(out, " {\n    ");
    push_vis(out, &p.vis);
    push(out, "fn builder() -> ");
    push_builder_name(out, p);
    push(out, p.use_generics.as_str());
    push(out, " {\n        ");
    push_builder_name(out, p);
    push(out, " { ");
    push(out, inits.as_str());
    push(out, "}\n    }\n}\n");
    assert(out@ =~= o + entry_text(*p));
}

/// The whole generated source for a type's plan.
pub fn emit_builder(p: &StructPlan) -> (r: String)
    ensures
        r@ == builder_text(*p),
{
    let pieces = field_pieces(&p.fields);
    let mut out = String::new();
    push_decl(&mut out, p, &pieces.storage);
    push_clone_impl(&mut out, p, &pieces.clones);
    push_impl(&mut out, p, &pieces);
    push_entry(&mut out, p, &pieces.inits);
    assert(out@ =~= builder_text(*p));
    out
}

} // verus!

verus! {

/// The source of the builder for a type, or the diagnostic that stops its
/// generation.
pub fn builder_derive(input: &DeriveInput) -> (r: Result<String, Diagnostic>)
    ensures
        match r {
            Err(d) => diagnosed(*input, d),
            Ok(s) => named_fields(*input) matches Some(fs) && accepted(*input, fs) && exists|
                p: StructPlan,
            | struct_plan_of(p, *input, fs) && s@ == builder_text(p),
        },
{
    match resolve_struct(input) {
        Ok(p) => {
            let s = emit_builder(&p);
            Ok(s)
        },
        Err(d) => Err(d),
    }
}

} // verus!
