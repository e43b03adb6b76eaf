//! The simpler generators that share the type model: accessors (getters
//! and setters, with a configurable prefix), a plain constructor, boxing,
//! and conversion into a wrapping enum variant.
use vstd::prelude::*;
use crate::attrs::{is_ident, is_punct};
use crate::emit::vis_prefix;
use crate::model::{Attribute, DeriveInput, Field, Meta, Token};
use crate::plan::{get_named_struct, named_fields, shape_diagnostic, Diagnostic};
use crate::text::{push, str_eq};
use crate::types::{generics_text, render_generics, render_where, where_text, Form};

verus! {

/// The concatenation of `g` applied to each field, in order.
pub open spec fn concat_fields(fs: Seq<Field>, g: spec_fn(Field) -> Seq<char>) -> Seq<char>
    decreases fs.len(),
{
    if fs.len() == 0 {
        Seq::empty()
    } else {
        concat_fields(fs.drop_last(), g) + g(fs.last())
    }
}

proof fn lemma_concat_fields_step(fs: Seq<Field>, i: int, g: spec_fn(Field) -> Seq<char>)
    requires
        0 <= i < fs.len(),
    ensures
        concat_fields(fs.subrange(0, i + 1), g) == concat_fields(fs.subrange(0, i), g) + g(fs[i]),
{
    assert(fs.subrange(0, i + 1).drop_last() =~= fs.subrange(0, i));
}

/// An impl block for the type itself holding `body`.
pub open spec fn impl_block(input: DeriveInput, body: Seq<char>) -> Seq<char> {
    let ps = input.generics.params@;
    "impl"@ + generics_text(ps, Form::Impl) + " "@ + input.ident@ + generics_text(ps, Form::Use)
        + where_text(input.generics.where_preds@, Seq::empty()) + " {\n"@ + body + "}\n"@
}

/// Whether the last identifier of an annotation's path is `name`.
pub open spec fn attr_named(a: Attribute, name: Seq<char>) -> bool {
    a.path@.len() > 0 && a.path@.last()@ == name
}

fn attr_named_exec(a: &Attribute, name: &str) -> (r: bool)
    ensures
        r == attr_named(*a, name@),
{
    let n = a.path.len();
    n > 0 && str_eq(&a.path[n - 1], name)
}

fn push_impl_open(out: &mut String, input: &DeriveInput)
    ensures
        final(out)@ + "}\n"@ == old(out)@ + impl_block(*input, Seq::empty()),
        forall|body: Seq<char>|
            final(out)@ + body + "}\n"@ == old(out)@ + #[trigger] impl_block(*input, body),
{
    let ghost o = out@;
    push(out, "impl");
    let g = render_generics(&input.generics, Form::Impl);
    push(out, g.as_str());
    push(out, " ");
    push(out, input.ident.as_str());
    let u = render_generics(&input.generics, Form::Use);
    push(out, u.as_str());
    let w = render_where(&input.generics, "");
    proof {
        reveal_strlit("");
        assert(""@ =~= Seq::<char>::empty());
    }
    push(out, w.as_str());
    push(out, " {\n");
    assert forall|body: Seq<char>| out@ + body + "}\n"@ == o + #[trigger] impl_block(*input, body) by {
        assert(out@ + body + "}\n"@ =~= o + impl_block(*input, body));
    }
    assert(out@ + Seq::empty() + "}\n"@ == o + impl_block(*input, Seq::empty()));
    assert(out@ + Seq::empty() =~= out@);
}

/// The `prefix = "..."` value of an annotation.
pub open spec fn prefix_of(a: Attribute) -> Option<Seq<char>> {
    match a.meta {
        Meta::List(t) => if t@.len() >= 3 && is_ident(t@[0], "prefix"@) {
            match t@[2] {
                Token::Literal { str_value: Some(v), .. } => Some(v@),
                _ => None,
            }
        } else {
            None
        },
        _ => None,
    }
}

/// The first prefix given by an annotation named `name`.
pub open spec fn find_prefix(attrs: Seq<Attribute>, name: Seq<char>) -> Option<Seq<char>>
    decreases attrs.len(),
{
    if attrs.len() == 0 {
        None
    } else if attr_named(attrs[0], name) && prefix_of(attrs[0]) is Some {
        prefix_of(attrs[0])
    } else {
        find_prefix(attrs.drop_first(), name)
    }
}

fn prefix_of_exec(a: &Attribute) -> (r: Option<String>)
    ensures
        match r {
            Some(p) => prefix_of(*a) == Some(p@),
            None => prefix_of(*a) is None,
        },
{
    match &a.meta {
        Meta::List(t) => {
            if t.len() >= 3 {
                let is_prefix = match &t[0] {
                    Token::Ident(i) => str_eq(i, "prefix"),
                    _ => false,
                };
                if is_prefix {
                    match &t[2] {
                        Token::Literal { str_value: Some(v), .. } => Some(v.clone()),
                        _ => None,
                    }
                } else {
                    None
                }
            } else {
                None
            }
        },
        _ => None,
    }
}

/// The method-name prefix set by an annotation `name(prefix = "...")`, or
/// `def` where there is none.
pub fn get_prefix(attrs: &Vec<Attribute>, def: &str, name: &str) -> (r: String)
    ensures
        r@ == match find_prefix(attrs@, name@) {
            Some(p) => p,
            None => def@,
        },
{
    let mut i: usize = 0;
    assert(attrs@.subrange(0, attrs@.len() as int) =~= attrs@);
    while i < attrs.len()
        invariant
            i <= attrs@.len(),
            find_prefix(attrs@, name@) == find_prefix(attrs@.subrange(i as int, attrs@.len() as int), name@),
        decreases attrs@.len() - i,
    {
        let ghost rest = attrs@.subrange(i as int, attrs@.len() as int);
        assert(rest[0] == attrs@[i as int]);
        assert(rest.drop_first() =~= attrs@.subrange(i + 1, attrs@.len() as int));
        if attr_named_exec(&attrs[i], name) {
            if let Some(p) = prefix_of_exec(&attrs[i]) {
                return p;
            }
        }
        i = i + 1;
    }
    let mut r = String::new();
    push(&mut r, def);
    r
}

/// Which accessor to generate.
pub enum Accessor {
    /// `fn get_x(&self) -> &T`
    Getter,
    /// `fn set_x(&mut self, x: impl Into<T>)`
    Setter,
}

/// An annotation `name = false`.
pub open spec fn turns_off(a: Attribute, name: Seq<char>) -> bool {
    attr_named(a, name) && (a.meta matches Meta::NameValue(t) && is_ident(t, "false"@))
}

/// A field's accessor is turned off by an annotation `name = false`.
pub open spec fn accessor_off(f: Field, name: Seq<char>) -> bool {
    exists|i: int| 0 <= i < f.attrs@.len() && turns_off(#[trigger] f.attrs@[i], name)
}

/// An accessor's signature and body, after its name.
pub open spec fn accessor_code(f: Field, kind: Accessor) -> Seq<char> {
    match kind {
        Accessor::Getter => "(&self) -> &"@ + f.ty.text@ + " {\n        &self."@ + f.ident@
            + "\n    }\n"@,
        Accessor::Setter => "(&mut self, "@ + f.ident@ + ": impl ::core::convert::Into<"@
            + f.ty.text@ + ">) {\n        self."@ + f.ident@ + " = ::core::convert::Into::into("@
            + f.ident@ + ");\n    }\n"@,
    }
}

/// A field's accessor, named by `prefix` and the field's name.
pub open spec fn accessor_text(
    f: Field,
    vis: Seq<char>,
    name: Seq<char>,
    prefix: Seq<char>,
    kind: Accessor,
) -> Seq<char> {
    if accessor_off(f, name) {
        Seq::empty()
    } else {
        "    "@ + vis_prefix(vis) + "fn "@ + prefix + f.ident@ + accessor_code(f, kind)
    }
}

pub open spec fn accessor_g(
    vis: Seq<char>,
    name: Seq<char>,
    prefix: Seq<char>,
    kind: Accessor,
) -> spec_fn(Field) -> Seq<char> {
    |f: Field| accessor_text(f, vis, name, prefix, kind)
}

fn is_off(f: &Field, name: &str) -> (r: bool)
    ensures
        r == accessor_off(*f, name@),
{
    let mut i: usize = 0;
    while i < f.attrs.len()
        invariant
            i <= f.attrs@.len(),
            forall|j: int| 0 <= j < i ==> !turns_off(#[trigger] f.attrs@[j], name@),
        decreases f.attrs@.len() - i,
    {
        if attr_named_exec(&f.attrs[i], name) {
            if let Meta::NameValue(Token::Ident(v)) = &f.attrs[i].meta {
                if str_eq(v, "false") {
                    return true;
                }
            }
        }
        i = i + 1;
    }
    false
}

fn push_vis(out: &mut String, vis: &String)
    ensures
        final(out)@ == old(out)@ + vis_prefix(vis@),
{
    let ghost o = out@;
    if !vis.as_str().is_empty() {
        push(out, vis.as_str());
        push(out, " ");
    }
    assert(out@ =~= o + vis_prefix(vis@));
}

fn push_accessor(out: &mut String, f: &Field, vis: &String, name: &str, prefix: &String, kind: &Accessor)
    ensures
        final(out)@ == old(out)@ + accessor_text(*f, vis@, name@, prefix@, *kind),
{
    let ghost o = out@;
    if is_off(f, name) {
        assert(out@ =~= o + accessor_text(*f, vis@, name@, prefix@, *kind));
        return;
    }
    push(out, "    ");
    push_vis(out, vis);
    push(out, "fn ");
    push(out, prefix.as_str());
    push(out, f.ident.as_str());
    match kind {
        Accessor::Getter => {
            push(out, "(&self) -> &");
            push(out, f.ty.text.as_str());
            push(out, " {\n        &self.");
            push(out, f.ident.as_str());
            push(out, "\n    }\n");
        },
        Accessor::Setter => {
            push(out, "(&mut self, ");
            push(out, f.ident.as_str());
            push(out, ": impl ::core::convert::Into<");
            push(out, f.ty.text.as_str());
            push(out, ">) {\n        self.");
            push(out, f.ident.as_str());
            push(out, " = ::core::convert::Into::into(");
            push(out, f.ident.as_str());
            push(out, ");\n    }\n");
        },
    }
    assert(out@ =~= o + accessor_text(*f, vis@, name@, prefix@, *kind));
}

/// One impl block on the type holding, for each field not turned off by an
/// annotation `name = false`, an accessor named `prefix` followed by the
/// field's name.
pub fn gen_for_each_field(input: &DeriveInput, name: &str, prefix: &String, kind: Accessor) -> (r:
    Result<String, Diagnostic>)
    ensures
        match r {
            Ok(s) => named_fields(*input) matches Some(fs) && s@ == impl_block(
                *input,
                concat_fields(fs, accessor_g(input.vis@, name@, prefix@, kind)),
            ),
            Err(d) => named_fields(*input) is None && shape_diagnostic(*input, d),
        },
{
    let fs = match get_named_struct(input) {
        Ok(fs) => fs,
        Err(d) => { return Err(d); },
    };
    let ghost g = accessor_g(input.vis@, name@, prefix@, kind);
    let mut body = String::new();
    let mut i: usize = 0;
    while i < fs.len()
        invariant
            i <= fs@.len(),
            body@ == concat_fields(fs@.subrange(0, i as int), g),
            g == accessor_g(input.vis@, name@, prefix@, kind),
        decreases fs@.len() - i,
    {
        proof { lemma_concat_fields_step(fs@, i as int, g); }
        push_accessor(&mut body, &fs[i], &input.vis, name, prefix, &kind);
        i = i + 1;
    }
    assert(fs@.subrange(0, fs@.len() as int) =~= fs@);
    let mut out = String::new();
    push_impl_open(&mut out, input);
    push(&mut out, body.as_str());
    push(&mut out, "}\n");
    assert(out@ == impl_block(*input, body@)) by {
        assert(Seq::<char>::empty() + impl_block(*input, body@) =~= impl_block(*input, body@));
    }
    Ok(out)
}

/// Getters: `fn get_x(&self) -> &T` for each field, the prefix set by
/// `#[getters(prefix = "...")]`, a field left out by `#[getter = false]`.
pub fn getters_derive(input: &DeriveInput) -> (r: Result<String, Diagnostic>)
    ensures
        match r {
            Ok(s) => named_fields(*input) matches Some(fs) && s@ == impl_block(
                *input,
                concat_fields(
                    fs,
                    accessor_g(
                        input.vis@,
                        "getter"@,
                        match find_prefix(input.attrs@, "getters"@) {
                            Some(p) => p,
                            None => "get_"@,
                        },
                        Accessor::Getter,
                    ),
                ),
            ),
            Err(d) => named_fields(*input) is None && shape_diagnostic(*input, d),
        },
{
    let prefix = get_prefix(&input.attrs, "get_", "getters");
    gen_for_each_field(input, "getter", &prefix, Accessor::Getter)
}

/// Setters: `fn set_x(&mut self, x: impl Into<T>)` for each field, the
/// prefix set by `#[setters(prefix = "...")]`, a field left out by
/// `#[setter = false]`.
pub fn setters_derive(input: &DeriveInput) -> (r: Result<String, Diagnostic>)
    ensures
        match r {
            Ok(s) => named_fields(*input) matches Some(fs) && s@ == impl_block(
                *input,
                concat_fields(
                    fs,
                    accessor_g(
                        input.vis@,
                        "setter"@,
                        match find_prefix(input.attrs@, "setters"@) {
                            Some(p) => p,
                            None => "set_"@,
                        },
                        Accessor::Setter,
                    ),
                ),
            ),
            Err(d) => named_fields(*input) is None && shape_diagnostic(*input, d),
        },
{
    let prefix = get_prefix(&input.attrs, "set_", "setters");
    gen_for_each_field(input, "setter", &prefix, Accessor::Setter)
}

} // verus!

verus! {

/// The last annotation named `name`.
pub open spec fn last_named(attrs: Seq<Attribute>, name: Seq<char>) -> Option<Attribute>
    decreases attrs.len(),
{
    if attrs.len() == 0 {
        None
    } else if attr_named(attrs.last(), name) {
        Some(attrs.last())
    } else {
        last_named(attrs.drop_last(), name)
    }
}

/// The constructor takes the field as an argument unless the field's last
/// `constructor` annotation is `constructor = false`; a field left out is
/// given its type's default.
pub open spec fn must_generate(f: Field) -> bool {
    match last_named(f.attrs@, "constructor"@) {
        Some(a) => !(a.meta matches Meta::NameValue(t) && is_ident(t, "false"@)),
        None => true,
    }
}

pub open spec fn ctor_arg(f: Field) -> Seq<char> {
    if must_generate(f) {
        f.ident@ + ": impl ::core::convert::Into<"@ + f.ty.text@ + ">, "@
    } else {
        Seq::empty()
    }
}

pub open spec fn ctor_init(f: Field) -> Seq<char> {
    if must_generate(f) {
        f.ident@ + ": ::core::convert::Into::into("@ + f.ident@ + "), "@
    } else {
        f.ident@ + ": ::core::default::Default::default(), "@
    }
}

pub open spec fn ctor_arg_g() -> spec_fn(Field) -> Seq<char> {
    |f: Field| ctor_arg(f)
}

pub open spec fn ctor_init_g() -> spec_fn(Field) -> Seq<char> {
    |f: Field| ctor_init(f)
}

/// The constructor `new`, taking the generated fields in order.
pub open spec fn constructor_text(input: DeriveInput, fs: Seq<Field>) -> Seq<char> {
    let u = generics_text(input.generics.params@, Form::Use);
    impl_block(
        input,
        "    "@ + vis_prefix(input.vis@) + "fn new("@ + concat_fields(fs, ctor_arg_g()) + ") -> "@
            + input.ident@ + u + " {\n        Self { "@ + concat_fields(fs, ctor_init_g())
            + "}\n    }\n"@,
    )
}

fn must_generate_exec(f: &Field) -> (r: bool)
    ensures
        r == must_generate(*f),
{
    let mut found: Option<usize> = None;
    let mut i: usize = 0;
    assert(f.attrs@.subrange(0, 0) =~= Seq::<Attribute>::empty());
    while i < f.attrs.len()
        invariant
            i <= f.attrs@.len(),
            match found {
                Some(k) => k < i && last_named(f.attrs@.subrange(0, i as int), "constructor"@)
                    == Some(f.attrs@[k as int]),
                None => last_named(f.attrs@.subrange(0, i as int), "constructor"@) is None,
            },
        decreases f.attrs@.len() - i,
    {
        assert(f.attrs@.subrange(0, i + 1).drop_last() =~= f.attrs@.subrange(0, i as int));
        if attr_named_exec(&f.attrs[i], "constructor") {
            found = Some(i);
        }
        i = i + 1;
    }
    assert(f.attrs@.subrange(0, f.attrs@.len() as int) =~= f.attrs@);
    match found {
        Some(k) => match &f.attrs[k].meta {
            Meta::NameValue(Token::Ident(v)) => !str_eq(v, "false"),
            _ => true,
        },
        None => true,
    }
}

/// A constructor `new` taking each field, as anything convertible to its
/// type, except those marked `#[constructor = false]`, which get their
/// type's default.
pub fn constructor_derive(input: &DeriveInput) -> (r: Result<String, Diagnostic>)
    ensures
        match r {
            Ok(s) => named_fields(*input) matches Some(fs) && s@ == constructor_text(*input, fs),
            Err(d) => named_fields(*input) is None && shape_diagnostic(*input, d),
        },
{
    let fs = match get_named_struct(input) {
        Ok(fs) => fs,
        Err(d) => { return Err(d); },
    };
    let mut args = String::new();
    let mut inits = String::new();
    let mut i: usize = 0;
    while i < fs.len()
        invariant
            i <= fs@.len(),
            args@ == concat_fields(fs@.subrange(0, i as int), ctor_arg_g()),
            inits@ == concat_fields(fs@.subrange(0, i as int), ctor_init_g()),
        decreases fs@.len() - i,
    {
        proof {
            lemma_concat_fields_step(fs@, i as int, ctor_arg_g());
            lemma_concat_fields_step(fs@, i as int, ctor_init_g());
        }
        let f = &fs[i];
        let ghost (a0, i0) = (args@, inits@);
        push(&mut inits, f.ident.as_str());
        if must_generate_exec(f) {
            push(&mut args, f.ident.as_str());
            push(&mut args, ": impl ::core::convert::Into<");
            push(&mut args, f.ty.text.as_str());
            push(&mut args, ">, ");
            push(&mut inits, ": ::core::convert::Into::into(");
            push(&mut inits, f.ident.as_str());
            push(&mut inits, "), ");
        } else {
            push(&mut inits, ": ::core::default::Default::default(), ");
        }
        assert(args@ =~= a0 + ctor_arg(*f));
        assert(inits@ =~= i0 + ctor_init(*f));
        i = i + 1;
    }
    assert(fs@.subrange(0, fs@.len() as int) =~= fs@);
    let mut body = String::new();
    push(&mut body, "    ");
    push_vis(&mut body, &input.vis);
    push(&mut body, "fn new(");
    push(&mut body, args.as_str());
    push(&mut body, ") -> ");
    push(&mut body, input.ident.as_str());
    let u = render_generics(&input.generics, Form::Use);
    push(&mut body, u.as_str());
    push(&mut body, " {\n        Self { ");
    push(&mut body, inits.as_str());
    push(&mut body, "}\n    }\n");
    let mut out = String::new();
    push_impl_open(&mut out, input);
    push(&mut out, body.as_str());
    push(&mut out, "}\n");
    assert(out@ == constructor_text(*input, fs@)) by {
        assert(Seq::<char>::empty() + impl_block(*input, body@) =~= impl_block(*input, body@));
        assert(body@ =~= "    "@ + vis_prefix(input.vis@) + "fn new("@ + concat_fields(fs@, ctor_arg_g())
            + ") -> "@ + input.ident@ + generics_text(input.generics.params@, Form::Use)
            + " {\n        Self { "@ + concat_fields(fs@, ctor_init_g()) + "}\n    }\n"@);
    }
    Ok(out)
}

/// A method `as_box` that moves the value into a box.
pub open spec fn as_box_text(input: DeriveInput) -> Seq<char> {
    impl_block(
        input,
        "    "@ + vis_prefix(input.vis@) + "fn as_box(self) -> ::std::boxed::Box<"@ + input.ident@
            + generics_text(input.generics.params@, Form::Use)
            + "> {\n        ::std::boxed::Box::new(self)\n    }\n"@,
    )
}

/// A method `as_box` that moves the value into a box.
pub fn auto_box_derive(input: &DeriveInput) -> (r: String)
    ensures
        r@ == as_box_text(*input),
{
    let mut body = String::new();
    push(&mut body, "    ");
    push_vis(&mut body, &input.vis);
    push(&mut body, "fn as_box(self) -> ::std::boxed::Box<");
    push(&mut body, input.ident.as_str());
    let u = render_generics(&input.generics, Form::Use);
    push(&mut body, u.as_str());
    push(&mut body, "> {\n        ::std::boxed::Box::new(self)\n    }\n");
    let mut out = String::new();
    push_impl_open(&mut out, input);
    push(&mut out, body.as_str());
    push(&mut out, "}\n");
    assert(out@ == as_box_text(*input)) by {
        assert(Seq::<char>::empty() + impl_block(*input, body@) =~= impl_block(*input, body@));
        assert(body@ =~= "    "@ + vis_prefix(input.vis@) + "fn as_box(self) -> ::std::boxed::Box<"@
            + input.ident@ + generics_text(input.generics.params@, Form::Use)
            + "> {\n        ::std::boxed::Box::new(self)\n    }\n"@);
    }
    out
}

} // verus!

verus! {

/// The `key = value` pairs of an `into_enum` annotation: identifiers joined
/// by `=`, pairs separated by `,`, with an optional trailing `,`.
pub open spec fn parse_pairs(t: Seq<Token>) -> Option<Seq<(Seq<char>, Seq<char>)>>
    decreases t.len(),
{
    if t.len() == 0 {
        Some(Seq::empty())
    } else if t.len() >= 3 && t[0] is Ident && is_punct(t[1], '=') && t[2] is Ident {
        let pair = (t[0]->Ident_0@, t[2]->Ident_0@);
        if t.len() == 3 {
            Some(seq![pair])
        } else if is_punct(t[3], ',') {
            prepend_pairs(seq![pair], parse_pairs(t.subrange(4, t.len() as int)))
        } else {
            None
        }
    } else {
        None
    }
}

pub open spec fn prepend_pairs(
    a: Seq<(Seq<char>, Seq<char>)>,
    r: Option<Seq<(Seq<char>, Seq<char>)>>,
) -> Option<Seq<(Seq<char>, Seq<char>)>> {
    match r {
        Some(b) => Some(a + b),
        None => None,
    }
}

pub open spec fn pairs_view(v: Seq<(String, String)>) -> Seq<(Seq<char>, Seq<char>)> {
    v.map_values(|p: (String, String)| (p.0@, p.1@))
}

/// The pairs of every `into_enum` annotation with an argument list, in
/// order; none where one of them is malformed.
pub open spec fn enum_pairs(attrs: Seq<Attribute>) -> Option<Seq<(Seq<char>, Seq<char>)>>
    decreases attrs.len(),
{
    if attrs.len() == 0 {
        Some(Seq::empty())
    } else {
        match enum_pairs(attrs.drop_last()) {
            None => None,
            Some(ps) => if attr_named(attrs.last(), "into_enum"@) {
                match attrs.last().meta {
                    Meta::List(t) => prepend_pairs(ps, parse_pairs(t@)),
                    _ => Some(ps),
                }
            } else {
                Some(ps)
            },
        }
    }
}

/// The value of the last pair with the given key.
pub open spec fn last_value(ps: Seq<(Seq<char>, Seq<char>)>, key: Seq<char>) -> Option<Seq<char>>
    decreases ps.len(),
{
    if ps.len() == 0 {
        None
    } else if ps.last().0 == key {
        Some(ps.last().1)
    } else {
        last_value(ps.drop_last(), key)
    }
}

/// `From` the type into the enum, wrapping the value in the variant.
pub open spec fn into_enum_text(input: DeriveInput, en: Seq<char>, variant: Seq<char>) -> Seq<char> {
    let ps = input.generics.params@;
    let u = generics_text(ps, Form::Use);
    "impl"@ + generics_text(ps, Form::Impl) + " ::core::convert::From<"@ + input.ident@ + u
        + "> for "@ + en + where_text(input.generics.where_preds@, Seq::empty())
        + " {\n    fn from(value: "@ + input.ident@ + u + ") -> Self {\n        "@ + en + "::"@
        + variant + "(value)\n    }\n}\n"@
}

fn ident_text(t: &Token) -> (r: Option<&String>)
    ensures
        match r {
            Some(s) => t is Ident && t->Ident_0 == *s,
            None => !(t is Ident),
        },
{
    match t {
        Token::Ident(s) => Some(s),
        _ => None,
    }
}

fn punct_is(t: &Token, c: char) -> (r: bool)
    ensures
        r == is_punct(*t, c),
{
    match t {
        Token::Punct { ch, .. } => *ch == c,
        _ => false,
    }
}

fn parse_pairs_exec(t: &Vec<Token>) -> (r: Option<Vec<(String, String)>>)
    ensures
        match r {
            Some(v) => parse_pairs(t@) == Some(pairs_view(v@)),
            None => parse_pairs(t@) is None,
        },
{
    let n = t.len();
    let mut out: Vec<(String, String)> = Vec::new();
    let mut i: usize = 0;
    assert(t@.subrange(0, n as int) =~= t@);
    assert(pairs_view(out@) =~= Seq::empty());
    while i < n
        invariant
            n == t@.len(),
            i <= n,
            parse_pairs(t@) == prepend_pairs(pairs_view(out@), parse_pairs(t@.subrange(i as int, n as int))),
        decreases n - i,
    {
        let ghost u = t@.subrange(i as int, n as int);
        if n - i < 3 {
            return None;
        }
        assert(u[0] == t@[i as int] && u[1] == t@[i + 1] && u[2] == t@[i + 2]);
        let k = match ident_text(&t[i]) {
            Some(k) => k,
            None => { return None; },
        };
        if !punct_is(&t[i + 1], '=') {
            return None;
        }
        let v = match ident_text(&t[i + 2]) {
            Some(v) => v,
            None => { return None; },
        };
        let ghost before = pairs_view(out@);
        let ghost pair = (k@, v@);
        if n - i == 3 {
            out.push((k.clone(), v.clone()));
            assert(pairs_view(out@) =~= before + seq![pair]);
            assert(t@.subrange(n as int, n as int) =~= Seq::<Token>::empty());
            assert(pairs_view(out@) + Seq::empty() =~= pairs_view(out@));
            i = n;
        } else {
            assert(u[3] == t@[i + 3]);
            if !punct_is(&t[i + 3], ',') {
                return None;
            }
            out.push((k.clone(), v.clone()));
            assert(pairs_view(out@) =~= before + seq![pair]);
            assert(u.subrange(4, u.len() as int) =~= t@.subrange(i + 4, n as int));
            proof {
                let rest = parse_pairs(t@.subrange(i + 4, n as int));
                if rest is Some {
                    assert(before + (seq![pair] + rest->0) =~= pairs_view(out@) + rest->0);
                }
            }
            i = i + 4;
        }
    }
    Some(out)
}

proof fn lemma_enum_pairs_none(attrs: Seq<Attribute>, k: int)
    requires
        0 <= k <= attrs.len(),
        enum_pairs(attrs.subrange(0, k)) is None,
    ensures
        enum_pairs(attrs) is None,
    decreases attrs.len() - k,
{
    if k < attrs.len() {
        assert(attrs.subrange(0, k + 1).drop_last() =~= attrs.subrange(0, k));
        lemma_enum_pairs_none(attrs, k + 1);
    } else {
        assert(attrs.subrange(0, k) =~= attrs);
    }
}

fn enum_pairs_exec(attrs: &Vec<Attribute>) -> (r: Option<Vec<(String, String)>>)
    ensures
        match r {
            Some(v) => enum_pairs(attrs@) == Some(pairs_view(v@)),
            None => enum_pairs(attrs@) is None,
        },
{
    let mut out: Vec<(String, String)> = Vec::new();
    let mut i: usize = 0;
    assert(pairs_view(out@) =~= Seq::empty());
    while i < attrs.len()
        invariant
            i <= attrs@.len(),
            enum_pairs(attrs@.subrange(0, i as int)) == Some(pairs_view(out@)),
        decreases attrs@.len() - i,
    {
        assert(attrs@.subrange(0, i + 1).drop_last() =~= attrs@.subrange(0, i as int));
        if attr_named_exec(&attrs[i], "into_enum") {
            if let Meta::List(t) = &attrs[i].meta {
                match parse_pairs_exec(t) {
                    Some(ps) => {
                        let ghost before = pairs_view(out@);
                        let mut j: usize = 0;
                        while j < ps.len()
                            invariant
                                j <= ps@.len(),
                                pairs_view(out@) == before + pairs_view(ps@.subrange(0, j as int)),
                            decreases ps@.len() - j,
                        {
                            let ghost o = pairs_view(out@);
                            let e = (ps[j].0.clone(), ps[j].1.clone());
                            out.push(e);
                            assert(pairs_view(out@) =~= o.push((ps@[j as int].0@, ps@[j as int].1@)));
                            assert(pairs_view(ps@.subrange(0, j + 1)) =~= pairs_view(
                                ps@.subrange(0, j as int),
                            ).push((ps@[j as int].0@, ps@[j as int].1@)));
                            assert(pairs_view(out@) =~= before + pairs_view(ps@.subrange(0, j + 1)));
                            j = j + 1;
                        }
                        assert(ps@.subrange(0, ps@.len() as int) =~= ps@);
                    },
                    None => {
                        proof { lemma_enum_pairs_none(attrs@, i + 1); }
                        return None;
                    },
                }
            }
        }
        i = i + 1;
    }
    assert(attrs@.subrange(0, attrs@.len() as int) =~= attrs@);
    Some(out)
}

fn last_value_exec(ps: &Vec<(String, String)>, key: &str) -> (r: Option<String>)
    ensures
        match r {
            Some(v) => last_value(pairs_view(ps@), key@) == Some(v@),
            None => last_value(pairs_view(ps@), key@) is None,
        },
{
    let mut found: Option<String> = None;
    let mut i: usize = 0;
    while i < ps.len()
        invariant
            i <= ps@.len(),
            match found {
                Some(v) => last_value(pairs_view(ps@.subrange(0, i as int)), key@) == Some(v@),
                None => last_value(pairs_view(ps@.subrange(0, i as int)), key@) is None,
            },
        decreases ps@.len() - i,
    {
        assert(pairs_view(ps@.subrange(0, i + 1)).drop_last() =~= pairs_view(ps@.subrange(0, i as int)));
        if str_eq(&ps[i].0, key) {
            found = Some(ps[i].1.clone());
        }
        i = i + 1;
    }
    assert(ps@.subrange(0, ps@.len() as int) =~= ps@);
    found
}

/// `From` the type into the enum named by `#[into_enum(enum_name = E)]`,
/// wrapping the value in the variant named by `field = V` (by default, the
/// type's own name); a later pair for a key replaces an earlier one.
pub fn wrap_enum_derive(input: &DeriveInput) -> (r: Result<String, Diagnostic>)
    ensures
        match r {
            Ok(s) => enum_pairs(input.attrs@) matches Some(ps) && last_value(ps, "enum_name"@) matches Some(
                en,
            ) && s@ == into_enum_text(
                *input,
                en,
                match last_value(ps, "field"@) {
                    Some(v) => v,
                    None => input.ident@,
                },
            ),
            Err(Diagnostic::TypeAnnotation) => enum_pairs(input.attrs@) is None,
            Err(Diagnostic::MissingEnumName) => enum_pairs(input.attrs@) matches Some(ps)
                && last_value(ps, "enum_name"@) is None,
            Err(_) => false,
        },
{
    let ps = match enum_pairs_exec(&input.attrs) {
        Some(ps) => ps,
        None => { return Err(Diagnostic::TypeAnnotation); },
    };
    let en = match last_value_exec(&ps, "enum_name") {
        Some(e) => e,
        None => { return Err(Diagnostic::MissingEnumName); },
    };
    let variant = match last_value_exec(&ps, "field") {
        Some(v) => v,
        None => input.ident.clone(),
    };
    let u = render_generics(&input.generics, Form::Use);
    let g = render_generics(&input.generics, Form::Impl);
    let w = render_where(&input.generics, "");
    proof {
        reveal_strlit("");
        assert(""@ =~= Seq::<char>::empty());
    }
    let mut out = String::new();
    push(&mut out, "impl");
    push(&mut out, g.as_str());
    push(&mut out, " ::core::convert::From<");
    push(&mut out, input.ident.as_str());
    push(&mut out, u.as_str());
    push(&mut out, "> for ");
    push(&mut out, en.as_str());
    push(&mut out, w.as_str());
    push(&mut out, " {\n    fn from(value: ");
    push(&mut out, input.ident.as_str());
    push(&mut out, u.as_str());
    push(&mut out, ") -> Self {\n        ");
    push(&mut out, en.as_str());
    push(&mut out, "::");
    push(&mut out, variant.as_str());
    push(&mut out, "(value)\n    }\n}\n");
    assert(out@ =~= into_enum_text(*input, en@, variant@));
    Ok(out)
}

} // verus!
