//! Reading declared types and rendering the record's generics: the
//! declaration form (bounds and defaults), the impl form (bounds), the use
//! form (bare names) and the where-clause.
use vstd::prelude::*;
use crate::model::{GenericParam, Generics, ParamKind, TypeArg, TypeExpr};
use crate::text::{push, str_eq};

verus! {

/// The character sequences of a list of strings.
pub open spec fn views(v: Seq<String>) -> Seq<Seq<char>> {
    v.map_values(|s: String| s@)
}

/// The source texts of the arguments that are types, in order.
pub open spec fn type_arg_texts(args: Seq<TypeArg>) -> Seq<Seq<char>>
    decreases args.len(),
{
    if args.len() == 0 {
        Seq::empty()
    } else if args.last().is_type {
        type_arg_texts(args.drop_last()).push(args.last().text@)
    } else {
        type_arg_texts(args.drop_last())
    }
}

/// The type arguments of a path type's last segment, where it has
/// angle-bracketed arguments.
pub open spec fn inner_types(t: TypeExpr) -> Option<Seq<Seq<char>>> {
    match t.args {
        Some(a) => Some(type_arg_texts(a@)),
        None => None,
    }
}

/// The type arguments of a path type's last segment, where it has
/// angle-bracketed arguments.
pub fn get_inner_ty(t: &TypeExpr) -> (r: Option<Vec<String>>)
    ensures
        match r {
            Some(v) => inner_types(*t) == Some(views(v@)),
            None => inner_types(*t) is None,
        },
{
    match &t.args {
        None => None,
        Some(args) => {
            let mut out: Vec<String> = Vec::new();
            let mut i: usize = 0;
            while i < args.len()
                invariant
                    i <= args@.len(),
                    views(out@) == type_arg_texts(args@.subrange(0, i as int)),
                decreases args@.len() - i,
            {
                let ghost before = out@;
                assert(args@.subrange(0, i + 1).drop_last() =~= args@.subrange(0, i as int));
                if args[i].is_type {
                    out.push(args[i].text.clone());
                    assert(views(out@) =~= views(before).push(args@[i as int].text@));
                }
                i = i + 1;
            }
            assert(args@.subrange(0, args@.len() as int) =~= args@);
            Some(out)
        },
    }
}

/// The inner type of an `Option<T>`.
pub open spec fn option_inner(t: TypeExpr) -> Option<Seq<char>> {
    match (t.last_ident, inner_types(t)) {
        (Some(id), Some(a)) => if id@ == "Option"@ && a.len() == 1 && t.args->0@.len() == 1 {
            Some(a[0])
        } else {
            None
        },
        _ => None,
    }
}

/// The inner type of an `Option<T>`.
pub fn get_option_inner(t: &TypeExpr) -> (r: Option<String>)
    ensures
        match r {
            Some(s) => option_inner(*t) == Some(s@),
            None => option_inner(*t) is None,
        },
{
    let id = match &t.last_ident {
        Some(id) => id,
        None => { return None; },
    };
    let n = match &t.args {
        Some(a) => a.len(),
        None => { return None; },
    };
    match get_inner_ty(t) {
        Some(a) => {
            if str_eq(id, "Option") && a.len() == 1 && n == 1 {
                assert(views(a@)[0] == a@[0]@);
                Some(a[0].clone())
            } else {
                None
            }
        },
        None => None,
    }
}

/// Where a list of generic parameters stands.
pub enum Form {
    /// Declaring a type: bounds and defaults.
    Decl,
    /// Opening an impl block: bounds, no defaults.
    Impl,
    /// Naming a type: bare parameter names.
    Use,
}

/// One parameter, rendered for the given position.
pub open spec fn param_text(p: GenericParam, form: Form) -> Seq<char> {
    match form {
        Form::Use => p.name@,
        _ => {
            let head = match p.kind {
                ParamKind::Const(ty) => "const "@ + p.name@ + ": "@ + ty@,
                _ => if p.bounds@.len() == 0 {
                    p.name@
                } else {
                    p.name@ + ": "@ + p.bounds@
                },
            };
            match (form, p.default) {
                (Form::Decl, Some(d)) => head + " = "@ + d@,
                _ => head,
            }
        },
    }
}

/// The parameters rendered for the given position, each followed by `, `.
pub open spec fn params_text(ps: Seq<GenericParam>, form: Form) -> Seq<char>
    decreases ps.len(),
{
    if ps.len() == 0 {
        Seq::empty()
    } else {
        params_text(ps.drop_last(), form) + param_text(ps.last(), form) + ", "@
    }
}

/// The parameter list rendered for the given position: nothing where there
/// are no parameters.
pub open spec fn generics_text(ps: Seq<GenericParam>, form: Form) -> Seq<char> {
    if ps.len() == 0 {
        Seq::empty()
    } else {
        "<"@ + params_text(ps, form) + ">"@
    }
}

fn push_param(out: &mut String, p: &GenericParam, form: &Form)
    ensures
        final(out)@ == old(out)@ + param_text(*p, *form),
{
    let ghost o = old(out)@;
    match form {
        Form::Use => {
            push(out, p.name.as_str());
        },
        _ => {
            match &p.kind {
                ParamKind::Const(ty) => {
                    push(out, "const ");
                    push(out, p.name.as_str());
                    push(out, ": ");
                    push(out, ty.as_str());
                    assert(out@ =~= o + ("const "@ + p.name@ + ": "@ + ty@));
                },
                _ => {
                    push(out, p.name.as_str());
                    if !p.bounds.as_str().is_empty() {
                        push(out, ": ");
                        push(out, p.bounds.as_str());
                        assert(out@ =~= o + (p.name@ + ": "@ + p.bounds@));
                    }
                },
            }
            let ghost mid = out@;
            match (form, &p.default) {
                (Form::Decl, Some(d)) => {
                    push(out, " = ");
                    push(out, d.as_str());
                    assert(out@ =~= o + (mid.subrange(o.len() as int, mid.len() as int) + " = "@ + d@));
                    assert(mid =~= o + mid.subrange(o.len() as int, mid.len() as int));
                },
                _ => {},
            }
        },
    }
}

/// Renders the record's generic parameters for the given position.
pub fn render_generics(g: &Generics, form: Form) -> (r: String)
    ensures
        r@ == generics_text(g.params@, form),
{
    let ps = &g.params;
    let mut out = String::new();
    if ps.len() == 0 {
        return out;
    }
    push(&mut out, "<");
    let mut i: usize = 0;
    while i < ps.len()
        invariant
            i <= ps@.len(),
            out@ == "<"@ + params_text(ps@.subrange(0, i as int), form),
        decreases ps@.len() - i,
    {
        assert(ps@.subrange(0, i + 1).drop_last() =~= ps@.subrange(0, i as int));
        push_param(&mut out, &ps[i], &form);
        push(&mut out, ", ");
        assert(out@ =~= "<"@ + params_text(ps@.subrange(0, i + 1), form));
        i = i + 1;
    }
    assert(ps@.subrange(0, ps@.len() as int) =~= ps@);
    push(&mut out, ">");
    out
}

/// The parameter list with every bound and default removed, for naming the
/// type.
pub fn get_stripped_generics(g: &Generics) -> (r: String)
    ensures
        r@ == generics_text(g.params@, Form::Use),
{
    render_generics(g, Form::Use)
}

/// The predicates, each followed by `, `.
pub open spec fn preds_text(ps: Seq<String>) -> Seq<char>
    decreases ps.len(),
{
    if ps.len() == 0 {
        Seq::empty()
    } else {
        preds_text(ps.drop_last()) + ps.last()@ + ", "@
    }
}

/// A where-clause holding the record's predicates and then `extra`, with a
/// leading space; nothing where both are empty.
pub open spec fn where_text(preds: Seq<String>, extra: Seq<char>) -> Seq<char> {
    if preds.len() == 0 && extra.len() == 0 {
        Seq::empty()
    } else {
        " where "@ + preds_text(preds) + extra
    }
}

/// Renders the record's where-clause, with `extra` added after its
/// predicates.
pub fn render_where(g: &Generics, extra: &str) -> (r: String)
    ensures
        r@ == where_text(g.where_preds@, extra@),
{
    let ps = &g.where_preds;
    let mut out = String::new();
    if ps.len() == 0 && extra.is_empty() {
        return out;
    }
    push(&mut out, " where ");
    let mut i: usize = 0;
    while i < ps.len()
        invariant
            i <= ps@.len(),
            out@ == " where "@ + preds_text(ps@.subrange(0, i as int)),
        decreases ps@.len() - i,
    {
        assert(ps@.subrange(0, i + 1).drop_last() =~= ps@.subrange(0, i as int));
        push(&mut out, ps[i].as_str());
        push(&mut out, ", ");
        assert(out@ =~= " where "@ + preds_text(ps@.subrange(0, i + 1)));
        i = i + 1;
    }
    assert(ps@.subrange(0, ps@.len() as int) =~= ps@);
    push(&mut out, extra);
    out
}

} // verus!
