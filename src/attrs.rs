//! Reading `#[builder(...)]` annotations. Each such annotation holds one
//! argument: a bare key (`optional`), a key, `=` and one value token
//! (`optional = true`, `vec = "arg"`), or `def = ` followed by an
//! expression of any number of tokens (`def = String::new()`). Where a key
//! occurs more than once, its first occurrence counts.
use vstd::prelude::*;
use crate::model::{Attribute, Meta, Token};
use crate::text::{push, push_char, str_eq};

verus! {

/// Whether an annotation's path is the single identifier `builder`.
pub open spec fn is_builder(a: Attribute) -> bool {
    a.path@.len() == 1 && a.path@[0]@ == "builder"@
}

/// The tokens of an annotation's argument list (none for other forms).
pub open spec fn list_tokens(a: Attribute) -> Seq<Token> {
    match a.meta {
        Meta::List(t) => t@,
        _ => Seq::empty(),
    }
}

pub open spec fn is_ident(t: Token, s: Seq<char>) -> bool {
    match t {
        Token::Ident(i) => i@ == s,
        _ => false,
    }
}

/// The value of a string literal token.
pub open spec fn str_lit(t: Token) -> Option<Seq<char>> {
    match t {
        Token::Literal { str_value: Some(v), .. } => Some(v@),
        _ => None,
    }
}

/// The source text of a token.
pub open spec fn token_text(t: Token) -> Seq<char> {
    match t {
        Token::Ident(s) => s@,
        Token::Punct { ch, .. } => seq![ch],
        Token::Literal { text, .. } => text@,
        Token::Group(s) => s@,
    }
}

/// Whether a token is the punctuation character `c`.
pub open spec fn is_punct(t: Token, c: char) -> bool {
    match t {
        Token::Punct { ch, .. } => ch == c,
        _ => false,
    }
}

/// What separates a token from the next one in source text: nothing after
/// a punctuation joined to the next token, else a space.
pub open spec fn sep_after(t: Token) -> Seq<char> {
    match t {
        Token::Punct { joint: true, .. } => Seq::empty(),
        _ => " "@,
    }
}

/// The source text of a sequence of tokens.
pub open spec fn tokens_text(t: Seq<Token>) -> Seq<char>
    decreases t.len(),
{
    if t.len() == 0 {
        Seq::empty()
    } else if t.len() == 1 {
        token_text(t[0])
    } else {
        tokens_text(t.drop_last()) + sep_after(t[t.len() - 2]) + token_text(t.last())
    }
}

/// The string of a value that is one string literal.
pub open spec fn single_str(v: Seq<Token>) -> Option<Seq<char>> {
    if v.len() == 1 {
        str_lit(v[0])
    } else {
        None
    }
}

/// The key of a `builder` annotation's argument.
pub open spec fn arg_key(a: Attribute) -> Option<Seq<char>> {
    if is_builder(a) && a.meta is List && list_tokens(a).len() > 0 {
        match list_tokens(a)[0] {
            Token::Ident(k) => Some(k@),
            _ => None,
        }
    } else {
        None
    }
}

/// The first `builder` annotation whose argument has the key `name`.
pub open spec fn first_arg(attrs: Seq<Attribute>, name: Seq<char>) -> Option<Attribute>
    decreases attrs.len(),
{
    if attrs.len() == 0 {
        None
    } else if arg_key(attrs[0]) == Some(name) {
        Some(attrs[0])
    } else {
        first_arg(attrs.drop_first(), name)
    }
}

/// The value tokens of an argument `key = value`: all tokens after `=`.
pub open spec fn arg_value(a: Attribute) -> Option<Seq<Token>> {
    if list_tokens(a).len() >= 3 {
        Some(list_tokens(a).subrange(2, list_tokens(a).len() as int))
    } else {
        None
    }
}

/// A flag is on where its first argument is bare or is `= true`.
pub open spec fn flag_of(attrs: Seq<Attribute>, name: Seq<char>) -> bool {
    match first_arg(attrs, name) {
        Some(a) => list_tokens(a).len() == 1 || is_ident(list_tokens(a)[2], "true"@),
        None => false,
    }
}

/// The value tokens of the first argument with the key `name`.
pub open spec fn value_of(attrs: Seq<Attribute>, name: Seq<char>) -> Option<Seq<Token>> {
    match first_arg(attrs, name) {
        Some(a) => arg_value(a),
        None => None,
    }
}

pub open spec fn is_bool_token(t: Token) -> bool {
    is_ident(t, "true"@) || is_ident(t, "false"@)
}

/// The keys that take a boolean, on a field (`optional`, `disabled`) or on
/// the type (`infallible`, `clone`).
pub open spec fn is_flag_key(k: Seq<char>, on_field: bool) -> bool {
    if on_field {
        k == "optional"@ || k == "disabled"@
    } else {
        k == "infallible"@ || k == "clone"@
    }
}

/// The keys that take a string literal: the accumulator kinds.
pub open spec fn is_accessor_key(k: Seq<char>, on_field: bool) -> bool {
    on_field && (k == "vec"@ || k == "map"@)
}

/// The key that takes an expression.
pub open spec fn is_expr_key(k: Seq<char>, on_field: bool) -> bool {
    on_field && k == "def"@
}

/// Whether an annotation is well formed: annotations other than `builder`
/// are not ours and always are; a `builder` one holds one recognised
/// argument with a value of the right kind.
pub open spec fn well_formed(a: Attribute, on_field: bool) -> bool {
    !is_builder(a) || {
        let t = list_tokens(a);
        &&& a.meta is List
        &&& arg_key(a) is Some
        &&& {
            let k = arg_key(a)->0;
            ||| t.len() == 1 && is_flag_key(k, on_field)
            ||| t.len() >= 3 && is_punct(t[1], '=') && {
                ||| t.len() == 3 && is_flag_key(k, on_field) && is_bool_token(t[2])
                ||| t.len() == 3 && is_accessor_key(k, on_field) && str_lit(t[2]) is Some
                ||| is_expr_key(k, on_field)
            }
        }
    }
}

pub open spec fn all_well_formed(attrs: Seq<Attribute>, on_field: bool) -> bool {
    forall|i: int| 0 <= i < attrs.len() ==> well_formed(#[trigger] attrs[i], on_field)
}

fn is_builder_exec(a: &Attribute) -> (r: bool)
    ensures
        r == is_builder(*a),
{
    a.path.len() == 1 && str_eq(&a.path[0], "builder")
}

fn ident_is(t: &Token, s: &str) -> (r: bool)
    ensures
        r == is_ident(*t, s@),
{
    match t {
        Token::Ident(i) => str_eq(i, s),
        _ => false,
    }
}

/// The key of an annotation's argument, where it is a `builder` one.
fn key_of(a: &Attribute) -> (r: Option<&String>)
    ensures
        match r {
            Some(k) => arg_key(*a) == Some(k@),
            None => arg_key(*a) is None,
        },
{
    if !is_builder_exec(a) {
        return None;
    }
    match &a.meta {
        Meta::List(t) => {
            if t.len() == 0 {
                None
            } else {
                match &t[0] {
                    Token::Ident(k) => Some(k),
                    _ => None,
                }
            }
        },
        _ => None,
    }
}

fn key_is(a: &Attribute, name: &str) -> (r: bool)
    ensures
        r == (arg_key(*a) == Some(name@)),
{
    match key_of(a) {
        Some(k) => str_eq(k, name),
        None => false,
    }
}

fn tokens_of(a: &Attribute) -> (r: &Vec<Token>)
    requires
        a.meta is List,
    ensures
        r@ == list_tokens(*a),
{
    match &a.meta {
        Meta::List(t) => t,
        _ => { proof { assert(false); } unreached() },
    }
}

fn flag_key(k: &String, on_field: bool) -> (r: bool)
    ensures
        r == is_flag_key(k@, on_field),
{
    if on_field {
        str_eq(k, "optional") || str_eq(k, "disabled")
    } else {
        str_eq(k, "infallible") || str_eq(k, "clone")
    }
}

/// Whether one annotation is well formed.
fn attr_ok(a: &Attribute, on_field: bool) -> (r: bool)
    ensures
        r == well_formed(*a, on_field),
{
    proof {
        reveal_strlit("optional");
        reveal_strlit("disabled");
        reveal_strlit("infallible");
        reveal_strlit("clone");
        reveal_strlit("vec");
        reveal_strlit("map");
        reveal_strlit("def");
        assert("vec"@ != "def"@ && "map"@ != "def"@ && "vec"@ != "map"@) by {
            assert("vec"@[0] != "def"@[0]);
            assert("map"@[0] != "def"@[0]);
            assert("vec"@[0] != "map"@[0]);
        }
        assert("optional"@ != "def"@ && "optional"@ != "vec"@ && "optional"@ != "map"@) by {
            assert("optional"@.len() != "def"@.len());
        }
        assert("disabled"@ != "def"@ && "disabled"@ != "vec"@ && "disabled"@ != "map"@) by {
            assert("disabled"@.len() != "def"@.len());
        }
    }
    if !is_builder_exec(a) {
        return true;
    }
    let k = match key_of(a) {
        Some(k) => k,
        None => { return false; },
    };
    let t = tokens_of(a);
    if t.len() == 1 {
        return flag_key(k, on_field);
    }
    if t.len() < 3 {
        return false;
    }
    let eq = match &t[1] {
        Token::Punct { ch, .. } => *ch == '=',
        _ => false,
    };
    if !eq {
        return false;
    }
    if on_field && str_eq(k, "def") {
        return true;
    }
    if t.len() != 3 {
        return false;
    }
    if flag_key(k, on_field) {
        ident_is(&t[2], "true") || ident_is(&t[2], "false")
    } else if on_field && (str_eq(k, "vec") || str_eq(k, "map")) {
        match &t[2] {
            Token::Literal { str_value: Some(_), .. } => true,
            _ => false,
        }
    } else {
        false
    }
}

/// The index of the first annotation that is not well formed.
pub fn find_malformed(attrs: &Vec<Attribute>, on_field: bool) -> (r: Option<usize>)
    ensures
        match r {
            Some(i) => i < attrs@.len() && !well_formed(attrs@[i as int], on_field),
            None => all_well_formed(attrs@, on_field),
        },
{
    let mut i: usize = 0;
    while i < attrs.len()
        invariant
            i <= attrs@.len(),
            forall|j: int| 0 <= j < i ==> well_formed(#[trigger] attrs@[j], on_field),
        decreases attrs@.len() - i,
    {
        if !attr_ok(&attrs[i], on_field) {
            return Some(i);
        }
        i = i + 1;
    }
    None
}

/// The first `builder` annotation whose argument has the key `name`.
pub fn find_attr<'a>(attrs: &'a Vec<Attribute>, name: &str) -> (r: Option<&'a Attribute>)
    ensures
        match r {
            Some(a) => first_arg(attrs@, name@) == Some(*a),
            None => first_arg(attrs@, name@) is None,
        },
{
    let mut i: usize = 0;
    assert(attrs@.subrange(0, attrs@.len() as int) =~= attrs@);
    while i < attrs.len()
        invariant
            i <= attrs@.len(),
            first_arg(attrs@, name@) == first_arg(attrs@.subrange(i as int, attrs@.len() as int), name@),
        decreases attrs@.len() - i,
    {
        let ghost rest = attrs@.subrange(i as int, attrs@.len() as int);
        assert(rest[0] == attrs@[i as int]);
        assert(rest.drop_first() =~= attrs@.subrange(i + 1, attrs@.len() as int));
        if key_is(&attrs[i], name) {
            return Some(&attrs[i]);
        }
        i = i + 1;
    }
    None
}

/// The argument found for a key has that key, and is one of the annotations.
pub proof fn lemma_first_arg_key(attrs: Seq<Attribute>, name: Seq<char>)
    ensures
        first_arg(attrs, name) matches Some(a) ==> arg_key(a) == Some(name) && exists|i: int|
            0 <= i < attrs.len() && attrs[i] == a,
    decreases attrs.len(),
{
    if attrs.len() > 0 && arg_key(attrs[0]) != Some(name) {
        lemma_first_arg_key(attrs.drop_first(), name);
        if first_arg(attrs, name) is Some {
            let i = choose|i: int| 0 <= i < attrs.len() - 1 && attrs.drop_first()[i] == first_arg(attrs, name)->0;
            assert(attrs[i + 1] == first_arg(attrs, name)->0);
        }
    } else if attrs.len() > 0 {
        assert(attrs[0] == first_arg(attrs, name)->0);
    }
}

/// Whether the flag `name` is on: its first argument is bare or `= true`.
pub fn find_flag(attrs: &Vec<Attribute>, name: &str) -> (r: bool)
    requires
        all_well_formed(attrs@, true) || all_well_formed(attrs@, false),
    ensures
        r == flag_of(attrs@, name@),
{
    proof { lemma_first_arg_key(attrs@, name@); }
    match find_attr(attrs, name) {
        Some(a) => {
            let t = tokens_of(a);
            t.len() == 1 || ident_is(&t[2], "true")
        },
        None => false,
    }
}

/// The string value of the first argument `name = "..."`.
pub fn find_str(attrs: &Vec<Attribute>, name: &str) -> (r: Option<String>)
    ensures
        match r {
            Some(s) => value_of(attrs@, name@) matches Some(v) && single_str(v) == Some(s@),
            None => !(value_of(attrs@, name@) matches Some(v) && single_str(v) is Some),
        },
{
    match find_attr(attrs, name) {
        Some(a) => match &a.meta {
            Meta::List(t) => {
                if t.len() == 3 {
                    let ghost v = t@.subrange(2, 3);
                    assert(v.len() == 1 && v[0] == t@[2]);
                    match &t[2] {
                        Token::Literal { str_value: Some(v), .. } => Some(v.clone()),
                        _ => None,
                    }
                } else {
                    None
                }
            },
            _ => None,
        },
        None => None,
    }
}

/// The source text of a token.
pub fn text_of(t: &Token) -> (r: String)
    ensures
        r@ == token_text(*t),
{
    match t {
        Token::Ident(s) => s.clone(),
        Token::Punct { ch, .. } => {
            let mut s = String::new();
            push_char(&mut s, *ch);
            s
        },
        Token::Literal { text, .. } => text.clone(),
        Token::Group(s) => s.clone(),
    }
}

/// The source text of the tokens of `t` from index `from` on.
fn join_tokens(t: &Vec<Token>, from: usize) -> (r: String)
    requires
        from <= t@.len(),
    ensures
        r@ == tokens_text(t@.subrange(from as int, t@.len() as int)),
{
    let mut out = String::new();
    let mut i: usize = from;
    assert(t@.subrange(from as int, from as int) =~= Seq::<Token>::empty());
    while i < t.len()
        invariant
            from <= i <= t@.len(),
            out@ == tokens_text(t@.subrange(from as int, i as int)),
        decreases t@.len() - i,
    {
        let ghost u = t@.subrange(from as int, i + 1);
        assert(u.drop_last() =~= t@.subrange(from as int, i as int));
        if i > from {
            assert(u[u.len() - 2] == t@[i - 1]);
            match &t[i - 1] {
                Token::Punct { joint: true, .. } => {},
                _ => {
                    push(&mut out, " ");
                },
            }
        }
        let ghost before = out@;
        let piece = text_of(&t[i]);
        push(&mut out, piece.as_str());
        proof {
            if i == from {
                assert(out@ =~= token_text(u[0]));
            } else {
                assert(out@ =~= tokens_text(u));
            }
        }
        i = i + 1;
    }
    out
}

/// The source text of the value of the first argument `name = value`: all
/// of its tokens.
pub fn find_expr(attrs: &Vec<Attribute>, name: &str) -> (r: Option<String>)
    ensures
        match r {
            Some(s) => value_of(attrs@, name@) matches Some(v) && tokens_text(v) == s@,
            None => value_of(attrs@, name@) is None,
        },
{
    match find_attr(attrs, name) {
        Some(a) => match &a.meta {
            Meta::List(t) => {
                if t.len() >= 3 {
                    Some(join_tokens(t, 2))
                } else {
                    None
                }
            },
            _ => None,
        },
        None => None,
    }
}

} // verus!
