use builders::model::{Attribute, Data, DeriveInput, Field, Generics, Meta, Token, TypeArg, TypeExpr};
use builders::plan::{resolve_struct, FieldPlan};
use builders::runtime::{DynBuilder, Value};

fn s(x: &str) -> String {
    x.to_string()
}

fn plain(text: &str) -> TypeExpr {
    TypeExpr { text: s(text), last_ident: Some(s(text)), args: None }
}

fn generic(text: &str, last: &str, args: &[&str]) -> TypeExpr {
    TypeExpr {
        text: s(text),
        last_ident: Some(s(last)),
        args: Some(args.iter().map(|a| TypeArg { is_type: true, text: s(a) }).collect()),
    }
}

fn kv(key: &str, value: Token) -> Attribute {
    Attribute { path: vec![s("builder")], meta: Meta::List(vec![Token::Ident(s(key)), Token::Punct { ch: '=', joint: false }, value]) }
}

fn field(name: &str, ty: TypeExpr, attrs: Vec<Attribute>) -> Field {
    Field { ident: s(name), ty, attrs }
}

fn plans(fields: Vec<Field>) -> Vec<FieldPlan> {
    let input = DeriveInput {
        vis: s(""),
        ident: s("R"),
        generics: Generics { params: vec![], where_preds: vec![] },
        attrs: vec![],
        data: Data::Named(fields),
    };
    resolve_struct(&input).unwrap().fields
}

fn request_plans() -> Vec<FieldPlan> {
    plans(vec![
        field("method", plain("String"), vec![kv("def", Token::Literal { text: s("\"GET\""), str_value: Some(s("GET")) })]),
        field(
            "headers",
            generic("HashMap<String, String>", "HashMap", &["String", "String"]),
            vec![kv("map", Token::Literal { text: s("\"header\""), str_value: Some(s("header")) })],
        ),
        field("body", generic("Option<Bytes>", "Option", &["Bytes"]), vec![kv("optional", Token::Ident(s("true")))]),
    ])
}

#[test]
fn request_with_one_header() {
    let p = request_plans();
    let mut b = DynBuilder::new(&p);
    b.insert(1, s("\"Host\""), s("\"example.com\""));
    let r = b.build(&p).unwrap();
    assert_eq!(
        r,
        vec![
            Value::Plain(s("\"GET\"")),
            Value::Entries(vec![(s("\"Host\""), s("\"example.com\""))]),
            Value::Optional(None),
        ]
    );
}

#[test]
fn unset_required_field_is_named() {
    let p = plans(vec![field("name", plain("String"), vec![])]);
    let b = DynBuilder::new(&p);
    assert_eq!(b.build(&p).unwrap_err(), "name");
}

#[test]
fn first_unset_plain_field_in_declaration_order() {
    let p = plans(vec![field("a", plain("u8"), vec![]), field("b", plain("u8"), vec![]), field("c", plain("u8"), vec![])]);
    let mut b = DynBuilder::new(&p);
    b.set(0, s("1"));
    assert_eq!(b.build(&p).unwrap_err(), "b");
    b.set(2, s("3"));
    assert_eq!(b.build(&p).unwrap_err(), "b");
    b.set(1, s("2"));
    assert_eq!(b.build(&p).unwrap(), vec![Value::Plain(s("1")), Value::Plain(s("2")), Value::Plain(s("3"))]);
}

#[test]
fn optional_field_absent_or_supplied() {
    let p = plans(vec![field("o", generic("Option<u8>", "Option", &["u8"]), vec![kv("optional", Token::Ident(s("true")))])]);
    let mut b = DynBuilder::new(&p);
    assert_eq!(b.build(&p).unwrap(), vec![Value::Optional(None)]);
    b.set(0, s("5"));
    assert_eq!(b.build(&p).unwrap(), vec![Value::Optional(Some(s("5")))]);
}

#[test]
fn sequence_accumulates_in_call_order() {
    let p = plans(vec![field(
        "args",
        generic("Vec<String>", "Vec", &["String"]),
        vec![kv("vec", Token::Literal { text: s("\"arg\""), str_value: Some(s("arg")) })],
    )]);
    let mut b = DynBuilder::new(&p);
    assert_eq!(b.build(&p).unwrap(), vec![Value::Items(vec![])]);
    b.push(0, s("build"));
    b.push(0, s("--release"));
    b.push(0, s("build"));
    assert_eq!(b.build(&p).unwrap(), vec![Value::Items(vec![s("build"), s("--release"), s("build")])]);
}

#[test]
fn mapping_overwrites_same_key() {
    let p = request_plans();
    let mut b = DynBuilder::new(&p);
    b.insert(1, s("k"), s("1"));
    b.insert(1, s("j"), s("2"));
    b.insert(1, s("k"), s("3"));
    let r = b.build(&p).unwrap();
    assert_eq!(r[1], Value::Entries(vec![(s("k"), s("3")), (s("j"), s("2"))]));
}

#[test]
fn round_trip_equals_direct_record() {
    let p = plans(vec![
        field("a", plain("u8"), vec![]),
        field("b", plain("String"), vec![kv("def", Token::Literal { text: s("\"x\""), str_value: Some(s("x")) })]),
        field("c", generic("Option<u8>", "Option", &["u8"]), vec![kv("optional", Token::Ident(s("true")))]),
    ]);
    let mut b = DynBuilder::new(&p);
    b.set(0, s("1"));
    b.set(1, s("\"y\""));
    b.set(2, s("3"));
    assert_eq!(
        b.build(&p).unwrap(),
        vec![Value::Plain(s("1")), Value::Plain(s("\"y\"")), Value::Optional(Some(s("3")))]
    );
}

#[test]
fn duplicate_is_independent() {
    let p = request_plans();
    let mut b = DynBuilder::new(&p);
    b.insert(1, s("\"Host\""), s("\"example.com\""));
    b.set(2, s("[1, 2, 3]"));
    let mut d = b.duplicate();
    assert_eq!(d.build(&p).unwrap(), b.build(&p).unwrap());
    d.set(0, s("\"POST\""));
    d.insert(1, s("\"Accept\""), s("\"*/*\""));
    let kept = b.build(&p).unwrap();
    let copy = d.build(&p).unwrap();
    assert_eq!(kept[0], Value::Plain(s("\"GET\"")));
    assert_eq!(kept[1], Value::Entries(vec![(s("\"Host\""), s("\"example.com\""))]));
    assert_eq!(copy[0], Value::Plain(s("\"POST\"")));
    assert_eq!(copy[2], kept[2]);
}
