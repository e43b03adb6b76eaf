use builders::attrs::text_of;
use builders::companions::{auto_box_derive, constructor_derive, get_prefix, getters_derive, setters_derive, wrap_enum_derive};
use builders::model::{Attribute, Data, DeriveInput, Field, GenericParam, Generics, Meta, ParamKind, Token, TypeExpr};
use builders::plan::Diagnostic;

fn s(x: &str) -> String {
    x.to_string()
}

fn plain(text: &str) -> TypeExpr {
    TypeExpr { text: s(text), last_ident: Some(s(text)), args: None }
}

fn named(path: &str, meta: Meta) -> Attribute {
    Attribute { path: vec![s(path)], meta }
}

fn prefix(attr: &str, p: &str) -> Attribute {
    named(
        attr,
        Meta::List(vec![
            Token::Ident(s("prefix")),
            Token::Punct { ch: '=', joint: false },
            Token::Literal { text: format!("\"{p}\""), str_value: Some(s(p)) },
        ]),
    )
}

fn record(fields: Vec<Field>, attrs: Vec<Attribute>) -> DeriveInput {
    DeriveInput {
        vis: s("pub"),
        ident: s("S"),
        generics: Generics { params: vec![], where_preds: vec![] },
        attrs,
        data: Data::Named(fields),
    }
}

fn f(name: &str, ty: &str, attrs: Vec<Attribute>) -> Field {
    Field { ident: s(name), ty: plain(ty), attrs }
}

#[test]
fn getters_with_default_prefix() {
    let out = getters_derive(&record(vec![f("i", "i32", vec![])], vec![])).unwrap();
    assert_eq!(out, "impl S {\n    pub fn get_i(&self) -> &i32 {\n        &self.i\n    }\n}\n");
}

#[test]
fn getters_and_setters_with_prefix() {
    let input = record(
        vec![f("executable", "String", vec![]), f("hidden", "u8", vec![named("getter", Meta::NameValue(Token::Ident(s("false"))))])],
        vec![prefix("getters", "pre_"), prefix("setters", "intoo_")],
    );
    let g = getters_derive(&input).unwrap();
    assert!(g.contains("pub fn pre_executable(&self) -> &String {"));
    assert!(!g.contains("hidden"));
    let st = setters_derive(&input).unwrap();
    assert!(st.contains(
        "    pub fn intoo_executable(&mut self, executable: impl ::core::convert::Into<String>) {\n        self.executable = ::core::convert::Into::into(executable);\n    }\n"
    ));
    assert!(st.contains("pub fn intoo_hidden("));
    assert_eq!(get_prefix(&input.attrs, "get_", "getters"), "pre_");
    assert_eq!(get_prefix(&vec![], "get_", "getters"), "get_");
}

#[test]
fn constructor_skips_fields_marked_false() {
    let input = record(
        vec![
            f("i", "i32", vec![]),
            f("s", "String", vec![]),
            f("opt", "Option<i32>", vec![named("constructor", Meta::NameValue(Token::Ident(s("false"))))]),
        ],
        vec![],
    );
    let out = constructor_derive(&input).unwrap();
    assert_eq!(
        out,
        [
            "impl S {\n",
            "    pub fn new(i: impl ::core::convert::Into<i32>, s: impl ::core::convert::Into<String>, ) -> S {\n",
            "        Self { i: ::core::convert::Into::into(i), s: ::core::convert::Into::into(s), opt: ::core::default::Default::default(), }\n",
            "    }\n",
            "}\n",
        ].concat()
    );
}

#[test]
fn companions_need_named_fields() {
    let mut input = record(vec![], vec![]);
    input.data = Data::Enum;
    assert!(matches!(getters_derive(&input), Err(Diagnostic::NotStruct)));
    assert!(matches!(constructor_derive(&input), Err(Diagnostic::NotStruct)));
    input.data = Data::Unnamed;
    assert!(matches!(setters_derive(&input), Err(Diagnostic::UnnamedFields)));
    assert!(matches!(constructor_derive(&input), Err(Diagnostic::UnnamedFields)));
}

#[test]
fn boxing_with_generics() {
    let mut input = record(vec![], vec![]);
    input.generics = Generics {
        params: vec![GenericParam { kind: ParamKind::Type, name: s("T"), bounds: s("Clone"), default: None }],
        where_preds: vec![],
    };
    assert_eq!(
        auto_box_derive(&input),
        "impl<T: Clone, > S<T, > {\n    pub fn as_box(self) -> ::std::boxed::Box<S<T, >> {\n        ::std::boxed::Box::new(self)\n    }\n}\n"
    );
}

#[test]
fn into_enum_variant() {
    let toks = vec![
        Token::Ident(s("enum_name")),
        Token::Punct { ch: '=', joint: false },
        Token::Ident(s("Shape")),
        Token::Punct { ch: ',', joint: false },
        Token::Ident(s("field")),
        Token::Punct { ch: '=', joint: false },
        Token::Ident(s("Square")),
        Token::Punct { ch: ',', joint: false },
    ];
    let input = record(vec![], vec![named("into_enum", Meta::List(toks))]);
    assert_eq!(
        wrap_enum_derive(&input).unwrap(),
        "impl ::core::convert::From<S> for Shape {\n    fn from(value: S) -> Self {\n        Shape::Square(value)\n    }\n}\n"
    );
    let only_enum = record(
        vec![],
        vec![named("into_enum", Meta::List(vec![Token::Ident(s("enum_name")), Token::Punct { ch: '=', joint: false }, Token::Ident(s("E"))]))],
    );
    assert!(wrap_enum_derive(&only_enum).unwrap().contains("E::S(value)"));
    let missing = record(vec![], vec![]);
    assert!(matches!(wrap_enum_derive(&missing), Err(Diagnostic::MissingEnumName)));
    let bad = record(vec![], vec![named("into_enum", Meta::List(vec![Token::Ident(s("enum_name")), Token::Ident(s("E"))]))]);
    assert!(matches!(wrap_enum_derive(&bad), Err(Diagnostic::TypeAnnotation)));
}

#[test]
fn punctuation_token_text() {
    assert_eq!(text_of(&Token::Punct { ch: '-', joint: false }), "-");
}
