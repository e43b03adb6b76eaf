use builders::emit::builder_derive;
use builders::model::{
    Attribute, Data, DeriveInput, Field, GenericParam, Generics, Meta, ParamKind, Token, TypeArg,
    TypeExpr,
};
use builders::plan::{resolve_field, resolve_struct, Diagnostic, FieldError, Mutation, Resolution};
use builders::types::{get_inner_ty, get_stripped_generics, render_generics, render_where, Form};

fn s(x: &str) -> String {
    x.to_string()
}

fn ident(x: &str) -> Token {
    Token::Ident(s(x))
}

fn eq() -> Token {
    Token::Punct { ch: '=', joint: false }
}

fn str_lit(v: &str) -> Token {
    Token::Literal { text: format!("\"{v}\""), str_value: Some(s(v)) }
}

fn lit(text: &str) -> Token {
    Token::Literal { text: s(text), str_value: None }
}

fn plain(text: &str) -> TypeExpr {
    TypeExpr { text: s(text), last_ident: Some(s(text)), args: None }
}

fn generic(text: &str, last: &str, args: &[&str]) -> TypeExpr {
    TypeExpr {
        text: s(text),
        last_ident: Some(s(last)),
        args: Some(args.iter().map(|a| TypeArg { is_type: !a.starts_with('\''), text: s(a) }).collect()),
    }
}

fn builder(tokens: Vec<Token>) -> Attribute {
    Attribute { path: vec![s("builder")], meta: Meta::List(tokens) }
}

fn field(name: &str, ty: TypeExpr, attrs: Vec<Attribute>) -> Field {
    Field { ident: s(name), ty, attrs }
}

fn record(name: &str, fields: Vec<Field>, attrs: Vec<Attribute>) -> DeriveInput {
    DeriveInput {
        vis: s("pub"),
        ident: s(name),
        generics: Generics { params: vec![], where_preds: vec![] },
        attrs,
        data: Data::Named(fields),
    }
}

fn command_fields() -> Vec<Field> {
    vec![
        field("executable", plain("String"), vec![]),
        field("args", generic("Vec<String>", "Vec", &["String"]), vec![]),
        field("env", generic("Vec<String>", "Vec", &["String"]), vec![]),
        field("current_dir", plain("String"), vec![]),
    ]
}

fn http_request() -> DeriveInput {
    let map = || generic("HashMap<Box<str>, Box<str>>", "HashMap", &["Box<str>", "Box<str>"]);
    record(
        "HttpRequest",
        vec![
            field("method", plain("String"), vec![builder(vec![ident("def"), eq(), Token::Group(s("{ String::from(\"GET\") }"))])]),
            field("url", generic("Box<str>", "Box", &["str"]), vec![]),
            field("headers", map(), vec![builder(vec![ident("map"), eq(), str_lit("header")])]),
            field("params", map(), vec![builder(vec![ident("map"), eq(), str_lit("param")])]),
            field("response_headers", map(), vec![builder(vec![ident("map"), eq(), str_lit("response_header")])]),
            field("version", plain("f32"), vec![builder(vec![ident("def"), eq(), lit("1.0")])]),
            field("status", plain("u16"), vec![builder(vec![ident("def"), eq(), lit("200u16")])]),
            field(
                "body",
                generic("Option<Box<[u8]>>", "Option", &["Box<[u8]>"]),
                vec![builder(vec![ident("optional"), eq(), ident("true")])],
            ),
        ],
        vec![builder(vec![ident("clone")])],
    )
}

#[test]
fn tests() {
    // plain fields
    assert!(builder_derive(&record("Command", command_fields(), vec![])).is_ok());
    // an unknown key is refused
    let mut fields = command_fields();
    fields[1].attrs.push(builder(vec![ident("eac"), eq(), str_lit("arg")]));
    assert!(matches!(
        builder_derive(&record("Command", fields, vec![])),
        Err(Diagnostic::Field { error: FieldError::Malformed, .. })
    ));
    // an optional field
    let mut fields = command_fields();
    fields[3] = field(
        "current_dir",
        generic("Option<String>", "Option", &["String"]),
        vec![builder(vec![ident("optional"), eq(), ident("true")])],
    );
    assert!(builder_derive(&record("Command", fields, vec![])).is_ok());
    // a sequence accumulator and generic parameters
    let mut input = record(
        "Command",
        vec![
            field("args", generic("Vec<&'a str>", "Vec", &["&'a str"]), vec![builder(vec![ident("vec"), eq(), str_lit("arg")])]),
            field("i", plain("T"), vec![]),
        ],
        vec![],
    );
    input.generics.params = vec![
        GenericParam { kind: ParamKind::Lifetime, name: s("'a"), bounds: s(""), default: None },
        GenericParam { kind: ParamKind::Type, name: s("T"), bounds: s("Clone"), default: None },
    ];
    let out = builder_derive(&input).unwrap();
    assert!(out.contains("pub struct CommandBuilder<'a, T: Clone, > {"));
    assert!(out.contains("impl<'a, T: Clone, > CommandBuilder<'a, T, > {"));
    assert!(out.contains("pub fn arg(mut self, value: impl ::core::convert::Into<&'a str>) -> Self {"));
    // defaults, mappings, an optional field and a cloneable builder
    assert!(builder_derive(&http_request()).is_ok());
    // an infallible type whose fields all resolve without error
    let input = record(
        "Command",
        vec![
            field("executable", plain("String"), vec![builder(vec![ident("def"), eq(), Token::Group(s("{ String::new() }"))])]),
            field("env", generic("Vec<String>", "Vec", &["String"]), vec![builder(vec![ident("vec"), eq(), str_lit("lol")])]),
            field(
                "current_dir",
                generic("Option<String>", "Option", &["String"]),
                vec![builder(vec![ident("optional"), eq(), ident("true")])],
            ),
        ],
        vec![builder(vec![ident("infallible")])],
    );
    let out = builder_derive(&input).unwrap();
    assert!(out.contains("pub fn build(self) -> Command {"));
}

#[test]
fn exact_builder_text() {
    let input = record("Cmd", vec![field("exe", plain("String"), vec![])], vec![]);
    let expected = [
        "pub struct CmdBuilder {\n",
        "    exe: ::core::option::Option<String>,\n",
        "}\n",
        "impl CmdBuilder {\n",
        "    pub fn build(self) -> ::core::result::Result<Cmd, &'static str> {\n",
        "        let exe = match self.exe { ::core::option::Option::Some(value) => value, ::core::option::Option::None => return ::core::result::Result::Err(\"exe is not set\"), };\n",
        "        ::core::result::Result::Ok(Cmd { exe, })\n",
        "    }\n",
        "    pub fn exe(mut self, value: impl ::core::convert::Into<String>) -> Self {\n",
        "        self.exe = ::core::option::Option::Some(::core::convert::Into::into(value));\n",
        "        self\n",
        "    }\n",
        "    pub fn set_exe(&mut self, value: impl ::core::convert::Into<String>) -> &mut Self {\n",
        "        self.exe = ::core::option::Option::Some(::core::convert::Into::into(value));\n",
        "        self\n",
        "    }\n",
        "}\n",
        "impl Cmd {\n",
        "    pub fn builder() -> CmdBuilder {\n",
        "        CmdBuilder { exe: ::core::option::Option::None, }\n",
        "    }\n",
        "}\n",
    ].concat();
    assert_eq!(builder_derive(&input).unwrap(), expected);
}

#[test]
fn http_request_scenario_text() {
    let out = builder_derive(&http_request()).unwrap();
    assert!(out.contains("    headers: HashMap<Box<str>, Box<str>>,\n"));
    assert!(out.contains("    method: ::core::option::Option<String>,\n"));
    assert!(out.contains("    body: Option<Box<[u8]>>,\n"));
    assert!(out.contains("pub fn header(mut self, key: impl ::core::convert::Into<Box<str>>, value: impl ::core::convert::Into<Box<str>>) -> Self {"));
    assert!(out.contains("self.headers.insert(::core::convert::Into::into(key), ::core::convert::Into::into(value));"));
    assert!(out.contains("pub fn body(mut self, value: impl ::core::convert::Into<Box<[u8]>>) -> Self {"));
    assert!(out.contains("let method = match self.method { ::core::option::Option::Some(value) => value, ::core::option::Option::None => ::core::convert::Into::into({ String::from(\"GET\") }), };"));
    assert!(out.contains("let body = self.body;"));
    assert!(out.contains("impl ::core::clone::Clone for HttpRequestBuilder {"));
    assert!(out.contains("headers: ::core::default::Default::default(), "));
    assert!(out.contains("body: ::core::option::Option::None, "));
    // defaults are applied when finalizing, never when the builder is made
    assert!(!out.contains("method: ::core::convert::Into::into"));
}

#[test]
fn required_field_without_default_is_reported_by_name() {
    let out = builder_derive(&record("Person", vec![field("name", plain("String"), vec![])], vec![])).unwrap();
    assert!(out.contains("return ::core::result::Result::Err(\"name is not set\")"));
}

#[test]
fn infallible_names_every_field_without_default() {
    let input = record(
        "Command",
        vec![
            field("name", plain("String"), vec![]),
            field("count", plain("u32"), vec![builder(vec![ident("def"), eq(), lit("0")])]),
            field("path", plain("String"), vec![]),
        ],
        vec![builder(vec![ident("infallible")])],
    );
    match builder_derive(&input) {
        Err(d @ Diagnostic::Infallible { .. }) => {
            if let Diagnostic::Infallible { fields } = &d {
                assert_eq!(fields, &vec![s("name"), s("path")]);
            }
            assert_eq!(
                d.message(),
                "an infallible builder needs every field optional, accumulated or given a default; these are not: name, path"
            );
        }
        other => panic!("unexpected {other:?}"),
    }
}

#[test]
fn infallible_with_one_plain_field_is_rejected() {
    let input = record("Person", vec![field("name", plain("String"), vec![])], vec![builder(vec![ident("infallible")])]);
    assert!(matches!(builder_derive(&input), Err(Diagnostic::Infallible { fields }) if fields == vec![s("name")]));
}

#[test]
fn field_errors() {
    let vec_ty = || generic("Vec<String>", "Vec", &["String"]);
    let cases: Vec<(Field, FieldError)> = vec![
        (field("a", plain("u8"), vec![builder(vec![ident("optional"), eq(), lit("1")])]), FieldError::Malformed),
        (field("a", plain("u8"), vec![builder(vec![ident("def")])]), FieldError::Malformed),
        (
            field("a", vec_ty(), vec![builder(vec![ident("vec"), eq(), str_lit("x")]), builder(vec![ident("optional")])]),
            FieldError::Conflict,
        ),
        (
            field("a", vec_ty(), vec![builder(vec![ident("vec"), eq(), str_lit("x")]), builder(vec![ident("map"), eq(), str_lit("y")])]),
            FieldError::Conflict,
        ),
        (field("a", vec_ty(), vec![builder(vec![ident("map"), eq(), str_lit("y")])]), FieldError::AccumulatorShape),
        (field("a", plain("String"), vec![builder(vec![ident("vec"), eq(), str_lit("x")])]), FieldError::AccumulatorShape),
        (field("a", plain("String"), vec![builder(vec![ident("optional")])]), FieldError::OptionalShape),
        (field("a", plain("String"), vec![builder(vec![ident("disabled")])]), FieldError::DisabledWithoutDefault),
    ];
    for (f, e) in cases {
        match resolve_field(&f) {
            Err(got) => assert_eq!(got, e),
            Ok(_) => panic!("expected {e:?}"),
        }
    }
}

#[test]
fn first_field_error_in_declaration_order() {
    let input = record(
        "R",
        vec![
            field("ok", plain("u8"), vec![]),
            field("bad1", plain("u8"), vec![builder(vec![ident("disabled")])]),
            field("bad2", plain("u8"), vec![builder(vec![ident("optional")])]),
        ],
        vec![],
    );
    match builder_derive(&input) {
        Err(d @ Diagnostic::Field { .. }) => {
            assert_eq!(d.message(), "field `bad1`: a `disabled` field needs `def = ...`");
        }
        other => panic!("unexpected {other:?}"),
    }
}

#[test]
fn other_diagnostics() {
    let mut input = record("R", vec![], vec![]);
    input.data = Data::Unnamed;
    assert!(matches!(builder_derive(&input), Err(Diagnostic::UnnamedFields)));
    input.data = Data::Union;
    match builder_derive(&input) {
        Err(d @ Diagnostic::NotStruct) => assert_eq!(d.message(), "the derive must be applied to a struct"),
        other => panic!("unexpected {other:?}"),
    }
    let input = record("R", vec![], vec![builder(vec![ident("optional")])]);
    assert!(matches!(builder_derive(&input), Err(Diagnostic::TypeAnnotation)));
    let vec_ty = || generic("Vec<String>", "Vec", &["String"]);
    let input = record(
        "R",
        vec![
            field("a", vec_ty(), vec![builder(vec![ident("vec"), eq(), str_lit("item")])]),
            field("b", vec_ty(), vec![builder(vec![ident("vec"), eq(), str_lit("item")])]),
        ],
        vec![],
    );
    match builder_derive(&input) {
        Err(d @ Diagnostic::NameCollision { .. }) => {
            assert_eq!(d.message(), "two builder methods would be named `item`");
        }
        other => panic!("unexpected {other:?}"),
    }
}

#[test]
fn plans_follow_the_annotations() {
    let input = http_request();
    let plan = resolve_struct(&input).unwrap();
    assert!(plan.cloneable && !plan.infallible);
    let f = &plan.fields;
    assert!(matches!(&f[0].resolution, Resolution::DefaultOnAbsent(e) if e == "{ String::from(\"GET\") }"));
    assert!(f[0].presence_wrapped);
    assert!(matches!(f[1].resolution, Resolution::ErrorOnAbsent));
    assert!(matches!(&f[2].mutation, Mutation::Insert { accessor, key, value } if accessor == "header" && key == "Box<str>" && value == "Box<str>"));
    assert!(matches!(f[2].resolution, Resolution::TakeAsIs) && !f[2].presence_wrapped);
    assert!(matches!(&f[7].mutation, Mutation::Setter { ty } if ty == "Box<[u8]>"));
    assert!(!f[7].presence_wrapped);
    let disabled = field("d", plain("u8"), vec![builder(vec![ident("disabled"), eq(), ident("true")]), builder(vec![ident("def"), eq(), lit("7")])]);
    let p = resolve_field(&disabled).unwrap();
    assert!(matches!(p.mutation, Mutation::Fixed));
    assert!(matches!(&p.resolution, Resolution::FixedLiteral(e) if e == "7"));
    // a flag set to false is off; the first occurrence of a key counts
    let f = field("o", plain("u8"), vec![builder(vec![ident("optional"), eq(), ident("false")]), builder(vec![ident("optional")])]);
    assert!(matches!(resolve_field(&f).unwrap().resolution, Resolution::ErrorOnAbsent));
}

#[test]
fn disabled_field_is_fixed_and_absent_from_builder() {
    let input = record(
        "R",
        vec![
            field("a", plain("u8"), vec![]),
            field("d", plain("u8"), vec![builder(vec![ident("disabled")]), builder(vec![ident("def"), eq(), lit("7")])]),
        ],
        vec![],
    );
    let out = builder_derive(&input).unwrap();
    assert!(out.contains("        let d = 7;\n"));
    assert!(!out.contains("    d: "));
    assert!(!out.contains("fn d("));
}

#[test]
fn generics_renderings() {
    let g = Generics {
        params: vec![
            GenericParam { kind: ParamKind::Lifetime, name: s("'a"), bounds: s(""), default: None },
            GenericParam { kind: ParamKind::Type, name: s("T"), bounds: s("Clone"), default: Some(s("i32")) },
            GenericParam { kind: ParamKind::Const(s("usize")), name: s("N"), bounds: s(""), default: None },
        ],
        where_preds: vec![s("T: Default")],
    };
    assert_eq!(render_generics(&g, Form::Decl), "<'a, T: Clone = i32, const N: usize, >");
    assert_eq!(render_generics(&g, Form::Impl), "<'a, T: Clone, const N: usize, >");
    assert_eq!(get_stripped_generics(&g), "<'a, T, N, >");
    assert_eq!(render_where(&g, ""), " where T: Default, ");
    assert_eq!(render_where(&g, "T: Clone, "), " where T: Default, T: Clone, ");
    let empty = Generics { params: vec![], where_preds: vec![] };
    assert_eq!(render_generics(&empty, Form::Decl), "");
    assert_eq!(render_where(&empty, ""), "");
}

#[test]
fn cloneable_builder_requires_clone_of_type_parameters() {
    let mut input = record("W", vec![field("v", plain("T"), vec![])], vec![builder(vec![ident("clone"), eq(), ident("true")])]);
    input.generics.params = vec![GenericParam { kind: ParamKind::Type, name: s("T"), bounds: s(""), default: None }];
    let out = builder_derive(&input).unwrap();
    assert!(out.contains("impl<T, > ::core::clone::Clone for WBuilder<T, > where T: ::core::clone::Clone,  {"));
    assert!(out.contains("WBuilder { v: ::core::clone::Clone::clone(&self.v), }"));
}

#[test]
fn inner_types_keep_only_type_arguments() {
    let t = generic("Cow<'a, str>", "Cow", &["'a", "str"]);
    assert_eq!(get_inner_ty(&t), Some(vec![s("str")]));
    assert_eq!(get_inner_ty(&plain("u8")), None);
}

fn joint(c: char) -> Token {
    Token::Punct { ch: c, joint: true }
}

#[test]
fn default_expression_of_several_tokens() {
    // def = String::new()
    let toks = vec![ident("def"), eq(), ident("String"), joint(':'), Token::Punct { ch: ':', joint: false }, ident("new"), Token::Group(s("()"))];
    let f = field("name", plain("String"), vec![builder(toks)]);
    let p = resolve_field(&f).unwrap();
    assert!(matches!(&p.resolution, Resolution::DefaultOnAbsent(e) if e == "String :: new ()"));
    // def = 1 + 2, on a disabled field
    let f = field("n", plain("u8"), vec![builder(vec![ident("disabled")]), builder(vec![ident("def"), eq(), lit("1"), Token::Punct { ch: '+', joint: false }, lit("2")])]);
    let p = resolve_field(&f).unwrap();
    assert!(matches!(&p.resolution, Resolution::FixedLiteral(e) if e == "1 + 2"));
    let out = builder_derive(&record("R", vec![f], vec![])).unwrap();
    assert!(out.contains("        let n = 1 + 2;\n"));
    // other keys still take one value token
    let f = field("o", plain("u8"), vec![builder(vec![ident("optional"), eq(), ident("true"), ident("true")])]);
    assert!(matches!(resolve_field(&f), Err(FieldError::Malformed)));
}

#[test]
fn setter_variant_and_finalizer_names_collide() {
    let input = record("R", vec![field("a", plain("u8"), vec![]), field("set_a", plain("u8"), vec![])], vec![]);
    assert!(matches!(builder_derive(&input), Err(Diagnostic::NameCollision { name }) if name == "set_a"));
    let input = record("R", vec![field("build", plain("u8"), vec![])], vec![]);
    assert!(matches!(builder_derive(&input), Err(Diagnostic::NameCollision { name }) if name == "build"));
    let vec_ty = generic("Vec<u8>", "Vec", &["u8"]);
    let input = record("R", vec![field("items", vec_ty, vec![builder(vec![ident("vec"), eq(), str_lit("build")])])], vec![]);
    assert!(matches!(builder_derive(&input), Err(Diagnostic::NameCollision { name }) if name == "build"));
}
