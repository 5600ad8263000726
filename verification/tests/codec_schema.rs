use poem_marshal::{
    build_schema, AttrValue, BuildError, ConcreteType, DeclShape, DefaultValue, DynValue,
    FieldDecl, JsonValue, RawAttr, RenameRule, StructDecl, TypeRef,
};
use poem_marshal::{Named, ParseError, Type};

fn field(ident: &str, ty: TypeRef, attrs: Vec<RawAttr>) -> FieldDecl {
    FieldDecl { ident: ident.to_string(), ty, public: true, docs: Vec::new(), attrs }
}

fn attr(key: &str, value: AttrValue) -> RawAttr {
    RawAttr { key: key.to_string(), value }
}

fn plain_decl(ident: &str, fields: Vec<FieldDecl>) -> StructDecl {
    StructDecl {
        ident: ident.to_string(),
        n_params: 0,
        docs: Vec::new(),
        shape: DeclShape::Struct(fields),
        internal: false,
        name_attr: None,
        rename_fields: None,
        concretes: Vec::new(),
    }
}

#[test]
fn build_simple_descriptor() {
    let decl = plain_decl(
        "my_struct",
        vec![field("user_name", TypeRef::Str, vec![]), field("age", TypeRef::Int, vec![])],
    );
    let desc = build_schema(&decl).unwrap();
    assert_eq!(desc.name, "MyStruct");
    assert_eq!(desc.fields.len(), 2);
    assert_eq!(desc.fields[0].wire_name, "userName");
    assert_eq!(desc.fields[1].wire_name, "age");
    assert!(!desc.fields[0].skip);
    assert_eq!(desc.fields[0].default, DefaultValue::Absent);
}

#[test]
fn build_with_overrides() {
    let mut decl = plain_decl(
        "my_struct",
        vec![
            field("user_name", TypeRef::Str, vec![attr("name", AttrValue::Lit(DynValue::Str("login".to_string())))]),
            field("ageValue", TypeRef::Int, vec![]),
        ],
    );
    decl.name_attr = Some("Account".to_string());
    decl.rename_fields = Some(RenameRule::Snake);
    decl.docs = vec![" The account. ".to_string(), "".to_string(), "Extra line.".to_string()];
    let desc = build_schema(&decl).unwrap();
    assert_eq!(desc.name, "Account");
    assert_eq!(desc.fields[0].wire_name, "login");
    assert_eq!(desc.fields[1].wire_name, "age_value");
    assert_eq!(desc.summary, Some("The account.".to_string()));
    assert_eq!(desc.description, Some("Extra line.".to_string()));
}

#[test]
fn build_rejects_non_struct() {
    let mut decl = plain_decl("my_enum", vec![]);
    decl.shape = DeclShape::Enum;
    assert_eq!(build_schema(&decl).unwrap_err(), BuildError::UnsupportedShape);
}

#[test]
fn build_rejects_unknown_attribute_key() {
    let decl = plain_decl(
        "my_struct",
        vec![field("a", TypeRef::Int, vec![attr("rename", AttrValue::Flag)])],
    );
    assert_eq!(
        build_schema(&decl).unwrap_err(),
        BuildError::InvalidFieldAttribute("a".to_string())
    );
}

#[test]
fn build_rejects_wrong_value_kind() {
    let decl = plain_decl(
        "my_struct",
        vec![field("a", TypeRef::Int, vec![attr("name", AttrValue::Flag)])],
    );
    assert_eq!(
        build_schema(&decl).unwrap_err(),
        BuildError::InvalidFieldAttribute("a".to_string())
    );
}

#[test]
fn build_rejects_mismatched_literal_default() {
    let decl = plain_decl(
        "my_struct",
        vec![field(
            "a",
            TypeRef::Int,
            vec![attr("default", AttrValue::Lit(DynValue::Str("oops".to_string())))],
        )],
    );
    assert_eq!(
        build_schema(&decl).unwrap_err(),
        BuildError::InvalidFieldAttribute("a".to_string())
    );
}

#[test]
fn build_rejects_duplicate_wire_name() {
    let decl = plain_decl(
        "my_struct",
        vec![
            field("a", TypeRef::Int, vec![attr("name", AttrValue::Lit(DynValue::Str("x".to_string())))]),
            field("b", TypeRef::Int, vec![attr("name", AttrValue::Lit(DynValue::Str("x".to_string())))]),
        ],
    );
    assert_eq!(
        build_schema(&decl).unwrap_err(),
        BuildError::InvalidFieldAttribute("b".to_string())
    );
}

#[test]
fn build_generic_without_concretes_fails() {
    let mut decl = plain_decl("pair", vec![field("first", TypeRef::Var(0), vec![])]);
    decl.n_params = 1;
    assert_eq!(build_schema(&decl).unwrap_err(), BuildError::GenericWithoutConcretes);
}

#[test]
fn build_generic_with_concretes() {
    let mut decl = plain_decl("wrapper", vec![field("inner", TypeRef::Var(0), vec![])]);
    decl.n_params = 1;
    decl.concretes = vec![
        ConcreteType { name: "IntWrapper".to_string(), params: vec![TypeRef::Int] },
        ConcreteType { name: "StrWrapper".to_string(), params: vec![TypeRef::Str] },
    ];
    let desc = build_schema(&decl).unwrap();
    assert_eq!(desc.concretes.len(), 2);
    assert_eq!(desc.concretes[0].name, "IntWrapper");
}

#[test]
fn build_rejects_bad_concrete_arity() {
    let mut decl = plain_decl("wrapper", vec![field("inner", TypeRef::Var(0), vec![])]);
    decl.n_params = 1;
    decl.concretes = vec![ConcreteType { name: "Bad".to_string(), params: vec![] }];
    assert_eq!(
        build_schema(&decl).unwrap_err(),
        BuildError::InvalidFieldAttribute("Bad".to_string())
    );
}

fn account_descriptor() -> poem_marshal::SchemaDescriptor {
    let decl = plain_decl(
        "account",
        vec![
            field("user_name", TypeRef::Str, vec![]),
            field("age", TypeRef::Int, vec![]),
            field("active", TypeRef::Bool, vec![attr("default", AttrValue::Lit(DynValue::Bool(true)))]),
            field("note", TypeRef::Str, vec![attr("default", AttrValue::Flag)]),
            field("secret", TypeRef::Int, vec![attr("skip", AttrValue::Flag)]),
        ],
    );
    build_schema(&decl).unwrap()
}

fn obj(entries: Vec<(&str, JsonValue)>) -> JsonValue {
    JsonValue::Object(entries.into_iter().map(|(k, v)| (k.to_string(), v)).collect())
}

#[test]
fn decode_full_object() {
    let desc = account_descriptor();
    let input = obj(vec![
        ("userName", JsonValue::Str("ada".to_string())),
        ("age", JsonValue::Int(36)),
        ("active", JsonValue::Bool(false)),
        ("note", JsonValue::Str("hi".to_string())),
    ]);
    let vals = desc.decode_instance(&input).unwrap();
    assert_eq!(
        vals,
        vec![
            DynValue::Str("ada".to_string()),
            DynValue::Int(36),
            DynValue::Bool(false),
            DynValue::Str("hi".to_string()),
            DynValue::Int(0),
        ]
    );
}

#[test]
fn decode_applies_defaults() {
    let desc = account_descriptor();
    let sparse = obj(vec![
        ("userName", JsonValue::Str("ada".to_string())),
        ("age", JsonValue::Int(36)),
    ]);
    let vals = desc.decode_instance(&sparse).unwrap();
    assert_eq!(vals[2], DynValue::Bool(true));
    assert_eq!(vals[3], DynValue::Str(String::new()));
    let explicit = obj(vec![
        ("userName", JsonValue::Str("ada".to_string())),
        ("age", JsonValue::Int(36)),
        ("active", JsonValue::Bool(true)),
    ]);
    assert_eq!(vals, desc.decode_instance(&explicit).unwrap());
}

#[test]
fn decode_missing_required_field_fails() {
    let desc = account_descriptor();
    let input = obj(vec![("userName", JsonValue::Str("ada".to_string()))]);
    let err = desc.decode_instance(&input).unwrap_err();
    assert_eq!(err.expected, "Account");
    assert_eq!(
        err.message,
        "Expected input type \"integer\", found null. (occurred while parsing \"Account\")"
    );
}

#[test]
fn decode_wrong_field_type_fails() {
    let desc = account_descriptor();
    let input = obj(vec![
        ("userName", JsonValue::Str("ada".to_string())),
        ("age", JsonValue::Str("old".to_string())),
    ]);
    let err = desc.decode_instance(&input).unwrap_err();
    assert_eq!(
        err.message,
        "Expected input type \"integer\", found \"old\". (occurred while parsing \"Account\")"
    );
}

#[test]
fn decode_non_object_fails_for_outer_type() {
    let desc = account_descriptor();
    let err = desc.decode_instance(&JsonValue::Int(3)).unwrap_err();
    assert_eq!(err.message, "Expected input type \"Account\", found 3.");
}

#[test]
fn encode_excludes_skip_field() {
    let desc = account_descriptor();
    let vals = vec![
        DynValue::Str("ada".to_string()),
        DynValue::Int(36),
        DynValue::Bool(true),
        DynValue::Str("n".to_string()),
        DynValue::Int(9),
    ];
    let encoded = desc.encode_instance(&vals);
    match &encoded {
        JsonValue::Object(entries) => {
            assert_eq!(entries.len(), 4);
            assert!(entries.iter().all(|(k, _)| k != "secret"));
            assert_eq!(entries[0].0, "userName");
        },
        other => panic!("expected an object, got {:?}", other),
    }
}

#[test]
fn decode_ignores_missing_skip_field() {
    let desc = account_descriptor();
    let input = obj(vec![
        ("userName", JsonValue::Str("ada".to_string())),
        ("age", JsonValue::Int(1)),
    ]);
    let vals = desc.decode_instance(&input).unwrap();
    assert_eq!(vals[4], DynValue::Int(0));
}

#[test]
fn round_trip_without_skip_fields() {
    let decl = plain_decl(
        "point",
        vec![field("x", TypeRef::Int, vec![]), field("y", TypeRef::Int, vec![]), field(
            "label",
            TypeRef::Str,
            vec![],
        )],
    );
    let desc = build_schema(&decl).unwrap();
    let vals = vec![
        DynValue::Int(-3),
        DynValue::Int(7),
        DynValue::Str("origin-ish".to_string()),
    ];
    let encoded = desc.encode_instance(&vals);
    assert_eq!(desc.decode_instance(&encoded).unwrap(), vals);
}

#[test]
fn concrete_instantiations_are_isolated() {
    let mut decl = plain_decl("wrapper", vec![field("inner", TypeRef::Var(0), vec![])]);
    decl.n_params = 1;
    decl.concretes = vec![
        ConcreteType { name: "IntWrapper".to_string(), params: vec![TypeRef::Int] },
        ConcreteType { name: "StrWrapper".to_string(), params: vec![TypeRef::Str] },
    ];
    let desc = build_schema(&decl).unwrap();
    assert_ne!(desc.concretes[0].name, desc.concretes[1].name);
    let ints = vec![DynValue::Int(5)];
    let strs = vec![DynValue::Str("five".to_string())];
    let e0 = desc.encode_instance(&ints);
    let e1 = desc.encode_instance(&strs);
    assert_eq!(desc.decode_concrete(0, &e0).unwrap(), ints);
    assert_eq!(desc.decode_concrete(1, &e1).unwrap(), strs);
    let err = desc.decode_concrete(0, &e1).unwrap_err();
    assert_eq!(
        err.message,
        "Expected input type \"integer\", found \"five\". (occurred while parsing \"IntWrapper\")"
    );
}

#[test]
fn render_json_values() {
    let v = obj(vec![
        ("a", JsonValue::Int(1)),
        ("b", JsonValue::Str("x\"y".to_string())),
        ("c", JsonValue::Array(vec![JsonValue::Null, JsonValue::Bool(true)])),
    ]);
    assert_eq!(v.render(), "{\"a\":1,\"b\":\"x\\\"y\",\"c\":[null,true]}");
    assert_eq!(JsonValue::Int(-42).render(), "-42");
    assert_eq!(JsonValue::Int(i64::MIN).render(), "-9223372036854775808");
    assert_eq!(JsonValue::Str(String::new()).render(), "\"\"");
    assert_eq!(JsonValue::Array(vec![]).render(), "[]");
    assert_eq!(JsonValue::Object(vec![]).render(), "{}");
}

#[test]
fn parse_error_messages() {
    let e = ParseError::<i64>::custom("x");
    assert_eq!(e.message().as_str(), "failed to parse \"integer\": x");
    let collapsed = ParseError::<i64>::custom("x").propagate::<i64>();
    assert_eq!(collapsed.message().as_str(), "failed to parse \"integer\": x");
    let wrapped = ParseError::<i64>::custom("x").propagate::<String>();
    assert_eq!(
        wrapped.message().as_str(),
        "failed to parse \"integer\": x (occurred while parsing \"string\")"
    );
    let expected = ParseError::<i64>::expected_type(&JsonValue::Str("a".to_string()));
    assert_eq!(expected.message().as_str(), "Expected input type \"integer\", found \"a\".");
}

#[test]
fn scalar_type_capability() {
    assert_eq!(<i64 as Named>::name(), "integer");
    assert_eq!(<i64 as Type>::parse(JsonValue::Int(5)).unwrap(), 5);
    assert!(<bool as Type>::parse(JsonValue::Int(1)).is_err());
    assert_eq!(<i64 as Type>::to_value(&7), JsonValue::Int(7));
    assert_eq!(
        <String as Type>::parse(JsonValue::Str("s".to_string())).unwrap(),
        "s".to_string()
    );
    let err = <bool as Type>::parse(JsonValue::Int(1)).unwrap_err();
    assert_eq!(err.message().as_str(), "Expected input type \"boolean\", found 1.");
}

#[test]
fn default_value_constructors() {
    assert_eq!(DefaultValue::from_word(), DefaultValue::UseTypeDefault);
    assert_eq!(
        DefaultValue::from_value(DynValue::Int(3)),
        DefaultValue::Literal(DynValue::Int(3))
    );
}
