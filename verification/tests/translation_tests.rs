use elm_duet::elm::{Decl, Module, RecordPresence, Type};
use elm_duet::error::ErrorKind;
use elm_duet::node::{ScalarType, SchemaNode};
use elm_duet::sorted_map::SortedMap;
use elm_duet::typescript::{FieldPresence, NamespaceBuilder, TSType};

fn scalar(type_: ScalarType) -> SchemaNode {
    SchemaNode::Type { nullable: false, type_ }
}

fn metadata(entries: Vec<(&str, Option<&str>)>) -> SortedMap<Option<String>> {
    SortedMap::from_entries(
        entries.into_iter().map(|(k, v)| (k.to_string(), v.map(|v| v.to_string()))).collect(),
    )
}

fn nodes(entries: Vec<(&str, SchemaNode)>) -> SortedMap<SchemaNode> {
    SortedMap::from_entries(entries.into_iter().map(|(k, v)| (k.to_string(), v)).collect())
}

fn reference(name: &str) -> SchemaNode {
    SchemaNode::Ref { definitions: SortedMap::new(), nullable: false, ref_: name.to_string() }
}

fn object(properties: Vec<(&str, SchemaNode)>) -> SchemaNode {
    SchemaNode::Properties {
        metadata: SortedMap::new(),
        nullable: false,
        properties: nodes(properties),
        optional_properties: SortedMap::new(),
    }
}

fn union(members: Vec<(&str, SchemaNode)>) -> SchemaNode {
    SchemaNode::Discriminator {
        metadata: metadata(vec![("name", Some("Msg"))]),
        nullable: false,
        discriminator: "kind".to_string(),
        mapping: nodes(members),
    }
}

fn record(fields: Vec<(&str, (Type, RecordPresence))>) -> Type {
    Type::Record(SortedMap::from_entries(
        fields.into_iter().map(|(k, v)| (k.to_string(), v)).collect(),
    ))
}

#[test]
fn translating_twice_gives_equal_results() {
    let schema = union(vec![
        ("one", object(vec![("a", scalar(ScalarType::Float32))])),
        ("two", SchemaNode::Empty),
    ]);
    let globals = SortedMap::new();

    let first = Type::from_schema(&schema, None, &globals, None).unwrap();
    let second = Type::from_schema(&schema, None, &globals, None).unwrap();
    assert_eq!(first, second);

    let first = TSType::from_schema(&schema, &globals).unwrap();
    let second = TSType::from_schema(&schema, &globals).unwrap();
    assert_eq!(first, second);
}

#[test]
fn unions_need_a_name() {
    let schema = SchemaNode::Discriminator {
        metadata: SortedMap::new(),
        nullable: false,
        discriminator: "kind".to_string(),
        mapping: SortedMap::new(),
    };

    let err = Type::from_schema(&schema, None, &SortedMap::new(), None).unwrap_err();

    assert_eq!(err.kind(), ErrorKind::NameRequired);
    assert_eq!(err.message(), "string names are required for discriminators");
}

#[test]
fn a_name_that_is_no_string_does_not_count() {
    let schema = SchemaNode::Enum {
        metadata: metadata(vec![("name", None)]),
        nullable: false,
        enum_: vec!["a".to_string()],
    };

    let err = Type::from_schema(&schema, None, &SortedMap::new(), None).unwrap_err();

    assert_eq!(err.kind(), ErrorKind::NameRequired);
}

#[test]
fn the_name_in_metadata_wins_over_the_suggestion() {
    let schema = SchemaNode::Enum {
        metadata: metadata(vec![("constructorPrefix", Some("Color")), ("name", Some("Hue"))]),
        nullable: false,
        enum_: vec!["red".to_string(), "blue".to_string(), "red".to_string()],
    };

    let (type_, decls) =
        Type::from_schema(&schema, Some("Suggested".to_string()), &SortedMap::new(), None).unwrap();

    assert_eq!(type_, Type::Ref("Hue".into()));
    assert_eq!(
        decls,
        vec![Decl::CustomTypeEnum {
            name: "Hue".into(),
            discriminator: None,
            constructor_prefix: "Color".into(),
            cases: SortedMap::from_entries(vec![
                ("blue".to_string(), None),
                ("red".to_string(), None)
            ]),
        }]
    );
}

#[test]
fn elements_and_values_pass_a_suffixed_name_on() {
    let list = SchemaNode::Elements { nullable: false, elements: Box::new(object(vec![])) };
    let (type_, decls) =
        Type::from_schema(&list, Some("Flags".to_string()), &SortedMap::new(), None).unwrap();
    assert_eq!(type_, Type::List(Box::new(Type::Ref("FlagsElements".into()))));
    assert_eq!(
        decls,
        vec![Decl::TypeAlias {
            name: "FlagsElements".into(),
            type_: record(vec![]),
            discriminator: None
        }]
    );

    let dict = SchemaNode::Values { nullable: false, values: Box::new(object(vec![])) };
    let (type_, decls) =
        Type::from_schema(&dict, Some("Flags".to_string()), &SortedMap::new(), None).unwrap();
    assert_eq!(type_, Type::DictWithStringKeys(Box::new(Type::Ref("FlagsValues".into()))));
    assert_eq!(decls.len(), 1);
}

#[test]
fn a_reference_that_nothing_defines_fails() {
    let err = Type::from_schema(&reference("foo"), None, &SortedMap::new(), None).unwrap_err();
    assert_eq!(err.kind(), ErrorKind::UnresolvedReference);
    assert_eq!(err.message(), "could not find a definition for `foo`");

    let err = TSType::from_schema(&reference("foo"), &SortedMap::new()).unwrap_err();
    assert_eq!(err.kind(), ErrorKind::UnresolvedReference);
    assert_eq!(err.message(), "could not find a definition for `foo`");
}

#[test]
fn a_failure_carries_the_way_to_it() {
    let schema = SchemaNode::Properties {
        metadata: metadata(vec![("name", Some("Outer"))]),
        nullable: false,
        properties: nodes(vec![("inner", reference("known"))]),
        optional_properties: SortedMap::new(),
    };
    let globals = nodes(vec![(
        "known",
        SchemaNode::Elements { nullable: false, elements: Box::new(reference("unknown")) },
    )]);

    let err = Type::from_schema(&schema, None, &globals, None).unwrap_err();

    assert_eq!(err.kind(), ErrorKind::UnresolvedReference);
    assert_eq!(
        err.chain(),
        vec![
            "could not convert the type of `inner`".to_string(),
            "could not convert the value of ref `known`".to_string(),
            "could not convert elements of a list".to_string(),
            "could not find a definition for `unknown`".to_string(),
        ]
    );
}

#[test]
fn a_definition_that_refers_to_itself_fails() {
    let globals = nodes(vec![
        ("a", SchemaNode::Elements { nullable: false, elements: Box::new(reference("b")) }),
        ("b", SchemaNode::Values { nullable: false, values: Box::new(reference("a")) }),
    ]);

    let err = Type::from_schema(&reference("a"), None, &globals, None).unwrap_err();
    assert_eq!(err.kind(), ErrorKind::CyclicReference);
    assert_eq!(err.root_cause(), "the definition `a` refers to itself");

    let err = TSType::from_schema(&reference("a"), &globals).unwrap_err();
    assert_eq!(err.kind(), ErrorKind::CyclicReference);
    assert_eq!(err.message(), "the definition `a` refers to itself");
}

#[test]
fn a_definition_may_be_used_twice() {
    let globals = nodes(vec![("id", scalar(ScalarType::String))]);
    let schema = SchemaNode::Properties {
        metadata: metadata(vec![("name", Some("Pair"))]),
        nullable: false,
        properties: nodes(vec![("left", reference("id")), ("right", reference("id"))]),
        optional_properties: SortedMap::new(),
    };

    let (type_, decls) = Type::from_schema(&schema, None, &globals, None).unwrap();

    assert_eq!(type_, Type::Ref("Pair".into()));
    assert_eq!(
        decls,
        vec![Decl::TypeAlias {
            name: "Pair".into(),
            type_: record(vec![
                ("left", (Type::String, RecordPresence::Required)),
                ("right", (Type::String, RecordPresence::Required)),
            ]),
            discriminator: None,
        }]
    );
}

#[test]
fn a_local_definition_wins_over_a_global_one() {
    let schema = SchemaNode::Ref {
        definitions: nodes(vec![("foo", scalar(ScalarType::String))]),
        nullable: false,
        ref_: "foo".to_string(),
    };
    let globals = nodes(vec![("foo", scalar(ScalarType::Int32))]);

    let (type_, _) = Type::from_schema(&schema, None, &globals, None).unwrap();
    assert_eq!(type_, Type::String);

    let type_ = TSType::from_schema(&schema, &globals).unwrap();
    assert_eq!(type_, TSType::Scalar { value: "string", nullable: false });
}

#[test]
fn nullability_is_applied_once() {
    let globals = nodes(vec![("foo", SchemaNode::Type { nullable: true, type_: ScalarType::String })]);
    let schema =
        SchemaNode::Ref { definitions: SortedMap::new(), nullable: true, ref_: "foo".to_string() };

    let (type_, _) = Type::from_schema(&schema, None, &globals, None).unwrap();

    assert_eq!(type_, Type::Maybe(Box::new(Type::String)));
    assert_eq!(Type::maybe(Type::maybe(Type::Int)), Type::Maybe(Box::new(Type::Int)));
}

#[test]
fn an_optional_property_that_is_nullable_is_one_maybe() {
    let schema = SchemaNode::Properties {
        metadata: metadata(vec![("name", Some("Foo"))]),
        nullable: false,
        properties: SortedMap::new(),
        optional_properties: nodes(vec![(
            "a",
            SchemaNode::Type { nullable: true, type_: ScalarType::String },
        )]),
    };

    let (_, decls) = Type::from_schema(&schema, None, &SortedMap::new(), None).unwrap();

    assert_eq!(
        decls,
        vec![Decl::TypeAlias {
            name: "Foo".into(),
            type_: record(vec![(
                "a",
                (Type::Maybe(Box::new(Type::String)), RecordPresence::Optional)
            )]),
            discriminator: None,
        }]
    );
}

#[test]
fn a_member_without_constraint_becomes_an_empty_record_with_the_tag() {
    let (type_, decls) = Type::from_schema(
        &union(vec![("stop", SchemaNode::Empty)]),
        None,
        &SortedMap::new(),
        None,
    )
    .unwrap();

    assert_eq!(type_, Type::Ref("Msg".into()));
    assert_eq!(
        decls,
        vec![
            Decl::TypeAlias {
                name: "kind_stop".into(),
                type_: record(vec![]),
                discriminator: Some(("kind".to_string(), "stop".to_string())),
            },
            Decl::CustomTypeEnum {
                name: "Msg".into(),
                discriminator: Some("kind".to_string()),
                constructor_prefix: "".into(),
                cases: SortedMap::from_entries(vec![(
                    "stop".to_string(),
                    Some(Type::Ref("kind_stop".into()))
                )]),
            },
        ]
    );

    let type_ =
        TSType::from_schema(&union(vec![("stop", SchemaNode::Empty)]), &SortedMap::new()).unwrap();
    assert_eq!(type_.to_source(true), "{\n  kind: \"stop\";\n}");
}

#[test]
fn a_member_that_is_no_object_cannot_carry_the_tag() {
    let schema = union(vec![("text", scalar(ScalarType::String))]);

    let err = Type::from_schema(&schema, None, &SortedMap::new(), None).unwrap_err();
    assert_eq!(err.kind(), ErrorKind::DiscriminatorTargetInvalid);
    assert_eq!(
        err.chain(),
        vec![
            "could not convert mapping for `text`".to_string(),
            "I can't add a discriminator to a string".to_string(),
        ]
    );

    let err = TSType::from_schema(&schema, &SortedMap::new()).unwrap_err();
    assert_eq!(err.kind(), ErrorKind::DiscriminatorTargetInvalid);
    assert_eq!(err.message(), "add_key_to_object only works on objects");
}

#[test]
fn every_kind_of_type_refuses_the_tag_in_its_own_words() {
    let nullable_object = SchemaNode::Properties {
        metadata: SortedMap::new(),
        nullable: true,
        properties: SortedMap::new(),
        optional_properties: SortedMap::new(),
    };
    let cases = vec![
        (scalar(ScalarType::Int8), "I can't add a discriminator to an int"),
        (scalar(ScalarType::Float64), "I can't add a discriminator to an float"),
        (scalar(ScalarType::Boolean), "I can't add a discriminator to a bool"),
        (scalar(ScalarType::Timestamp), "I can't add a discriminator to a string"),
        (
            SchemaNode::Type { nullable: true, type_: ScalarType::Int8 },
            "I can't add a discriminator to an int",
        ),
        (
            SchemaNode::Values { nullable: false, values: Box::new(scalar(ScalarType::Int8)) },
            "I can't add a discriminator to an int",
        ),
        (
            SchemaNode::Values { nullable: false, values: Box::new(SchemaNode::Empty) },
            "I can't add a discriminator to a dict",
        ),
        (
            SchemaNode::Elements { nullable: false, elements: Box::new(SchemaNode::Empty) },
            "I can't add a discriminator to a list",
        ),
        (
            SchemaNode::Ref {
                definitions: nodes(vec![("n", nullable_object)]),
                nullable: false,
                ref_: "n".to_string(),
            },
            "I can't add a discriminator to a maybe",
        ),
    ];
    for (member, cause) in cases {
        let err = Type::from_schema(&union(vec![("m", member)]), None, &SortedMap::new(), None)
            .unwrap_err();
        assert_eq!(err.kind(), ErrorKind::DiscriminatorTargetInvalid);
        assert_eq!(err.root_cause(), cause);
    }

    let enumeration = SchemaNode::Enum {
        metadata: SortedMap::new(),
        nullable: false,
        enum_: vec!["a".to_string()],
    };
    let err = Type::from_schema(&union(vec![("m", enumeration)]), None, &SortedMap::new(), None)
        .unwrap_err();
    assert_eq!(err.kind(), ErrorKind::DiscriminatorTargetInvalid);
    assert_eq!(err.root_cause(), "cannot add a discriminator to a custom type");
}

#[test]
fn add_discriminator_takes_only_aliases_of_records() {
    let mut alias =
        Decl::TypeAlias { name: "a".into(), type_: record(vec![]), discriminator: None };
    alias.add_discriminator("tag".to_string(), "a".to_string()).unwrap();
    assert_eq!(
        alias,
        Decl::TypeAlias {
            name: "a".into(),
            type_: record(vec![]),
            discriminator: Some(("tag".to_string(), "a".to_string()))
        }
    );

    let mut alias = Decl::TypeAlias { name: "a".into(), type_: Type::Int, discriminator: None };
    let err = alias.add_discriminator("tag".to_string(), "a".to_string()).unwrap_err();
    assert_eq!(err.kind(), ErrorKind::DiscriminatorTargetInvalid);
    assert_eq!(alias, Decl::TypeAlias { name: "a".into(), type_: Type::Int, discriminator: None });

    let mut custom = Decl::CustomTypeEnum {
        name: "a".into(),
        discriminator: None,
        constructor_prefix: "".into(),
        cases: SortedMap::new(),
    };
    let err = custom.add_discriminator("tag".to_string(), "a".to_string()).unwrap_err();
    assert_eq!(err.message(), "cannot add a discriminator to a custom type");
}

#[test]
fn a_module_needs_a_name_for_a_type_without_one() {
    let mut module = Module::new(vec!["Main".to_string()]);

    let err = module
        .insert_from_schema(&scalar(ScalarType::String), None, &SortedMap::new())
        .unwrap_err();

    assert_eq!(err.kind(), ErrorKind::NameRequired);
    assert_eq!(
        err.message(),
        "need a name suggestion to create a top-level definition from an unnamed type"
    );
    assert_eq!(module, Module::new(vec!["Main".to_string()]));
}

#[test]
fn a_module_hands_out_the_declaration_of_what_was_inserted() {
    let mut module = Module::new(vec!["Main".to_string()]);

    let decl = module
        .insert_from_schema(
            &object(vec![("a", scalar(ScalarType::Int8))]),
            Some("Flags".to_string()),
            &SortedMap::new(),
        )
        .unwrap();

    assert_eq!(
        decl,
        Decl::TypeAlias {
            name: "Flags".into(),
            type_: record(vec![("a", (Type::Int, RecordPresence::Required))]),
            discriminator: None
        }
    );
    assert_eq!(module.decls, vec![decl.clone()]);
    assert_eq!(decl.name().orig(), "Flags");
}

#[test]
fn no_constraint_is_an_object_without_properties() {
    let type_ = TSType::from_schema(&SchemaNode::Empty, &SortedMap::new()).unwrap();

    assert_eq!(type_, TSType::NeverObject);
    assert_eq!(type_.to_source(true), "Record<string, never>");

    let (type_, decls) = Type::from_schema(&SchemaNode::Empty, None, &SortedMap::new(), None).unwrap();
    assert_eq!(type_, Type::Unit);
    assert_eq!(decls, Vec::new());
}

#[test]
fn optional_properties_are_marked_in_structural_types() {
    let schema = SchemaNode::Properties {
        metadata: SortedMap::new(),
        nullable: true,
        properties: nodes(vec![("b", scalar(ScalarType::Boolean))]),
        optional_properties: nodes(vec![("a", scalar(ScalarType::String))]),
    };

    let type_ = TSType::from_schema(&schema, &SortedMap::new()).unwrap();

    assert_eq!(
        type_,
        TSType::Object {
            properties: SortedMap::from_entries(vec![
                (
                    "a".to_string(),
                    (TSType::Scalar { value: "string", nullable: false }, FieldPresence::Optional)
                ),
                (
                    "b".to_string(),
                    (TSType::Scalar { value: "bool", nullable: false }, FieldPresence::Required)
                ),
            ]),
            nullable: true,
        }
    );
    assert_eq!(type_.to_source(false), "{\n  a?: string;\n  b: bool;\n} | null");
}

#[test]
fn an_enumeration_is_a_set_of_literals() {
    let schema = SchemaNode::Enum {
        metadata: SortedMap::new(),
        nullable: true,
        enum_: vec!["b".to_string(), "a".to_string(), "b".to_string()],
    };

    let type_ = TSType::from_schema(&schema, &SortedMap::new()).unwrap();

    assert_eq!(type_.to_source(true), "\"a\" | \"b\" | null");
}

#[test]
fn the_nullability_of_a_reference_replaces_that_of_the_definition() {
    let globals = nodes(vec![("foo", SchemaNode::Type { nullable: true, type_: ScalarType::Int8 })]);

    let type_ = TSType::from_schema(&reference("foo"), &globals).unwrap();

    assert_eq!(type_, TSType::Scalar { value: "number", nullable: false });

    let mut never = TSType::new_neverobject();
    never.set_nullable(true);
    assert_eq!(never, TSType::NeverObject);
}

#[test]
fn add_key_to_object_takes_only_objects() {
    let mut object = TSType::new_singleton_object("a", TSType::new_void(), FieldPresence::Optional);
    object.add_key_to_object("tag", TSType::StringScalar("x".to_string())).unwrap();
    assert_eq!(object.to_source(false), "{\n  a?: void;\n  tag: \"x\";\n}");

    let mut other = TSType::new_ref("Flags");
    let err = other.add_key_to_object("tag", TSType::new_void()).unwrap_err();
    assert_eq!(err.kind(), ErrorKind::DiscriminatorTargetInvalid);
    assert_eq!(err.message(), "add_key_to_object only works on objects");
    assert_eq!(other, TSType::new_ref("Flags"));
}

#[test]
fn functions_for_ports() {
    let value = TSType::Scalar { value: "string", nullable: false };
    assert_eq!(
        TSType::new_send_function(value).to_source(false),
        "(value: string) => void"
    );

    let value = TSType::Scalar { value: "string", nullable: false };
    assert_eq!(
        TSType::new_subscribe_function(value).to_source(false),
        "(callback: (value: string) => void) => void"
    );
}

#[test]
fn the_function_that_starts_the_application() {
    assert_eq!(
        TSType::new_ref("Flags").into_init().to_source(true),
        "function init(config: {\n  flags: Flags;\n  node: HTMLElement;\n  ports?: Ports;\n}): void"
    );
    assert_eq!(TSType::new_init(TSType::new_ref("Flags")), TSType::new_ref("Flags").into_init());
}

#[test]
fn lists_of_nullable_types_are_parenthesized() {
    let list = TSType::List {
        elements: Box::new(TSType::Scalar { value: "number", nullable: true }),
        nullable: true,
    };

    assert_eq!(list.to_source(false), "(number | null)[] | null");
}

#[test]
fn fragments_cannot_be_stored_at_the_root() {
    let mut builder = NamespaceBuilder::root("Elm");

    let err = builder.insert(&[], TSType::new_void()).unwrap_err();

    assert_eq!(err.kind(), ErrorKind::RootInsert);
    assert_eq!(err.message(), "path provided led to a Root namespace builder. Can't insert!");
    assert_eq!(builder, NamespaceBuilder::root("Elm"));
}

#[test]
fn namespaces_nest_along_the_path() {
    let mut builder = NamespaceBuilder::root("Elm");
    builder.insert(&["B", "Deep"], TSType::new_void().into_typedecl("X")).unwrap();
    builder.insert(&["A"], TSType::new_void().into_typedecl("Y")).unwrap();
    builder.insert(&["B"], TSType::new_void().into_typedecl("Z")).unwrap();
    builder.insert(&["B", "Deep"], TSType::new_void().into_typedecl("W")).unwrap();

    assert_eq!(
        builder.into_tstype().to_source(true),
        "declare module Elm {\n  namespace A {\n    type Y = void\n  }\n  namespace B {\n    type Z = void\n    namespace Deep {\n      type X = void\n      type W = void\n    }\n  }\n}"
    );
}
