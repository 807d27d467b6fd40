use elm_duet::elm::{Decl, Module, RecordPresence, Type};
use elm_duet::inflected_string::InflectedString;
use elm_duet::node::{ScalarType, SchemaNode};
use elm_duet::sorted_map::SortedMap;

fn scalar(type_: ScalarType) -> SchemaNode {
    SchemaNode::Type { nullable: false, type_ }
}

fn named(name: &str) -> SortedMap<Option<String>> {
    SortedMap::from_entries(vec![("name".to_string(), Some(name.to_string()))])
}

fn nodes(entries: Vec<(&str, SchemaNode)>) -> SortedMap<SchemaNode> {
    SortedMap::from_entries(entries.into_iter().map(|(k, v)| (k.to_string(), v)).collect())
}

fn fields(entries: Vec<(&str, (Type, RecordPresence))>) -> SortedMap<(Type, RecordPresence)> {
    SortedMap::from_entries(entries.into_iter().map(|(k, v)| (k.to_string(), v)).collect())
}

fn cases(entries: Vec<(&str, Option<Type>)>) -> SortedMap<Option<Type>> {
    SortedMap::from_entries(entries.into_iter().map(|(k, v)| (k.to_string(), v)).collect())
}

fn object(metadata: SortedMap<Option<String>>, properties: Vec<(&str, SchemaNode)>) -> SchemaNode {
    SchemaNode::Properties {
        metadata,
        nullable: false,
        properties: nodes(properties),
        optional_properties: SortedMap::new(),
    }
}

fn from_schema(schema: SchemaNode) -> (Type, Vec<Decl>) {
    Type::from_schema(&schema, None, &SortedMap::new(), None).expect("valid schema")
}

fn module_from_schema(schema: SchemaNode, name_suggestion: Option<String>) -> Module {
    let mut module = Module::new(Vec::from(["Main".to_string()]));

    module
        .insert_from_schema(&schema, name_suggestion, &SortedMap::new())
        .expect("valid schema");

    module
}

#[test]
fn elm_interprets_int8() {
    let (type_, _) = from_schema(scalar(ScalarType::Int8));

    assert_eq!(type_, Type::Int);
}

#[test]
fn elm_interprets_int16() {
    let (type_, _) = from_schema(scalar(ScalarType::Int16));

    assert_eq!(type_, Type::Int);
}

#[test]
fn elm_interprets_int32() {
    let (type_, _) = from_schema(scalar(ScalarType::Int32));

    assert_eq!(type_, Type::Int);
}

#[test]
fn elm_interprets_uint8() {
    let (type_, _) = from_schema(scalar(ScalarType::Uint8));

    assert_eq!(type_, Type::Int);
}

#[test]
fn elm_interprets_uint16() {
    let (type_, _) = from_schema(scalar(ScalarType::Uint16));

    assert_eq!(type_, Type::Int);
}

#[test]
fn elm_interprets_uint32() {
    let (type_, _) = from_schema(scalar(ScalarType::Uint32));

    assert_eq!(type_, Type::Int);
}

#[test]
fn elm_interprets_float32() {
    let (type_, _) = from_schema(scalar(ScalarType::Float32));

    assert_eq!(type_, Type::Float);
}

#[test]
fn elm_interprets_float64() {
    let (type_, _) = from_schema(scalar(ScalarType::Float64));

    assert_eq!(type_, Type::Float);
}

#[test]
fn elm_interprets_string() {
    let (type_, _) = from_schema(scalar(ScalarType::String));

    assert_eq!(type_, Type::String);
}

#[test]
fn interprets_timestamp() {
    let (type_, _) = from_schema(scalar(ScalarType::Timestamp));

    assert_eq!(type_, Type::String);
}

#[test]
fn elm_interprets_boolean() {
    let (type_, _) = from_schema(scalar(ScalarType::Boolean));

    assert_eq!(type_, Type::Bool);
}

#[test]
fn interprets_nullable_type() {
    let (type_, _) = from_schema(SchemaNode::Type { nullable: true, type_: ScalarType::String });

    assert_eq!(type_, Type::Maybe(Box::new(Type::String)));
}

#[test]
fn interprets_empty() {
    let (type_, _) = from_schema(SchemaNode::Empty);

    assert_eq!(type_, Type::Unit);
}

#[test]
fn elm_interprets_values() {
    let (type_, _) = from_schema(SchemaNode::Values {
        nullable: false,
        values: Box::new(scalar(ScalarType::String)),
    });

    assert_eq!(type_, Type::DictWithStringKeys(Box::new(Type::String)));
}

#[test]
fn interprets_nullable_values() {
    let (type_, _) = from_schema(SchemaNode::Values {
        nullable: true,
        values: Box::new(scalar(ScalarType::String)),
    });

    assert_eq!(type_, Type::Maybe(Box::new(Type::DictWithStringKeys(Box::new(Type::String)))));
}

#[test]
fn elm_interprets_elements() {
    let (type_, _) = from_schema(SchemaNode::Elements {
        nullable: false,
        elements: Box::new(scalar(ScalarType::String)),
    });

    assert_eq!(type_, Type::List(Box::new(Type::String)));
}

#[test]
fn interprets_nullable_elements() {
    let (type_, _) = from_schema(SchemaNode::Elements {
        nullable: true,
        elements: Box::new(scalar(ScalarType::String)),
    });

    assert_eq!(type_, Type::Maybe(Box::new(Type::List(Box::new(Type::String)))));
}

#[test]
fn interprets_enum_no_name() {
    let err = Type::from_schema(
        &SchemaNode::Enum {
            metadata: SortedMap::new(),
            nullable: false,
            enum_: vec!["a".to_string(), "b".to_string()],
        },
        None,
        &SortedMap::new(),
        None,
    )
    .unwrap_err();

    assert_eq!(err.message(), "string names are required for enums".to_string());
}

#[test]
fn elm_interprets_enum() {
    let (type_, decls) = from_schema(SchemaNode::Enum {
        metadata: named("Foo"),
        nullable: false,
        enum_: vec!["a".to_string(), "b".to_string()],
    });

    assert_eq!(type_, Type::Ref("Foo".into()));

    assert_eq!(
        decls,
        Vec::from([Decl::CustomTypeEnum {
            name: "Foo".into(),
            discriminator: None,
            constructor_prefix: "".into(),
            cases: cases(vec![("a", None), ("b", None)]),
        }])
    );
}

#[test]
fn interprets_properties_no_name() {
    let err = Type::from_schema(
        &object(
            SortedMap::new(),
            vec![("a", scalar(ScalarType::String)), ("b", scalar(ScalarType::Int32))],
        ),
        None,
        &SortedMap::new(),
        None,
    )
    .unwrap_err();

    assert_eq!(err.message(), "string names are required for properties".to_string());
}

#[test]
fn interprets_properties() {
    let (type_, decls) =
        from_schema(object(named("Foo"), vec![("a", SchemaNode::Empty), ("b", SchemaNode::Empty)]));

    assert_eq!(type_, Type::Ref("Foo".into()));

    assert_eq!(
        decls,
        Vec::from([Decl::TypeAlias {
            name: "Foo".into(),
            discriminator: None,
            type_: Type::Record(fields(vec![
                ("a", (Type::Unit, RecordPresence::Required)),
                ("b", (Type::Unit, RecordPresence::Required)),
            ])),
        }])
    );
}

#[test]
fn interprets_optional_properties() {
    let (type_, decls) = from_schema(SchemaNode::Properties {
        metadata: named("Foo"),
        nullable: false,
        properties: SortedMap::new(),
        optional_properties: nodes(vec![("a", SchemaNode::Empty)]),
    });

    assert_eq!(type_, Type::Ref("Foo".into()));

    assert_eq!(
        decls,
        Vec::from([Decl::TypeAlias {
            name: "Foo".into(),
            discriminator: None,
            type_: Type::Record(fields(vec![(
                "a",
                (Type::Maybe(Box::new(Type::Unit)), RecordPresence::Optional)
            ),])),
        }])
    );
}

#[test]
fn interprets_mapping() {
    let (type_, decls) = from_schema(SchemaNode::Discriminator {
        metadata: named("Foo"),
        nullable: false,
        discriminator: "tag".to_string(),
        mapping: nodes(vec![
            ("a", object(SortedMap::new(), vec![("value", scalar(ScalarType::String))])),
            ("b", object(SortedMap::new(), vec![("value", scalar(ScalarType::Float32))])),
        ]),
    });

    assert_eq!(type_, Type::Ref("Foo".into()));

    assert_eq!(
        decls,
        Vec::from([
            Decl::TypeAlias {
                name: "a".into(),
                discriminator: Some(("tag".to_string(), "a".to_string())),
                type_: Type::Record(fields(vec![(
                    "value",
                    (Type::String, RecordPresence::Required)
                )]))
            },
            Decl::TypeAlias {
                name: "b".into(),
                discriminator: Some(("tag".to_string(), "b".to_string())),
                type_: Type::Record(fields(vec![(
                    "value",
                    (Type::Float, RecordPresence::Required)
                )]))
            },
            Decl::CustomTypeEnum {
                name: "Foo".into(),
                discriminator: Some("tag".to_string()),
                constructor_prefix: "".into(),
                cases: cases(vec![
                    ("a", Some(Type::Ref("a".into()))),
                    ("b", Some(Type::Ref("b".into()))),
                ])
            },
        ])
    );
}

#[test]
fn interprets_ref_local() {
    let (type_, decls) = from_schema(SchemaNode::Ref {
        definitions: nodes(vec![("foo", scalar(ScalarType::String))]),
        nullable: false,
        ref_: "foo".to_string(),
    });

    assert_eq!(type_, Type::String);
    assert_eq!(decls, Vec::new());
}

#[test]
fn elm_interprets_ref_global() {
    let (type_, decls) = Type::from_schema(
        &SchemaNode::Ref { definitions: SortedMap::new(), nullable: false, ref_: "foo".to_string() },
        None,
        &nodes(vec![("foo", scalar(ScalarType::String))]),
        None,
    )
    .unwrap();

    assert_eq!(type_, Type::String);
    assert_eq!(decls, Vec::new());
}

#[test]
fn interprets_ref_suggesting_name() {
    let (type_, decls) = Type::from_schema(
        &SchemaNode::Ref { definitions: SortedMap::new(), nullable: false, ref_: "foo".to_string() },
        None,
        &nodes(vec![("foo", object(SortedMap::new(), vec![]))]),
        None,
    )
    .unwrap();

    assert_eq!(type_, Type::Ref("foo".into()));
    assert_eq!(
        decls,
        Vec::from([Decl::TypeAlias {
            name: "foo".into(),
            discriminator: None,
            type_: Type::Record(SortedMap::new())
        }])
    );
}

#[test]
fn from_schema_ref() {
    let mod_ = module_from_schema(
        object(SortedMap::new(), vec![("a", scalar(ScalarType::String))]),
        Some("Flags".into()),
    );

    assert_eq!(
        mod_.decls,
        Vec::from([Decl::TypeAlias {
            name: "Flags".into(),
            discriminator: None,
            type_: Type::Record(fields(vec![("a", (Type::String, RecordPresence::Required))]))
        }])
    );
}

#[test]
fn from_schema_non_ref() {
    let mod_ = module_from_schema(scalar(ScalarType::String), Some("Flags".into()));

    assert_eq!(
        mod_.decls,
        Vec::from([Decl::TypeAlias {
            name: "Flags".into(),
            discriminator: None,
            type_: Type::String
        }])
    );
}

#[test]
fn error_on_no_defs_to_source() {
    let m = Module {
        name: Vec::from(["A".to_string(), "B".to_string()]),
        decls: Vec::new(),
        ports: Vec::new(),
    };

    let err = m.to_source().unwrap_err();

    assert_eq!(err.message(), "Module A.B didn't contain any definitions".to_string())
}

#[test]
fn inflected_string_keeps_the_name_as_written() {
    let name = InflectedString::from("some_name");

    assert_eq!(name.orig(), "some_name");
}
