use elm_duet::node::{ScalarType, SchemaNode};
use elm_duet::sorted_map::SortedMap;
use elm_duet::typescript::{FieldPresence, TSType};

fn scalar(type_: ScalarType) -> SchemaNode {
    SchemaNode::Type { nullable: false, type_ }
}

fn nullable_scalar(type_: ScalarType) -> SchemaNode {
    SchemaNode::Type { nullable: true, type_ }
}

fn enumeration(values: &[&str]) -> SchemaNode {
    SchemaNode::Enum {
        metadata: SortedMap::new(),
        nullable: false,
        enum_: values.iter().map(|v| v.to_string()).collect(),
    }
}

fn nodes(entries: Vec<(&str, SchemaNode)>) -> SortedMap<SchemaNode> {
    SortedMap::from_entries(entries.into_iter().map(|(k, v)| (k.to_string(), v)).collect())
}

fn object(properties: Vec<(&str, SchemaNode)>) -> SchemaNode {
    SchemaNode::Properties {
        metadata: SortedMap::new(),
        nullable: false,
        properties: nodes(properties),
        optional_properties: SortedMap::new(),
    }
}

fn from_schema(schema: SchemaNode) -> TSType {
    TSType::from_schema(&schema, &SortedMap::new()).expect("valid schema")
}

fn number() -> TSType {
    TSType::Scalar { value: "number", nullable: false }
}

fn string() -> TSType {
    TSType::Scalar { value: "string", nullable: false }
}

fn required(entries: Vec<(&str, TSType)>) -> SortedMap<(TSType, FieldPresence)> {
    SortedMap::from_entries(
        entries.into_iter().map(|(k, v)| (k.to_string(), (v, FieldPresence::Required))).collect(),
    )
}

fn arguments(entries: Vec<(&str, TSType)>) -> SortedMap<TSType> {
    SortedMap::from_entries(entries.into_iter().map(|(k, v)| (k.to_string(), v)).collect())
}

fn tagged_union() -> SchemaNode {
    SchemaNode::Discriminator {
        metadata: SortedMap::new(),
        nullable: false,
        discriminator: "tag".to_string(),
        mapping: nodes(vec![
            ("one", object(vec![("a", scalar(ScalarType::Float32))])),
            ("two", object(vec![("b", scalar(ScalarType::String))])),
        ]),
    }
}

#[test]
fn typescript_interprets_int8() {
    assert_eq!(from_schema(scalar(ScalarType::Int8)), number());
}

#[test]
fn typescript_interprets_int16() {
    assert_eq!(from_schema(scalar(ScalarType::Int16)), number());
}

#[test]
fn typescript_interprets_int32() {
    assert_eq!(from_schema(scalar(ScalarType::Int32)), number());
}

#[test]
fn typescript_interprets_uint8() {
    assert_eq!(from_schema(scalar(ScalarType::Uint8)), number());
}

#[test]
fn typescript_interprets_uint16() {
    assert_eq!(from_schema(scalar(ScalarType::Uint16)), number());
}

#[test]
fn typescript_interprets_uint32() {
    assert_eq!(from_schema(scalar(ScalarType::Uint32)), number());
}

#[test]
fn typescript_interprets_float32() {
    assert_eq!(from_schema(scalar(ScalarType::Float32)), number());
}

#[test]
fn typescript_interprets_float64() {
    assert_eq!(from_schema(scalar(ScalarType::Float64)), number());
}

#[test]
fn typescript_interprets_string() {
    let type_ = from_schema(scalar(ScalarType::String));

    assert_eq!(type_.to_source(true), "string".to_string())
}

#[test]
fn typescript_interprets_boolean() {
    let type_ = from_schema(scalar(ScalarType::Boolean));

    assert_eq!(type_.to_source(true), "bool".to_string())
}

#[test]
fn interprets_object() {
    let type_ = from_schema(object(vec![("a", scalar(ScalarType::Float32))]));

    assert_eq!(type_.to_source(true), "{\n  a: number;\n}".to_string())
}

#[test]
fn typescript_interprets_enum() {
    let type_ = from_schema(enumeration(&["a", "b"]));

    assert_eq!(type_.to_source(true), "\"a\" | \"b\"".to_string())
}

#[test]
fn typescript_interprets_elements() {
    let type_ = from_schema(SchemaNode::Elements {
        nullable: false,
        elements: Box::new(scalar(ScalarType::String)),
    });

    assert_eq!(type_, TSType::List { elements: Box::new(string()), nullable: false })
}

#[test]
fn typescript_interprets_values() {
    let type_ = from_schema(SchemaNode::Values {
        nullable: false,
        values: Box::new(scalar(ScalarType::String)),
    });

    assert_eq!(type_, TSType::Record { values: Box::new(string()), nullable: false })
}

#[test]
fn interprets_discriminator() {
    let type_ = from_schema(tagged_union());

    assert_eq!(
        type_,
        TSType::Union {
            members: Vec::from([
                TSType::new_object(required(vec![
                    ("tag", TSType::StringScalar("one".to_string())),
                    ("a", number()),
                ])),
                TSType::new_object(required(vec![
                    ("tag", TSType::StringScalar("two".to_string())),
                    ("b", string()),
                ])),
            ]),
            nullable: false
        }
    )
}

#[test]
fn interprets_ref() {
    let type_ = from_schema(SchemaNode::Ref {
        definitions: nodes(vec![("foo", scalar(ScalarType::String))]),
        nullable: false,
        ref_: "foo".to_string(),
    });

    assert_eq!(type_, string());
}

#[test]
fn interprets_ref_nullable() {
    let type_ = from_schema(SchemaNode::Ref {
        definitions: nodes(vec![("foo", scalar(ScalarType::String))]),
        nullable: true,
        ref_: "foo".to_string(),
    });

    assert_eq!(type_, TSType::Scalar { value: "string", nullable: true });
}

#[test]
fn typescript_interprets_ref_global() {
    let ref_schema = SchemaNode::Ref {
        definitions: SortedMap::new(),
        nullable: false,
        ref_: "foo".to_string(),
    };
    let def_schema = scalar(ScalarType::String);

    let type_ = TSType::from_schema(&ref_schema, &nodes(vec![("foo", def_schema)])).unwrap();

    assert_eq!(type_, string());
}

#[test]
fn scalar_to_source() {
    let type_ = from_schema(scalar(ScalarType::String));

    assert_eq!(type_.to_source(true), "string".to_string());
}

#[test]
fn nullable_scalar_to_source() {
    let type_ = from_schema(nullable_scalar(ScalarType::String));

    assert_eq!(type_.to_source(true), "string | null".to_string());
}

#[test]
fn function_to_source_toplevel() {
    let type_ = TSType::new_function(
        arguments(vec![("one", number()), ("two", string())]),
        string(),
    );

    assert_eq!(type_.to_source(true), "(one: number, two: string): string".to_string())
}

#[test]
fn function_to_source_not_toplevel() {
    let type_ = TSType::new_function(
        arguments(vec![("one", number()), ("two", string())]),
        string(),
    );

    assert_eq!(type_.to_source(false), "(one: number, two: string) => string".to_string())
}

#[test]
fn typedecl_to_source() {
    let type_ = from_schema(object(vec![("a", scalar(ScalarType::String))])).into_typedecl("Flags");

    assert_eq!(type_.to_source(true), "type Flags = {\n  a: string;\n}".to_string(),)
}

#[test]
fn method_to_source() {
    let method = TSType::new_named_function(
        "init",
        TSType::new_function(SortedMap::new(), TSType::Scalar { value: "void", nullable: false }),
    );

    assert_eq!(method.to_source(true), "function init(): void".to_string());
}

#[test]
fn module_to_source() {
    let namespace =
        TSType::new_module("Elm", Vec::from([TSType::new_namespace("Main", Vec::new())]));

    assert_eq!(
        namespace.to_source(true),
        "declare module Elm {\n  namespace Main {\n  }\n}".to_string()
    );
}

#[test]
fn namespace_to_source() {
    let namespace = TSType::new_namespace("Main", Vec::from([]));

    assert_eq!(namespace.to_source(true), "namespace Main {\n}".to_string());
}

#[test]
fn list_to_source() {
    let type_ = from_schema(SchemaNode::Elements {
        nullable: false,
        elements: Box::new(scalar(ScalarType::String)),
    });

    assert_eq!(type_.to_source(true), "string[]".to_string());
}

#[test]
fn list_to_source_space() {
    let type_ = from_schema(SchemaNode::Elements {
        nullable: false,
        elements: Box::new(enumeration(&["a", "b"])),
    });

    assert_eq!(type_.to_source(true), "(\"a\" | \"b\")[]".to_string());
}

#[test]
fn values_to_source_space() {
    let type_ = from_schema(SchemaNode::Values {
        nullable: false,
        values: Box::new(scalar(ScalarType::String)),
    });

    assert_eq!(type_.to_source(true), "Record<string, string>".to_string());
}

#[test]
fn discriminator_to_source() {
    let type_ = from_schema(tagged_union());

    assert_eq!(
        type_.to_source(true),
        "{\n  a: number;\n  tag: \"one\";\n} | {\n  b: string;\n  tag: \"two\";\n}".to_string()
    );
}
