use elm_duet::elm::{Decl, Module, RecordPresence, Type};
use elm_duet::error::ErrorKind;
use elm_duet::node::{ScalarType, SchemaNode};
use elm_duet::schema;
use elm_duet::sorted_map::SortedMap;

fn scalar(type_: ScalarType) -> SchemaNode {
    SchemaNode::Type { nullable: false, type_ }
}

fn named(name: &str) -> SortedMap<Option<String>> {
    SortedMap::from_entries(vec![("name".to_string(), Some(name.to_string()))])
}

fn nodes(entries: Vec<(&str, SchemaNode)>) -> SortedMap<SchemaNode> {
    SortedMap::from_entries(entries.into_iter().map(|(k, v)| (k.to_string(), v)).collect())
}

fn reference(name: &str) -> SchemaNode {
    SchemaNode::Ref { definitions: SortedMap::new(), nullable: false, ref_: name.to_string() }
}

fn object(metadata: SortedMap<Option<String>>, properties: Vec<(&str, SchemaNode)>) -> SchemaNode {
    SchemaNode::Properties {
        metadata,
        nullable: false,
        properties: nodes(properties),
        optional_properties: SortedMap::new(),
    }
}

fn record(fields: Vec<(&str, (Type, RecordPresence))>) -> Type {
    Type::Record(SortedMap::from_entries(
        fields.into_iter().map(|(k, v)| (k.to_string(), v)).collect(),
    ))
}

fn point() -> Decl {
    Decl::TypeAlias {
        name: "point".into(),
        type_: record(vec![("x", (Type::Int, RecordPresence::Required))]),
        discriminator: None,
    }
}

fn names(decls: &[Decl]) -> Vec<String> {
    decls.iter().map(|d| d.name().orig().to_string()).collect()
}

#[test]
fn a_named_definition_used_twice_is_declared_once() {
    let globals = nodes(vec![("point", object(named("point"), vec![("x", scalar(ScalarType::Int32))]))]);
    let schema = object(
        named("Line"),
        vec![("from", reference("point")), ("to", reference("point"))],
    );

    let (type_, decls) = Type::from_schema(&schema, None, &globals, None).unwrap();

    assert_eq!(type_, Type::Ref("Line".into()));
    assert_eq!(
        decls,
        vec![
            point(),
            Decl::TypeAlias {
                name: "Line".into(),
                type_: record(vec![
                    ("from", (Type::Ref("point".into()), RecordPresence::Required)),
                    ("to", (Type::Ref("point".into()), RecordPresence::Required)),
                ]),
                discriminator: None,
            },
        ]
    );
}

#[test]
fn two_different_declarations_of_one_name_are_refused() {
    let schema = object(named("Foo"), vec![("a", object(named("Foo"), vec![]))]);

    let err = Type::from_schema(&schema, None, &SortedMap::new(), None).unwrap_err();

    assert_eq!(err.kind(), ErrorKind::NameConflict);
    assert_eq!(err.message(), "the name `Foo` is declared in two different ways");
}

#[test]
fn a_definition_with_and_without_a_tag_is_refused() {
    let globals = nodes(vec![("point", object(named("point"), vec![]))]);
    let union = SchemaNode::Discriminator {
        metadata: named("Shape"),
        nullable: false,
        discriminator: "kind".to_string(),
        mapping: nodes(vec![("p", reference("point"))]),
    };
    let schema = object(named("Both"), vec![("plain", reference("point")), ("tagged", union)]);

    let err = Type::from_schema(&schema, None, &globals, None).unwrap_err();

    assert_eq!(err.kind(), ErrorKind::NameConflict);
    assert_eq!(err.root_cause(), "the name `point` is declared in two different ways");
}

#[test]
fn the_names_of_a_translation_differ() {
    let globals = nodes(vec![
        ("point", object(named("point"), vec![("x", scalar(ScalarType::Int32))])),
        ("line", object(named("line"), vec![("from", reference("point")), ("to", reference("point"))])),
    ]);
    let schema = object(
        named("Drawing"),
        vec![("a", reference("line")), ("b", reference("line")), ("c", reference("point"))],
    );

    let (_, decls) = Type::from_schema(&schema, None, &globals, None).unwrap();

    assert_eq!(names(&decls), vec!["point", "line", "Drawing"]);
}

#[test]
fn a_module_holds_each_name_once() {
    let globals = nodes(vec![("point", object(named("point"), vec![("x", scalar(ScalarType::Int32))]))]);
    let mut module = Module::new(vec!["Main".to_string(), "Ports".to_string()]);

    let first = module.insert_from_schema(&reference("point"), Some("moved".to_string()), &globals);
    let second = module.insert_from_schema(&reference("point"), Some("clicked".to_string()), &globals);

    assert_eq!(first.unwrap(), point());
    assert_eq!(second.unwrap(), point());
    assert_eq!(module.decls, vec![point()]);
}

#[test]
fn a_module_refuses_a_second_meaning_of_a_name() {
    let mut module = Module::new(vec!["Main".to_string()]);
    module
        .insert_from_schema(&scalar(ScalarType::String), Some("value".to_string()), &SortedMap::new())
        .unwrap();
    let before = module.decls.len();

    let err = module
        .insert_from_schema(
            &object(SortedMap::new(), vec![("n", scalar(ScalarType::Int8))]),
            Some("value".to_string()),
            &SortedMap::new(),
        )
        .unwrap_err();

    assert_eq!(err.kind(), ErrorKind::NameConflict);
    assert_eq!(module.decls.len(), before);
    assert_eq!(
        module.decls,
        vec![Decl::TypeAlias { name: "value".into(), type_: Type::String, discriminator: None }]
    );

    module
        .insert_from_schema(&scalar(ScalarType::String), Some("value".to_string()), &SortedMap::new())
        .unwrap();
    assert_eq!(module.decls.len(), before);
}

#[test]
fn types_and_declarations_are_compared_by_what_they_hold() {
    assert!(point().same_as(&point()));
    assert!(record(vec![]).same_as(&record(vec![])));
    assert!(!record(vec![]).same_as(&Type::Unit));
    assert!(!record(vec![("x", (Type::Int, RecordPresence::Required))])
        .same_as(&record(vec![("x", (Type::Int, RecordPresence::Optional))])));
    assert!(!record(vec![("x", (Type::Int, RecordPresence::Required))])
        .same_as(&record(vec![("y", (Type::Int, RecordPresence::Required))])));
    assert!(Type::List(Box::new(Type::Ref("a".into()))).same_as(&Type::List(Box::new(Type::Ref("a".into())))));
    assert!(!Type::List(Box::new(Type::Ref("a".into()))).same_as(&Type::List(Box::new(Type::Ref("b".into())))));

    let tagged = Decl::TypeAlias {
        name: "point".into(),
        type_: record(vec![("x", (Type::Int, RecordPresence::Required))]),
        discriminator: Some(("kind".to_string(), "p".to_string())),
    };
    assert!(!point().same_as(&tagged));
    let custom = |cases: Vec<(&str, Option<Type>)>| Decl::CustomTypeEnum {
        name: "c".into(),
        discriminator: None,
        constructor_prefix: "".into(),
        cases: SortedMap::from_entries(cases.into_iter().map(|(k, v)| (k.to_string(), v)).collect()),
    };
    assert!(custom(vec![("a", None)]).same_as(&custom(vec![("a", None)])));
    assert!(!custom(vec![("a", None)]).same_as(&custom(vec![("a", Some(Type::Int))])));
    assert!(!custom(vec![("a", None)]).same_as(&custom(vec![("a", None), ("b", None)])));
    assert!(!custom(vec![]).same_as(&point()));
}

#[test]
fn the_values_of_a_dictionary_have_their_own_context() {
    let schema = SchemaNode::Values { nullable: false, values: Box::new(reference("nothing")) };

    let err = Type::from_schema(&schema, None, &SortedMap::new(), None).unwrap_err();

    assert_eq!(
        err.chain(),
        vec![
            "could not convert values of a dict".to_string(),
            "could not find a definition for `nothing`".to_string(),
        ]
    );
}

fn document_with(flags: Option<schema::Interpreted>, port: Option<schema::Interpreted>) -> schema::Schema {
    schema::Schema {
        definitions: SortedMap::new(),
        modules: SortedMap::from_entries(vec![(
            "Main".to_string(),
            schema::Module {
                flags,
                ports: port.map(|read| {
                    SortedMap::from_entries(vec![(
                        "toHost".to_string(),
                        schema::Port {
                            metadata: schema::PortMeta { direction: schema::PortDirection::ElmToJs },
                            schema: read,
                        },
                    )])
                }),
            },
        )]),
    }
}

#[test]
fn flags_that_are_no_schema_fail_where_they_are_used() {
    let doc = document_with(Some(Err("invalid type: \"uint64\"".to_string())), None);

    let err = doc.to_ts().unwrap_err();
    assert_eq!(err.kind(), ErrorKind::SchemaInvalid);
    assert_eq!(
        err.chain(),
        vec![
            "could not interpret JTD schema for flags in the Main module".to_string(),
            "invalid type: \"uint64\"".to_string(),
        ]
    );

    let err = doc.to_elm().unwrap_err();
    assert_eq!(err.kind(), ErrorKind::SchemaInvalid);
    assert_eq!(err.chain(), vec!["invalid type: \"uint64\"".to_string()]);
}

#[test]
fn a_failure_of_the_flags_comes_before_one_of_a_port() {
    let unknown = SchemaNode::Ref {
        definitions: SortedMap::new(),
        nullable: false,
        ref_: "nothing".to_string(),
    };
    let doc = document_with(Some(Ok(unknown)), Some(Err("invalid form".to_string())));

    assert_eq!(doc.to_ts().unwrap_err().kind(), ErrorKind::UnresolvedReference);
    assert_eq!(doc.to_elm().unwrap_err().kind(), ErrorKind::UnresolvedReference);
}

#[test]
fn a_port_that_is_no_schema_is_named() {
    let doc = document_with(None, Some(Err("invalid form".to_string())));

    let err = doc.to_ts().unwrap_err();
    assert_eq!(
        err.chain(),
        vec![
            "could not interpret JTD schema for port toHost".to_string(),
            "invalid form".to_string()
        ]
    );

    let err = doc.to_elm().unwrap_err();
    assert_eq!(err.kind(), ErrorKind::SchemaInvalid);
    assert_eq!(err.chain(), vec!["invalid form".to_string()]);
}
