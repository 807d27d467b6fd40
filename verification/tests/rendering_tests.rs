use elm_duet::elm::{Decl, Module, Port, PortDirection, RecordPresence, Type};
use elm_duet::error::ErrorKind;
use elm_duet::node::{ScalarType, SchemaNode};
use elm_duet::schema;
use elm_duet::sorted_map::SortedMap;

fn record(fields: Vec<(&str, (Type, RecordPresence))>) -> Type {
    Type::Record(SortedMap::from_entries(
        fields.into_iter().map(|(k, v)| (k.to_string(), v)).collect(),
    ))
}

fn cases(entries: Vec<(&str, Option<Type>)>) -> SortedMap<Option<Type>> {
    SortedMap::from_entries(entries.into_iter().map(|(k, v)| (k.to_string(), v)).collect())
}

fn color() -> Decl {
    Decl::CustomTypeEnum {
        name: "color".into(),
        discriminator: None,
        constructor_prefix: "paint".into(),
        cases: cases(vec![("dark_red", None), ("blue", None)]),
    }
}

fn shape() -> Decl {
    Decl::CustomTypeEnum {
        name: "shape".into(),
        discriminator: Some("kind".to_string()),
        constructor_prefix: "".into(),
        cases: cases(vec![
            ("circle", Some(Type::Ref("circle".into()))),
            ("point", Some(record(vec![("x", (Type::Int, RecordPresence::Required))]))),
        ]),
    }
}

fn circle() -> Decl {
    Decl::TypeAlias {
        name: "circle".into(),
        type_: record(vec![("radius", (Type::Float, RecordPresence::Required))]),
        discriminator: Some(("kind".to_string(), "circle".to_string())),
    }
}

#[test]
fn types_as_they_are_written() {
    assert_eq!(Type::Int.to_source().unwrap(), "Int");
    assert_eq!(Type::Float.to_source().unwrap(), "Float");
    assert_eq!(Type::Bool.to_source().unwrap(), "Bool");
    assert_eq!(Type::String.to_source().unwrap(), "String");
    assert_eq!(Type::Unit.to_source().unwrap(), "()");
    assert_eq!(Type::Maybe(Box::new(Type::Int)).to_source().unwrap(), "Maybe Int");
    assert_eq!(
        Type::List(Box::new(Type::Maybe(Box::new(Type::Int)))).to_source().unwrap(),
        "List (Maybe Int)"
    );
    assert_eq!(
        Type::DictWithStringKeys(Box::new(Type::Ref("foo_bar".into()))).to_source().unwrap(),
        "Dict String FooBar"
    );
    assert_eq!(record(vec![]).to_source().unwrap(), "{}");
    assert_eq!(
        record(vec![
            ("a", (Type::Maybe(Box::new(Type::List(Box::new(Type::Int)))), RecordPresence::Optional)),
            ("b_c", (Type::Ref("foo_bar".into()), RecordPresence::Required)),
        ])
        .to_source()
        .unwrap(),
        "{ a : Maybe (List Int)\n, bC : FooBar\n}"
    );
}

#[test]
fn records_inside_records_are_indented() {
    let inner = record(vec![("x", (Type::Int, RecordPresence::Required))]);
    let outer = record(vec![("p", (inner, RecordPresence::Required))]);

    assert_eq!(outer.to_source().unwrap(), "{ p : { x : Int\n    }\n}");
}

#[test]
fn decoders_of_types() {
    assert_eq!(Type::Int.to_decoder_source("T").unwrap(), "Json.Decode.int");
    assert_eq!(Type::Float.to_decoder_source("T").unwrap(), "Json.Decode.float");
    assert_eq!(Type::Bool.to_decoder_source("T").unwrap(), "Json.Decode.bool");
    assert_eq!(Type::String.to_decoder_source("T").unwrap(), "Json.Decode.string");
    assert_eq!(Type::Unit.to_decoder_source("T").unwrap(), "Json.Decode.null ()");
    assert_eq!(
        Type::Maybe(Box::new(Type::Unit)).to_decoder_source("T").unwrap(),
        "Json.Decode.nullable (Json.Decode.null ())"
    );
    assert_eq!(
        Type::List(Box::new(Type::Int)).to_decoder_source("T").unwrap(),
        "Json.Decode.list Json.Decode.int"
    );
    assert_eq!(
        Type::DictWithStringKeys(Box::new(Type::Ref("foo_bar".into())))
            .to_decoder_source("T")
            .unwrap(),
        "Json.Decode.dict fooBarDecoder"
    );
    assert_eq!(
        record(vec![
            ("a", (Type::Maybe(Box::new(Type::List(Box::new(Type::Int)))), RecordPresence::Optional)),
            ("b_c", (Type::Ref("foo_bar".into()), RecordPresence::Required)),
        ])
        .to_decoder_source("Thing")
        .unwrap(),
        "Json.Decode.succeed Thing\n    |> Json.Decode.Pipeline.optional \"a\" (Json.Decode.nullable (Json.Decode.list Json.Decode.int)) Nothing\n    |> Json.Decode.Pipeline.required \"b_c\" fooBarDecoder"
    );
}

#[test]
fn encoders_of_types() {
    assert_eq!(Type::Int.to_encoder_source("v", &None).unwrap(), "Json.Encode.int v");
    assert_eq!(Type::Float.to_encoder_source("v", &None).unwrap(), "Json.Encode.float v");
    assert_eq!(Type::Bool.to_encoder_source("v", &None).unwrap(), "Json.Encode.bool v");
    assert_eq!(Type::String.to_encoder_source("v", &None).unwrap(), "Json.Encode.string v");
    assert_eq!(Type::Unit.to_encoder_source("v", &None).unwrap(), "Json.Encode.null");
    assert_eq!(
        Type::Ref("foo_bar".into()).to_encoder_source("v", &None).unwrap(),
        "encodeFooBar v"
    );
    assert_eq!(
        Type::List(Box::new(Type::Int)).to_encoder_source("v", &None).unwrap(),
        "Json.Encode.list (\\value -> Json.Encode.int value) v"
    );
    assert_eq!(
        Type::DictWithStringKeys(Box::new(Type::Int)).to_encoder_source("v", &None).unwrap(),
        "Json.Encode.dict identity (\\value -> Json.Encode.int value) v"
    );
    assert_eq!(
        Type::Maybe(Box::new(Type::Int)).to_encoder_source("v", &None).unwrap(),
        "case v of\n    Just value ->\n        Json.Encode.int value\n\n    Nothing ->\n        Json.Encode.null"
    );
}

#[test]
fn a_record_without_optional_fields_is_encoded_as_an_object() {
    let fields = record(vec![
        ("a", (Type::Int, RecordPresence::Required)),
        ("b_c", (Type::String, RecordPresence::Required)),
    ]);

    assert_eq!(
        fields.to_encoder_source("thing", &None).unwrap(),
        "Json.Encode.object\n    [( \"a\", Json.Encode.int thing.a )\n    ,( \"b_c\", Json.Encode.string thing.bC )\n    ]"
    );
    assert_eq!(
        fields.to_encoder_source("thing", &Some(("kind".to_string(), "x".to_string()))).unwrap(),
        "Json.Encode.object\n    [( \"a\", Json.Encode.int thing.a )\n    ,( \"b_c\", Json.Encode.string thing.bC )\n    ,( \"kind\", Json.Encode.string \"x\" )\n\n    ]"
    );
}

#[test]
fn an_optional_field_is_left_out_when_it_is_absent() {
    let fields = record(vec![
        ("a", (Type::Maybe(Box::new(Type::Int)), RecordPresence::Optional)),
        ("b", (Type::String, RecordPresence::Required)),
    ]);

    assert_eq!(
        fields.to_encoder_source("thing", &None).unwrap(),
        "List.filterMap identity\n    [Maybe.map (\\a -> ( \"a\", Json.Encode.int a )) thing.a\n    ,Just ( \"b\", Json.Encode.string thing.b )\n    ]\n    |> Json.Encode.object"
    );
}

#[test]
fn an_optional_field_must_be_a_maybe() {
    let fields = record(vec![("a", (Type::Int, RecordPresence::Optional))]);

    let err = fields.to_encoder_source("thing", &None).unwrap_err();

    assert_eq!(err.kind(), ErrorKind::OptionalFieldInvalid);
    assert_eq!(err.message(), "Optional fields must be `Maybe x`, but `a` is not");
}

#[test]
fn a_name_that_cannot_be_an_identifier_stops_the_rendering() {
    let err = Type::Ref("1st".into()).to_source().unwrap_err();
    assert_eq!(err.kind(), ErrorKind::IdentifierInvalid);

    let fields = record(vec![
        ("ok", (Type::Int, RecordPresence::Required)),
        ("2nd", (Type::Int, RecordPresence::Required)),
    ]);
    assert_eq!(fields.to_source().unwrap_err().message(), "identifier `2nd` cannot start with a digit");
    assert_eq!(fields.to_encoder_source("v", &None).unwrap_err().kind(), ErrorKind::IdentifierInvalid);
    assert!(fields.to_decoder_source("T").is_ok());

    let mut module = Module::new(vec!["Main".to_string()]);
    module.decls.push(Decl::TypeAlias { name: "3rd".into(), type_: Type::Int, discriminator: None });
    assert_eq!(module.to_source().unwrap_err().kind(), ErrorKind::IdentifierInvalid);
}

#[test]
fn an_enumeration_as_a_custom_type() {
    assert_eq!(color().to_source().unwrap(), "type Color\n    = PaintBlue\n    | PaintDarkRed\n");
    assert_eq!(color().decoder_name().unwrap(), "colorDecoder");
    assert_eq!(color().encoder_name().unwrap(), "encodeColor");
    assert_eq!(
        color().to_decoder_source().unwrap(),
        "colorDecoder : Json.Decode.Decoder Color\ncolorDecoder =\n    Json.Decode.andThen\n        (\\tag ->\n            case tag of\n                \"blue\" ->\n                    Json.Decode.succeed PaintBlue\n\n                \"dark_red\" ->\n                    Json.Decode.succeed PaintDarkRed\n        )\n        Json.Decode.string"
    );
    assert_eq!(
        color().to_encoder_source().unwrap(),
        "encodeColor : Color -> Json.Encode.Value\nencodeColor color =\n    case color of\n        PaintBlue ->\n            Json.Encode.string \"blue\"\n\n        PaintDarkRed ->\n            Json.Encode.string \"dark_red\""
    );
}

#[test]
fn a_union_as_a_custom_type() {
    assert_eq!(
        shape().to_source().unwrap(),
        "type Shape\n    = Circle Circle\n    | Point { x : Int\n    }\n"
    );
    assert_eq!(
        shape().to_decoder_source().unwrap(),
        "shapeDecoder : Json.Decode.Decoder Shape\nshapeDecoder =\n    Json.Decode.andThen\n        (\\tag ->\n            case tag of\n                \"circle\" ->\n                    Json.Decode.map Circle circleDecoder\n\n                \"point\" ->\n                    Json.Decode.map Point\n                        Json.Decode.succeed Shape\n                            |> Json.Decode.Pipeline.required \"x\" Json.Decode.int\n        )\n        (Json.Decode.field \"kind\" Json.Decode.string)"
    );
    assert_eq!(
        shape().to_encoder_source().unwrap(),
        "encodeShape : Shape -> Json.Encode.Value\nencodeShape shape =\n    case shape of\n        Circle circle ->\n            encodeCircle circle\n\n        Point point ->\n            Json.Encode.object\n                [( \"x\", Json.Encode.int point.x )\n                ]"
    );
}

#[test]
fn a_member_of_a_union_as_an_alias() {
    assert_eq!(circle().to_source().unwrap(), "type alias Circle =\n    { radius : Float\n    }");
    assert_eq!(
        circle().to_decoder_source().unwrap(),
        "circleDecoder : Json.Decode.Decoder Circle\ncircleDecoder =\n    Json.Decode.succeed Circle\n        |> Json.Decode.Pipeline.required \"radius\" Json.Decode.float"
    );
    assert_eq!(
        circle().to_encoder_source().unwrap(),
        "encodeCircle : Circle -> Json.Encode.Value\nencodeCircle circle =\n    Json.Encode.object\n        [( \"radius\", Json.Encode.float circle.radius )\n        ,( \"kind\", Json.Encode.string \"circle\" )\n    \n        ]"
    );
}

#[test]
fn ports_in_both_directions() {
    let send = Port::new("newMsg".to_string(), PortDirection::Send, circle());
    assert_eq!(
        send.to_source().unwrap(),
        "port newMsg : Json.Decode.Value -> Cmd msg\n\n\nsendNewMsg : Circle -> Cmd msg\nsendNewMsg value =\n    newMsg (encodeCircle value)"
    );

    let subscribe = Port::new("new_msg".to_string(), PortDirection::Subscribe, circle());
    assert_eq!(
        subscribe.to_source().unwrap(),
        "port new_msg : (Json.Decode.Value -> msg) -> Sub msg\n\n\nsubscribeToNewMsg : (Result Json.Decode.Error Circle -> msg) -> Sub msg\nsubscribeToNewMsg toMsg =\n    new_msg (\\value -> toMsg (Json.Decode.decodeValue value circleDecoder))"
    );
}

#[test]
fn a_module_with_a_declaration_and_a_port() {
    let mut module = Module::new(vec!["Main".to_string(), "Ports".to_string()]);
    module.decls.push(Decl::TypeAlias { name: "count".into(), type_: Type::Int, discriminator: None });
    module.insert_port(Port::new(
        "count".to_string(),
        PortDirection::Send,
        Decl::TypeAlias { name: "count".into(), type_: Type::Int, discriminator: None },
    ));

    assert_eq!(
        module.to_source().unwrap(),
        "port module Main.Ports exposing (..)\n\n{-| Warning: this file is automatically generated. Don't edit by hand!\n-}\n\nimport Json.Decode\nimport Json.Decode.Pipeline\nimport Json.Encode\n\n\ntype alias Count =\n    Int\n\n\ncountDecoder : Json.Decode.Decoder Count\ncountDecoder =\n    Json.Decode.int\n\n\nencodeCount : Count -> Json.Encode.Value\nencodeCount count =\n    Json.Encode.int count\n\n\nport count : Json.Decode.Value -> Cmd msg\n\n\nsendCount : Count -> Cmd msg\nsendCount value =\n    count (encodeCount value)\n"
    );
}

#[test]
fn a_module_without_ports_is_no_port_module() {
    let mut module = Module::new(vec!["Main".to_string(), "Flags".to_string()]);
    module.decls.push(Decl::TypeAlias { name: "Flags".into(), type_: Type::Unit, discriminator: None });

    assert_eq!(
        module.to_source().unwrap(),
        "module Main.Flags exposing (..)\n\n{-| Warning: this file is automatically generated. Don't edit by hand!\n-}\n\nimport Json.Decode\nimport Json.Decode.Pipeline\nimport Json.Encode\n\n\ntype alias Flags =\n    ()\n\n\nflagsDecoder : Json.Decode.Decoder Flags\nflagsDecoder =\n    Json.Decode.null ()\n\n\nencodeFlags : Flags -> Json.Encode.Value\nencodeFlags flags =\n    Json.Encode.null\n"
    );
}

#[test]
fn an_empty_module_names_itself_in_the_failure() {
    let module = Module::new(vec!["Deep".to_string(), "Down".to_string(), "Ports".to_string()]);

    let err = module.to_source().unwrap_err();

    assert_eq!(err.kind(), ErrorKind::EmptyModule);
    assert_eq!(err.message(), "Module Deep.Down.Ports didn't contain any definitions");
}

fn document() -> schema::Schema {
    let flags = SchemaNode::Properties {
        metadata: SortedMap::new(),
        nullable: false,
        properties: SortedMap::from_entries(vec![(
            "count".to_string(),
            SchemaNode::Ref {
                definitions: SortedMap::new(),
                nullable: false,
                ref_: "counter".to_string(),
            },
        )]),
        optional_properties: SortedMap::new(),
    };
    let port = |direction| schema::Port {
        metadata: schema::PortMeta { direction },
        schema: Ok(SchemaNode::Type { nullable: false, type_: ScalarType::String }),
    };
    schema::Schema {
        definitions: SortedMap::from_entries(vec![(
            "counter".to_string(),
            SchemaNode::Type { nullable: false, type_: ScalarType::Uint32 },
        )]),
        modules: SortedMap::from_entries(vec![
            (
                "Main".to_string(),
                schema::Module {
                    flags: Some(Ok(flags)),
                    ports: Some(SortedMap::from_entries(vec![
                        ("toHost".to_string(), port(schema::PortDirection::ElmToJs)),
                        ("fromHost".to_string(), port(schema::PortDirection::JsToElm)),
                    ])),
                },
            ),
            ("Admin.Panel".to_string(), schema::Module { flags: None, ports: None }),
        ]),
    }
}

#[test]
fn the_file_of_structural_types() {
    assert_eq!(
        document().to_ts().unwrap(),
        "// Warning: this file is automatically generated. Don't edit by hand!\n\ndeclare module Elm {\n  namespace Admin {\n    namespace Panel {\n      type Flags = Record<string, never>\n      type Ports = Record<string, never>\n      function init(config: {\n        flags: Flags;\n        node: HTMLElement;\n        ports?: Ports;\n      }): void\n    }\n  }\n  namespace Main {\n    type Flags = {\n      count: number;\n    }\n    type Ports = {\n      fromHost?: {\n        send: (value: string) => void;\n      };\n      toHost?: {\n        subscribe: (callback: (value: string) => void) => void;\n      };\n    }\n    function init(config: {\n      flags: Flags;\n      node: HTMLElement;\n      ports?: Ports;\n    }): void\n  }\n}"
    );
}

#[test]
fn the_files_of_typed_source() {
    let files = document().to_elm().unwrap().into_entries();

    assert_eq!(files.len(), 2);
    assert_eq!(files[0].0, "Main/Flags.elm");
    assert_eq!(
        files[0].1,
        "module Main.Flags exposing (..)\n\n{-| Warning: this file is automatically generated. Don't edit by hand!\n-}\n\nimport Json.Decode\nimport Json.Decode.Pipeline\nimport Json.Encode\n\n\ntype alias Flags =\n    { count : Int\n    }\n\n\nflagsDecoder : Json.Decode.Decoder Flags\nflagsDecoder =\n    Json.Decode.succeed Flags\n        |> Json.Decode.Pipeline.required \"count\" Json.Decode.int\n\n\nencodeFlags : Flags -> Json.Encode.Value\nencodeFlags flags =\n    Json.Encode.object\n        [( \"count\", Json.Encode.int flags.count )\n        ]\n"
    );
    assert_eq!(files[1].0, "Main/Ports.elm");
    assert_eq!(
        files[1].1,
        "port module Main.Ports exposing (..)\n\n{-| Warning: this file is automatically generated. Don't edit by hand!\n-}\n\nimport Json.Decode\nimport Json.Decode.Pipeline\nimport Json.Encode\n\n\ntype alias FromHost =\n    String\n\n\nfromHostDecoder : Json.Decode.Decoder FromHost\nfromHostDecoder =\n    Json.Decode.string\n\n\nencodeFromHost : FromHost -> Json.Encode.Value\nencodeFromHost fromHost =\n    Json.Encode.string fromHost\n\n\ntype alias ToHost =\n    String\n\n\ntoHostDecoder : Json.Decode.Decoder ToHost\ntoHostDecoder =\n    Json.Decode.string\n\n\nencodeToHost : ToHost -> Json.Encode.Value\nencodeToHost toHost =\n    Json.Encode.string toHost\n\n\nport fromHost : (Json.Decode.Value -> msg) -> Sub msg\n\n\nsubscribeToFromHost : (Result Json.Decode.Error FromHost -> msg) -> Sub msg\nsubscribeToFromHost toMsg =\n    fromHost (\\value -> toMsg (Json.Decode.decodeValue value fromHostDecoder))\n\n\nport toHost : Json.Decode.Value -> Cmd msg\n\n\nsendToHost : ToHost -> Cmd msg\nsendToHost value =\n    toHost (encodeToHost value)\n"
    );
}

#[test]
fn failures_name_the_part_of_the_document() {
    let mut doc = document();
    doc.definitions = SortedMap::new();

    let err = doc.to_ts().unwrap_err();
    assert_eq!(err.kind(), ErrorKind::UnresolvedReference);
    assert_eq!(
        err.chain(),
        vec![
            "could not convert flags".to_string(),
            "could not find a definition for `counter`".to_string()
        ]
    );

    let err = doc.to_elm().unwrap_err();
    assert_eq!(err.kind(), ErrorKind::UnresolvedReference);
    assert_eq!(
        err.chain(),
        vec![
            "could not convert flags type to Elm module".to_string(),
            "could not convert the type of `count`".to_string(),
            "could not find a definition for `counter`".to_string(),
        ]
    );
}

#[test]
fn a_port_that_cannot_be_converted_is_named() {
    let doc = schema::Schema {
        definitions: SortedMap::new(),
        modules: SortedMap::from_entries(vec![(
            "Main".to_string(),
            schema::Module {
                flags: None,
                ports: Some(SortedMap::from_entries(vec![(
                    "broken".to_string(),
                    schema::Port {
                        metadata: schema::PortMeta { direction: schema::PortDirection::ElmToJs },
                        schema: Ok(SchemaNode::Ref {
                            definitions: SortedMap::new(),
                            nullable: false,
                            ref_: "nothing".to_string(),
                        }),
                    },
                )])),
            },
        )]),
    };

    assert_eq!(doc.to_ts().unwrap_err().message(), "could not convert port broken");
    assert_eq!(doc.to_elm().unwrap_err().message(), "could not convert the `broken` port to Elm");
}
