use elm_duet::elm::layout::{
    write_accessor, write_alias_decoder, write_alias_encoder, write_case_line,
    write_constructor_decoder, write_custom_decoder, write_custom_encoder, write_custom_type,
    write_decoder_branch, write_decoder_header, write_decoder_of, write_encoder_branch,
    write_encoder_call, write_encoder_header, write_encoder_of, write_optional_pair, write_port,
    write_record_line, write_required_pair, write_tag_pair, write_type_alias,
};
use elm_duet::elm::PortDirection;

#[test]
fn lines_of_a_record() {
    assert_eq!(write_record_line(true, "a", "Int"), "{ a : Int");
    assert_eq!(write_record_line(false, "bC", "Maybe Int"), "\n, bC : Maybe Int");
    assert_eq!(write_record_line(false, "p", "{ x : Int\n}"), "\n, p : { x : Int\n    }");
}

#[test]
fn names_of_decoders_and_encoders() {
    assert_eq!(write_decoder_of("flags"), "flagsDecoder");
    assert_eq!(write_encoder_of("Flags"), "encodeFlags");
    assert_eq!(write_encoder_call("Flags", "value"), "encodeFlags value");
    assert_eq!(write_accessor("flags", "nickName"), "flags.nickName");
}

#[test]
fn pairs_of_a_record_encoder() {
    assert_eq!(write_required_pair(false, "a", "Json.Encode.int x.a"), "( \"a\", Json.Encode.int x.a )");
    assert_eq!(
        write_required_pair(true, "a", "case v of\n    Just value ->"),
        "Just ( \"a\", case v of\n        Just value -> )"
    );
    assert_eq!(
        write_optional_pair("nickName", "nick_name", "Json.Encode.string nickName", "flags"),
        "Maybe.map (\\nickName -> ( \"nick_name\", Json.Encode.string nickName )) flags.nickName"
    );
    assert_eq!(write_tag_pair(false, "kind", "circle"), "( \"kind\", Json.Encode.string \"circle\" )\n");
    assert_eq!(
        write_tag_pair(true, "kind", "circle"),
        "Just ( \"kind\", Json.Encode.string \"circle\" )\n"
    );
}

#[test]
fn definitions_of_types() {
    assert_eq!(write_case_line(true, "Paint", "Blue", None), "    = PaintBlue\n");
    assert_eq!(write_case_line(false, "", "Circle", Some("Circle")), "    | Circle Circle\n");
    assert_eq!(
        write_case_line(false, "", "Point", Some("{ x : Int\n}")),
        "    | Point { x : Int\n    }\n"
    );
    assert_eq!(
        write_custom_type("Color", "    = Red\n    | Blue\n"),
        "type Color\n    = Red\n    | Blue\n"
    );
    assert_eq!(write_type_alias("Flags", "{ a : Int\n}"), "type alias Flags =\n    { a : Int\n    }");
}

#[test]
fn decoders_of_declarations() {
    assert_eq!(
        write_decoder_header("flagsDecoder", "Flags"),
        "flagsDecoder : Json.Decode.Decoder Flags\nflagsDecoder =\n"
    );
    assert_eq!(write_constructor_decoder("Paint", "Blue", None), "Json.Decode.succeed PaintBlue");
    assert_eq!(
        write_constructor_decoder("", "Circle", Some("circleDecoder")),
        "Json.Decode.map Circle circleDecoder"
    );
    assert_eq!(
        write_constructor_decoder("", "Point", Some("a\nb")),
        "Json.Decode.map Point\n                        a\n                        b"
    );
    assert_eq!(
        write_decoder_branch(true, "blue", "Json.Decode.succeed Blue"),
        "                \"blue\" ->\n                    Json.Decode.succeed Blue\n"
    );
    assert_eq!(
        write_decoder_branch(false, "red", "Json.Decode.succeed Red"),
        "\n                \"red\" ->\n                    Json.Decode.succeed Red\n"
    );
    assert_eq!(
        write_custom_decoder("colorDecoder", "Color", "BRANCHES\n", None),
        "colorDecoder : Json.Decode.Decoder Color\ncolorDecoder =\n    Json.Decode.andThen\n        (\\tag ->\n            case tag of\nBRANCHES\n        )\n        Json.Decode.string"
    );
    assert_eq!(
        write_custom_decoder("shapeDecoder", "Shape", "", Some("kind")),
        "shapeDecoder : Json.Decode.Decoder Shape\nshapeDecoder =\n    Json.Decode.andThen\n        (\\tag ->\n            case tag of\n        )\n        (Json.Decode.field \"kind\" Json.Decode.string)"
    );
    assert_eq!(
        write_alias_decoder("flagsDecoder", "Flags", "Json.Decode.succeed Flags\n    |> step"),
        "flagsDecoder : Json.Decode.Decoder Flags\nflagsDecoder =\n    Json.Decode.succeed Flags\n        |> step"
    );
}

#[test]
fn encoders_of_declarations() {
    assert_eq!(
        write_encoder_header("encodeFlags", "Flags", "flags"),
        "encodeFlags : Flags -> Json.Encode.Value\nencodeFlags flags =\n"
    );
    assert_eq!(
        write_encoder_branch(true, "Blue", "blue", None),
        "        Blue ->\n            Json.Encode.string \"blue\""
    );
    assert_eq!(
        write_encoder_branch(false, "Circle", "circle", Some(("circle", "encodeCircle circle"))),
        "\n\n        Circle circle ->\n            encodeCircle circle"
    );
    assert_eq!(
        write_encoder_branch(true, "P", "p", Some(("p", "a\nb"))),
        "        P p ->\n            a\n            b"
    );
    assert_eq!(
        write_custom_encoder("encodeColor", "Color", "color", "BRANCHES"),
        "encodeColor : Color -> Json.Encode.Value\nencodeColor color =\n    case color of\nBRANCHES"
    );
    assert_eq!(
        write_alias_encoder("encodeFlags", "Flags", "flags", "a\nb"),
        "encodeFlags : Flags -> Json.Encode.Value\nencodeFlags flags =\n    a\n    b"
    );
}

#[test]
fn a_port_that_sends() {
    assert_eq!(
        write_port(PortDirection::Send, "newMsg", "NewMsg", "Msg", "encodeMsg"),
        "port newMsg : Json.Decode.Value -> Cmd msg\n\n\nsendNewMsg : Msg -> Cmd msg\nsendNewMsg value =\n    newMsg (encodeMsg value)"
    );
}

#[test]
fn a_port_that_subscribes() {
    assert_eq!(
        write_port(PortDirection::Subscribe, "names", "Names", "List String", "namesDecoder"),
        "port names : (Json.Decode.Value -> msg) -> Sub msg\n\n\nsubscribeToNames : (Result Json.Decode.Error (List String) -> msg) -> Sub msg\nsubscribeToNames toMsg =\n    names (\\value -> toMsg (Json.Decode.decodeValue value namesDecoder))"
    );
}
