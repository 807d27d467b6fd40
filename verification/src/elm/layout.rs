//! The phrases that generated source is made of. Each takes the identifiers
//! and the texts it is built from as they are, so what it gives is known for
//! any given arguments.

use crate::text::{contains_char, parenthesized, push_parenthesized, replace_char, replace_char_with};
use vstd::prelude::*;
use vstd::string::*;

verus! {

/// The direction in which values pass through a port.
#[derive(Debug, PartialEq, Eq, Clone, Copy, Structural)]
pub enum PortDirection {
    /// From the application to its host.
    Send,
    /// From the host to the application.
    Subscribe,
}

/// A field of a record: behind the opening brace if it is the first, behind
/// a comma on a line of its own otherwise.
pub open spec fn record_line(first: bool, field: Seq<char>, value: Seq<char>) -> Seq<char> {
    (if first {
        "{ "@
    } else {
        "\n, "@
    }) + field + " : "@ + replace_char(value, '\n', "\n    "@)
}

/// A field of a record, as it is written.
pub fn write_record_line(first: bool, field: &str, value: &str) -> (line: String)
    ensures
        line@ == record_line(first, field@, value@),
{
    let mut line = String::new();
    if first {
        line.append("{ ");
    } else {
        line.append("\n, ");
    }
    line.append(field);
    line.append(" : ");
    let indented = replace_char_with(value, '\n', "\n    ");
    line.append(indented.as_str());
    line
}

/// The name of the decoder for the type with the given camelCase name.
pub open spec fn decoder_of(camel: Seq<char>) -> Seq<char> {
    camel + "Decoder"@
}

/// The name of the decoder for the type with the given camelCase name.
pub fn write_decoder_of(camel: &str) -> (name: String)
    ensures
        name@ == decoder_of(camel@),
{
    let mut name = String::from_str(camel);
    name.append("Decoder");
    name
}

/// The name of the encoder for the type with the given PascalCase name.
pub open spec fn encoder_of(pascal: Seq<char>) -> Seq<char> {
    "encode"@ + pascal
}

/// The name of the encoder for the type with the given PascalCase name.
pub fn write_encoder_of(pascal: &str) -> (name: String)
    ensures
        name@ == encoder_of(pascal@),
{
    let mut name = String::from_str("encode");
    name.append(pascal);
    name
}

/// The encoder of a declared type applied to the value in `source_var`.
pub open spec fn encoder_call(pascal: Seq<char>, source_var: Seq<char>) -> Seq<char> {
    "encode"@ + pascal + " "@ + source_var
}

/// The encoder of a declared type applied to the value in `source_var`.
pub fn write_encoder_call(pascal: &str, source_var: &str) -> (call: String)
    ensures
        call@ == encoder_call(pascal@, source_var@),
{
    let mut call = String::from_str("encode");
    call.append(pascal);
    call.append(" ");
    call.append(source_var);
    call
}

/// The field `field` of the record in `source_var`.
pub open spec fn accessor(source_var: Seq<char>, field: Seq<char>) -> Seq<char> {
    source_var + "."@ + field
}

/// The field `field` of the record in `source_var`.
pub fn write_accessor(source_var: &str, field: &str) -> (path: String)
    ensures
        path@ == accessor(source_var@, field@),
{
    let mut path = String::from_str(source_var);
    path.append(".");
    path.append(field);
    path
}

/// What stands before a pair of key and value in the list of a record's
/// pairs: where a field may be left out, every pair that is there is a `Just`.
pub open spec fn pair_prefix(wrapped: bool) -> Seq<char> {
    if wrapped {
        "Just ( \""@
    } else {
        "( \""@
    }
}

/// The pair of a required field: its key and its encoded value.
pub open spec fn required_pair(wrapped: bool, key: Seq<char>, value: Seq<char>) -> Seq<char> {
    pair_prefix(wrapped) + key + "\", "@ + replace_char(value, '\n', "\n    "@) + " )"@
}

/// The pair of a required field: its key and its encoded value.
pub fn write_required_pair(wrapped: bool, key: &str, value: &str) -> (pair: String)
    ensures
        pair@ == required_pair(wrapped, key@, value@),
{
    let mut pair = String::new();
    if wrapped {
        pair.append("Just ( \"");
    } else {
        pair.append("( \"");
    }
    pair.append(key);
    pair.append("\", ");
    let indented = replace_char_with(value, '\n', "\n    ");
    pair.append(indented.as_str());
    pair.append(" )");
    pair
}

/// The pair of an optional field: where the field `field` of the record in
/// `source_var` holds a value, the key and the encoded value; nothing
/// otherwise.
pub open spec fn optional_pair(
    field: Seq<char>,
    key: Seq<char>,
    value: Seq<char>,
    source_var: Seq<char>,
) -> Seq<char> {
    "Maybe.map (\\"@ + field + " -> ( \""@ + key + "\", "@ + replace_char(value, '\n', "\n    "@)
        + " )) "@ + source_var + "."@ + field
}

/// The pair of an optional field.
pub fn write_optional_pair(field: &str, key: &str, value: &str, source_var: &str) -> (pair: String)
    ensures
        pair@ == optional_pair(field@, key@, value@, source_var@),
{
    let mut pair = String::from_str("Maybe.map (\\");
    pair.append(field);
    pair.append(" -> ( \"");
    pair.append(key);
    pair.append("\", ");
    let indented = replace_char_with(value, '\n', "\n    ");
    pair.append(indented.as_str());
    pair.append(" )) ");
    pair.append(source_var);
    pair.append(".");
    pair.append(field);
    pair
}

/// The pair that a member of a union adds for its tag.
pub open spec fn tag_pair(wrapped: bool, tag: Seq<char>, value: Seq<char>) -> Seq<char> {
    pair_prefix(wrapped) + tag + "\", Json.Encode.string \""@ + value + "\" )\n"@
}

/// The pair that a member of a union adds for its tag.
pub fn write_tag_pair(wrapped: bool, tag: &str, value: &str) -> (pair: String)
    ensures
        pair@ == tag_pair(wrapped, tag@, value@),
{
    let mut pair = String::new();
    if wrapped {
        pair.append("Just ( \"");
    } else {
        pair.append("( \"");
    }
    pair.append(tag);
    pair.append("\", Json.Encode.string \"");
    pair.append(value);
    pair.append("\" )\n");
    pair
}

/// What stands before a case of a custom type: an equals sign before the
/// first, a bar before the others.
pub open spec fn case_mark(first: bool) -> Seq<char> {
    if first {
        "    = "@
    } else {
        "    | "@
    }
}

/// What follows the constructor of a case: its payload, if it has one.
pub open spec fn payload_source(payload: Option<Seq<char>>) -> Seq<char> {
    match payload {
        None => Seq::empty(),
        Some(source) => " "@ + replace_char(source, '\n', "\n    "@),
    }
}

/// A case of a custom type on its line: the constructor, made of the prefix
/// and the name of the case, and the payload.
pub open spec fn case_line(
    first: bool,
    prefix: Seq<char>,
    name: Seq<char>,
    payload: Option<Seq<char>>,
) -> Seq<char> {
    case_mark(first) + prefix + name + payload_source(payload) + "\n"@
}

/// A case of a custom type on its line.
pub fn write_case_line(first: bool, prefix: &str, name: &str, payload: Option<&str>) -> (line: String)
    ensures
        line@ == case_line(
            first,
            prefix@,
            name@,
            match payload {
                Some(p) => Some(p@),
                None => None,
            },
        ),
{
    let mut line = String::new();
    if first {
        line.append("    = ");
    } else {
        line.append("    | ");
    }
    line.append(prefix);
    line.append(name);
    match payload {
        None => {
            assert(line@ =~= line@ + Seq::<char>::empty());
        },
        Some(source) => {
            let ghost head = line@;
            line.append(" ");
            let indented = replace_char_with(source, '\n', "\n    ");
            line.append(indented.as_str());
            assert(line@ =~= head + (" "@ + indented@));
        },
    }
    line.append("\n");
    line
}

/// The definition of a custom type with the given cases.
pub open spec fn custom_type(pascal_name: Seq<char>, cases: Seq<char>) -> Seq<char> {
    "type "@ + pascal_name + "\n"@ + cases
}

/// The definition of a custom type with the given cases.
pub fn write_custom_type(pascal_name: &str, cases: &str) -> (source: String)
    ensures
        source@ == custom_type(pascal_name@, cases@),
{
    let mut source = String::from_str("type ");
    source.append(pascal_name);
    source.append("\n");
    source.append(cases);
    source
}

/// The definition of a name for a type.
pub open spec fn type_alias(pascal_name: Seq<char>, source: Seq<char>) -> Seq<char> {
    "type alias "@ + pascal_name + " =\n    "@ + replace_char(source, '\n', "\n    "@)
}

/// The definition of a name for a type.
pub fn write_type_alias(pascal_name: &str, source: &str) -> (alias: String)
    ensures
        alias@ == type_alias(pascal_name@, source@),
{
    let mut alias = String::from_str("type alias ");
    alias.append(pascal_name);
    alias.append(" =\n    ");
    let indented = replace_char_with(source, '\n', "\n    ");
    alias.append(indented.as_str());
    alias
}

/// A decoder behind the constructor it is mapped into: on the same line, or
/// on lines of its own where it takes more than one.
pub open spec fn mapped_decoder(decoder: Seq<char>) -> Seq<char> {
    if decoder.contains('\n') {
        "\n                        "@ + replace_char(decoder, '\n', "\n                        "@)
    } else {
        " "@ + decoder
    }
}

/// What a tag decodes to: the constructor itself for a case without payload,
/// the payload's decoder mapped into the constructor otherwise.
pub open spec fn constructor_decoder(
    prefix: Seq<char>,
    name: Seq<char>,
    payload: Option<Seq<char>>,
) -> Seq<char> {
    match payload {
        Some(decoder) => "Json.Decode.map "@ + prefix + name + mapped_decoder(decoder),
        None => "Json.Decode.succeed "@ + prefix + name,
    }
}

/// What a tag decodes to.
pub fn write_constructor_decoder(prefix: &str, name: &str, payload: Option<&str>) -> (decoder: String)
    ensures
        decoder@ == constructor_decoder(
            prefix@,
            name@,
            match payload {
                Some(p) => Some(p@),
                None => None,
            },
        ),
{
    match payload {
        Some(inner) => {
            let mut decoder = String::from_str("Json.Decode.map ");
            decoder.append(prefix);
            decoder.append(name);
            let ghost head = decoder@;
            if contains_char(inner, '\n') {
                decoder.append("\n                        ");
                let indented = replace_char_with(inner, '\n', "\n                        ");
                decoder.append(indented.as_str());
            } else {
                decoder.append(" ");
                decoder.append(inner);
            }
            assert(decoder@ =~= head + mapped_decoder(inner@));
            decoder
        },
        None => {
            let mut decoder = String::from_str("Json.Decode.succeed ");
            decoder.append(prefix);
            decoder.append(name);
            decoder
        },
    }
}

/// What separates the branches of a case distinction.
pub open spec fn branch_gap(first: bool, gap: Seq<char>) -> Seq<char> {
    if first {
        Seq::empty()
    } else {
        gap
    }
}

/// The branch for one tag in the decoder of a custom type.
pub open spec fn decoder_branch(first: bool, tag: Seq<char>, decoder: Seq<char>) -> Seq<char> {
    branch_gap(first, "\n"@) + "                \""@ + tag + "\" ->\n                    "@ + decoder
        + "\n"@
}

/// The branch for one tag in the decoder of a custom type.
pub fn write_decoder_branch(first: bool, tag: &str, decoder: &str) -> (branch: String)
    ensures
        branch@ == decoder_branch(first, tag@, decoder@),
{
    let mut branch = String::new();
    if !first {
        branch.append("\n");
    }
    branch.append("                \"");
    branch.append(tag);
    branch.append("\" ->\n                    ");
    branch.append(decoder);
    branch.append("\n");
    branch
}

/// Where the decoder of a custom type finds the tag: the value itself is
/// the tag, or the tag is the value of the discriminator field.
pub open spec fn tag_decoder(discriminator: Option<Seq<char>>) -> Seq<char> {
    match discriminator {
        None => "Json.Decode.string"@,
        Some(field) => "(Json.Decode.field \""@ + field + "\" Json.Decode.string)"@,
    }
}

/// The first two lines of a decoder: its type and its name.
pub open spec fn decoder_header(decoder: Seq<char>, pascal_name: Seq<char>) -> Seq<char> {
    decoder + " : Json.Decode.Decoder "@ + pascal_name + "\n"@ + decoder + " =\n"@
}

/// The first two lines of a decoder.
pub fn write_decoder_header(decoder: &str, pascal_name: &str) -> (header: String)
    ensures
        header@ == decoder_header(decoder@, pascal_name@),
{
    let mut header = String::from_str(decoder);
    header.append(" : Json.Decode.Decoder ");
    header.append(pascal_name);
    header.append("\n");
    header.append(decoder);
    header.append(" =\n");
    header
}

/// The decoder of a custom type: it reads the tag and then decodes what the
/// branch of that tag says.
pub open spec fn custom_decoder(
    decoder: Seq<char>,
    pascal_name: Seq<char>,
    branches: Seq<char>,
    discriminator: Option<Seq<char>>,
) -> Seq<char> {
    decoder_header(decoder, pascal_name)
        + "    Json.Decode.andThen\n        (\\tag ->\n            case tag of\n"@ + branches
        + "        )\n        "@ + tag_decoder(discriminator)
}

/// The decoder of a custom type.
pub fn write_custom_decoder(
    decoder: &str,
    pascal_name: &str,
    branches: &str,
    discriminator: Option<&str>,
) -> (source: String)
    ensures
        source@ == custom_decoder(
            decoder@,
            pascal_name@,
            branches@,
            match discriminator {
                Some(d) => Some(d@),
                None => None,
            },
        ),
{
    let mut source = write_decoder_header(decoder, pascal_name);
    source.append("    Json.Decode.andThen\n        (\\tag ->\n            case tag of\n");
    source.append(branches);
    source.append("        )\n        ");
    let ghost head = source@;
    match discriminator {
        None => source.append("Json.Decode.string"),
        Some(field) => {
            source.append("(Json.Decode.field \"");
            source.append(field);
            source.append("\" Json.Decode.string)");
        },
    }
    assert(source@ =~= head + tag_decoder(
        match discriminator {
            Some(d) => Some(d@),
            None => None,
        },
    ));
    source
}

/// The decoder of a name for a type.
pub open spec fn alias_decoder(decoder: Seq<char>, pascal_name: Seq<char>, body: Seq<char>) -> Seq<
    char,
> {
    decoder_header(decoder, pascal_name) + "    "@ + replace_char(body, '\n', "\n    "@)
}

/// The decoder of a name for a type.
pub fn write_alias_decoder(decoder: &str, pascal_name: &str, body: &str) -> (source: String)
    ensures
        source@ == alias_decoder(decoder@, pascal_name@, body@),
{
    let mut source = write_decoder_header(decoder, pascal_name);
    source.append("    ");
    let indented = replace_char_with(body, '\n', "\n    ");
    source.append(indented.as_str());
    source
}

/// What a branch in the encoder of a custom type gives: the tag itself for a
/// case without payload; otherwise the encoded payload, which the pattern
/// binds to a variable.
pub open spec fn encoder_branch(
    first: bool,
    pattern: Seq<char>,
    tag: Seq<char>,
    payload: Option<(Seq<char>, Seq<char>)>,
) -> Seq<char> {
    branch_gap(first, "\n\n"@) + "        "@ + pattern + (match payload {
        None => " ->\n            "@ + "Json.Encode.string \""@ + tag + "\""@,
        Some((variable, body)) => " "@ + variable + " ->\n            "@ + replace_char(
            body,
            '\n',
            "\n            "@,
        ),
    })
}

/// The branch of a case in the encoder of a custom type.
pub fn write_encoder_branch(
    first: bool,
    pattern: &str,
    tag: &str,
    payload: Option<(&str, &str)>,
) -> (branch: String)
    ensures
        branch@ == encoder_branch(
            first,
            pattern@,
            tag@,
            match payload {
                Some((v, b)) => Some((v@, b@)),
                None => None,
            },
        ),
{
    let mut branch = String::new();
    if !first {
        branch.append("\n\n");
    }
    branch.append("        ");
    branch.append(pattern);
    let ghost head = branch@;
    match payload {
        None => {
            branch.append(" ->\n            ");
            branch.append("Json.Encode.string \"");
            branch.append(tag);
            branch.append("\"");
            assert(branch@ =~= head + (" ->\n            "@ + "Json.Encode.string \""@ + tag@
                + "\""@));
        },
        Some((variable, body)) => {
            branch.append(" ");
            branch.append(variable);
            branch.append(" ->\n            ");
            let indented = replace_char_with(body, '\n', "\n            ");
            branch.append(indented.as_str());
            assert(branch@ =~= head + (" "@ + variable@ + " ->\n            "@ + indented@));
        },
    }
    branch
}

/// The first two lines of an encoder: its type, and its name applied to the
/// variable that holds the value.
pub open spec fn encoder_header(encoder: Seq<char>, pascal_name: Seq<char>, variable: Seq<char>) -> Seq<
    char,
> {
    encoder + " : "@ + pascal_name + " -> Json.Encode.Value\n"@ + encoder + " "@ + variable
        + " =\n"@
}

/// The first two lines of an encoder.
pub fn write_encoder_header(encoder: &str, pascal_name: &str, variable: &str) -> (header: String)
    ensures
        header@ == encoder_header(encoder@, pascal_name@, variable@),
{
    let mut header = String::from_str(encoder);
    header.append(" : ");
    header.append(pascal_name);
    header.append(" -> Json.Encode.Value\n");
    header.append(encoder);
    header.append(" ");
    header.append(variable);
    header.append(" =\n");
    header
}

/// The encoder of a custom type: a case distinction with the given branches.
pub open spec fn custom_encoder(
    encoder: Seq<char>,
    pascal_name: Seq<char>,
    variable: Seq<char>,
    branches: Seq<char>,
) -> Seq<char> {
    encoder_header(encoder, pascal_name, variable) + "    case "@ + variable + " of\n"@ + branches
}

/// The encoder of a custom type.
pub fn write_custom_encoder(encoder: &str, pascal_name: &str, variable: &str, branches: &str) -> (source:
    String)
    ensures
        source@ == custom_encoder(encoder@, pascal_name@, variable@, branches@),
{
    let mut source = write_encoder_header(encoder, pascal_name, variable);
    source.append("    case ");
    source.append(variable);
    source.append(" of\n");
    source.append(branches);
    source
}

/// The encoder of a name for a type.
pub open spec fn alias_encoder(
    encoder: Seq<char>,
    pascal_name: Seq<char>,
    variable: Seq<char>,
    body: Seq<char>,
) -> Seq<char> {
    encoder_header(encoder, pascal_name, variable) + "    "@ + replace_char(body, '\n', "\n    "@)
}

/// The encoder of a name for a type.
pub fn write_alias_encoder(encoder: &str, pascal_name: &str, variable: &str, body: &str) -> (source:
    String)
    ensures
        source@ == alias_encoder(encoder@, pascal_name@, variable@, body@),
{
    let mut source = write_encoder_header(encoder, pascal_name, variable);
    source.append("    ");
    let indented = replace_char_with(body, '\n', "\n    ");
    source.append(indented.as_str());
    source
}

/// The type of the raw port.
pub open spec fn raw_port_type(direction: PortDirection) -> Seq<char> {
    match direction {
        PortDirection::Send => "Json.Decode.Value -> Cmd msg\n\n\n"@,
        PortDirection::Subscribe => "(Json.Decode.Value -> msg) -> Sub msg\n\n\n"@,
    }
}

/// The first word of the name of the typed function around a port.
pub open spec fn wrapper_verb(direction: PortDirection) -> Seq<char> {
    match direction {
        PortDirection::Send => "send"@,
        PortDirection::Subscribe => "subscribeTo"@,
    }
}

/// The type of the typed function around a port whose values have the type
/// `payload`.
pub open spec fn wrapper_type(direction: PortDirection, payload: Seq<char>) -> Seq<char> {
    match direction {
        PortDirection::Send => payload + " -> Cmd msg\n"@,
        PortDirection::Subscribe => "(Result Json.Decode.Error "@ + parenthesized(payload)
            + " -> msg) -> Sub msg\n"@,
    }
}

/// The body of the typed function around the port `name`: a value is encoded
/// before it is sent, and what arrives is decoded before it is handed on.
pub open spec fn wrapper_body(direction: PortDirection, name: Seq<char>, codec: Seq<char>) -> Seq<
    char,
> {
    match direction {
        PortDirection::Send => "value =\n    "@ + name + " ("@ + codec + " value)"@,
        PortDirection::Subscribe => "toMsg =\n    "@ + name
            + " (\\value -> toMsg (Json.Decode.decodeValue value "@ + codec + "))"@,
    }
}

/// A port and the typed function around it. `pascal_port` is the name of
/// the port as part of the function's name, `payload` the name of the type of
/// its values, and `codec` the encoder or decoder of that type.
pub open spec fn port_text(
    direction: PortDirection,
    name: Seq<char>,
    pascal_port: Seq<char>,
    payload: Seq<char>,
    codec: Seq<char>,
) -> Seq<char> {
    "port "@ + name + " : "@ + raw_port_type(direction) + wrapper_verb(direction) + pascal_port
        + " : "@ + wrapper_type(direction, payload) + wrapper_verb(direction) + pascal_port + " "@
        + wrapper_body(direction, name, codec)
}

/// A port and the typed function around it.
pub fn write_port(
    direction: PortDirection,
    name: &str,
    pascal_port: &str,
    payload: &str,
    codec: &str,
) -> (source: String)
    ensures
        source@ == port_text(direction, name@, pascal_port@, payload@, codec@),
{
    let mut out = String::from_str("port ");
    out.append(name);
    out.append(" : ");
    match direction {
        PortDirection::Send => out.append("Json.Decode.Value -> Cmd msg\n\n\n"),
        PortDirection::Subscribe => out.append("(Json.Decode.Value -> msg) -> Sub msg\n\n\n"),
    }
    match direction {
        PortDirection::Send => out.append("send"),
        PortDirection::Subscribe => out.append("subscribeTo"),
    }
    out.append(pascal_port);
    out.append(" : ");
    let ghost head = out@;
    match direction {
        PortDirection::Send => {
            out.append(payload);
            out.append(" -> Cmd msg\n");
        },
        PortDirection::Subscribe => {
            out.append("(Result Json.Decode.Error ");
            push_parenthesized(&mut out, payload);
            out.append(" -> msg) -> Sub msg\n");
        },
    }
    assert(out@ =~= head + wrapper_type(direction, payload@));
    match direction {
        PortDirection::Send => out.append("send"),
        PortDirection::Subscribe => out.append("subscribeTo"),
    }
    out.append(pascal_port);
    out.append(" ");
    let ghost head = out@;
    match direction {
        PortDirection::Send => {
            out.append("value =\n    ");
            out.append(name);
            out.append(" (");
            out.append(codec);
            out.append(" value)");
        },
        PortDirection::Subscribe => {
            out.append("toMsg =\n    ");
            out.append(name);
            out.append(" (\\value -> toMsg (Json.Decode.decodeValue value ");
            out.append(codec);
            out.append("))");
        },
    }
    assert(out@ =~= head + wrapper_body(direction, name@, codec@));
    out
}

} // verus!
