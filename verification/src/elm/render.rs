//! The source text of types: how a type is written, how a value of it is
//! decoded, and how it is encoded.

use crate::elm::model::{
    fields_model, lemma_record_model, pair_model, RecordPresence, Type, TypeModel,
};
use crate::error::{failure, Error, ErrorKind, ErrorModel};
use crate::inflected_string::{camel_identifier, pascal_identifier, text_matches, to_camel};
use crate::sorted_map::{Entries, SortedMap};
use crate::elm::layout::{
    accessor, decoder_of, encoder_call, optional_pair, record_line, required_pair, tag_pair,
    write_accessor, write_decoder_of, write_encoder_call, write_optional_pair,
    write_record_line, write_required_pair, write_tag_pair,
};
use crate::text::{
    join, join_strings, parenthesized, push_parenthesized, replace_char, replace_char_with, views,
};
use vstd::prelude::*;
use vstd::string::*;

verus! {

/// How a type is written.
pub open spec fn type_source(t: TypeModel) -> Result<Seq<char>, ErrorModel>
    decreases t,
{
    match t {
        TypeModel::Bool => Ok("Bool"@),
        TypeModel::Int => Ok("Int"@),
        TypeModel::Float => Ok("Float"@),
        TypeModel::String => Ok("String"@),
        TypeModel::Unit => Ok("()"@),
        TypeModel::Maybe(inner) => match type_source(*inner) {
            Err(e) => Err(e),
            Ok(inner) => Ok("Maybe "@ + parenthesized(inner)),
        },
        TypeModel::DictWithStringKeys(inner) => match type_source(*inner) {
            Err(e) => Err(e),
            Ok(inner) => Ok("Dict String "@ + parenthesized(inner)),
        },
        TypeModel::List(inner) => match type_source(*inner) {
            Err(e) => Err(e),
            Ok(inner) => Ok("List "@ + parenthesized(inner)),
        },
        TypeModel::Ref(name) => pascal_identifier(name),
        TypeModel::Record(fields) => {
            if fields.len() == 0 {
                Ok("{}"@)
            } else {
                match record_fields_source(fields) {
                    Err(e) => Err(e),
                    Ok(body) => Ok(body + "\n}"@),
                }
            }
        },
    }
}

/// The fields of a record as they are written between its braces: one on
/// each line, the first behind the opening brace, the others behind a comma.
pub open spec fn record_fields_source(fields: Entries<(TypeModel, RecordPresence)>) -> Result<
    Seq<char>,
    ErrorModel,
>
    decreases fields,
{
    if fields.len() == 0 {
        Ok(Seq::empty())
    } else {
        match record_fields_source(fields.drop_last()) {
            Err(e) => Err(e),
            Ok(front) => match camel_identifier(fields.last().0) {
                Err(e) => Err(e),
                Ok(name) => match type_source(fields.last().1.0) {
                    Err(e) => Err(e),
                    Ok(value) => Ok(front + record_line(fields.len() == 1, name, value)),
                },
            },
        }
    }
}

/// The decoder for values of a type. `dest_type` is the name of the record
/// constructor to apply where the type is a record.
pub open spec fn type_decoder(t: TypeModel, dest_type: Seq<char>) -> Result<Seq<char>, ErrorModel>
    decreases t,
{
    match t {
        TypeModel::Int => Ok("Json.Decode.int"@),
        TypeModel::Float => Ok("Json.Decode.float"@),
        TypeModel::Bool => Ok("Json.Decode.bool"@),
        TypeModel::String => Ok("Json.Decode.string"@),
        TypeModel::Unit => Ok("Json.Decode.null ()"@),
        TypeModel::Maybe(inner) => match type_decoder(*inner, dest_type) {
            Err(e) => Err(e),
            Ok(inner) => Ok("Json.Decode.nullable "@ + parenthesized(inner)),
        },
        TypeModel::DictWithStringKeys(inner) => match type_decoder(*inner, dest_type) {
            Err(e) => Err(e),
            Ok(inner) => Ok("Json.Decode.dict "@ + parenthesized(inner)),
        },
        TypeModel::List(inner) => match type_decoder(*inner, dest_type) {
            Err(e) => Err(e),
            Ok(inner) => Ok("Json.Decode.list "@ + parenthesized(inner)),
        },
        TypeModel::Ref(name) => match camel_identifier(name) {
            Err(e) => Err(e),
            Ok(name) => Ok(decoder_of(name)),
        },
        TypeModel::Record(fields) => match record_fields_decoder(fields, dest_type) {
            Err(e) => Err(e),
            Ok(steps) => Ok("Json.Decode.succeed "@ + dest_type + steps),
        },
    }
}

/// The word of the decoding pipeline for a field of the given presence.
pub open spec fn pipeline_step(presence: RecordPresence) -> Seq<char> {
    match presence {
        RecordPresence::Required => "|> Json.Decode.Pipeline.required \""@,
        RecordPresence::Optional => "|> Json.Decode.Pipeline.optional \""@,
    }
}

/// What follows the decoder of a field: an absent optional field decodes to
/// `Nothing`.
pub open spec fn pipeline_default(presence: RecordPresence) -> Seq<char> {
    match presence {
        RecordPresence::Required => Seq::empty(),
        RecordPresence::Optional => " Nothing"@,
    }
}

/// The decoding steps for the fields of a record, one on each line.
pub open spec fn record_fields_decoder(
    fields: Entries<(TypeModel, RecordPresence)>,
    dest_type: Seq<char>,
) -> Result<Seq<char>, ErrorModel>
    decreases fields,
{
    if fields.len() == 0 {
        Ok(Seq::empty())
    } else {
        match record_fields_decoder(fields.drop_last(), dest_type) {
            Err(e) => Err(e),
            Ok(front) => match type_decoder(fields.last().1.0, dest_type) {
                Err(e) => Err(e),
                Ok(decoder) => Ok(
                    front + "\n    "@ + pipeline_step(fields.last().1.1) + fields.last().0 + "\" "@
                        + parenthesized(decoder) + pipeline_default(fields.last().1.1),
                ),
            },
        }
    }
}

/// The failure for an optional field whose type is no `Maybe`.
pub open spec fn optional_field_failure(name: Seq<char>) -> ErrorModel {
    failure(
        ErrorKind::OptionalFieldInvalid,
        "Optional fields must be `Maybe x`, but `"@ + name + "` is not"@,
    )
}

/// Whether one of the fields is optional.
pub open spec fn any_optional(fields: Entries<(TypeModel, RecordPresence)>) -> bool {
    exists|i: int| 0 <= i < fields.len() && (#[trigger] fields[i]).1.1 == RecordPresence::Optional
}

/// The encoder for a value of a type; `source_var` is the expression that
/// holds the value. `discriminator` is the tag field and tag value that a
/// record adds to its own fields.
pub open spec fn type_encoder(
    t: TypeModel,
    source_var: Seq<char>,
    discriminator: Option<(Seq<char>, Seq<char>)>,
) -> Result<Seq<char>, ErrorModel>
    decreases t, 0nat,
{
    match t {
        TypeModel::Int => Ok("Json.Encode.int "@ + source_var),
        TypeModel::Float => Ok("Json.Encode.float "@ + source_var),
        TypeModel::Bool => Ok("Json.Encode.bool "@ + source_var),
        TypeModel::String => Ok("Json.Encode.string "@ + source_var),
        TypeModel::Unit => Ok("Json.Encode.null"@),
        TypeModel::Maybe(inner) => match type_encoder(*inner, "value"@, discriminator) {
            Err(e) => Err(e),
            Ok(inner) => Ok(
                "case "@ + source_var + " of\n    Just value ->\n        "@ + replace_char(
                    inner,
                    '\n',
                    "\n       "@,
                ) + "\n\n    Nothing ->\n        Json.Encode.null"@,
            ),
        },
        TypeModel::DictWithStringKeys(inner) => match type_encoder(
            *inner,
            "value"@,
            discriminator,
        ) {
            Err(e) => Err(e),
            Ok(inner) => Ok(
                "Json.Encode.dict identity (\\value -> "@ + inner + ") "@ + source_var,
            ),
        },
        TypeModel::List(inner) => match type_encoder(*inner, "value"@, discriminator) {
            Err(e) => Err(e),
            Ok(inner) => Ok("Json.Encode.list (\\value -> "@ + inner + ") "@ + source_var),
        },
        TypeModel::Ref(name) => match pascal_identifier(name) {
            Err(e) => Err(e),
            Ok(name) => Ok(encoder_call(name, source_var)),
        },
        TypeModel::Record(fields) => match field_encoders(
            fields,
            fields.len() as int,
            any_optional(fields),
            source_var,
            discriminator,
        ) {
            Err(e) => Err(e),
            Ok(encoders) => Ok(
                record_encoder(
                    encoders + tag_encoder(any_optional(fields), discriminator),
                    any_optional(fields),
                ),
            ),
        },
    }
}

/// The pair that a record adds for the tag of the union it is a member of.
pub open spec fn tag_encoder(wrapped: bool, discriminator: Option<(Seq<char>, Seq<char>)>) -> Seq<
    Seq<char>,
> {
    match discriminator {
        None => Seq::empty(),
        Some((tag, value)) => seq![tag_pair(wrapped, tag, value)],
    }
}

/// A record's encoder, given the encoders of its pairs. Where a field may be
/// left out, the pairs that are there are picked before the object is made.
pub open spec fn record_encoder(encoders: Seq<Seq<char>>, wrapped: bool) -> Seq<char> {
    (if wrapped {
        "List.filterMap identity\n    ["@
    } else {
        "Json.Encode.object\n    ["@
    }) + join(encoders, "\n    ,"@) + "\n    ]"@ + (if wrapped {
        "\n    |> Json.Encode.object"@
    } else {
        Seq::empty()
    })
}

/// The encoder of one field of a record held by `source_var`: the pair of
/// the field's key and its encoded value.
///
/// A required field gives its pair. An optional field gives its pair if the
/// value is there, and nothing otherwise; its type must be a `Maybe`.
pub open spec fn field_encoder(
    name: Seq<char>,
    t: TypeModel,
    presence: RecordPresence,
    wrapped: bool,
    source_var: Seq<char>,
    discriminator: Option<(Seq<char>, Seq<char>)>,
) -> Result<Seq<char>, ErrorModel>
    decreases t, 1nat,
{
    match camel_identifier(name) {
        Err(e) => Err(e),
        Ok(field) => match presence {
            RecordPresence::Required => match type_encoder(
                t,
                accessor(source_var, field),
                discriminator,
            ) {
                Err(e) => Err(e),
                Ok(value) => Ok(required_pair(wrapped, name, value)),
            },
            RecordPresence::Optional => match t {
                TypeModel::Maybe(inner) => match type_encoder(*inner, field, discriminator) {
                    Err(e) => Err(e),
                    Ok(value) => Ok(optional_pair(field, name, value, source_var)),
                },
                _ => Err(optional_field_failure(name)),
            },
        },
    }
}

/// The encoders of the first `upto` fields of a record, in order.
pub open spec fn field_encoders(
    fields: Entries<(TypeModel, RecordPresence)>,
    upto: int,
    wrapped: bool,
    source_var: Seq<char>,
    discriminator: Option<(Seq<char>, Seq<char>)>,
) -> Result<Seq<Seq<char>>, ErrorModel>
    decreases fields, upto,
{
    if upto <= 0 || upto > fields.len() {
        Ok(Seq::empty())
    } else {
        match field_encoders(fields, upto - 1, wrapped, source_var, discriminator) {
            Err(e) => Err(e),
            Ok(front) => match field_encoder(
                fields[upto - 1].0,
                fields[upto - 1].1.0,
                fields[upto - 1].1.1,
                wrapped,
                source_var,
                discriminator,
            ) {
                Err(e) => Err(e),
                Ok(encoder) => Ok(front.push(encoder)),
            },
        }
    }
}

impl Type {
    /// The type as it is written in source text.
    pub fn to_source(&self) -> (r: Result<String, Error>)
        ensures
            text_matches(r, type_source(self@)),
        decreases self,
    {
        match self {
            Type::Bool => Ok(String::from_str("Bool")),
            Type::Int => Ok(String::from_str("Int")),
            Type::Float => Ok(String::from_str("Float")),
            Type::String => Ok(String::from_str("String")),
            Type::Unit => Ok(String::from_str("()")),
            Type::Maybe(inner) => {
                let inner_source = match inner.to_source() {
                    Ok(s) => s,
                    Err(e) => {
                        return Err(e);
                    },
                };
                let mut out = String::from_str("Maybe ");
                push_parenthesized(&mut out, inner_source.as_str());
                Ok(out)
            },
            Type::DictWithStringKeys(inner) => {
                let inner_source = match inner.to_source() {
                    Ok(s) => s,
                    Err(e) => {
                        return Err(e);
                    },
                };
                let mut out = String::from_str("Dict String ");
                push_parenthesized(&mut out, inner_source.as_str());
                Ok(out)
            },
            Type::List(inner) => {
                let inner_source = match inner.to_source() {
                    Ok(s) => s,
                    Err(e) => {
                        return Err(e);
                    },
                };
                let mut out = String::from_str("List ");
                push_parenthesized(&mut out, inner_source.as_str());
                Ok(out)
            },
            Type::Ref(name) => name.to_pascal_case(),
            Type::Record(fields) => {
                proof {
                    lemma_record_model(*self);
                }
                let ghost model = fields_model(fields@);
                let n = fields.len();
                if n == 0 {
                    return Ok(String::from_str("{}"));
                }
                let mut out = String::new();
                let mut i: usize = 0;
                proof {
                    assert(model.take(0) =~= Seq::empty());
                }
                while i < n
                    invariant
                        i <= n,
                        n == fields@.len(),
                        self is Record,
                        self->Record_0 == *fields,
                        model == fields_model(fields@),
                        self@ == TypeModel::Record(model),
                        n > 0,
                        record_fields_source(model.take(i as int)) == Ok::<Seq<char>, ErrorModel>(
                            out@,
                        ),
                    decreases n - i,
                {
                    proof {
                        assert(model.take(i + 1).drop_last() =~= model.take(i as int));
                        assert(model.take(i + 1).last() == model[i as int]);
                        fields.lemma_value_decreases(i as int);
                        assert(decreases_to!(*self => self->Record_0));
                    }
                    let name = match to_camel(fields.key_at(i).as_str()) {
                        Ok(s) => s,
                        Err(e) => {
                            proof {
                                lemma_record_fields_source_fails(model, i as int);
                            }
                            return Err(e);
                        },
                    };
                    let value = match fields.value_at(i).0.to_source() {
                        Ok(s) => s,
                        Err(e) => {
                            proof {
                                lemma_record_fields_source_fails(model, i as int);
                            }
                            return Err(e);
                        },
                    };
                    let line = write_record_line(i == 0, name.as_str(), value.as_str());
                    out.append(line.as_str());
                    i += 1;
                }
                proof {
                    assert(model.take(n as int) =~= model);
                }
                out.append("\n}");
                Ok(out)
            },
        }
    }
}

/// In an encoder an optional field gives its pair only where the value is
/// there, and the pairs that are there are picked before the object is made;
/// a required field always gives its pair.
pub proof fn lemma_optional_field_is_omitted(
    name: Seq<char>,
    t: TypeModel,
    wrapped: bool,
    source_var: Seq<char>,
    discriminator: Option<(Seq<char>, Seq<char>)>,
    encoders: Seq<Seq<char>>,
)
    requires
        camel_identifier(name) is Ok,
    ensures
        type_encoder(t, camel_identifier(name)->Ok_0, discriminator) is Ok ==> field_encoder(
            name,
            TypeModel::Maybe(Box::new(t)),
            RecordPresence::Optional,
            wrapped,
            source_var,
            discriminator,
        ) == Ok::<Seq<char>, ErrorModel>(
            optional_pair(
                camel_identifier(name)->Ok_0,
                name,
                type_encoder(t, camel_identifier(name)->Ok_0, discriminator)->Ok_0,
                source_var,
            ),
        ),
        type_encoder(
            t,
            accessor(source_var, camel_identifier(name)->Ok_0),
            discriminator,
        ) is Ok ==> field_encoder(
            name,
            t,
            RecordPresence::Required,
            wrapped,
            source_var,
            discriminator,
        ) == Ok::<Seq<char>, ErrorModel>(
            required_pair(
                wrapped,
                name,
                type_encoder(
                    t,
                    accessor(source_var, camel_identifier(name)->Ok_0),
                    discriminator,
                )->Ok_0,
            ),
        ),
        record_encoder(encoders, true) == "List.filterMap identity\n    ["@ + join(
            encoders,
            "\n    ,"@,
        ) + "\n    ]"@ + "\n    |> Json.Encode.object"@,
        record_encoder(encoders, false) == "Json.Encode.object\n    ["@ + join(
            encoders,
            "\n    ,"@,
        ) + "\n    ]"@,
{
    assert(record_encoder(encoders, false) =~= "Json.Encode.object\n    ["@ + join(
        encoders,
        "\n    ,"@,
    ) + "\n    ]"@);
}

/// Once a field cannot be decoded, the record cannot be decoded, and the
/// failure is that of the first such field.
pub proof fn lemma_record_fields_decoder_fails(
    fields: Entries<(TypeModel, RecordPresence)>,
    dest_type: Seq<char>,
    at: int,
)
    requires
        0 <= at < fields.len(),
        record_fields_decoder(fields.take(at), dest_type) is Ok,
        record_fields_decoder(fields.take(at + 1), dest_type) is Err,
    ensures
        record_fields_decoder(fields, dest_type) == record_fields_decoder(
            fields.take(at + 1),
            dest_type,
        ),
    decreases fields.len(),
{
    if at == fields.len() - 1 {
        assert(fields.take(at + 1) =~= fields);
    } else {
        assert(fields.drop_last().take(at) =~= fields.take(at));
        assert(fields.drop_last().take(at + 1) =~= fields.take(at + 1));
        lemma_record_fields_decoder_fails(fields.drop_last(), dest_type, at);
    }
}

/// Once a field cannot be encoded, the record cannot be encoded, and the
/// failure is that of the first such field.
pub proof fn lemma_field_encoders_fail(
    fields: Entries<(TypeModel, RecordPresence)>,
    upto: int,
    at: int,
    wrapped: bool,
    source_var: Seq<char>,
    discriminator: Option<(Seq<char>, Seq<char>)>,
)
    requires
        0 <= at < upto <= fields.len(),
        field_encoders(fields, at + 1, wrapped, source_var, discriminator) is Err,
    ensures
        field_encoders(fields, upto, wrapped, source_var, discriminator) == field_encoders(
            fields,
            at + 1,
            wrapped,
            source_var,
            discriminator,
        ),
    decreases upto,
{
    if upto > at + 1 {
        lemma_field_encoders_fail(fields, upto - 1, at, wrapped, source_var, discriminator);
    }
}

/// Whether one of the fields of a record is optional.
fn has_optional_field(fields: &SortedMap<(Type, RecordPresence)>) -> (found: bool)
    ensures
        found == any_optional(fields_model(fields@)),
{
    let ghost model = fields_model(fields@);
    let n = fields.len();
    let mut i: usize = 0;
    while i < n
        invariant
            i <= n,
            n == fields@.len(),
            model == fields_model(fields@),
            forall|j: int| 0 <= j < i ==> (#[trigger] model[j]).1.1 != RecordPresence::Optional,
        decreases n - i,
    {
        match fields.value_at(i).1 {
            RecordPresence::Optional => {
                assert(model[i as int].1.1 == RecordPresence::Optional);
                return true;
            },
            RecordPresence::Required => {},
        }
        i += 1;
    }
    false
}

impl Type {
    /// The decoder for values of the type. `dest_type` names the record
    /// constructor to apply where the type is a record.
    pub fn to_decoder_source(&self, dest_type: &str) -> (r: Result<String, Error>)
        ensures
            text_matches(r, type_decoder(self@, dest_type@)),
        decreases self,
    {
        match self {
            Type::Int => Ok(String::from_str("Json.Decode.int")),
            Type::Float => Ok(String::from_str("Json.Decode.float")),
            Type::Bool => Ok(String::from_str("Json.Decode.bool")),
            Type::String => Ok(String::from_str("Json.Decode.string")),
            Type::Unit => Ok(String::from_str("Json.Decode.null ()")),
            Type::Maybe(inner) => {
                let sub_decoder = match inner.to_decoder_source(dest_type) {
                    Ok(s) => s,
                    Err(e) => {
                        return Err(e);
                    },
                };
                let mut out = String::from_str("Json.Decode.nullable ");
                push_parenthesized(&mut out, sub_decoder.as_str());
                Ok(out)
            },
            Type::DictWithStringKeys(inner) => {
                let sub_decoder = match inner.to_decoder_source(dest_type) {
                    Ok(s) => s,
                    Err(e) => {
                        return Err(e);
                    },
                };
                let mut out = String::from_str("Json.Decode.dict ");
                push_parenthesized(&mut out, sub_decoder.as_str());
                Ok(out)
            },
            Type::List(inner) => {
                let sub_decoder = match inner.to_decoder_source(dest_type) {
                    Ok(s) => s,
                    Err(e) => {
                        return Err(e);
                    },
                };
                let mut out = String::from_str("Json.Decode.list ");
                push_parenthesized(&mut out, sub_decoder.as_str());
                Ok(out)
            },
            Type::Ref(name) => match name.to_camel_case() {
                Ok(camel) => Ok(write_decoder_of(camel.as_str())),
                Err(e) => Err(e),
            },
            Type::Record(fields) => {
                proof {
                    lemma_record_model(*self);
                }
                let ghost model = fields_model(fields@);
                let n = fields.len();
                let mut steps = String::new();
                let mut i: usize = 0;
                proof {
                    assert(model.take(0) =~= Seq::empty());
                }
                while i < n
                    invariant
                        i <= n,
                        n == fields@.len(),
                        self is Record,
                        self->Record_0 == *fields,
                        model == fields_model(fields@),
                        self@ == TypeModel::Record(model),
                        record_fields_decoder(model.take(i as int), dest_type@) == Ok::<
                            Seq<char>,
                            ErrorModel,
                        >(steps@),
                    decreases n - i,
                {
                    proof {
                        assert(model.take(i + 1).drop_last() =~= model.take(i as int));
                        assert(model.take(i + 1).last() == model[i as int]);
                        fields.lemma_value_decreases(i as int);
                        assert(decreases_to!(*self => self->Record_0));
                    }
                    let field = fields.value_at(i);
                    let sub_decoder = match field.0.to_decoder_source(dest_type) {
                        Ok(s) => s,
                        Err(e) => {
                            proof {
                                lemma_record_fields_decoder_fails(model, dest_type@, i as int);
                            }
                            return Err(e);
                        },
                    };
                    steps.append("\n    ");
                    match field.1 {
                        RecordPresence::Required => steps.append(
                            "|> Json.Decode.Pipeline.required \"",
                        ),
                        RecordPresence::Optional => steps.append(
                            "|> Json.Decode.Pipeline.optional \"",
                        ),
                    }
                    steps.append(fields.key_at(i).as_str());
                    steps.append("\" ");
                    push_parenthesized(&mut steps, sub_decoder.as_str());
                    match field.1 {
                        RecordPresence::Required => {
                            assert(steps@ =~= steps@ + Seq::<char>::empty());
                        },
                        RecordPresence::Optional => steps.append(" Nothing"),
                    }
                    i += 1;
                }
                proof {
                    assert(model.take(n as int) =~= model);
                }
                let mut out = String::from_str("Json.Decode.succeed ");
                out.append(dest_type);
                out.append(steps.as_str());
                Ok(out)
            },
        }
    }

    /// The encoder of one field of a record held by `source_var`.
    fn field_encoder_source(
        name: &str,
        t: &Type,
        presence: RecordPresence,
        wrapped: bool,
        source_var: &str,
        discriminator: &Option<(String, String)>,
    ) -> (r: Result<String, Error>)
        ensures
            text_matches(
                r,
                field_encoder(
                    name@,
                    t@,
                    presence,
                    wrapped,
                    source_var@,
                    pair_model(*discriminator),
                ),
            ),
        decreases t, 1nat,
    {
        let field = match to_camel(name) {
            Ok(s) => s,
            Err(e) => {
                return Err(e);
            },
        };
        match presence {
            RecordPresence::Required => {
                let path = write_accessor(source_var, field.as_str());
                match t.to_encoder_source(path.as_str(), discriminator) {
                    Ok(value) => Ok(write_required_pair(wrapped, name, value.as_str())),
                    Err(e) => Err(e),
                }
            },
            RecordPresence::Optional => {
                match t {
                    Type::Maybe(inner) => {
                        match inner.to_encoder_source(field.as_str(), discriminator) {
                            Ok(value) => Ok(
                                write_optional_pair(
                                    field.as_str(),
                                    name,
                                    value.as_str(),
                                    source_var,
                                ),
                            ),
                            Err(e) => Err(e),
                        }
                    },
                    _ => {
                        let mut cause = String::from_str("Optional fields must be `Maybe x`, but `");
                        cause.append(name);
                        cause.append("` is not");
                        Err(Error::new(ErrorKind::OptionalFieldInvalid, cause))
                    },
                }
            },
        }
    }

    /// The encoder for a value of the type, held by the expression
    /// `source_var`. A record adds the tag field and tag value of
    /// `discriminator_field_opt` to its own fields.
    pub fn to_encoder_source(
        &self,
        source_var: &str,
        discriminator_field_opt: &Option<(String, String)>,
    ) -> (r: Result<String, Error>)
        ensures
            text_matches(
                r,
                type_encoder(self@, source_var@, pair_model(*discriminator_field_opt)),
            ),
        decreases self, 0nat,
    {
        match self {
            Type::Int => {
                let mut out = String::from_str("Json.Encode.int ");
                out.append(source_var);
                Ok(out)
            },
            Type::Float => {
                let mut out = String::from_str("Json.Encode.float ");
                out.append(source_var);
                Ok(out)
            },
            Type::Bool => {
                let mut out = String::from_str("Json.Encode.bool ");
                out.append(source_var);
                Ok(out)
            },
            Type::String => {
                let mut out = String::from_str("Json.Encode.string ");
                out.append(source_var);
                Ok(out)
            },
            Type::Unit => Ok(String::from_str("Json.Encode.null")),
            Type::Maybe(inner) => {
                let value = match inner.to_encoder_source("value", discriminator_field_opt) {
                    Ok(s) => s,
                    Err(e) => {
                        return Err(e);
                    },
                };
                let mut out = String::from_str("case ");
                out.append(source_var);
                out.append(" of\n    Just value ->\n        ");
                let indented = replace_char_with(value.as_str(), '\n', "\n       ");
                out.append(indented.as_str());
                out.append("\n\n    Nothing ->\n        Json.Encode.null");
                Ok(out)
            },
            Type::DictWithStringKeys(inner) => {
                let value = match inner.to_encoder_source("value", discriminator_field_opt) {
                    Ok(s) => s,
                    Err(e) => {
                        return Err(e);
                    },
                };
                let mut out = String::from_str("Json.Encode.dict identity (\\value -> ");
                out.append(value.as_str());
                out.append(") ");
                out.append(source_var);
                Ok(out)
            },
            Type::List(inner) => {
                let value = match inner.to_encoder_source("value", discriminator_field_opt) {
                    Ok(s) => s,
                    Err(e) => {
                        return Err(e);
                    },
                };
                let mut out = String::from_str("Json.Encode.list (\\value -> ");
                out.append(value.as_str());
                out.append(") ");
                out.append(source_var);
                Ok(out)
            },
            Type::Ref(name) => match name.to_pascal_case() {
                Ok(pascal_name) => Ok(write_encoder_call(pascal_name.as_str(), source_var)),
                Err(e) => Err(e),
            },
            Type::Record(fields) => {
                proof {
                    lemma_record_model(*self);
                }
                let ghost model = fields_model(fields@);
                let ghost tag = pair_model(*discriminator_field_opt);
                let wrapped = has_optional_field(fields);
                let n = fields.len();
                let mut encoders: Vec<String> = Vec::new();
                let mut i: usize = 0;
                proof {
                    assert(views(encoders@) =~= Seq::empty());
                }
                while i < n
                    invariant
                        i <= n,
                        n == fields@.len(),
                        self is Record,
                        self->Record_0 == *fields,
                        model == fields_model(fields@),
                        self@ == TypeModel::Record(model),
                        wrapped == any_optional(model),
                        tag == pair_model(*discriminator_field_opt),
                        field_encoders(model, i as int, wrapped, source_var@, tag) == Ok::<
                            Seq<Seq<char>>,
                            ErrorModel,
                        >(views(encoders@)),
                    decreases n - i,
                {
                    proof {
                        fields.lemma_value_decreases(i as int);
                        assert(decreases_to!(*self => self->Record_0));
                    }
                    let field = fields.value_at(i);
                    let encoder = match Type::field_encoder_source(
                        fields.key_at(i).as_str(),
                        &field.0,
                        field.1,
                        wrapped,
                        source_var,
                        discriminator_field_opt,
                    ) {
                        Ok(s) => s,
                        Err(e) => {
                            proof {
                                lemma_field_encoders_fail(
                                    model,
                                    n as int,
                                    i as int,
                                    wrapped,
                                    source_var@,
                                    tag,
                                );
                            }
                            return Err(e);
                        },
                    };
                    let ghost before = views(encoders@);
                    encoders.push(encoder);
                    proof {
                        assert(views(encoders@) =~= before.push(encoder@));
                    }
                    i += 1;
                }
                let ghost fields_only = views(encoders@);
                match discriminator_field_opt {
                    Some((tag_field, tag_value)) => {
                        encoders.push(
                            write_tag_pair(wrapped, tag_field.as_str(), tag_value.as_str()),
                        );
                    },
                    None => {},
                }
                proof {
                    assert(views(encoders@) =~= fields_only + tag_encoder(wrapped, tag));
                }
                let mut out = String::new();
                if wrapped {
                    out.append("List.filterMap identity\n    [");
                } else {
                    out.append("Json.Encode.object\n    [");
                }
                let joined = join_strings(&encoders, "\n    ,");
                out.append(joined.as_str());
                out.append("\n    ]");
                if wrapped {
                    out.append("\n    |> Json.Encode.object");
                }
                proof {
                    assert(out@ =~= record_encoder(views(encoders@), wrapped));
                }
                Ok(out)
            },
        }
    }
}

/// Once a field cannot be written, the record cannot be written, and the
/// failure is that of the first such field.
pub proof fn lemma_record_fields_source_fails(
    fields: Entries<(TypeModel, RecordPresence)>,
    at: int,
)
    requires
        0 <= at < fields.len(),
        record_fields_source(fields.take(at)) is Ok,
        record_fields_source(fields.take(at + 1)) is Err,
    ensures
        record_fields_source(fields) == record_fields_source(fields.take(at + 1)),
    decreases fields.len(),
{
    if at == fields.len() - 1 {
        assert(fields.take(at + 1) =~= fields);
    } else {
        assert(fields.drop_last().take(at) =~= fields.take(at));
        assert(fields.drop_last().take(at + 1) =~= fields.take(at + 1));
        lemma_record_fields_source_fails(fields.drop_last(), at);
    }
}

} // verus!
