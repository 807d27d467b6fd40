//! The source text of declarations: the definition of a type, its decoder
//! and its encoder.

use crate::elm::layout::{
    alias_decoder, alias_encoder, case_line, constructor_decoder, custom_decoder, custom_encoder,
    custom_type, decoder_branch, decoder_of, encoder_branch, encoder_of, type_alias,
    write_alias_decoder, write_alias_encoder, write_case_line, write_constructor_decoder,
    write_custom_decoder, write_custom_encoder, write_custom_type, write_decoder_branch,
    write_decoder_of, write_encoder_branch, write_encoder_of, write_type_alias,
};
use crate::elm::model::{cases_model, optional_type_model, Decl, DeclModel, Type, TypeModel};
use crate::elm::render::{type_decoder, type_encoder, type_source};
use crate::error::{Error, ErrorModel};
use crate::inflected_string::{
    camel_identifier, pascal_identifier, text_matches, to_camel, to_pascal, InflectedString,
};
use crate::sorted_map::Entries;
use vstd::prelude::*;
use vstd::string::*;

verus! {

/// The payload of a case as it is written, if the case has one.
pub open spec fn payload_text(payload: Option<TypeModel>) -> Result<Option<Seq<char>>, ErrorModel> {
    match payload {
        None => Ok(None),
        Some(t) => match type_source(t) {
            Err(e) => Err(e),
            Ok(source) => Ok(Some(source)),
        },
    }
}

/// One case of a custom type on its line: its constructor, named by the
/// prefix and the name of the case, and its payload.
pub open spec fn case_source(
    first: bool,
    prefix: Seq<char>,
    name: Seq<char>,
    payload: Option<TypeModel>,
) -> Result<Seq<char>, ErrorModel> {
    match pascal_identifier(prefix) {
        Err(e) => Err(e),
        Ok(prefix) => match pascal_identifier(name) {
            Err(e) => Err(e),
            Ok(name) => match payload_text(payload) {
                Err(e) => Err(e),
                Ok(payload) => Ok(case_line(first, prefix, name, payload)),
            },
        },
    }
}

/// The first `upto` cases of a custom type, one on each line.
pub open spec fn cases_source(prefix: Seq<char>, cases: Entries<Option<TypeModel>>, upto: int) -> Result<
    Seq<char>,
    ErrorModel,
>
    decreases upto,
{
    if upto <= 0 || upto > cases.len() {
        Ok(Seq::empty())
    } else {
        match cases_source(prefix, cases, upto - 1) {
            Err(e) => Err(e),
            Ok(front) => match case_source(
                upto == 1,
                prefix,
                cases[upto - 1].0,
                cases[upto - 1].1,
            ) {
                Err(e) => Err(e),
                Ok(case) => Ok(front + case),
            },
        }
    }
}

/// The definition of a declared type.
pub open spec fn decl_source(d: DeclModel) -> Result<Seq<char>, ErrorModel> {
    match d {
        DeclModel::CustomTypeEnum { name, constructor_prefix, cases, .. } => {
            match pascal_identifier(name) {
                Err(e) => Err(e),
                Ok(name) => match cases_source(constructor_prefix, cases, cases.len() as int) {
                    Err(e) => Err(e),
                    Ok(body) => Ok(custom_type(name, body)),
                },
            }
        },
        DeclModel::TypeAlias { name, type_, .. } => match pascal_identifier(name) {
            Err(e) => Err(e),
            Ok(name) => match type_source(type_) {
                Err(e) => Err(e),
                Ok(source) => Ok(type_alias(name, source)),
            },
        },
    }
}

/// The name of the decoder of the declaration named `name`.
pub open spec fn decoder_name_of(name: Seq<char>) -> Result<Seq<char>, ErrorModel> {
    match camel_identifier(name) {
        Err(e) => Err(e),
        Ok(name) => Ok(decoder_of(name)),
    }
}

/// The name of the encoder of the declaration named `name`.
pub open spec fn encoder_name_of(name: Seq<char>) -> Result<Seq<char>, ErrorModel> {
    match pascal_identifier(name) {
        Err(e) => Err(e),
        Ok(name) => Ok(encoder_of(name)),
    }
}

/// What the tag of a case decodes to.
pub open spec fn case_decoder(
    prefix: Seq<char>,
    name: Seq<char>,
    payload: Option<TypeModel>,
    dest_type: Seq<char>,
) -> Result<Seq<char>, ErrorModel> {
    match payload {
        Some(t) => match type_decoder(t, dest_type) {
            Err(e) => Err(e),
            Ok(decoder) => match pascal_identifier(prefix) {
                Err(e) => Err(e),
                Ok(prefix) => match pascal_identifier(name) {
                    Err(e) => Err(e),
                    Ok(name) => Ok(constructor_decoder(prefix, name, Some(decoder))),
                },
            },
        },
        None => match pascal_identifier(prefix) {
            Err(e) => Err(e),
            Ok(prefix) => match pascal_identifier(name) {
                Err(e) => Err(e),
                Ok(name) => Ok(constructor_decoder(prefix, name, None)),
            },
        },
    }
}

/// The branches for the first `upto` cases in the decoder of a custom type:
/// for each tag what it decodes to.
pub open spec fn case_decoders(
    prefix: Seq<char>,
    cases: Entries<Option<TypeModel>>,
    dest_type: Seq<char>,
    upto: int,
) -> Result<Seq<char>, ErrorModel>
    decreases upto,
{
    if upto <= 0 || upto > cases.len() {
        Ok(Seq::empty())
    } else {
        match case_decoders(prefix, cases, dest_type, upto - 1) {
            Err(e) => Err(e),
            Ok(front) => match case_decoder(
                prefix,
                cases[upto - 1].0,
                cases[upto - 1].1,
                dest_type,
            ) {
                Err(e) => Err(e),
                Ok(decoder) => Ok(front + decoder_branch(upto == 1, cases[upto - 1].0, decoder)),
            },
        }
    }
}

/// The decoder of a declaration.
pub open spec fn decl_decoder(d: DeclModel) -> Result<Seq<char>, ErrorModel> {
    match decoder_name_of(d.name()) {
        Err(e) => Err(e),
        Ok(decoder) => match pascal_identifier(d.name()) {
            Err(e) => Err(e),
            Ok(pascal_name) => match d {
                DeclModel::CustomTypeEnum { constructor_prefix, discriminator, cases, .. } => {
                    match case_decoders(
                        constructor_prefix,
                        cases,
                        pascal_name,
                        cases.len() as int,
                    ) {
                        Err(e) => Err(e),
                        Ok(branches) => Ok(
                            custom_decoder(decoder, pascal_name, branches, discriminator),
                        ),
                    }
                },
                DeclModel::TypeAlias { type_, .. } => match type_decoder(type_, pascal_name) {
                    Err(e) => Err(e),
                    Ok(body) => Ok(alias_decoder(decoder, pascal_name, body)),
                },
            },
        },
    }
}

/// The branch of a case in the encoder of a custom type. The constructor is
/// named by the prefix and the name of the case; its payload is bound to a
/// variable of the same name.
pub open spec fn case_encoder(
    first: bool,
    prefix: Seq<char>,
    name: Seq<char>,
    payload: Option<TypeModel>,
) -> Result<Seq<char>, ErrorModel> {
    match pascal_identifier(prefix) {
        Err(e) => Err(e),
        Ok(prefix) => match pascal_identifier(name) {
            Err(e) => Err(e),
            Ok(constructor) => match pascal_identifier(prefix + constructor) {
                Err(e) => Err(e),
                Ok(pattern) => match payload {
                    None => Ok(encoder_branch(first, pattern, name, None)),
                    Some(t) => match camel_identifier(prefix + constructor) {
                        Err(e) => Err(e),
                        Ok(variable) => match type_encoder(t, variable, None) {
                            Err(e) => Err(e),
                            Ok(body) => Ok(
                                encoder_branch(first, pattern, name, Some((variable, body))),
                            ),
                        },
                    },
                },
            },
        },
    }
}

/// The branches for the first `upto` cases in the encoder of a custom type.
pub open spec fn case_encoders(prefix: Seq<char>, cases: Entries<Option<TypeModel>>, upto: int) -> Result<
    Seq<char>,
    ErrorModel,
>
    decreases upto,
{
    if upto <= 0 || upto > cases.len() {
        Ok(Seq::empty())
    } else {
        match case_encoders(prefix, cases, upto - 1) {
            Err(e) => Err(e),
            Ok(front) => match case_encoder(
                upto == 1,
                prefix,
                cases[upto - 1].0,
                cases[upto - 1].1,
            ) {
                Err(e) => Err(e),
                Ok(branch) => Ok(front + branch),
            },
        }
    }
}

/// The encoder of a declaration.
pub open spec fn decl_encoder(d: DeclModel) -> Result<Seq<char>, ErrorModel> {
    match encoder_name_of(d.name()) {
        Err(e) => Err(e),
        Ok(encoder) => match pascal_identifier(d.name()) {
            Err(e) => Err(e),
            Ok(pascal_name) => match camel_identifier(d.name()) {
                Err(e) => Err(e),
                Ok(variable) => match d {
                    DeclModel::CustomTypeEnum { constructor_prefix, cases, .. } => {
                        match case_encoders(constructor_prefix, cases, cases.len() as int) {
                            Err(e) => Err(e),
                            Ok(branches) => Ok(
                                custom_encoder(encoder, pascal_name, variable, branches),
                            ),
                        }
                    },
                    DeclModel::TypeAlias { type_, discriminator, .. } => {
                        match type_encoder(type_, variable, discriminator) {
                            Err(e) => Err(e),
                            Ok(body) => Ok(alias_encoder(encoder, pascal_name, variable, body)),
                        }
                    },
                },
            },
        },
    }
}

/// The decoder of a union reads the tag from the discriminator field and
/// then decodes what the branch of that tag says. A case whose payload is a
/// reference maps that reference's decoder into the case's constructor.
pub proof fn lemma_union_decoder_dispatches(
    name: Seq<char>,
    tag_field: Seq<char>,
    prefix: Seq<char>,
    cases: Entries<Option<TypeModel>>,
    case: Seq<char>,
    member: Seq<char>,
)
    requires
        decl_decoder(
            DeclModel::CustomTypeEnum {
                name,
                discriminator: Some(tag_field),
                constructor_prefix: prefix,
                cases,
            },
        ) is Ok,
    ensures
        camel_identifier(name) is Ok,
        pascal_identifier(name) is Ok,
        case_decoders(prefix, cases, pascal_identifier(name)->Ok_0, cases.len() as int) is Ok,
        decl_decoder(
            DeclModel::CustomTypeEnum {
                name,
                discriminator: Some(tag_field),
                constructor_prefix: prefix,
                cases,
            },
        ) == Ok::<Seq<char>, ErrorModel>(
            crate::elm::layout::decoder_header(
                decoder_of(camel_identifier(name)->Ok_0),
                pascal_identifier(name)->Ok_0,
            ) + "    Json.Decode.andThen\n        (\\tag ->\n            case tag of\n"@
                + case_decoders(
                prefix,
                cases,
                pascal_identifier(name)->Ok_0,
                cases.len() as int,
            )->Ok_0 + "        )\n        "@ + crate::elm::layout::tag_decoder(Some(tag_field)),
        ),
        crate::elm::layout::tag_decoder(Some(tag_field)) == "(Json.Decode.field \""@ + tag_field
            + "\" Json.Decode.string)"@,
        case_decoder(
            prefix,
            case,
            Some(TypeModel::Ref(member)),
            pascal_identifier(name)->Ok_0,
        ) is Ok ==> {
            &&& pascal_identifier(prefix) is Ok
            &&& pascal_identifier(case) is Ok
            &&& camel_identifier(member) is Ok
            &&& case_decoder(
                prefix,
                case,
                Some(TypeModel::Ref(member)),
                pascal_identifier(name)->Ok_0,
            ) == Ok::<Seq<char>, ErrorModel>(
                "Json.Decode.map "@ + pascal_identifier(prefix)->Ok_0 + pascal_identifier(
                    case,
                )->Ok_0 + crate::elm::layout::mapped_decoder(
                    decoder_of(camel_identifier(member)->Ok_0),
                ),
            )
        },
{
}

/// The encoder of a record that is a member of a union writes the pairs of
/// its fields and, after them, always the pair of its tag.
pub proof fn lemma_member_encoder_writes_tag(
    name: Seq<char>,
    fields: Entries<(TypeModel, crate::elm::model::RecordPresence)>,
    tag_field: Seq<char>,
    tag: Seq<char>,
)
    requires
        decl_encoder(
            DeclModel::TypeAlias {
                name,
                type_: TypeModel::Record(fields),
                discriminator: Some((tag_field, tag)),
            },
        ) is Ok,
    ensures
        pascal_identifier(name) is Ok,
        camel_identifier(name) is Ok,
        crate::elm::render::field_encoders(
            fields,
            fields.len() as int,
            crate::elm::render::any_optional(fields),
            camel_identifier(name)->Ok_0,
            Some((tag_field, tag)),
        ) is Ok,
        decl_encoder(
            DeclModel::TypeAlias {
                name,
                type_: TypeModel::Record(fields),
                discriminator: Some((tag_field, tag)),
            },
        ) == Ok::<Seq<char>, ErrorModel>(
            alias_encoder(
                encoder_of(pascal_identifier(name)->Ok_0),
                pascal_identifier(name)->Ok_0,
                camel_identifier(name)->Ok_0,
                crate::elm::render::record_encoder(
                    crate::elm::render::field_encoders(
                        fields,
                        fields.len() as int,
                        crate::elm::render::any_optional(fields),
                        camel_identifier(name)->Ok_0,
                        Some((tag_field, tag)),
                    )->Ok_0.push(
                        crate::elm::layout::tag_pair(
                            crate::elm::render::any_optional(fields),
                            tag_field,
                            tag,
                        ),
                    ),
                    crate::elm::render::any_optional(fields),
                ),
            ),
        ),
{
    let wrapped = crate::elm::render::any_optional(fields);
    let variable = camel_identifier(name)->Ok_0;
    let encoders = crate::elm::render::field_encoders(
        fields,
        fields.len() as int,
        wrapped,
        variable,
        Some((tag_field, tag)),
    )->Ok_0;
    assert(encoders + seq![crate::elm::layout::tag_pair(wrapped, tag_field, tag)] =~= encoders.push(
        crate::elm::layout::tag_pair(wrapped, tag_field, tag),
    ));
}

/// Once a case cannot be written, the cases cannot be written.
pub proof fn lemma_cases_source_fails(
    prefix: Seq<char>,
    cases: Entries<Option<TypeModel>>,
    upto: int,
    at: int,
)
    requires
        0 <= at < upto <= cases.len(),
        cases_source(prefix, cases, at + 1) is Err,
    ensures
        cases_source(prefix, cases, upto) == cases_source(prefix, cases, at + 1),
    decreases upto,
{
    if upto > at + 1 {
        lemma_cases_source_fails(prefix, cases, upto - 1, at);
    }
}

/// Once a case cannot be decoded, the cases cannot be decoded.
pub proof fn lemma_case_decoders_fail(
    prefix: Seq<char>,
    cases: Entries<Option<TypeModel>>,
    dest_type: Seq<char>,
    upto: int,
    at: int,
)
    requires
        0 <= at < upto <= cases.len(),
        case_decoders(prefix, cases, dest_type, at + 1) is Err,
    ensures
        case_decoders(prefix, cases, dest_type, upto) == case_decoders(
            prefix,
            cases,
            dest_type,
            at + 1,
        ),
    decreases upto,
{
    if upto > at + 1 {
        lemma_case_decoders_fail(prefix, cases, dest_type, upto - 1, at);
    }
}

/// Once a case cannot be encoded, the cases cannot be encoded.
pub proof fn lemma_case_encoders_fail(
    prefix: Seq<char>,
    cases: Entries<Option<TypeModel>>,
    upto: int,
    at: int,
)
    requires
        0 <= at < upto <= cases.len(),
        case_encoders(prefix, cases, at + 1) is Err,
    ensures
        case_encoders(prefix, cases, upto) == case_encoders(prefix, cases, at + 1),
    decreases upto,
{
    if upto > at + 1 {
        lemma_case_encoders_fail(prefix, cases, upto - 1, at);
    }
}

/// One case of a custom type on its line.
fn case_to_source(first: bool, prefix: &InflectedString, name: &str, payload: &Option<Type>) -> (r:
    Result<String, Error>)
    ensures
        text_matches(r, case_source(first, prefix@, name@, optional_type_model(*payload))),
{
    let prefix_source = match prefix.to_pascal_case() {
        Ok(s) => s,
        Err(e) => {
            return Err(e);
        },
    };
    let constructor = match to_pascal(name) {
        Ok(s) => s,
        Err(e) => {
            return Err(e);
        },
    };
    match payload {
        None => Ok(write_case_line(first, prefix_source.as_str(), constructor.as_str(), None)),
        Some(t) => {
            let source = match t.to_source() {
                Ok(s) => s,
                Err(e) => {
                    return Err(e);
                },
            };
            Ok(
                write_case_line(
                    first,
                    prefix_source.as_str(),
                    constructor.as_str(),
                    Some(source.as_str()),
                ),
            )
        },
    }
}

/// What the tag of a case decodes to.
fn case_to_decoder(
    prefix: &InflectedString,
    name: &str,
    payload: &Option<Type>,
    dest_type: &str,
) -> (r: Result<String, Error>)
    ensures
        text_matches(
            r,
            case_decoder(prefix@, name@, optional_type_model(*payload), dest_type@),
        ),
{
    let decoder = match payload {
        Some(t) => match t.to_decoder_source(dest_type) {
            Ok(s) => Some(s),
            Err(e) => {
                return Err(e);
            },
        },
        None => None,
    };
    let prefix_source = match prefix.to_pascal_case() {
        Ok(s) => s,
        Err(e) => {
            return Err(e);
        },
    };
    let constructor = match to_pascal(name) {
        Ok(s) => s,
        Err(e) => {
            return Err(e);
        },
    };
    match &decoder {
        Some(d) => Ok(
            write_constructor_decoder(
                prefix_source.as_str(),
                constructor.as_str(),
                Some(d.as_str()),
            ),
        ),
        None => Ok(write_constructor_decoder(prefix_source.as_str(), constructor.as_str(), None)),
    }
}

/// The branch of a case in the encoder of a custom type.
fn case_to_encoder(first: bool, prefix: &InflectedString, name: &str, payload: &Option<Type>) -> (r:
    Result<String, Error>)
    ensures
        text_matches(r, case_encoder(first, prefix@, name@, optional_type_model(*payload))),
{
    let mut case_name = match prefix.to_pascal_case() {
        Ok(s) => s,
        Err(e) => {
            return Err(e);
        },
    };
    let constructor = match to_pascal(name) {
        Ok(s) => s,
        Err(e) => {
            return Err(e);
        },
    };
    case_name.append(constructor.as_str());
    let pattern = match to_pascal(case_name.as_str()) {
        Ok(s) => s,
        Err(e) => {
            return Err(e);
        },
    };
    match payload {
        None => Ok(write_encoder_branch(first, pattern.as_str(), name, None)),
        Some(t) => {
            let variable = match to_camel(case_name.as_str()) {
                Ok(s) => s,
                Err(e) => {
                    return Err(e);
                },
            };
            let body = match t.to_encoder_source(variable.as_str(), &None) {
                Ok(s) => s,
                Err(e) => {
                    return Err(e);
                },
            };
            Ok(
                write_encoder_branch(
                    first,
                    pattern.as_str(),
                    name,
                    Some((variable.as_str(), body.as_str())),
                ),
            )
        },
    }
}

impl Decl {
    /// The definition of the declared type.
    pub fn to_source(&self) -> (r: Result<String, Error>)
        ensures
            text_matches(r, decl_source(self@)),
    {
        match self {
            Decl::CustomTypeEnum { name, constructor_prefix, cases, .. } => {
                let pascal_name = match name.to_pascal_case() {
                    Ok(s) => s,
                    Err(e) => {
                        return Err(e);
                    },
                };
                let ghost model = cases_model(cases@);
                let n = cases.len();
                let mut body = String::new();
                let mut i: usize = 0;
                while i < n
                    invariant
                        i <= n,
                        n == cases@.len(),
                        model == cases_model(cases@),
                        self@ is CustomTypeEnum,
                        self@->constructor_prefix == constructor_prefix@,
                        self@->cases == model,
                        pascal_identifier(self@.name()) == Ok::<Seq<char>, ErrorModel>(
                            pascal_name@,
                        ),
                        cases_source(constructor_prefix@, model, i as int) == Ok::<
                            Seq<char>,
                            ErrorModel,
                        >(body@),
                    decreases n - i,
                {
                    let case = match case_to_source(
                        i == 0,
                        constructor_prefix,
                        cases.key_at(i).as_str(),
                        cases.value_at(i),
                    ) {
                        Ok(s) => s,
                        Err(e) => {
                            proof {
                                lemma_cases_source_fails(
                                    constructor_prefix@,
                                    model,
                                    n as int,
                                    i as int,
                                );
                            }
                            return Err(e);
                        },
                    };
                    body.append(case.as_str());
                    i += 1;
                }
                Ok(write_custom_type(pascal_name.as_str(), body.as_str()))
            },
            Decl::TypeAlias { name, type_, .. } => {
                let pascal_name = match name.to_pascal_case() {
                    Ok(s) => s,
                    Err(e) => {
                        return Err(e);
                    },
                };
                let source = match type_.to_source() {
                    Ok(s) => s,
                    Err(e) => {
                        return Err(e);
                    },
                };
                Ok(write_type_alias(pascal_name.as_str(), source.as_str()))
            },
        }
    }

    /// The name of the decoder of the declared type.
    pub fn decoder_name(&self) -> (r: Result<String, Error>)
        ensures
            text_matches(r, decoder_name_of(self@.name())),
    {
        match self.name().to_camel_case() {
            Err(e) => Err(e),
            Ok(name) => Ok(write_decoder_of(name.as_str())),
        }
    }

    /// The name of the encoder of the declared type.
    pub fn encoder_name(&self) -> (r: Result<String, Error>)
        ensures
            text_matches(r, encoder_name_of(self@.name())),
    {
        match self.name().to_pascal_case() {
            Err(e) => Err(e),
            Ok(name) => Ok(write_encoder_of(name.as_str())),
        }
    }

    /// The decoder of the declared type.
    pub fn to_decoder_source(&self) -> (r: Result<String, Error>)
        ensures
            text_matches(r, decl_decoder(self@)),
    {
        let decoder = match self.decoder_name() {
            Ok(s) => s,
            Err(e) => {
                return Err(e);
            },
        };
        let pascal_name = match self.name().to_pascal_case() {
            Ok(s) => s,
            Err(e) => {
                return Err(e);
            },
        };
        match self {
            Decl::CustomTypeEnum { constructor_prefix, discriminator, cases, .. } => {
                let ghost model = cases_model(cases@);
                let n = cases.len();
                let mut branches = String::new();
                let mut i: usize = 0;
                while i < n
                    invariant
                        i <= n,
                        n == cases@.len(),
                        model == cases_model(cases@),
                        self@ is CustomTypeEnum,
                        self@->constructor_prefix == constructor_prefix@,
                        self@->cases == model,
                        pascal_identifier(self@.name()) == Ok::<Seq<char>, ErrorModel>(
                            pascal_name@,
                        ),
                        decoder_name_of(self@.name()) == Ok::<Seq<char>, ErrorModel>(decoder@),
                        case_decoders(constructor_prefix@, model, pascal_name@, i as int) == Ok::<
                            Seq<char>,
                            ErrorModel,
                        >(branches@),
                    decreases n - i,
                {
                    let case = cases.key_at(i);
                    let inner = match case_to_decoder(
                        constructor_prefix,
                        case.as_str(),
                        cases.value_at(i),
                        pascal_name.as_str(),
                    ) {
                        Ok(s) => s,
                        Err(e) => {
                            proof {
                                lemma_case_decoders_fail(
                                    constructor_prefix@,
                                    model,
                                    pascal_name@,
                                    n as int,
                                    i as int,
                                );
                            }
                            return Err(e);
                        },
                    };
                    let branch = write_decoder_branch(i == 0, case.as_str(), inner.as_str());
                    branches.append(branch.as_str());
                    i += 1;
                }
                match discriminator {
                    None => Ok(
                        write_custom_decoder(
                            decoder.as_str(),
                            pascal_name.as_str(),
                            branches.as_str(),
                            None,
                        ),
                    ),
                    Some(field) => Ok(
                        write_custom_decoder(
                            decoder.as_str(),
                            pascal_name.as_str(),
                            branches.as_str(),
                            Some(field.as_str()),
                        ),
                    ),
                }
            },
            Decl::TypeAlias { type_, .. } => {
                let body = match type_.to_decoder_source(pascal_name.as_str()) {
                    Ok(s) => s,
                    Err(e) => {
                        return Err(e);
                    },
                };
                Ok(write_alias_decoder(decoder.as_str(), pascal_name.as_str(), body.as_str()))
            },
        }
    }

    /// The encoder of the declared type.
    pub fn to_encoder_source(&self) -> (r: Result<String, Error>)
        ensures
            text_matches(r, decl_encoder(self@)),
    {
        let encoder = match self.encoder_name() {
            Ok(s) => s,
            Err(e) => {
                return Err(e);
            },
        };
        let pascal_name = match self.name().to_pascal_case() {
            Ok(s) => s,
            Err(e) => {
                return Err(e);
            },
        };
        let variable = match self.name().to_camel_case() {
            Ok(s) => s,
            Err(e) => {
                return Err(e);
            },
        };
        match self {
            Decl::CustomTypeEnum { constructor_prefix, cases, .. } => {
                let ghost model = cases_model(cases@);
                let n = cases.len();
                let mut branches = String::new();
                let mut i: usize = 0;
                while i < n
                    invariant
                        i <= n,
                        n == cases@.len(),
                        model == cases_model(cases@),
                        self@ is CustomTypeEnum,
                        self@->constructor_prefix == constructor_prefix@,
                        self@->cases == model,
                        pascal_identifier(self@.name()) == Ok::<Seq<char>, ErrorModel>(
                            pascal_name@,
                        ),
                        encoder_name_of(self@.name()) == Ok::<Seq<char>, ErrorModel>(encoder@),
                        camel_identifier(self@.name()) == Ok::<Seq<char>, ErrorModel>(variable@),
                        case_encoders(constructor_prefix@, model, i as int) == Ok::<
                            Seq<char>,
                            ErrorModel,
                        >(branches@),
                    decreases n - i,
                {
                    let branch = match case_to_encoder(
                        i == 0,
                        constructor_prefix,
                        cases.key_at(i).as_str(),
                        cases.value_at(i),
                    ) {
                        Ok(s) => s,
                        Err(e) => {
                            proof {
                                lemma_case_encoders_fail(
                                    constructor_prefix@,
                                    model,
                                    n as int,
                                    i as int,
                                );
                            }
                            return Err(e);
                        },
                    };
                    branches.append(branch.as_str());
                    i += 1;
                }
                Ok(
                    write_custom_encoder(
                        encoder.as_str(),
                        pascal_name.as_str(),
                        variable.as_str(),
                        branches.as_str(),
                    ),
                )
            },
            Decl::TypeAlias { type_, discriminator, .. } => {
                let body = match type_.to_encoder_source(variable.as_str(), discriminator) {
                    Ok(s) => s,
                    Err(e) => {
                        return Err(e);
                    },
                };
                Ok(
                    write_alias_encoder(
                        encoder.as_str(),
                        pascal_name.as_str(),
                        variable.as_str(),
                        body.as_str(),
                    ),
                )
            },
        }
    }
}

} // verus!
