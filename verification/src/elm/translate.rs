//! From a schema node to a type and the declarations it needs.

use crate::elm::model::{
    all_flat, cases_model, decl_models, fields_model, optional_text, optional_type_model,
    pair_model, Decl, DeclModel, RecordPresence, Type, TypeModel,
};
use crate::error::{failure, wrap_result, wrapped_result, Error, ErrorKind, ErrorModel};
use crate::inflected_string::InflectedString;
use crate::node::{
    idle, in_progress, lemma_mark_idle, mark, mark_flags, metadata_str, metadata_text, no_flags,
    none_in_progress, Metadata, ScalarType, SchemaNode,
};
use crate::sorted_map::{index_of, inserted, lemma_index_of, lemma_same_keys, Entries, SortedMap};
use crate::text::str_eq;
use vstd::prelude::*;
use vstd::string::*;

verus! {

/// What translating a node gives: its type and the declarations found on the
/// way, in the order in which they were found, or the failure.
pub type Translation = Result<(TypeModel, Seq<DeclModel>), ErrorModel>;

/// The type of a value that may also be absent. A type that already allows
/// for absence is left as it is: `Maybe` never wraps `Maybe` directly.
pub open spec fn maybe(t: TypeModel) -> TypeModel {
    if t is Maybe {
        t
    } else {
        TypeModel::Maybe(Box::new(t))
    }
}

/// The type `t`, made to allow for absence where `nullable` says so.
pub open spec fn apply_nullable(t: TypeModel, nullable: bool) -> TypeModel {
    if nullable {
        maybe(t)
    } else {
        t
    }
}

/// The type that a primitive of a schema becomes.
pub open spec fn scalar_type(kind: ScalarType) -> TypeModel {
    match kind {
        ScalarType::Boolean => TypeModel::Bool,
        ScalarType::Int8 | ScalarType::Uint8 | ScalarType::Int16 | ScalarType::Uint16
        | ScalarType::Int32 | ScalarType::Uint32 => TypeModel::Int,
        ScalarType::Float32 | ScalarType::Float64 => TypeModel::Float,
        ScalarType::String | ScalarType::Timestamp => TypeModel::String,
    }
}

/// The name of a declaration: the `name` of its metadata, or else the name
/// that was suggested from outside.
pub open spec fn declared_name(metadata: Entries<Option<String>>, suggestion: Option<Seq<char>>) -> Option<
    Seq<char>,
> {
    match metadata_text(metadata, "name"@) {
        Some(name) => Some(name),
        None => suggestion,
    }
}

/// The prefix for the constructors of a custom type: the `constructorPrefix`
/// of its metadata, or nothing.
pub open spec fn constructor_prefix(metadata: Entries<Option<String>>) -> Seq<char> {
    match metadata_text(metadata, "constructorPrefix"@) {
        Some(prefix) => prefix,
        None => Seq::empty(),
    }
}

/// The cases of an enumeration: one for each value, none with a payload.
pub open spec fn enum_cases(values: Seq<Seq<char>>) -> Entries<Option<TypeModel>>
    decreases values.len(),
{
    if values.len() == 0 {
        Seq::empty()
    } else {
        inserted(enum_cases(values.drop_last()), values.last(), None)
    }
}

/// The outcomes of translating the members of a node, taken together: the
/// first failure in order, or else every member's type under its key, and
/// all declarations in order.
pub open spec fn gather(items: Seq<(Seq<char>, Translation)>) -> Result<
    (Seq<(Seq<char>, TypeModel)>, Seq<DeclModel>),
    ErrorModel,
>
    decreases items.len(),
{
    if items.len() == 0 {
        Ok((Seq::empty(), Seq::empty()))
    } else {
        match gather(items.drop_last()) {
            Err(e) => Err(e),
            Ok((types, decls)) => match items.last().1 {
                Err(e) => Err(e),
                Ok((t, found)) => Ok((types.push((items.last().0, t)), decls + found)),
            },
        }
    }
}

/// The type of a record field with the given presence: an optional field
/// always allows for absence.
pub open spec fn field_type(t: TypeModel, presence: RecordPresence) -> TypeModel {
    match presence {
        RecordPresence::Required => t,
        RecordPresence::Optional => maybe(t),
    }
}

/// The fields `acc` after the properties `types` were stored with the given
/// presence, one after the other.
pub open spec fn with_fields(
    acc: Entries<(TypeModel, RecordPresence)>,
    types: Seq<(Seq<char>, TypeModel)>,
    presence: RecordPresence,
) -> Entries<(TypeModel, RecordPresence)>
    decreases types.len(),
{
    if types.len() == 0 {
        acc
    } else {
        inserted(
            with_fields(acc, types.drop_last(), presence),
            types.last().0,
            (field_type(types.last().1, presence), presence),
        )
    }
}

/// The cases of a union: one for each tag, with the member's type as payload.
pub open spec fn union_cases(types: Seq<(Seq<char>, TypeModel)>) -> Entries<Option<TypeModel>>
    decreases types.len(),
{
    if types.len() == 0 {
        Seq::empty()
    } else {
        inserted(union_cases(types.drop_last()), types.last().0, Some(types.last().1))
    }
}

/// The failure of attaching a tag to something that cannot carry one.
pub open spec fn target_failure(cause: Seq<char>) -> ErrorModel {
    failure(ErrorKind::DiscriminatorTargetInvalid, cause)
}

/// The declaration `d` carrying the tag field and value by which its union
/// knows it. Only an alias of a record can carry them.
pub open spec fn with_discriminator(d: DeclModel, tag: Seq<char>, value: Seq<char>) -> Result<
    DeclModel,
    ErrorModel,
> {
    match d {
        DeclModel::CustomTypeEnum { .. } => Err(
            target_failure("cannot add a discriminator to a custom type"@),
        ),
        DeclModel::TypeAlias { name, type_, discriminator } => {
            if type_ is Record {
                Ok(DeclModel::TypeAlias { name, type_, discriminator: Some((tag, value)) })
            } else {
                Err(
                    target_failure(
                        "cannot add a discriminator to an alias of a type that is not a record"@,
                    ),
                )
            }
        },
    }
}

/// The declarations `decls` in which every one named `name` carries the tag,
/// or the failure of the first such declaration that cannot carry it.
pub open spec fn attach_all(decls: Seq<DeclModel>, name: Seq<char>, tag: Seq<char>, value: Seq<char>) -> Result<
    Seq<DeclModel>,
    ErrorModel,
>
    decreases decls.len(),
{
    if decls.len() == 0 {
        Ok(Seq::empty())
    } else {
        match attach_all(decls.drop_last(), name, tag, value) {
            Err(e) => Err(e),
            Ok(front) => {
                if decls.last().name() == name {
                    match with_discriminator(decls.last(), tag, value) {
                        Err(e) => Err(e),
                        Ok(d) => Ok(front.push(d)),
                    }
                } else {
                    Ok(front.push(decls.last()))
                }
            },
        }
    }
}

/// Whether one of the declarations has the name `name`.
pub open spec fn declares(decls: Seq<DeclModel>, name: Seq<char>) -> bool {
    exists|i: int| 0 <= i < decls.len() && (#[trigger] decls[i]).name() == name
}

/// The tag attached to the declarations that `name` refers to. There must be
/// one, and each must be able to carry the tag.
pub open spec fn attach(decls: Seq<DeclModel>, name: Seq<char>, tag: Seq<char>, value: Seq<char>) -> Result<
    Seq<DeclModel>,
    ErrorModel,
> {
    match attach_all(decls, name, tag, value) {
        Err(e) => Err(e),
        Ok(attached) => {
            if declares(decls, name) {
                Ok(attached)
            } else {
                Err(
                    target_failure(
                        "could not find a declaration named `"@ + name
                            + "` to add a discriminator to"@,
                    ),
                )
            }
        },
    }
}

/// The name of the empty record that stands for a union member without any
/// property of its own.
pub open spec fn member_name(tag: Seq<char>, value: Seq<char>) -> Seq<char> {
    tag + "_"@ + value
}

/// Why a type other than a reference cannot carry a tag.
pub open spec fn unfit_cause(t: TypeModel) -> Seq<char> {
    match t {
        TypeModel::Int => "I can't add a discriminator to an int"@,
        TypeModel::Float => "I can't add a discriminator to an float"@,
        TypeModel::Bool => "I can't add a discriminator to a bool"@,
        TypeModel::String => "I can't add a discriminator to a string"@,
        TypeModel::Maybe(_) => "I can't add a discriminator to a maybe"@,
        TypeModel::DictWithStringKeys(_) => "I can't add a discriminator to a dict"@,
        TypeModel::List(_) => "I can't add a discriminator to a list"@,
        _ =>
            "As silly as it seems, I can't add a discriminator to a record type directly. That has to be done at the decl level, and I don't know which decl to reference."@,
    }
}

/// The last step for every node: where the node is a member of a union, its
/// declaration receives the tag; then the node's own nullability is applied.
///
/// A member without constraint becomes an empty record named after the tag;
/// a member that is a reference has the tag attached to what it refers to;
/// nothing else can be a member.
pub open spec fn finish(
    base: TypeModel,
    decls: Seq<DeclModel>,
    discriminator: Option<(Seq<char>, Seq<char>)>,
    nullable: bool,
) -> Translation {
    match discriminator {
        None => Ok((apply_nullable(base, nullable), decls)),
        Some((tag, value)) => match base {
            TypeModel::Unit => Ok(
                (
                    apply_nullable(TypeModel::Ref(member_name(tag, value)), nullable),
                    decls.push(
                        DeclModel::TypeAlias {
                            name: member_name(tag, value),
                            type_: TypeModel::Record(Seq::empty()),
                            discriminator: Some((tag, value)),
                        },
                    ),
                ),
            ),
            TypeModel::Ref(name) => match attach(decls, name, tag, value) {
                Err(e) => Err(e),
                Ok(attached) => Ok((apply_nullable(base, nullable), attached)),
            },
            _ => Err(target_failure(unfit_cause(base))),
        },
    }
}

/// The name suggested to what a reference points to: the name suggested to
/// the reference, or else the name that the reference uses.
pub open spec fn inherited_name(suggestion: Option<Seq<char>>, ref_name: Seq<char>) -> Option<
    Seq<char>,
> {
    match suggestion {
        Some(name) => Some(name),
        None => Some(ref_name),
    }
}

/// The name suggested to the elements of a list or the values of a
/// dictionary: the suggested name with `suffix` behind it.
pub open spec fn suffixed(suggestion: Option<Seq<char>>, suffix: Seq<char>) -> Option<Seq<char>> {
    match suggestion {
        Some(name) => Some(name + suffix),
        None => None,
    }
}

/// The context added to a failure below the reference `name`.
pub open spec fn ref_context(name: Seq<char>) -> Seq<char> {
    "could not convert the value of ref `"@ + name + "`"@
}

/// The context added to a failure below the elements of a list.
pub open spec fn elements_context() -> Seq<char> {
    "could not convert elements of a list"@
}

/// The context added to a failure below the values of a dictionary.
pub open spec fn values_context() -> Seq<char> {
    "could not convert values of a dict"@
}

/// The context added to a failure below a member: a property of an object
/// where `tag_field` is `None`, a member of a union otherwise.
pub open spec fn member_context(tag_field: Option<Seq<char>>, key: Seq<char>) -> Seq<char> {
    match tag_field {
        None => "could not convert the type of `"@ + key + "`"@,
        Some(_) => "could not convert mapping for `"@ + key + "`"@,
    }
}

/// What a member is told about the union it belongs to.
pub open spec fn member_discriminator(tag_field: Option<Seq<char>>, key: Seq<char>) -> Option<
    (Seq<char>, Seq<char>),
> {
    match tag_field {
        None => None,
        Some(field) => Some((field, key)),
    }
}

/// The failure of a construct that needs a name and has none.
pub open spec fn name_failure(cause: Seq<char>) -> ErrorModel {
    failure(ErrorKind::NameRequired, cause)
}

/// The failure of a reference to a definition that no table holds.
pub open spec fn unresolved_failure(name: Seq<char>) -> ErrorModel {
    failure(ErrorKind::UnresolvedReference, "could not find a definition for `"@ + name + "`"@)
}

/// The failure of a reference to a definition that is still being resolved.
pub open spec fn cyclic_failure(name: Seq<char>) -> ErrorModel {
    failure(
        ErrorKind::CyclicReference,
        "the definition `"@ + name + "` refers to itself"@,
    )
}

/// What a reference stands for, given what the definition it points to
/// stands for.
pub open spec fn ref_translation(
    pointee: Translation,
    discriminator: Option<(Seq<char>, Seq<char>)>,
    nullable: bool,
) -> Translation {
    match pointee {
        Err(e) => Err(e),
        Ok((t, decls)) => finish(t, decls, discriminator, nullable),
    }
}

/// What an enumeration stands for: a custom type with one case for each
/// value.
pub open spec fn enum_translation(
    name: Option<Seq<char>>,
    prefix: Seq<char>,
    values: Seq<Seq<char>>,
    discriminator: Option<(Seq<char>, Seq<char>)>,
    nullable: bool,
) -> Translation {
    match name {
        None => Err(name_failure("string names are required for enums"@)),
        Some(name) => finish(
            TypeModel::Ref(name),
            seq![
                DeclModel::CustomTypeEnum {
                    name,
                    discriminator: None,
                    constructor_prefix: prefix,
                    cases: enum_cases(values),
                },
            ],
            discriminator,
            nullable,
        ),
    }
}

/// What a list stands for, given what its elements stand for.
pub open spec fn list_translation(
    elements: Translation,
    discriminator: Option<(Seq<char>, Seq<char>)>,
    nullable: bool,
) -> Translation {
    match wrapped_result(elements, elements_context()) {
        Err(e) => Err(e),
        Ok((t, decls)) => finish(TypeModel::List(Box::new(t)), decls, discriminator, nullable),
    }
}

/// What a dictionary stands for, given what its values stand for.
pub open spec fn dict_translation(
    values: Translation,
    discriminator: Option<(Seq<char>, Seq<char>)>,
    nullable: bool,
) -> Translation {
    match wrapped_result(values, values_context()) {
        Err(e) => Err(e),
        Ok((t, decls)) => finish(
            TypeModel::DictWithStringKeys(Box::new(t)),
            decls,
            discriminator,
            nullable,
        ),
    }
}

/// What an object stands for, given the outcomes of its required and of its
/// optional properties: an alias of a record with a field for each property.
pub open spec fn object_translation(
    name: Option<Seq<char>>,
    required: Seq<(Seq<char>, Translation)>,
    optional: Seq<(Seq<char>, Translation)>,
    discriminator: Option<(Seq<char>, Seq<char>)>,
    nullable: bool,
) -> Translation {
    match name {
        None => Err(name_failure("string names are required for properties"@)),
        Some(name) => match gather(required) {
            Err(e) => Err(e),
            Ok((required_types, required_decls)) => match gather(optional) {
                Err(e) => Err(e),
                Ok((optional_types, optional_decls)) => finish(
                    TypeModel::Ref(name),
                    (required_decls + optional_decls).push(
                        DeclModel::TypeAlias {
                            name,
                            type_: TypeModel::Record(
                                with_fields(
                                    with_fields(
                                        Seq::empty(),
                                        required_types,
                                        RecordPresence::Required,
                                    ),
                                    optional_types,
                                    RecordPresence::Optional,
                                ),
                            ),
                            discriminator: None,
                        },
                    ),
                    discriminator,
                    nullable,
                ),
            },
        },
    }
}

/// What a union stands for, given the outcomes of its members: a custom
/// type with one case for each tag, whose payload is the member.
pub open spec fn union_translation(
    name: Option<Seq<char>>,
    prefix: Seq<char>,
    tag_field: Seq<char>,
    members: Seq<(Seq<char>, Translation)>,
    discriminator: Option<(Seq<char>, Seq<char>)>,
    nullable: bool,
) -> Translation {
    match name {
        None => Err(name_failure("string names are required for discriminators"@)),
        Some(name) => match gather(members) {
            Err(e) => Err(e),
            Ok((types, decls)) => finish(
                TypeModel::Ref(name),
                decls.push(
                    DeclModel::CustomTypeEnum {
                        name,
                        discriminator: Some(tag_field),
                        constructor_prefix: prefix,
                        cases: union_cases(types),
                    },
                ),
                discriminator,
                nullable,
            ),
        },
    }
}

/// The type and the declarations that a schema node stands for.
///
/// `suggestion` is the name to use where the node needs one and gives none;
/// `globals` are the definitions shared by all schemas; `discriminator` is
/// the tag field and tag value where the node is a member of a union;
/// `resolving` says which global definitions are being resolved further out.
///
/// A reference is looked up among the definitions written beside it first,
/// and among the global ones after that. One that leads back to a global
/// definition that is still being resolved fails.
#[verifier::opaque]
pub open spec fn translate(
    schema: SchemaNode,
    suggestion: Option<Seq<char>>,
    globals: Entries<SchemaNode>,
    discriminator: Option<(Seq<char>, Seq<char>)>,
    resolving: Seq<bool>,
) -> Translation
    decreases idle(resolving, globals.len()), schema,
{
    match schema {
        SchemaNode::Empty => finish(TypeModel::Unit, Seq::empty(), discriminator, false),
        SchemaNode::Ref { definitions, nullable, ref_ } => {
            let local = index_of(definitions@, ref_@);
            let global = index_of(globals, ref_@);
            let pointee: Translation = if 0 <= local < definitions@.len() {
                proof {
                    definitions.lemma_value_decreases(local);
                }
                wrapped_result(
                    translate(
                        definitions@[local].1,
                        inherited_name(suggestion, ref_@),
                        globals,
                        discriminator,
                        resolving,
                    ),
                    ref_context(ref_@),
                )
            } else if 0 <= global < globals.len() {
                if in_progress(resolving, global) {
                    Err(cyclic_failure(ref_@))
                } else {
                    proof {
                        lemma_mark_idle(resolving, globals.len(), global, globals.len());
                    }
                    wrapped_result(
                        translate(
                            globals[global].1,
                            inherited_name(suggestion, ref_@),
                            globals,
                            discriminator,
                            mark(resolving, globals.len(), global),
                        ),
                        ref_context(ref_@),
                    )
                }
            } else {
                Err(unresolved_failure(ref_@))
            };
            ref_translation(pointee, discriminator, nullable)
        },
        SchemaNode::Type { nullable, type_ } => finish(
            scalar_type(type_),
            Seq::empty(),
            discriminator,
            nullable,
        ),
        SchemaNode::Enum { metadata, nullable, enum_ } => enum_translation(
            declared_name(metadata@, suggestion),
            constructor_prefix(metadata@),
            enum_@.map_values(|v: String| v@),
            discriminator,
            nullable,
        ),
        SchemaNode::Elements { nullable, elements } => list_translation(
            translate(*elements, suffixed(suggestion, "Elements"@), globals, discriminator, resolving),
            discriminator,
            nullable,
        ),
        SchemaNode::Values { nullable, values } => dict_translation(
            translate(*values, suffixed(suggestion, "Values"@), globals, discriminator, resolving),
            discriminator,
            nullable,
        ),
        SchemaNode::Properties {
            metadata,
            nullable,
            properties,
            optional_properties,
        } => object_translation(
            declared_name(metadata@, suggestion),
            member_items(properties, globals, None, resolving),
            member_items(optional_properties, globals, None, resolving),
            discriminator,
            nullable,
        ),
        SchemaNode::Discriminator {
            metadata,
            nullable,
            discriminator: tag_field,
            mapping,
        } => union_translation(
            declared_name(metadata@, suggestion),
            constructor_prefix(metadata@),
            tag_field@,
            member_items(mapping, globals, Some(tag_field@), resolving),
            discriminator,
            nullable,
        ),
    }
}

/// The outcome of translating each member of an object (`tag_field` is
/// `None`) or of a union, under the member's key.
#[verifier::opaque]
pub open spec fn member_items(
    members: SortedMap<SchemaNode>,
    globals: Entries<SchemaNode>,
    tag_field: Option<Seq<char>>,
    resolving: Seq<bool>,
) -> Seq<(Seq<char>, Translation)>
    decreases idle(resolving, globals.len()), members,
{
    Seq::new(
        members@.len(),
        |i: int|
            if 0 <= i < members@.len() {
                proof {
                    members.lemma_value_decreases(i);
                }
                (
                    members@[i].0,
                    wrapped_result(
                        translate(
                            members@[i].1,
                            Some(members@[i].0),
                            globals,
                            member_discriminator(tag_field, members@[i].0),
                            resolving,
                        ),
                        member_context(tag_field, members@[i].0),
                    ),
                )
            } else {
                arbitrary()
            },
    )
}

/// Whether an executable outcome holds what the model of the translation says.
pub open spec fn translation_matches(r: Result<(Type, Vec<Decl>), Error>, model: Translation) -> bool {
    match (r, model) {
        (Ok((t, decls)), Ok((mt, mdecls))) => t@ == mt && decl_models(decls@) == mdecls,
        (Err(e), Err(me)) => e@ == me,
        _ => false,
    }
}

/// What `translate` says of a node without constraint, of a primitive and of
/// an enumeration.
pub proof fn lemma_translate_plain(
    schema: SchemaNode,
    suggestion: Option<Seq<char>>,
    globals: Entries<SchemaNode>,
    discriminator: Option<(Seq<char>, Seq<char>)>,
    resolving: Seq<bool>,
)
    ensures
        schema is Empty ==> translate(schema, suggestion, globals, discriminator, resolving)
            == finish(TypeModel::Unit, Seq::empty(), discriminator, false),
        schema is Type ==> translate(schema, suggestion, globals, discriminator, resolving)
            == finish(
            scalar_type(schema->type_),
            Seq::empty(),
            discriminator,
            schema->Type_nullable,
        ),
        schema is Enum ==> translate(schema, suggestion, globals, discriminator, resolving)
            == enum_translation(
            declared_name(schema->Enum_metadata@, suggestion),
            constructor_prefix(schema->Enum_metadata@),
            schema->enum_@.map_values(|v: String| v@),
            discriminator,
            schema->Enum_nullable,
        ),
{
    reveal(translate);
}

/// What `translate` says of a list and of a dictionary.
pub proof fn lemma_translate_container(
    schema: SchemaNode,
    suggestion: Option<Seq<char>>,
    globals: Entries<SchemaNode>,
    discriminator: Option<(Seq<char>, Seq<char>)>,
    resolving: Seq<bool>,
)
    ensures
        schema is Elements ==> translate(schema, suggestion, globals, discriminator, resolving)
            == list_translation(
            translate(
                *schema->elements,
                suffixed(suggestion, "Elements"@),
                globals,
                discriminator,
                resolving,
            ),
            discriminator,
            schema->Elements_nullable,
        ),
        schema is Values ==> translate(schema, suggestion, globals, discriminator, resolving)
            == dict_translation(
            translate(
                *schema->values,
                suffixed(suggestion, "Values"@),
                globals,
                discriminator,
                resolving,
            ),
            discriminator,
            schema->Values_nullable,
        ),
{
    reveal(translate);
}

/// What a reference points to: the definition of that name written beside
/// it, or else the global one, unless that is being resolved already.
pub open spec fn pointee_translation(
    definitions: Entries<SchemaNode>,
    ref_name: Seq<char>,
    suggestion: Option<Seq<char>>,
    globals: Entries<SchemaNode>,
    discriminator: Option<(Seq<char>, Seq<char>)>,
    resolving: Seq<bool>,
) -> Translation {
    let local = index_of(definitions, ref_name);
    let global = index_of(globals, ref_name);
    if 0 <= local < definitions.len() {
        wrapped_result(
            translate(
                definitions[local].1,
                inherited_name(suggestion, ref_name),
                globals,
                discriminator,
                resolving,
            ),
            ref_context(ref_name),
        )
    } else if 0 <= global < globals.len() {
        if in_progress(resolving, global) {
            Err(cyclic_failure(ref_name))
        } else {
            wrapped_result(
                translate(
                    globals[global].1,
                    inherited_name(suggestion, ref_name),
                    globals,
                    discriminator,
                    mark(resolving, globals.len(), global),
                ),
                ref_context(ref_name),
            )
        }
    } else {
        Err(unresolved_failure(ref_name))
    }
}

/// What `translate` says of a reference.
pub proof fn lemma_translate_ref(
    schema: SchemaNode,
    suggestion: Option<Seq<char>>,
    globals: Entries<SchemaNode>,
    discriminator: Option<(Seq<char>, Seq<char>)>,
    resolving: Seq<bool>,
)
    requires
        schema is Ref,
    ensures
        translate(schema, suggestion, globals, discriminator, resolving) == ref_translation(
            pointee_translation(
                schema->definitions@,
                schema->ref_@,
                suggestion,
                globals,
                discriminator,
                resolving,
            ),
            discriminator,
            schema->Ref_nullable,
        ),
{
    reveal(translate);
}

/// The outcomes of the members, one by one.
pub proof fn lemma_member_items(
    members: SortedMap<SchemaNode>,
    globals: Entries<SchemaNode>,
    tag_field: Option<Seq<char>>,
    resolving: Seq<bool>,
)
    ensures
        member_items(members, globals, tag_field, resolving).len() == members@.len(),
        forall|i: int|
            0 <= i < members@.len() ==> (#[trigger] member_items(
                members,
                globals,
                tag_field,
                resolving,
            )[i]) == (
                members@[i].0,
                wrapped_result(
                    translate(
                        members@[i].1,
                        Some(members@[i].0),
                        globals,
                        member_discriminator(tag_field, members@[i].0),
                        resolving,
                    ),
                    member_context(tag_field, members@[i].0),
                ),
            ),
{
    reveal(member_items);
    reveal(translate);
}

/// What `translate` says of an object and of a union.
pub proof fn lemma_translate_members(
    schema: SchemaNode,
    suggestion: Option<Seq<char>>,
    globals: Entries<SchemaNode>,
    discriminator: Option<(Seq<char>, Seq<char>)>,
    resolving: Seq<bool>,
)
    ensures
        schema is Properties ==> translate(schema, suggestion, globals, discriminator, resolving)
            == object_translation(
            declared_name(schema->Properties_metadata@, suggestion),
            member_items(schema->properties, globals, None, resolving),
            member_items(schema->optional_properties, globals, None, resolving),
            discriminator,
            schema->Properties_nullable,
        ),
        schema is Discriminator ==> translate(
            schema,
            suggestion,
            globals,
            discriminator,
            resolving,
        ) == union_translation(
            declared_name(schema->Discriminator_metadata@, suggestion),
            constructor_prefix(schema->Discriminator_metadata@),
            schema->Discriminator_discriminator@,
            member_items(
                schema->mapping,
                globals,
                Some(schema->Discriminator_discriminator@),
                resolving,
            ),
            discriminator,
            schema->Discriminator_nullable,
        ),
{
    reveal(translate);
    reveal(member_items);
}

/// Once a declaration refuses the tag, the whole attachment fails with its
/// failure, whatever follows.
pub proof fn lemma_attach_all_fails(
    decls: Seq<DeclModel>,
    at: int,
    name: Seq<char>,
    tag: Seq<char>,
    value: Seq<char>,
)
    requires
        0 <= at < decls.len(),
        attach_all(decls.take(at), name, tag, value) is Ok,
        decls[at].name() == name,
        with_discriminator(decls[at], tag, value) is Err,
    ensures
        attach_all(decls, name, tag, value) == Err::<Seq<DeclModel>, ErrorModel>(
            with_discriminator(decls[at], tag, value)->Err_0,
        ),
    decreases decls.len(),
{
    if at == decls.len() - 1 {
        assert(decls.drop_last() =~= decls.take(at));
    } else {
        assert(decls.drop_last().take(at) =~= decls.take(at));
        lemma_attach_all_fails(decls.drop_last(), at, name, tag, value);
    }
}

/// Attaches the tag to every declaration of `decls` that is named `name`.
pub fn attach_discriminator(
    decls: &mut Vec<Decl>,
    name: &InflectedString,
    tag: &String,
    value: &String,
) -> (r: Result<(), Error>)
    ensures
        match r {
            Ok(_) => attach(decl_models(old(decls)@), name@, tag@, value@) == Ok::<
                Seq<DeclModel>,
                ErrorModel,
            >(decl_models(final(decls)@)),
            Err(e) => attach(decl_models(old(decls)@), name@, tag@, value@) == Err::<
                Seq<DeclModel>,
                ErrorModel,
            >(e@),
        },
{
    let ghost before = decl_models(decls@);
    let n = decls.len();
    let mut found = false;
    let mut i: usize = 0;
    proof {
        assert(before.take(0) =~= Seq::<DeclModel>::empty());
        assert(decl_models(decls@).take(0) =~= Seq::<DeclModel>::empty());
    }
    while i < n
        invariant
            i <= n,
            n == decls@.len(),
            before.len() == n,
            before == decl_models(old(decls)@),
            attach_all(before.take(i as int), name@, tag@, value@) == Ok::<
                Seq<DeclModel>,
                ErrorModel,
            >(decl_models(decls@).take(i as int)),
            forall|j: int| i <= j < n ==> (#[trigger] decls@[j])@ == before[j],
            found == declares(before.take(i as int), name@),
        decreases n - i,
    {
        let ghost models = decl_models(decls@);
        proof {
            assert(before.take(i + 1).drop_last() =~= before.take(i as int));
            assert(before.take(i + 1).last() == before[i as int]);
            assert(decls@[i as int]@ == before[i as int]);
        }
        if str_eq(decls[i].name().orig(), name.orig()) {
            match decls[i].add_discriminator(tag.clone(), value.clone()) {
                Ok(_) => {},
                Err(e) => {
                    proof {
                        lemma_attach_all_fails(before, i as int, name@, tag@, value@);
                    }
                    return Err(e);
                },
            }
            found = true;
        }
        proof {
            assert(decl_models(decls@).take(i + 1) =~= models.take(i as int).push(
                decls@[i as int]@,
            ));
            let seen = before.take(i + 1);
            if before[i as int].name() == name@ {
                assert(seen[i as int].name() == name@);
            } else if declares(seen, name@) {
                let k = choose|k: int| 0 <= k < seen.len() && (#[trigger] seen[k]).name() == name@;
                assert(before.take(i as int)[k] == seen[k]);
            } else if declares(before.take(i as int), name@) {
                let k = choose|k: int|
                    0 <= k < i && (#[trigger] before.take(i as int)[k]).name() == name@;
                assert(seen[k] == before.take(i as int)[k]);
            }
        }
        i += 1;
    }
    proof {
        assert(before.take(n as int) =~= before);
        assert(decl_models(decls@).take(n as int) =~= decl_models(decls@));
    }
    if found {
        Ok(())
    } else {
        let mut cause = String::from_str("could not find a declaration named `");
        cause.append(name.orig());
        cause.append("` to add a discriminator to");
        Err(Error::new(ErrorKind::DiscriminatorTargetInvalid, cause))
    }
}

/// The text that says why `t` cannot carry a tag.
fn unfit_cause_text(t: &Type) -> (cause: String)
    ensures
        cause@ == unfit_cause(t@),
{
    match t {
        Type::Int => String::from_str("I can't add a discriminator to an int"),
        Type::Float => String::from_str("I can't add a discriminator to an float"),
        Type::Bool => String::from_str("I can't add a discriminator to a bool"),
        Type::String => String::from_str("I can't add a discriminator to a string"),
        Type::Maybe(_) => String::from_str("I can't add a discriminator to a maybe"),
        Type::DictWithStringKeys(_) => String::from_str("I can't add a discriminator to a dict"),
        Type::List(_) => String::from_str("I can't add a discriminator to a list"),
        _ => String::from_str(
            "As silly as it seems, I can't add a discriminator to a record type directly. That has to be done at the decl level, and I don't know which decl to reference.",
        ),
    }
}

/// `t`, made to allow for absence where `nullable` says so.
fn nullable_type(t: Type, nullable: bool) -> (out: Type)
    ensures
        out@ == apply_nullable(t@, nullable),
{
    if nullable {
        Type::maybe(t)
    } else {
        t
    }
}

/// The last step for every node: attaches the tag of the union that the node
/// is a member of, then applies the node's own nullability.
pub fn finish_translation(
    base: Type,
    decls: Vec<Decl>,
    discriminator: Option<(String, String)>,
    nullable: bool,
) -> (r: Result<(Type, Vec<Decl>), Error>)
    ensures
        translation_matches(
            r,
            finish(base@, decl_models(decls@), pair_model(discriminator), nullable),
        ),
{
    let mut decls = decls;
    match discriminator {
        None => Ok((nullable_type(base, nullable), decls)),
        Some((tag, value)) => {
            match base {
                Type::Unit => {
                    let mut name = tag.clone();
                    name.append("_");
                    name.append(value.as_str());
                    let ghost before = decl_models(decls@);
                    let alias = Decl::TypeAlias {
                        name: InflectedString(name.clone()),
                        type_: Type::Record(SortedMap::new()),
                        discriminator: Some((tag, value)),
                    };
                    proof {
                        crate::elm::model::lemma_record_model(alias->TypeAlias_type_);
                        assert(fields_model(alias->TypeAlias_type_->Record_0@) =~= Seq::empty());
                    }
                    decls.push(alias);
                    proof {
                        assert(decl_models(decls@) =~= before.push(alias@));
                    }
                    Ok((nullable_type(Type::Ref(InflectedString(name)), nullable), decls))
                },
                Type::Ref(name) => {
                    match attach_discriminator(&mut decls, &name, &tag, &value) {
                        Err(e) => Err(e),
                        Ok(_) => Ok((nullable_type(Type::Ref(name), nullable), decls)),
                    }
                },
                other => Err(
                    Error::new(ErrorKind::DiscriminatorTargetInvalid, unfit_cause_text(&other)),
                ),
            }
        },
    }
}

/// Once a member fails, the members taken together fail with its failure,
/// whatever follows.
pub proof fn lemma_gather_fails(items: Seq<(Seq<char>, Translation)>, at: int)
    requires
        0 <= at < items.len(),
        gather(items.take(at)) is Ok,
        items[at].1 is Err,
    ensures
        gather(items) == Err::<(Seq<(Seq<char>, TypeModel)>, Seq<DeclModel>), ErrorModel>(
            items[at].1->Err_0,
        ),
    decreases items.len(),
{
    if at == items.len() - 1 {
        assert(items.drop_last() =~= items.take(at));
    } else {
        assert(items.drop_last().take(at) =~= items.take(at));
        lemma_gather_fails(items.drop_last(), at);
    }
}

/// The models of the types of members, each under its key.
pub open spec fn typed_models(types: Seq<(String, Type)>) -> Seq<(Seq<char>, TypeModel)> {
    types.map_values(|p: (String, Type)| (p.0@, p.1@))
}

/// A copy of a tag field and tag value.
fn clone_pair(pair: &Option<(String, String)>) -> (copy: Option<(String, String)>)
    ensures
        pair_model(copy) == pair_model(*pair),
{
    match pair {
        Some((tag, value)) => Some((tag.clone(), value.clone())),
        None => None,
    }
}

/// Storing a case commutes with taking models.
pub proof fn lemma_cases_inserted(cases: Entries<Option<Type>>, key: Seq<char>, value: Option<Type>)
    ensures
        cases_model(inserted(cases, key, value)) == inserted(
            cases_model(cases),
            key,
            optional_type_model(value),
        ),
{
    lemma_same_keys(cases, cases_model(cases), key);
    crate::sorted_map::lemma_lower_bound(cases, key);
    assert(cases_model(inserted(cases, key, value)) =~= inserted(
        cases_model(cases),
        key,
        optional_type_model(value),
    ));
}

/// Storing a field commutes with taking models.
pub proof fn lemma_fields_inserted(
    fields: Entries<(Type, RecordPresence)>,
    key: Seq<char>,
    value: (Type, RecordPresence),
)
    ensures
        fields_model(inserted(fields, key, value)) == inserted(
            fields_model(fields),
            key,
            (value.0@, value.1),
        ),
{
    lemma_same_keys(fields, fields_model(fields), key);
    crate::sorted_map::lemma_lower_bound(fields, key);
    assert(fields_model(inserted(fields, key, value)) =~= inserted(
        fields_model(fields),
        key,
        (value.0@, value.1),
    ));
}

/// The prefix for the constructors of a custom type.
fn prefix_of(metadata: &Metadata) -> (prefix: String)
    ensures
        prefix@ == constructor_prefix(metadata@),
{
    match metadata_str(metadata, "constructorPrefix") {
        Some(prefix) => prefix.clone(),
        None => String::new(),
    }
}

/// Stores the properties `types` as fields with the given presence.
fn store_fields(
    fields: &mut SortedMap<(Type, RecordPresence)>,
    types: Vec<(String, Type)>,
    presence: RecordPresence,
)
    ensures
        fields_model(final(fields)@) == with_fields(
            fields_model(old(fields)@),
            typed_models(types@),
            presence,
        ),
{
    let ghost typed = typed_models(types@);
    let mut types = types;
    let n = types.len();
    let mut i: usize = 0;
    proof {
        assert(typed.take(0) =~= Seq::empty());
    }
    while i < n
        invariant
            i <= n,
            n == types@.len(),
            typed.len() == n,
            forall|j: int| i <= j < n ==> typed[j] == (#[trigger] types@[j].0@, types@[j].1@),
            fields_model(fields@) == with_fields(
                fields_model(old(fields)@),
                typed.take(i as int),
                presence,
            ),
        decreases n - i,
    {
        let mut entry = (String::new(), Type::Unit);
        core::mem::swap(&mut types[i], &mut entry);
        let (key, t) = entry;
        let stored = match presence {
            RecordPresence::Required => t,
            RecordPresence::Optional => Type::maybe(t),
        };
        let ghost before = fields@;
        proof {
            assert(typed.take(i + 1).drop_last() =~= typed.take(i as int));
            assert(typed.take(i + 1).last() == typed[i as int]);
            lemma_fields_inserted(before, key@, (stored, presence));
        }
        fields.insert(key, (stored, presence));
        i += 1;
    }
    proof {
        assert(typed.take(n as int) =~= typed);
    }
}

/// The cases of a union: each member's type under its tag.
fn store_cases(types: Vec<(String, Type)>) -> (cases: SortedMap<Option<Type>>)
    ensures
        cases_model(cases@) == union_cases(typed_models(types@)),
{
    let ghost typed = typed_models(types@);
    let mut cases: SortedMap<Option<Type>> = SortedMap::new();
    let mut types = types;
    let n = types.len();
    let mut i: usize = 0;
    proof {
        assert(typed.take(0) =~= Seq::empty());
        assert(cases_model(cases@) =~= Seq::empty());
    }
    while i < n
        invariant
            i <= n,
            n == types@.len(),
            typed.len() == n,
            forall|j: int| i <= j < n ==> typed[j] == (#[trigger] types@[j].0@, types@[j].1@),
            cases_model(cases@) == union_cases(typed.take(i as int)),
        decreases n - i,
    {
        let mut entry = (String::new(), Type::Unit);
        core::mem::swap(&mut types[i], &mut entry);
        let (key, t) = entry;
        let ghost before = cases@;
        proof {
            assert(typed.take(i + 1).drop_last() =~= typed.take(i as int));
            assert(typed.take(i + 1).last() == typed[i as int]);
            lemma_cases_inserted(before, key@, Some(t));
        }
        cases.insert(key, Some(t));
        i += 1;
    }
    proof {
        assert(typed.take(n as int) =~= typed);
    }
    cases
}

/// Translates the members of an object (`tag_field` is `None`) or of a union
/// in the order of their keys, up to the first that fails.
fn translate_members(
    members: &SortedMap<SchemaNode>,
    globals: &SortedMap<SchemaNode>,
    tag_field: Option<&String>,
    resolving: &Vec<bool>,
) -> (r: Result<(Vec<(String, Type)>, Vec<Decl>), Error>)
    ensures
        match r {
            Ok((types, decls)) => gather(
                member_items(
                    *members,
                    globals@,
                    match tag_field {
                        Some(f) => Some(f@),
                        None => None,
                    },
                    resolving@,
                ),
            ) == Ok::<(Seq<(Seq<char>, TypeModel)>, Seq<DeclModel>), ErrorModel>(
                (typed_models(types@), decl_models(decls@)),
            ),
            Err(e) => gather(
                member_items(
                    *members,
                    globals@,
                    match tag_field {
                        Some(f) => Some(f@),
                        None => None,
                    },
                    resolving@,
                ),
            ) == Err::<(Seq<(Seq<char>, TypeModel)>, Seq<DeclModel>), ErrorModel>(e@),
        },
    decreases idle(resolving@, globals@.len()), members, 0nat,
{
    let ghost field = match tag_field {
        Some(f) => Some(f@),
        None => None,
    };
    let ghost items = member_items(*members, globals@, field, resolving@);
    proof {
        lemma_member_items(*members, globals@, field, resolving@);
    }
    let mut types: Vec<(String, Type)> = Vec::new();
    let mut decls: Vec<Decl> = Vec::new();
    let n = members.len();
    let mut i: usize = 0;
    proof {
        assert(items.take(0) =~= Seq::empty());
        assert(typed_models(types@) =~= Seq::empty());
        assert(decl_models(decls@) =~= Seq::empty());
    }
    while i < n
        invariant
            i <= n,
            n == members@.len(),
            items == member_items(*members, globals@, field, resolving@),
            items.len() == n,
            forall|j: int|
                0 <= j < n ==> (#[trigger] items[j]) == (
                    members@[j].0,
                    wrapped_result(
                        translate(
                            members@[j].1,
                            Some(members@[j].0),
                            globals@,
                            member_discriminator(field, members@[j].0),
                            resolving@,
                        ),
                        member_context(field, members@[j].0),
                    ),
                ),
            field == match tag_field {
                Some(f) => Some(f@),
                None => None,
            },
            gather(items.take(i as int)) == Ok::<
                (Seq<(Seq<char>, TypeModel)>, Seq<DeclModel>),
                ErrorModel,
            >((typed_models(types@), decl_models(decls@))),
        decreases n - i,
    {
        let key = members.key_at(i);
        let member = members.value_at(i);
        let (discriminator, mut context) = match tag_field {
            None => (None, String::from_str("could not convert the type of `")),
            Some(f) => (
                Some((f.clone(), key.clone())),
                String::from_str("could not convert mapping for `"),
            ),
        };
        context.append(key.as_str());
        context.append("`");
        proof {
            members.lemma_value_decreases(i as int);
            assert(items.take(i + 1).drop_last() =~= items.take(i as int));
            assert(items.take(i + 1).last() == items[i as int]);
        }
        match wrap_result(
            translate_node(member, Some(key.clone()), globals, discriminator, resolving),
            context,
        ) {
            Err(e) => {
                proof {
                    lemma_gather_fails(items, i as int);
                }
                return Err(e);
            },
            Ok((t, found)) => {
                let ghost types_before = typed_models(types@);
                let ghost decls_before = decl_models(decls@);
                let ghost found_models = decl_models(found@);
                let mut found = found;
                types.push((key.clone(), t));
                decls.append(&mut found);
                proof {
                    assert(typed_models(types@) =~= types_before.push((key@, t@)));
                    assert(decl_models(decls@) =~= decls_before + found_models);
                }
            },
        }
        i += 1;
    }
    proof {
        assert(items.take(n as int) =~= items);
    }
    Ok((types, decls))
}

/// Translates a reference: what it points to, under the name it inherits.
fn translate_ref(
    schema: &SchemaNode,
    definitions: &SortedMap<SchemaNode>,
    nullable: bool,
    ref_: &String,
    name_suggestion: Option<String>,
    globals: &SortedMap<SchemaNode>,
    discriminator: Option<(String, String)>,
    resolving: &Vec<bool>,
) -> (r: Result<(Type, Vec<Decl>), Error>)
    requires
        *schema == (SchemaNode::Ref { definitions: *definitions, nullable, ref_: *ref_ }),
    ensures
        translation_matches(
            r,
            translate(
                *schema,
                optional_text(name_suggestion),
                globals@,
                pair_model(discriminator),
                resolving@,
            ),
        ),
    decreases idle(resolving@, globals@.len()), schema, 0nat,
{
    let inherited = match name_suggestion {
        Some(name) => Some(name),
        None => Some(ref_.clone()),
    };
    let mut context = String::from_str("could not convert the value of ref `");
    context.append(ref_.as_str());
    context.append("`");
    proof {
        lemma_index_of(definitions@, ref_@);
        lemma_index_of(globals@, ref_@);
        lemma_translate_ref(
            *schema,
            optional_text(name_suggestion),
            globals@,
            pair_model(discriminator),
            resolving@,
        );
    }
    let pointee = match definitions.position(ref_.as_str()) {
        Some(local) => {
            proof {
                definitions.lemma_value_decreases(local as int);
            }
            wrap_result(
                translate_node(
                    definitions.value_at(local),
                    inherited,
                    globals,
                    clone_pair(&discriminator),
                    resolving,
                ),
                context,
            )
        },
        None => match globals.position(ref_.as_str()) {
            None => {
                let mut cause = String::from_str("could not find a definition for `");
                cause.append(ref_.as_str());
                cause.append("`");
                Err(Error::new(ErrorKind::UnresolvedReference, cause))
            },
            Some(global) => {
                if global < resolving.len() && resolving[global] {
                    let mut cause = String::from_str("the definition `");
                    cause.append(ref_.as_str());
                    cause.append("` refers to itself");
                    Err(Error::new(ErrorKind::CyclicReference, cause))
                } else {
                    let marked = mark_flags(resolving, globals.len(), global);
                    proof {
                        lemma_mark_idle(
                            resolving@,
                            globals@.len(),
                            global as int,
                            globals@.len(),
                        );
                    }
                    wrap_result(
                        translate_node(
                            globals.value_at(global),
                            inherited,
                            globals,
                            clone_pair(&discriminator),
                            &marked,
                        ),
                        context,
                    )
                }
            },
        },
    };
    match pointee {
        Err(e) => Err(e),
        Ok((t, decls)) => finish_translation(t, decls, discriminator, nullable),
    }
}

/// Translates an enumeration to a custom type without payloads.
fn translate_enum(
    schema: &SchemaNode,
    metadata: &Metadata,
    nullable: bool,
    enum_: &Vec<String>,
    name_suggestion: Option<String>,
    globals: &SortedMap<SchemaNode>,
    discriminator: Option<(String, String)>,
    resolving: &Vec<bool>,
) -> (r: Result<(Type, Vec<Decl>), Error>)
    requires
        *schema == (SchemaNode::Enum { metadata: *metadata, nullable, enum_: *enum_ }),
    ensures
        translation_matches(
            r,
            translate(
                *schema,
                optional_text(name_suggestion),
                globals@,
                pair_model(discriminator),
                resolving@,
            ),
        ),
    decreases idle(resolving@, globals@.len()), schema, 0nat,
{
    proof {
        lemma_translate_plain(
            *schema,
            optional_text(name_suggestion),
            globals@,
            pair_model(discriminator),
            resolving@,
        );
    }
    let name = match metadata_str(metadata, "name") {
        Some(name) => Some(name.clone()),
        None => name_suggestion,
    };
    match name {
        None => Err(
            Error::new(
                ErrorKind::NameRequired,
                String::from_str("string names are required for enums"),
            ),
        ),
        Some(name) => {
            let ghost values = enum_@.map_values(|v: String| v@);
            let mut cases: SortedMap<Option<Type>> = SortedMap::new();
            let mut i: usize = 0;
            proof {
                assert(values.take(0) =~= Seq::empty());
                assert(cases_model(cases@) =~= Seq::empty());
            }
            while i < enum_.len()
                invariant
                    i <= enum_@.len(),
                    values == enum_@.map_values(|v: String| v@),
                    cases_model(cases@) == enum_cases(values.take(i as int)),
                decreases enum_@.len() - i,
            {
                let ghost before = cases@;
                proof {
                    assert(values.take(i + 1).drop_last() =~= values.take(i as int));
                    assert(values.take(i + 1).last() == enum_@[i as int]@);
                }
                cases.insert(enum_[i].clone(), None);
                proof {
                    lemma_cases_inserted(before, enum_@[i as int]@, None);
                }
                i += 1;
            }
            proof {
                assert(values.take(enum_@.len() as int) =~= values);
            }
            let decl = Decl::CustomTypeEnum {
                name: InflectedString(name.clone()),
                discriminator: None,
                constructor_prefix: InflectedString(prefix_of(metadata)),
                cases,
            };
            let mut decls: Vec<Decl> = Vec::new();
            decls.push(decl);
            proof {
                assert(decl_models(decls@) =~= seq![decl@]);
            }
            finish_translation(
                Type::Ref(InflectedString(name)),
                decls,
                discriminator,
                nullable,
            )
        },
    }
}

/// Translates a list.
fn translate_elements(
    schema: &SchemaNode,
    nullable: bool,
    elements: &SchemaNode,
    name_suggestion: Option<String>,
    globals: &SortedMap<SchemaNode>,
    discriminator: Option<(String, String)>,
    resolving: &Vec<bool>,
) -> (r: Result<(Type, Vec<Decl>), Error>)
    requires
        *schema == (SchemaNode::Elements { nullable, elements: Box::new(*elements) }),
    ensures
        translation_matches(
            r,
            translate(
                *schema,
                optional_text(name_suggestion),
                globals@,
                pair_model(discriminator),
                resolving@,
            ),
        ),
    decreases idle(resolving@, globals@.len()), schema, 0nat,
{
    proof {
        lemma_translate_container(
            *schema,
            optional_text(name_suggestion),
            globals@,
            pair_model(discriminator),
            resolving@,
        );
    }
    let nested = match name_suggestion {
        Some(name) => {
            let mut name = name;
            name.append("Elements");
            Some(name)
        },
        None => None,
    };
    match wrap_result(
        translate_node(elements, nested, globals, clone_pair(&discriminator), resolving),
        String::from_str("could not convert elements of a list"),
    ) {
        Err(e) => Err(e),
        Ok((t, decls)) => finish_translation(
            Type::List(Box::new(t)),
            decls,
            discriminator,
            nullable,
        ),
    }
}

/// Translates a dictionary.
fn translate_values(
    schema: &SchemaNode,
    nullable: bool,
    values: &SchemaNode,
    name_suggestion: Option<String>,
    globals: &SortedMap<SchemaNode>,
    discriminator: Option<(String, String)>,
    resolving: &Vec<bool>,
) -> (r: Result<(Type, Vec<Decl>), Error>)
    requires
        *schema == (SchemaNode::Values { nullable, values: Box::new(*values) }),
    ensures
        translation_matches(
            r,
            translate(
                *schema,
                optional_text(name_suggestion),
                globals@,
                pair_model(discriminator),
                resolving@,
            ),
        ),
    decreases idle(resolving@, globals@.len()), schema, 0nat,
{
    proof {
        lemma_translate_container(
            *schema,
            optional_text(name_suggestion),
            globals@,
            pair_model(discriminator),
            resolving@,
        );
    }
    let nested = match name_suggestion {
        Some(name) => {
            let mut name = name;
            name.append("Values");
            Some(name)
        },
        None => None,
    };
    match wrap_result(
        translate_node(values, nested, globals, clone_pair(&discriminator), resolving),
        String::from_str("could not convert values of a dict"),
    ) {
        Err(e) => Err(e),
        Ok((t, decls)) => finish_translation(
            Type::DictWithStringKeys(Box::new(t)),
            decls,
            discriminator,
            nullable,
        ),
    }
}

/// Translates an object to an alias of a record.
fn translate_properties(
    schema: &SchemaNode,
    metadata: &Metadata,
    nullable: bool,
    properties: &SortedMap<SchemaNode>,
    optional_properties: &SortedMap<SchemaNode>,
    name_suggestion: Option<String>,
    globals: &SortedMap<SchemaNode>,
    discriminator: Option<(String, String)>,
    resolving: &Vec<bool>,
) -> (r: Result<(Type, Vec<Decl>), Error>)
    requires
        *schema == (SchemaNode::Properties {
            metadata: *metadata,
            nullable,
            properties: *properties,
            optional_properties: *optional_properties,
        }),
    ensures
        translation_matches(
            r,
            translate(
                *schema,
                optional_text(name_suggestion),
                globals@,
                pair_model(discriminator),
                resolving@,
            ),
        ),
    decreases idle(resolving@, globals@.len()), schema, 0nat,
{
    let name = match metadata_str(metadata, "name") {
        Some(name) => Some(name.clone()),
        None => name_suggestion,
    };
    proof {
        lemma_translate_members(
            *schema,
            optional_text(name_suggestion),
            globals@,
            pair_model(discriminator),
            resolving@,
        );
    }
    match name {
        None => Err(
            Error::new(
                ErrorKind::NameRequired,
                String::from_str("string names are required for properties"),
            ),
        ),
        Some(name) => {
            let (required, mut decls) = match translate_members(
                properties,
                globals,
                None,
                resolving,
            ) {
                Err(e) => {
                    return Err(e);
                },
                Ok(found) => found,
            };
            let (optional, mut optional_decls) = match translate_members(
                optional_properties,
                globals,
                None,
                resolving,
            ) {
                Err(e) => {
                    return Err(e);
                },
                Ok(found) => found,
            };
            let ghost required_decls = decl_models(decls@);
            let ghost later_decls = decl_models(optional_decls@);
            let mut fields: SortedMap<(Type, RecordPresence)> = SortedMap::new();
            proof {
                assert(fields_model(fields@) =~= Seq::empty());
            }
            store_fields(&mut fields, required, RecordPresence::Required);
            store_fields(&mut fields, optional, RecordPresence::Optional);
            let alias = Decl::TypeAlias {
                name: InflectedString(name.clone()),
                type_: Type::Record(fields),
                discriminator: None,
            };
            decls.append(&mut optional_decls);
            decls.push(alias);
            proof {
                crate::elm::model::lemma_record_model(alias->TypeAlias_type_);
                assert(decl_models(decls@) =~= (required_decls + later_decls).push(alias@));
            }
            finish_translation(
                Type::Ref(InflectedString(name)),
                decls,
                discriminator,
                nullable,
            )
        },
    }
}

/// Translates a union to a custom type with one case for each tag.
fn translate_union(
    schema: &SchemaNode,
    metadata: &Metadata,
    nullable: bool,
    tag_field: &String,
    mapping: &SortedMap<SchemaNode>,
    name_suggestion: Option<String>,
    globals: &SortedMap<SchemaNode>,
    discriminator: Option<(String, String)>,
    resolving: &Vec<bool>,
) -> (r: Result<(Type, Vec<Decl>), Error>)
    requires
        *schema == (SchemaNode::Discriminator {
            metadata: *metadata,
            nullable,
            discriminator: *tag_field,
            mapping: *mapping,
        }),
    ensures
        translation_matches(
            r,
            translate(
                *schema,
                optional_text(name_suggestion),
                globals@,
                pair_model(discriminator),
                resolving@,
            ),
        ),
    decreases idle(resolving@, globals@.len()), schema, 0nat,
{
    let name = match metadata_str(metadata, "name") {
        Some(name) => Some(name.clone()),
        None => name_suggestion,
    };
    proof {
        lemma_translate_members(
            *schema,
            optional_text(name_suggestion),
            globals@,
            pair_model(discriminator),
            resolving@,
        );
    }
    match name {
        None => Err(
            Error::new(
                ErrorKind::NameRequired,
                String::from_str("string names are required for discriminators"),
            ),
        ),
        Some(name) => {
            let (types, mut decls) = match translate_members(
                mapping,
                globals,
                Some(tag_field),
                resolving,
            ) {
                Err(e) => {
                    return Err(e);
                },
                Ok(found) => found,
            };
            let ghost member_decls = decl_models(decls@);
            let cases = store_cases(types);
            let decl = Decl::CustomTypeEnum {
                name: InflectedString(name.clone()),
                discriminator: Some(tag_field.clone()),
                constructor_prefix: InflectedString(prefix_of(metadata)),
                cases,
            };
            decls.push(decl);
            proof {
                assert(decl_models(decls@) =~= member_decls.push(decl@));
            }
            finish_translation(
                Type::Ref(InflectedString(name)),
                decls,
                discriminator,
                nullable,
            )
        },
    }
}

/// Translates one node while the definitions flagged in `resolving` are
/// being resolved further out.
fn translate_node(
    schema: &SchemaNode,
    name_suggestion: Option<String>,
    globals: &SortedMap<SchemaNode>,
    discriminator: Option<(String, String)>,
    resolving: &Vec<bool>,
) -> (r: Result<(Type, Vec<Decl>), Error>)
    ensures
        translation_matches(
            r,
            translate(
                *schema,
                optional_text(name_suggestion),
                globals@,
                pair_model(discriminator),
                resolving@,
            ),
        ),
    decreases idle(resolving@, globals@.len()), schema, 1nat,
{
    proof {
        lemma_translate_plain(
            *schema,
            optional_text(name_suggestion),
            globals@,
            pair_model(discriminator),
            resolving@,
        );
    }
    match schema {
        SchemaNode::Empty => {
            let decls: Vec<Decl> = Vec::new();
            assert(decl_models(decls@) =~= Seq::empty());
            finish_translation(Type::Unit, decls, discriminator, false)
        },
        SchemaNode::Type { nullable, type_ } => {
            let base = match type_ {
                ScalarType::Boolean => Type::Bool,
                ScalarType::Int8 | ScalarType::Uint8 | ScalarType::Int16 | ScalarType::Uint16
                | ScalarType::Int32 | ScalarType::Uint32 => Type::Int,
                ScalarType::Float32 | ScalarType::Float64 => Type::Float,
                ScalarType::String | ScalarType::Timestamp => Type::String,
            };
            let decls: Vec<Decl> = Vec::new();
            assert(decl_models(decls@) =~= Seq::empty());
            finish_translation(base, decls, discriminator, *nullable)
        },
        SchemaNode::Ref { definitions, nullable, ref_ } => translate_ref(
            schema,
            definitions,
            *nullable,
            ref_,
            name_suggestion,
            globals,
            discriminator,
            resolving,
        ),
        SchemaNode::Enum { metadata, nullable, enum_ } => translate_enum(
            schema,
            metadata,
            *nullable,
            enum_,
            name_suggestion,
            globals,
            discriminator,
            resolving,
        ),
        SchemaNode::Elements { nullable, elements } => translate_elements(
            schema,
            *nullable,
            elements,
            name_suggestion,
            globals,
            discriminator,
            resolving,
        ),
        SchemaNode::Values { nullable, values } => translate_values(
            schema,
            *nullable,
            values,
            name_suggestion,
            globals,
            discriminator,
            resolving,
        ),
        SchemaNode::Properties {
            metadata,
            nullable,
            properties,
            optional_properties,
        } => translate_properties(
            schema,
            metadata,
            *nullable,
            properties,
            optional_properties,
            name_suggestion,
            globals,
            discriminator,
            resolving,
        ),
        SchemaNode::Discriminator {
            metadata,
            nullable,
            discriminator: tag_field,
            mapping,
        } => translate_union(
            schema,
            metadata,
            *nullable,
            tag_field,
            mapping,
            name_suggestion,
            globals,
            discriminator,
            resolving,
        ),
    }
}

/// A translation in which every name is declared once: of declarations
/// that are the same, the first stays; two different declarations under one
/// name are a failure.
pub open spec fn unique(r: Translation) -> Translation {
    match r {
        Err(e) => Err(e),
        Ok((t, decls)) => match crate::elm::merge::merged(Seq::empty(), decls) {
            Err(e) => Err(e),
            Ok(kept) => Ok((t, kept)),
        },
    }
}

/// The type that a schema node stands for and the declarations that the type
/// needs, each name declared once.
pub open spec fn translation(
    schema: SchemaNode,
    suggestion: Option<Seq<char>>,
    globals: Entries<SchemaNode>,
    discriminator: Option<(Seq<char>, Seq<char>)>,
) -> Translation {
    unique(translate(schema, suggestion, globals, discriminator, none_in_progress(globals.len())))
}

/// Keeping each name once keeps what holds of every declaration, and keeps
/// every name declared.
pub proof fn lemma_unique(r: Translation)
    requires
        crate::elm::invariants::flat_outcome(r),
        crate::elm::closure::closed_outcome(r),
        crate::elm::invariants::tagged_outcome(r),
    ensures
        crate::elm::invariants::flat_outcome(unique(r)),
        crate::elm::closure::closed_outcome(unique(r)),
        crate::elm::invariants::tagged_outcome(unique(r)),
        unique(r) is Ok ==> crate::elm::merge::distinct_names(unique(r)->Ok_0.1),
{
    if unique(r) is Ok {
        let (t, raw) = r->Ok_0;
        let kept = unique(r)->Ok_0.1;
        crate::elm::merge::lemma_merged(Seq::empty(), raw);
        assert forall|i: int| 0 <= i < kept.len() implies {
            &&& (#[trigger] kept[i]).is_flat()
            &&& crate::elm::invariants::tag_on_record(kept[i])
            &&& kept[i].is_closed_in(raw)
        } by {
            assert(raw.contains(kept[i]));
            let k = choose|k: int| 0 <= k < raw.len() && raw[k] == kept[i];
            assert(raw[k].is_flat());
            assert(crate::elm::invariants::tag_on_record(raw[k]));
            assert(raw[k].is_closed_in(raw));
        }
        assert(crate::elm::closure::covers(kept, raw));
        crate::elm::closure::lemma_type_closed_in_more(t, kept, raw);
        crate::elm::closure::lemma_closed_in_more(kept, kept, raw);
    }
}

impl Type {
    /// Translates a schema node to its type and to the declarations that the
    /// type refers to, in the order in which they were found, each name once.
    ///
    /// `name_suggestion` names the node where it needs a name and gives none;
    /// `globals` are the definitions that every schema may refer to;
    /// `discriminator` is the tag field and tag value where the node is a
    /// member of a union.
    ///
    /// Where two declarations of one name are found, they must be the same,
    /// and one of them stays.
    pub fn from_schema(
        schema: &SchemaNode,
        name_suggestion: Option<String>,
        globals: &SortedMap<SchemaNode>,
        discriminator: Option<(String, String)>,
    ) -> (r: Result<(Type, Vec<Decl>), Error>)
        ensures
            translation_matches(
                r,
                translation(
                    *schema,
                    optional_text(name_suggestion),
                    globals@,
                    pair_model(discriminator),
                ),
            ),
            match r {
                Ok((t, decls)) => {
                    &&& crate::elm::merge::distinct_names(decl_models(decls@))
                    &&& t@.is_flat()
                    &&& all_flat(decl_models(decls@))
                    &&& t@.is_closed_in(decl_models(decls@))
                    &&& crate::elm::closure::closed_within(
                        decl_models(decls@),
                        decl_models(decls@),
                    )
                    &&& crate::elm::invariants::tags_on_records(decl_models(decls@))
                },
                Err(_) => true,
            },
    {
        proof {
            let raw = translate(
                *schema,
                optional_text(name_suggestion),
                globals@,
                pair_model(discriminator),
                none_in_progress(globals@.len()),
            );
            crate::elm::invariants::lemma_translation_tags_records(
                *schema,
                optional_text(name_suggestion),
                globals@,
                pair_model(discriminator),
                none_in_progress(globals@.len()),
            );
            crate::elm::invariants::lemma_translation_is_flat(
                *schema,
                optional_text(name_suggestion),
                globals@,
                pair_model(discriminator),
                none_in_progress(globals@.len()),
            );
            crate::elm::closure::lemma_translation_is_closed(
                *schema,
                optional_text(name_suggestion),
                globals@,
                pair_model(discriminator),
                none_in_progress(globals@.len()),
            );
            lemma_unique(raw);
        }
        let resolving = no_flags(globals.len());
        match translate_node(schema, name_suggestion, globals, discriminator, &resolving) {
            Err(e) => Err(e),
            Ok((t, found)) => {
                let mut kept: Vec<Decl> = Vec::new();
                proof {
                    assert(decl_models(kept@) =~= Seq::empty());
                }
                match crate::elm::merge::merge_decls(&mut kept, found) {
                    Err(e) => Err(e),
                    Ok(_) => Ok((t, kept)),
                }
            },
        }
    }
}

impl Type {
    /// `inner`, made to allow for absence.
    pub fn maybe(inner: Type) -> (t: Type)
        ensures
            t@ == maybe(inner@),
    {
        match inner {
            Type::Maybe(_) => inner,
            _ => Type::Maybe(Box::new(inner)),
        }
    }
}

impl Decl {
    /// The name under which the declaration is known.
    pub fn name(&self) -> (name: &InflectedString)
        ensures
            name@ == self@.name(),
    {
        match self {
            Decl::CustomTypeEnum { name, .. } => name,
            Decl::TypeAlias { name, .. } => name,
        }
    }

    /// Attaches the tag field `name` and the tag value `value` to an alias of
    /// a record. Any other declaration is left as it is and refused.
    pub fn add_discriminator(&mut self, name: String, value: String) -> (r: Result<(), Error>)
        ensures
            match r {
                Ok(_) => with_discriminator(old(self)@, name@, value@) == Ok::<
                    DeclModel,
                    ErrorModel,
                >(final(self)@),
                Err(e) => with_discriminator(old(self)@, name@, value@) == Err::<
                    DeclModel,
                    ErrorModel,
                >(e@) && final(self)@ == old(self)@,
            },
    {
        match self {
            Decl::CustomTypeEnum { .. } => Err(
                Error::new(
                    ErrorKind::DiscriminatorTargetInvalid,
                    String::from_str("cannot add a discriminator to a custom type"),
                ),
            ),
            Decl::TypeAlias { type_, discriminator, .. } => {
                match type_ {
                    Type::Record(_) => {
                        *discriminator = Some((name, value));
                        Ok(())
                    },
                    _ => Err(
                        Error::new(
                            ErrorKind::DiscriminatorTargetInvalid,
                            String::from_str(
                                "cannot add a discriminator to an alias of a type that is not a record",
                            ),
                        ),
                    ),
                }
            },
        }
    }
}

} // verus!
