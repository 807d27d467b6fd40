//! What holds of every translation, whatever the schema.

use crate::elm::model::{all_flat, decl_models, Decl, DeclModel, RecordPresence, Type, TypeModel};
use crate::elm::translate::{
    apply_nullable, attach_all, constructor_prefix, declared_name, declares, elements_context,
    values_context,
    enum_cases, field_type, finish, gather, inherited_name, lemma_member_items,
    lemma_translate_container, lemma_translate_members, lemma_translate_plain,
    lemma_translate_ref, maybe, member_items, pointee_translation, ref_context,
    ref_translation, scalar_type, suffixed, translate, translation, translation_matches,
    union_cases,
    with_fields, Translation,
};
use crate::error::{wrapped_result, Error, ErrorKind};
use crate::node::{
    idle, in_progress, lemma_mark_idle, mark, metadata_text, none_in_progress, SchemaNode,
};
use crate::sorted_map::{
    index_of, inserted, lemma_index_of, lemma_inserted_entries, Entries, SortedMap,
};
use vstd::prelude::*;

verus! {

/// Every reference that a translation gives as its type is declared among
/// the declarations that come with it.
pub proof fn lemma_reference_is_declared(
    schema: SchemaNode,
    suggestion: Option<Seq<char>>,
    globals: Entries<SchemaNode>,
    discriminator: Option<(Seq<char>, Seq<char>)>,
    resolving: Seq<bool>,
)
    ensures
        match translate(schema, suggestion, globals, discriminator, resolving) {
            Ok((TypeModel::Ref(name), decls)) => declares(decls, name),
            _ => true,
        },
{
    crate::elm::closure::lemma_translation_is_closed(
        schema,
        suggestion,
        globals,
        discriminator,
        resolving,
    );
}

/// Whether two outcomes of a translation hold the same type and the same
/// declarations, or the same failure.
pub open spec fn same_outcome(
    first: Result<(Type, Vec<Decl>), Error>,
    second: Result<(Type, Vec<Decl>), Error>,
) -> bool {
    match (first, second) {
        (Ok((t1, d1)), Ok((t2, d2))) => t1@ == t2@ && decl_models(d1@) == decl_models(d2@),
        (Err(e1), Err(e2)) => e1@ == e2@,
        _ => false,
    }
}

/// Translating the same node twice, with the same suggestion, definitions
/// and tag, gives structurally equal types and declarations, or the same
/// failure.
pub proof fn lemma_translation_repeats(
    first: Result<(Type, Vec<Decl>), Error>,
    second: Result<(Type, Vec<Decl>), Error>,
    schema: SchemaNode,
    suggestion: Option<Seq<char>>,
    globals: Entries<SchemaNode>,
    discriminator: Option<(Seq<char>, Seq<char>)>,
)
    requires
        translation_matches(first, translation(schema, suggestion, globals, discriminator)),
        translation_matches(second, translation(schema, suggestion, globals, discriminator)),
    ensures
        same_outcome(first, second),
{
}

/// The metadata of a node that becomes a named declaration.
pub open spec fn naming_metadata(schema: SchemaNode) -> Entries<Option<String>> {
    match schema {
        SchemaNode::Enum { metadata, .. } => metadata@,
        SchemaNode::Properties { metadata, .. } => metadata@,
        SchemaNode::Discriminator { metadata, .. } => metadata@,
        _ => Seq::empty(),
    }
}

/// An enumeration, an object or a union that has no name in its metadata and
/// is given no suggestion fails for want of a name. No name is made up.
pub proof fn lemma_name_is_required(
    schema: SchemaNode,
    globals: Entries<SchemaNode>,
    discriminator: Option<(Seq<char>, Seq<char>)>,
    resolving: Seq<bool>,
)
    requires
        schema is Enum || schema is Properties || schema is Discriminator,
        metadata_text(naming_metadata(schema), "name"@) is None,
    ensures
        translate(schema, None, globals, discriminator, resolving) is Err,
        translate(schema, None, globals, discriminator, resolving)->Err_0.kind
            == ErrorKind::NameRequired,
        translate(schema, None, globals, discriminator, resolving)->Err_0.context.len() == 0,
        translation(schema, None, globals, discriminator) is Err,
        translation(schema, None, globals, discriminator)->Err_0.kind == ErrorKind::NameRequired,
{
    lemma_translate_plain(schema, None, globals, discriminator, none_in_progress(globals.len()));
    lemma_translate_members(
        schema,
        None,
        globals,
        discriminator,
        none_in_progress(globals.len()),
    );
    lemma_translate_plain(schema, None, globals, discriminator, resolving);
    lemma_translate_members(schema, None, globals, discriminator, resolving);
}

/// A reference to a name that is defined beside it stands for that
/// definition, whatever the global definitions hold under the same name.
pub proof fn lemma_local_definition_wins(
    schema: SchemaNode,
    suggestion: Option<Seq<char>>,
    globals: Entries<SchemaNode>,
    other_globals: Entries<SchemaNode>,
    discriminator: Option<(Seq<char>, Seq<char>)>,
    resolving: Seq<bool>,
)
    requires
        schema is Ref,
        index_of(schema->definitions@, schema->ref_@) < schema->definitions@.len(),
    ensures
        translate(schema, suggestion, globals, discriminator, resolving) == ref_translation(
            wrapped_result(
                translate(
                    schema->definitions@[index_of(schema->definitions@, schema->ref_@)].1,
                    inherited_name(suggestion, schema->ref_@),
                    globals,
                    discriminator,
                    resolving,
                ),
                ref_context(schema->ref_@),
            ),
            discriminator,
            schema->Ref_nullable,
        ),
        pointee_translation(
            schema->definitions@,
            schema->ref_@,
            suggestion,
            globals,
            discriminator,
            resolving,
        ) == wrapped_result(
            translate(
                schema->definitions@[index_of(schema->definitions@, schema->ref_@)].1,
                inherited_name(suggestion, schema->ref_@),
                globals,
                discriminator,
                resolving,
            ),
            ref_context(schema->ref_@),
        ),
{
    lemma_translate_ref(schema, suggestion, globals, discriminator, resolving);
    lemma_index_of(schema->definitions@, schema->ref_@);
}

/// What the local definition gives, with each name kept once, is what a
/// reference to it gives as a whole, whatever the global definitions hold
/// under the same name.
pub proof fn lemma_local_definition_is_translated(
    schema: SchemaNode,
    suggestion: Option<Seq<char>>,
    globals: Entries<SchemaNode>,
    discriminator: Option<(Seq<char>, Seq<char>)>,
)
    requires
        schema is Ref,
        index_of(schema->definitions@, schema->ref_@) < schema->definitions@.len(),
    ensures
        translation(schema, suggestion, globals, discriminator) == crate::elm::translate::unique(
            ref_translation(
                wrapped_result(
                    translate(
                        schema->definitions@[index_of(schema->definitions@, schema->ref_@)].1,
                        inherited_name(suggestion, schema->ref_@),
                        globals,
                        discriminator,
                        none_in_progress(globals.len()),
                    ),
                    ref_context(schema->ref_@),
                ),
                discriminator,
                schema->Ref_nullable,
            ),
        ),
{
    lemma_local_definition_wins(
        schema,
        suggestion,
        globals,
        globals,
        discriminator,
        none_in_progress(globals.len()),
    );
}


/// Whether the type and the declarations of a translation are flat. A
/// failure holds neither.
pub open spec fn flat_outcome(r: Translation) -> bool {
    match r {
        Ok((t, decls)) => t.is_flat() && all_flat(decls),
        Err(_) => true,
    }
}

/// Whether the type under every key is flat.
pub open spec fn flat_types(types: Seq<(Seq<char>, TypeModel)>) -> bool {
    forall|i: int| 0 <= i < types.len() ==> (#[trigger] types[i]).1.is_flat()
}

/// Whether the type of every field is flat.
pub open spec fn flat_fields(fields: Entries<(TypeModel, RecordPresence)>) -> bool {
    forall|i: int| 0 <= i < fields.len() ==> (#[trigger] fields[i]).1.0.is_flat()
}

/// Whether the payload of every case is flat.
pub open spec fn flat_cases(cases: Entries<Option<TypeModel>>) -> bool {
    forall|i: int|
        0 <= i < cases.len() ==> (match (#[trigger] cases[i]).1 {
            Some(t) => t.is_flat(),
            None => true,
        })
}

/// Allowing for absence keeps a type flat.
pub proof fn lemma_maybe_is_flat(t: TypeModel, nullable: bool)
    requires
        t.is_flat(),
    ensures
        maybe(t).is_flat(),
        apply_nullable(t, nullable).is_flat(),
{
}

/// Attaching a tag keeps declarations flat.
pub proof fn lemma_attach_all_flat(
    decls: Seq<DeclModel>,
    name: Seq<char>,
    tag: Seq<char>,
    value: Seq<char>,
)
    requires
        all_flat(decls),
        attach_all(decls, name, tag, value) is Ok,
    ensures
        all_flat(attach_all(decls, name, tag, value)->Ok_0),
    decreases decls.len(),
{
    if decls.len() > 0 {
        let front = decls.drop_last();
        assert forall|i: int| 0 <= i < front.len() implies (#[trigger] front[i]).is_flat() by {
            assert(front[i] == decls[i]);
        }
        lemma_attach_all_flat(front, name, tag, value);
        let attached = attach_all(decls, name, tag, value)->Ok_0;
        let before = attach_all(front, name, tag, value)->Ok_0;
        assert(decls.last().is_flat());
        assert forall|i: int| 0 <= i < attached.len() implies (#[trigger] attached[i]).is_flat() by {
            if i < before.len() {
                assert(attached[i] == before[i]);
            }
        }
    }
}

/// The last step of a translation keeps its type and declarations flat.
pub proof fn lemma_finish_flat(
    base: TypeModel,
    decls: Seq<DeclModel>,
    discriminator: Option<(Seq<char>, Seq<char>)>,
    nullable: bool,
)
    requires
        base.is_flat(),
        all_flat(decls),
    ensures
        flat_outcome(finish(base, decls, discriminator, nullable)),
{
    lemma_maybe_is_flat(base, nullable);
    match discriminator {
        None => {},
        Some((tag, value)) => match base {
            TypeModel::Unit => {
                lemma_maybe_is_flat(
                    TypeModel::Ref(crate::elm::translate::member_name(tag, value)),
                    nullable,
                );
                let alias = DeclModel::TypeAlias {
                    name: crate::elm::translate::member_name(tag, value),
                    type_: TypeModel::Record(Seq::empty()),
                    discriminator: Some((tag, value)),
                };
                assert(alias.is_flat());
                let all = decls.push(alias);
                assert forall|i: int| 0 <= i < all.len() implies (#[trigger] all[i]).is_flat() by {
                    if i < decls.len() {
                        assert(all[i] == decls[i]);
                    }
                }
            },
            TypeModel::Ref(name) => {
                if attach_all(decls, name, tag, value) is Ok {
                    lemma_attach_all_flat(decls, name, tag, value);
                }
            },
            _ => {},
        },
    }
}

/// Members whose outcomes are flat give flat types and flat declarations
/// when they are taken together.
pub proof fn lemma_gather_flat(items: Seq<(Seq<char>, Translation)>)
    requires
        forall|i: int| 0 <= i < items.len() ==> flat_outcome((#[trigger] items[i]).1),
    ensures
        match gather(items) {
            Ok((types, decls)) => flat_types(types) && all_flat(decls),
            Err(_) => true,
        },
    decreases items.len(),
{
    if items.len() > 0 {
        let front = items.drop_last();
        assert forall|i: int| 0 <= i < front.len() implies flat_outcome(
            (#[trigger] front[i]).1,
        ) by {
            assert(front[i] == items[i]);
        }
        lemma_gather_flat(front);
        match gather(front) {
            Err(_) => {},
            Ok((types, decls)) => match items.last().1 {
                Err(_) => {},
                Ok((t, found)) => {
                    assert(flat_outcome(items[items.len() - 1].1));
                    let all_types = types.push((items.last().0, t));
                    assert forall|i: int| 0 <= i < all_types.len() implies (
                    #[trigger] all_types[i]).1.is_flat() by {
                        if i < types.len() {
                            assert(all_types[i] == types[i]);
                        }
                    }
                    let all = decls + found;
                    assert forall|i: int| 0 <= i < all.len() implies (#[trigger] all[i]).is_flat() by {
                        if i < decls.len() {
                            assert(all[i] == decls[i]);
                        } else {
                            assert(all[i] == found[i - decls.len()]);
                        }
                    }
                },
            },
        }
    }
}

/// Fields made of flat types are flat.
pub proof fn lemma_with_fields_flat(
    acc: Entries<(TypeModel, RecordPresence)>,
    types: Seq<(Seq<char>, TypeModel)>,
    presence: RecordPresence,
)
    requires
        flat_fields(acc),
        flat_types(types),
    ensures
        flat_fields(with_fields(acc, types, presence)),
    decreases types.len(),
{
    if types.len() > 0 {
        let front = types.drop_last();
        assert forall|i: int| 0 <= i < front.len() implies (#[trigger] front[i]).1.is_flat() by {
            assert(front[i] == types[i]);
        }
        lemma_with_fields_flat(acc, front, presence);
        let before = with_fields(acc, front, presence);
        let stored = (field_type(types.last().1, presence), presence);
        assert(types[types.len() - 1].1.is_flat());
        lemma_maybe_is_flat(types.last().1, true);
        lemma_inserted_entries(before, types.last().0, stored);
        let after = inserted(before, types.last().0, stored);
        assert forall|i: int| 0 <= i < after.len() implies (#[trigger] after[i]).1.0.is_flat() by {
            if after[i] != (types.last().0, stored) {
                let j = choose|j: int| 0 <= j < before.len() && before[j] == after[i];
                assert(before[j].1.0.is_flat());
            }
        }
    }
}

/// The cases of an enumeration have no payload, so they are flat.
pub proof fn lemma_enum_cases_flat(values: Seq<Seq<char>>)
    ensures
        flat_cases(enum_cases(values)),
    decreases values.len(),
{
    if values.len() > 0 {
        lemma_enum_cases_flat(values.drop_last());
        let before = enum_cases(values.drop_last());
        lemma_inserted_entries(before, values.last(), None);
        let after = inserted(before, values.last(), None::<TypeModel>);
        assert forall|i: int| 0 <= i < after.len() implies (match (#[trigger] after[i]).1 {
            Some(t) => t.is_flat(),
            None => true,
        }) by {
            if after[i] != (values.last(), None::<TypeModel>) {
                let j = choose|j: int| 0 <= j < before.len() && before[j] == after[i];
                assert(before[j] == after[i]);
            }
        }
    }
}

/// The cases of a union whose members are flat are flat.
pub proof fn lemma_union_cases_flat(types: Seq<(Seq<char>, TypeModel)>)
    requires
        flat_types(types),
    ensures
        flat_cases(union_cases(types)),
    decreases types.len(),
{
    if types.len() > 0 {
        let front = types.drop_last();
        assert forall|i: int| 0 <= i < front.len() implies (#[trigger] front[i]).1.is_flat() by {
            assert(front[i] == types[i]);
        }
        lemma_union_cases_flat(front);
        let before = union_cases(front);
        assert(types[types.len() - 1].1.is_flat());
        lemma_inserted_entries(before, types.last().0, Some(types.last().1));
        let after = inserted(before, types.last().0, Some(types.last().1));
        assert forall|i: int| 0 <= i < after.len() implies (match (#[trigger] after[i]).1 {
            Some(t) => t.is_flat(),
            None => true,
        }) by {
            if after[i] != (types.last().0, Some(types.last().1)) {
                let j = choose|j: int| 0 <= j < before.len() && before[j] == after[i];
                assert(before[j] == after[i]);
            }
        }
    }
}

/// One declaration after others that are flat: all are flat.
pub proof fn lemma_push_flat(decls: Seq<DeclModel>, decl: DeclModel)
    requires
        all_flat(decls),
        decl.is_flat(),
    ensures
        all_flat(decls.push(decl)),
{
    let all = decls.push(decl);
    assert forall|i: int| 0 <= i < all.len() implies (#[trigger] all[i]).is_flat() by {
        if i < decls.len() {
            assert(all[i] == decls[i]);
        }
    }
}

/// In whatever a schema node translates to, no `Maybe` directly holds
/// another `Maybe`: not in the type and not in any declaration.
pub proof fn lemma_translation_is_flat(
    schema: SchemaNode,
    suggestion: Option<Seq<char>>,
    globals: Entries<SchemaNode>,
    discriminator: Option<(Seq<char>, Seq<char>)>,
    resolving: Seq<bool>,
)
    ensures
        flat_outcome(translate(schema, suggestion, globals, discriminator, resolving)),
    decreases idle(resolving, globals.len()), schema, 1nat,
{
    lemma_translate_plain(schema, suggestion, globals, discriminator, resolving);
    lemma_translate_container(schema, suggestion, globals, discriminator, resolving);
    lemma_translate_members(schema, suggestion, globals, discriminator, resolving);
    match schema {
        SchemaNode::Empty => {
            lemma_finish_flat(TypeModel::Unit, Seq::empty(), discriminator, false);
        },
        SchemaNode::Type { nullable, type_ } => {
            lemma_finish_flat(scalar_type(type_), Seq::empty(), discriminator, nullable);
        },
        SchemaNode::Enum { metadata, nullable, enum_ } => {
            match declared_name(metadata@, suggestion) {
                None => {},
                Some(name) => {
                    let decl = DeclModel::CustomTypeEnum {
                        name,
                        discriminator: None,
                        constructor_prefix: constructor_prefix(metadata@),
                        cases: enum_cases(enum_@.map_values(|v: String| v@)),
                    };
                    lemma_enum_cases_flat(enum_@.map_values(|v: String| v@));
                    assert(decl.is_flat());
                    lemma_push_flat(Seq::empty(), decl);
                    assert(Seq::<DeclModel>::empty().push(decl) =~= seq![decl]);
                    lemma_finish_flat(TypeModel::Ref(name), seq![decl], discriminator, nullable);
                },
            }
        },
        SchemaNode::Elements { nullable, elements } => {
            lemma_translation_is_flat(
                *elements,
                suffixed(suggestion, "Elements"@),
                globals,
                discriminator,
                resolving,
            );
            match wrapped_result(
                translate(
                    *elements,
                    suffixed(suggestion, "Elements"@),
                    globals,
                    discriminator,
                    resolving,
                ),
                elements_context(),
            ) {
                Err(_) => {},
                Ok((t, decls)) => {
                    lemma_finish_flat(
                        TypeModel::List(Box::new(t)),
                        decls,
                        discriminator,
                        nullable,
                    );
                },
            }
        },
        SchemaNode::Values { nullable, values } => {
            lemma_translation_is_flat(
                *values,
                suffixed(suggestion, "Values"@),
                globals,
                discriminator,
                resolving,
            );
            match wrapped_result(
                translate(
                    *values,
                    suffixed(suggestion, "Values"@),
                    globals,
                    discriminator,
                    resolving,
                ),
                values_context(),
            ) {
                Err(_) => {},
                Ok((t, decls)) => {
                    lemma_finish_flat(
                        TypeModel::DictWithStringKeys(Box::new(t)),
                        decls,
                        discriminator,
                        nullable,
                    );
                },
            }
        },
        SchemaNode::Ref { definitions, nullable, ref_ } => {
            lemma_translate_ref(schema, suggestion, globals, discriminator, resolving);
            let local = index_of(definitions@, ref_@);
            let global = index_of(globals, ref_@);
            if 0 <= local < definitions@.len() {
                definitions.lemma_value_decreases(local);
                lemma_translation_is_flat(
                    definitions@[local].1,
                    inherited_name(suggestion, ref_@),
                    globals,
                    discriminator,
                    resolving,
                );
            } else if 0 <= global < globals.len() && !in_progress(resolving, global) {
                lemma_mark_idle(resolving, globals.len(), global, globals.len());
                lemma_translation_is_flat(
                    globals[global].1,
                    inherited_name(suggestion, ref_@),
                    globals,
                    discriminator,
                    mark(resolving, globals.len(), global),
                );
            }
            match pointee_translation(
                definitions@,
                ref_@,
                suggestion,
                globals,
                discriminator,
                resolving,
            ) {
                Err(_) => {},
                Ok((t, decls)) => {
                    lemma_finish_flat(t, decls, discriminator, nullable);
                },
            }
        },
        SchemaNode::Properties { metadata, nullable, properties, optional_properties } => {
            lemma_members_are_flat(properties, globals, None, resolving);
            lemma_members_are_flat(optional_properties, globals, None, resolving);
            match declared_name(metadata@, suggestion) {
                None => {},
                Some(name) => match gather(member_items(properties, globals, None, resolving)) {
                    Err(_) => {},
                    Ok((required_types, required_decls)) => match gather(
                        member_items(optional_properties, globals, None, resolving),
                    ) {
                        Err(_) => {},
                        Ok((optional_types, optional_decls)) => {
                            lemma_with_fields_flat(
                                Seq::empty(),
                                required_types,
                                RecordPresence::Required,
                            );
                            lemma_with_fields_flat(
                                with_fields(Seq::empty(), required_types, RecordPresence::Required),
                                optional_types,
                                RecordPresence::Optional,
                            );
                            let alias = DeclModel::TypeAlias {
                                name,
                                type_: TypeModel::Record(
                                    with_fields(
                                        with_fields(
                                            Seq::empty(),
                                            required_types,
                                            RecordPresence::Required,
                                        ),
                                        optional_types,
                                        RecordPresence::Optional,
                                    ),
                                ),
                                discriminator: None,
                            };
                            assert(alias.is_flat());
                            let found = required_decls + optional_decls;
                            assert forall|i: int| 0 <= i < found.len() implies (
                            #[trigger] found[i]).is_flat() by {
                                if i < required_decls.len() {
                                    assert(found[i] == required_decls[i]);
                                } else {
                                    assert(found[i] == optional_decls[i - required_decls.len()]);
                                }
                            }
                            lemma_push_flat(found, alias);
                            lemma_finish_flat(
                                TypeModel::Ref(name),
                                found.push(alias),
                                discriminator,
                                nullable,
                            );
                        },
                    },
                },
            }
        },
        SchemaNode::Discriminator { metadata, nullable, discriminator: tag_field, mapping } => {
            lemma_members_are_flat(mapping, globals, Some(tag_field@), resolving);
            match declared_name(metadata@, suggestion) {
                None => {},
                Some(name) => match gather(
                    member_items(mapping, globals, Some(tag_field@), resolving),
                ) {
                    Err(_) => {},
                    Ok((types, found)) => {
                        lemma_union_cases_flat(types);
                        let decl = DeclModel::CustomTypeEnum {
                            name,
                            discriminator: Some(tag_field@),
                            constructor_prefix: constructor_prefix(metadata@),
                            cases: union_cases(types),
                        };
                        assert(decl.is_flat());
                        lemma_push_flat(found, decl);
                        lemma_finish_flat(
                            TypeModel::Ref(name),
                            found.push(decl),
                            discriminator,
                            nullable,
                        );
                    },
                },
            }
        },
    }
}

/// The members of a node, taken together, are flat.
pub proof fn lemma_members_are_flat(
    members: SortedMap<SchemaNode>,
    globals: Entries<SchemaNode>,
    tag_field: Option<Seq<char>>,
    resolving: Seq<bool>,
)
    ensures
        match gather(member_items(members, globals, tag_field, resolving)) {
            Ok((types, decls)) => flat_types(types) && all_flat(decls),
            Err(_) => true,
        },
    decreases idle(resolving, globals.len()), members, 0nat,
{
    let items = member_items(members, globals, tag_field, resolving);
    lemma_member_items(members, globals, tag_field, resolving);
    assert forall|i: int| 0 <= i < items.len() implies flat_outcome((#[trigger] items[i]).1) by {
        members.lemma_value_decreases(i);
        lemma_translation_is_flat(
            members@[i].1,
            Some(members@[i].0),
            globals,
            crate::elm::translate::member_discriminator(tag_field, members@[i].0),
            resolving,
        );
    }
    lemma_gather_flat(items);
}

/// A declaration carries a tag only if it is an alias of a record.
pub open spec fn tag_on_record(d: DeclModel) -> bool {
    match d {
        DeclModel::TypeAlias { type_, discriminator, .. } => discriminator is Some ==> type_
            is Record,
        DeclModel::CustomTypeEnum { .. } => true,
    }
}

/// Whether each of the declarations carries a tag only if it is an alias of
/// a record.
pub open spec fn tags_on_records(decls: Seq<DeclModel>) -> bool {
    forall|i: int| 0 <= i < decls.len() ==> tag_on_record(#[trigger] decls[i])
}

/// Whether the declarations of a translation carry tags only on aliases of
/// records. A failure holds none.
pub open spec fn tagged_outcome(r: Translation) -> bool {
    match r {
        Ok((_, decls)) => tags_on_records(decls),
        Err(_) => true,
    }
}

/// Attaching a tag puts it on aliases of records only.
pub proof fn lemma_attach_all_tags(
    decls: Seq<DeclModel>,
    name: Seq<char>,
    tag: Seq<char>,
    value: Seq<char>,
)
    requires
        tags_on_records(decls),
        attach_all(decls, name, tag, value) is Ok,
    ensures
        tags_on_records(attach_all(decls, name, tag, value)->Ok_0),
    decreases decls.len(),
{
    if decls.len() > 0 {
        let front = decls.drop_last();
        assert forall|i: int| 0 <= i < front.len() implies tag_on_record(#[trigger] front[i]) by {
            assert(front[i] == decls[i]);
        }
        lemma_attach_all_tags(front, name, tag, value);
        let attached = attach_all(decls, name, tag, value)->Ok_0;
        let before = attach_all(front, name, tag, value)->Ok_0;
        assert(tag_on_record(decls[decls.len() - 1]));
        assert forall|i: int| 0 <= i < attached.len() implies tag_on_record(
            #[trigger] attached[i],
        ) by {
            if i < before.len() {
                assert(attached[i] == before[i]);
            }
        }
    }
}

/// The last step of a translation puts tags on aliases of records only.
pub proof fn lemma_finish_tags(
    base: TypeModel,
    decls: Seq<DeclModel>,
    discriminator: Option<(Seq<char>, Seq<char>)>,
    nullable: bool,
)
    requires
        tags_on_records(decls),
    ensures
        tagged_outcome(finish(base, decls, discriminator, nullable)),
{
    match discriminator {
        None => {},
        Some((tag, value)) => match base {
            TypeModel::Unit => {
                let alias = DeclModel::TypeAlias {
                    name: crate::elm::translate::member_name(tag, value),
                    type_: TypeModel::Record(Seq::empty()),
                    discriminator: Some((tag, value)),
                };
                let all = decls.push(alias);
                assert forall|i: int| 0 <= i < all.len() implies tag_on_record(#[trigger] all[i]) by {
                    if i < decls.len() {
                        assert(all[i] == decls[i]);
                    }
                }
            },
            TypeModel::Ref(name) => {
                if attach_all(decls, name, tag, value) is Ok {
                    lemma_attach_all_tags(decls, name, tag, value);
                }
            },
            _ => {},
        },
    }
}

/// Members whose declarations carry tags on records only do so when they
/// are taken together.
pub proof fn lemma_gather_tags(items: Seq<(Seq<char>, Translation)>)
    requires
        forall|i: int| 0 <= i < items.len() ==> tagged_outcome((#[trigger] items[i]).1),
    ensures
        match gather(items) {
            Ok((_, decls)) => tags_on_records(decls),
            Err(_) => true,
        },
    decreases items.len(),
{
    if items.len() > 0 {
        let front = items.drop_last();
        assert forall|i: int| 0 <= i < front.len() implies tagged_outcome(
            (#[trigger] front[i]).1,
        ) by {
            assert(front[i] == items[i]);
        }
        lemma_gather_tags(front);
        match gather(front) {
            Err(_) => {},
            Ok((types, decls)) => match items.last().1 {
                Err(_) => {},
                Ok((t, found)) => {
                    assert(tagged_outcome(items[items.len() - 1].1));
                    let all = decls + found;
                    assert forall|i: int| 0 <= i < all.len() implies tag_on_record(
                        #[trigger] all[i],
                    ) by {
                        if i < decls.len() {
                            assert(all[i] == decls[i]);
                        } else {
                            assert(all[i] == found[i - decls.len()]);
                        }
                    }
                },
            },
        }
    }
}

/// One declaration after others: tags are on records only if they are so in
/// each.
pub proof fn lemma_push_tags(decls: Seq<DeclModel>, decl: DeclModel)
    requires
        tags_on_records(decls),
        tag_on_record(decl),
    ensures
        tags_on_records(decls.push(decl)),
{
    let all = decls.push(decl);
    assert forall|i: int| 0 <= i < all.len() implies tag_on_record(#[trigger] all[i]) by {
        if i < decls.len() {
            assert(all[i] == decls[i]);
        }
    }
}

/// Among the declarations of a translation, only aliases of records carry
/// the tag of a union.
pub proof fn lemma_translation_tags_records(
    schema: SchemaNode,
    suggestion: Option<Seq<char>>,
    globals: Entries<SchemaNode>,
    discriminator: Option<(Seq<char>, Seq<char>)>,
    resolving: Seq<bool>,
)
    ensures
        tagged_outcome(translate(schema, suggestion, globals, discriminator, resolving)),
    decreases idle(resolving, globals.len()), schema, 1nat,
{
    lemma_translate_plain(schema, suggestion, globals, discriminator, resolving);
    lemma_translate_container(schema, suggestion, globals, discriminator, resolving);
    lemma_translate_members(schema, suggestion, globals, discriminator, resolving);
    match schema {
        SchemaNode::Empty => {
            lemma_finish_tags(TypeModel::Unit, Seq::empty(), discriminator, false);
        },
        SchemaNode::Type { nullable, type_ } => {
            lemma_finish_tags(scalar_type(type_), Seq::empty(), discriminator, nullable);
        },
        SchemaNode::Enum { metadata, nullable, enum_ } => {
            match declared_name(metadata@, suggestion) {
                None => {},
                Some(name) => {
                    let decl = DeclModel::CustomTypeEnum {
                        name,
                        discriminator: None,
                        constructor_prefix: constructor_prefix(metadata@),
                        cases: enum_cases(enum_@.map_values(|v: String| v@)),
                    };
                    lemma_push_tags(Seq::empty(), decl);
                    assert(Seq::<DeclModel>::empty().push(decl) =~= seq![decl]);
                    lemma_finish_tags(TypeModel::Ref(name), seq![decl], discriminator, nullable);
                },
            }
        },
        SchemaNode::Elements { nullable, elements } => {
            lemma_translation_tags_records(
                *elements,
                suffixed(suggestion, "Elements"@),
                globals,
                discriminator,
                resolving,
            );
            match wrapped_result(
                translate(
                    *elements,
                    suffixed(suggestion, "Elements"@),
                    globals,
                    discriminator,
                    resolving,
                ),
                elements_context(),
            ) {
                Err(_) => {},
                Ok((t, decls)) => {
                    lemma_finish_tags(
                        TypeModel::List(Box::new(t)),
                        decls,
                        discriminator,
                        nullable,
                    );
                },
            }
        },
        SchemaNode::Values { nullable, values } => {
            lemma_translation_tags_records(
                *values,
                suffixed(suggestion, "Values"@),
                globals,
                discriminator,
                resolving,
            );
            match wrapped_result(
                translate(
                    *values,
                    suffixed(suggestion, "Values"@),
                    globals,
                    discriminator,
                    resolving,
                ),
                values_context(),
            ) {
                Err(_) => {},
                Ok((t, decls)) => {
                    lemma_finish_tags(
                        TypeModel::DictWithStringKeys(Box::new(t)),
                        decls,
                        discriminator,
                        nullable,
                    );
                },
            }
        },
        SchemaNode::Ref { definitions, nullable, ref_ } => {
            lemma_translate_ref(schema, suggestion, globals, discriminator, resolving);
            let local = index_of(definitions@, ref_@);
            let global = index_of(globals, ref_@);
            if 0 <= local < definitions@.len() {
                definitions.lemma_value_decreases(local);
                lemma_translation_tags_records(
                    definitions@[local].1,
                    inherited_name(suggestion, ref_@),
                    globals,
                    discriminator,
                    resolving,
                );
            } else if 0 <= global < globals.len() && !in_progress(resolving, global) {
                lemma_mark_idle(resolving, globals.len(), global, globals.len());
                lemma_translation_tags_records(
                    globals[global].1,
                    inherited_name(suggestion, ref_@),
                    globals,
                    discriminator,
                    mark(resolving, globals.len(), global),
                );
            }
            match pointee_translation(
                definitions@,
                ref_@,
                suggestion,
                globals,
                discriminator,
                resolving,
            ) {
                Err(_) => {},
                Ok((t, decls)) => {
                    lemma_finish_tags(t, decls, discriminator, nullable);
                },
            }
        },
        SchemaNode::Properties { metadata, nullable, properties, optional_properties } => {
            lemma_members_tag_records(properties, globals, None, resolving);
            lemma_members_tag_records(optional_properties, globals, None, resolving);
            match declared_name(metadata@, suggestion) {
                None => {},
                Some(name) => match gather(member_items(properties, globals, None, resolving)) {
                    Err(_) => {},
                    Ok((required_types, required_decls)) => match gather(
                        member_items(optional_properties, globals, None, resolving),
                    ) {
                        Err(_) => {},
                        Ok((optional_types, optional_decls)) => {
                            let alias = DeclModel::TypeAlias {
                                name,
                                type_: TypeModel::Record(
                                    with_fields(
                                        with_fields(
                                            Seq::empty(),
                                            required_types,
                                            RecordPresence::Required,
                                        ),
                                        optional_types,
                                        RecordPresence::Optional,
                                    ),
                                ),
                                discriminator: None,
                            };
                            let found = required_decls + optional_decls;
                            assert forall|i: int| 0 <= i < found.len() implies tag_on_record(
                                #[trigger] found[i],
                            ) by {
                                if i < required_decls.len() {
                                    assert(found[i] == required_decls[i]);
                                } else {
                                    assert(found[i] == optional_decls[i - required_decls.len()]);
                                }
                            }
                            lemma_push_tags(found, alias);
                            lemma_finish_tags(
                                TypeModel::Ref(name),
                                found.push(alias),
                                discriminator,
                                nullable,
                            );
                        },
                    },
                },
            }
        },
        SchemaNode::Discriminator { metadata, nullable, discriminator: tag_field, mapping } => {
            lemma_members_tag_records(mapping, globals, Some(tag_field@), resolving);
            match declared_name(metadata@, suggestion) {
                None => {},
                Some(name) => match gather(
                    member_items(mapping, globals, Some(tag_field@), resolving),
                ) {
                    Err(_) => {},
                    Ok((types, found)) => {
                        let decl = DeclModel::CustomTypeEnum {
                            name,
                            discriminator: Some(tag_field@),
                            constructor_prefix: constructor_prefix(metadata@),
                            cases: union_cases(types),
                        };
                        lemma_push_tags(found, decl);
                        lemma_finish_tags(
                            TypeModel::Ref(name),
                            found.push(decl),
                            discriminator,
                            nullable,
                        );
                    },
                },
            }
        },
    }
}

/// The members of a node, taken together, carry tags on records only.
pub proof fn lemma_members_tag_records(
    members: SortedMap<SchemaNode>,
    globals: Entries<SchemaNode>,
    tag_field: Option<Seq<char>>,
    resolving: Seq<bool>,
)
    ensures
        match gather(member_items(members, globals, tag_field, resolving)) {
            Ok((_, decls)) => tags_on_records(decls),
            Err(_) => true,
        },
    decreases idle(resolving, globals.len()), members, 0nat,
{
    let items = member_items(members, globals, tag_field, resolving);
    lemma_member_items(members, globals, tag_field, resolving);
    assert forall|i: int| 0 <= i < items.len() implies tagged_outcome((#[trigger] items[i]).1) by {
        members.lemma_value_decreases(i);
        lemma_translation_tags_records(
            members@[i].1,
            Some(members@[i].0),
            globals,
            crate::elm::translate::member_discriminator(tag_field, members@[i].0),
            resolving,
        );
    }
    lemma_gather_tags(items);
}

} // verus!
