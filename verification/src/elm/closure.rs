//! Every name that a translation refers to is declared by it.

use crate::elm::model::{DeclModel, RecordPresence, TypeModel};
use crate::elm::translate::{
    attach_all, constructor_prefix, declared_name, declares, elements_context, enum_cases, values_context,
    field_type, finish, gather, inherited_name, lemma_member_items, lemma_translate_container,
    lemma_translate_members, lemma_translate_plain, lemma_translate_ref, member_discriminator,
    member_items, member_name, pointee_translation, scalar_type, suffixed, translate,
    union_cases, with_fields, Translation,
};
use crate::error::wrapped_result;
use crate::node::{idle, in_progress, lemma_mark_idle, mark, SchemaNode};
use crate::sorted_map::{index_of, inserted, lemma_inserted_entries, Entries, SortedMap};
use vstd::prelude::*;

verus! {

impl TypeModel {
    /// Every name that the type refers to is the name of one of `decls`.
    pub open spec fn is_closed_in(self, decls: Seq<DeclModel>) -> bool
        decreases self,
    {
        match self {
            TypeModel::Ref(name) => declares(decls, name),
            TypeModel::Maybe(inner) => inner.is_closed_in(decls),
            TypeModel::DictWithStringKeys(inner) => inner.is_closed_in(decls),
            TypeModel::List(inner) => inner.is_closed_in(decls),
            TypeModel::Record(fields) => forall|i: int|
                0 <= i < fields.len() ==> (#[trigger] fields[i]).1.0.is_closed_in(decls),
            _ => true,
        }
    }
}

impl DeclModel {
    /// Every name that the declaration refers to is the name of one of
    /// `decls`.
    pub open spec fn is_closed_in(self, decls: Seq<DeclModel>) -> bool {
        match self {
            DeclModel::CustomTypeEnum { cases, .. } => closed_cases(cases, decls),
            DeclModel::TypeAlias { type_, .. } => type_.is_closed_in(decls),
        }
    }
}

/// Whether the payload of every case refers only to names of `decls`.
pub open spec fn closed_cases(cases: Entries<Option<TypeModel>>, decls: Seq<DeclModel>) -> bool {
    forall|i: int|
        0 <= i < cases.len() ==> (match (#[trigger] cases[i]).1 {
            Some(t) => t.is_closed_in(decls),
            None => true,
        })
}

/// Whether the type of every field refers only to names of `decls`.
pub open spec fn closed_fields(
    fields: Entries<(TypeModel, RecordPresence)>,
    decls: Seq<DeclModel>,
) -> bool {
    forall|i: int| 0 <= i < fields.len() ==> (#[trigger] fields[i]).1.0.is_closed_in(decls)
}

/// Whether the type under every key refers only to names of `decls`.
pub open spec fn closed_types(types: Seq<(Seq<char>, TypeModel)>, decls: Seq<DeclModel>) -> bool {
    forall|i: int| 0 <= i < types.len() ==> (#[trigger] types[i]).1.is_closed_in(decls)
}

/// Whether every one of `part` refers only to names of `decls`.
pub open spec fn closed_within(part: Seq<DeclModel>, decls: Seq<DeclModel>) -> bool {
    forall|i: int| 0 <= i < part.len() ==> (#[trigger] part[i]).is_closed_in(decls)
}

/// Whether every name of `fewer` is a name of `more`.
pub open spec fn covers(more: Seq<DeclModel>, fewer: Seq<DeclModel>) -> bool {
    forall|i: int| 0 <= i < fewer.len() ==> declares(more, (#[trigger] fewer[i]).name())
}

/// Whether the type of a translation and all its declarations refer only to
/// names that its declarations declare. A failure holds neither.
pub open spec fn closed_outcome(r: Translation) -> bool {
    match r {
        Ok((t, decls)) => t.is_closed_in(decls) && closed_within(decls, decls),
        Err(_) => true,
    }
}

/// A name declared among fewer declarations is declared among more.
pub proof fn lemma_declares_more(more: Seq<DeclModel>, fewer: Seq<DeclModel>, name: Seq<char>)
    requires
        covers(more, fewer),
        declares(fewer, name),
    ensures
        declares(more, name),
{
    let k = choose|k: int| 0 <= k < fewer.len() && (#[trigger] fewer[k]).name() == name;
    assert(declares(more, fewer[k].name()));
}

/// A type that is closed in some declarations is closed in all that declare
/// at least the same names.
pub proof fn lemma_type_closed_in_more(t: TypeModel, more: Seq<DeclModel>, fewer: Seq<DeclModel>)
    requires
        covers(more, fewer),
        t.is_closed_in(fewer),
    ensures
        t.is_closed_in(more),
    decreases t,
{
    match t {
        TypeModel::Ref(name) => {
            lemma_declares_more(more, fewer, name);
        },
        TypeModel::Maybe(inner) => {
            lemma_type_closed_in_more(*inner, more, fewer);
        },
        TypeModel::DictWithStringKeys(inner) => {
            lemma_type_closed_in_more(*inner, more, fewer);
        },
        TypeModel::List(inner) => {
            lemma_type_closed_in_more(*inner, more, fewer);
        },
        TypeModel::Record(fields) => {
            assert forall|i: int| 0 <= i < fields.len() implies (#[trigger] fields[i]).1.0.is_closed_in(
                more,
            ) by {
                lemma_type_closed_in_more(fields[i].1.0, more, fewer);
            }
        },
        _ => {},
    }
}

/// Declarations that are closed in some declarations are closed in all that
/// declare at least the same names.
pub proof fn lemma_closed_in_more(part: Seq<DeclModel>, more: Seq<DeclModel>, fewer: Seq<DeclModel>)
    requires
        covers(more, fewer),
        closed_within(part, fewer),
    ensures
        closed_within(part, more),
{
    assert forall|i: int| 0 <= i < part.len() implies (#[trigger] part[i]).is_closed_in(more) by {
        assert(part[i].is_closed_in(fewer));
        match part[i] {
            DeclModel::CustomTypeEnum { cases, .. } => {
                assert forall|j: int| 0 <= j < cases.len() implies (match (#[trigger] cases[j]).1 {
                    Some(t) => t.is_closed_in(more),
                    None => true,
                }) by {
                    match cases[j].1 {
                        Some(t) => {
                            lemma_type_closed_in_more(t, more, fewer);
                        },
                        None => {},
                    }
                }
            },
            DeclModel::TypeAlias { type_, .. } => {
                lemma_type_closed_in_more(type_, more, fewer);
            },
        }
    }
}

/// Declarations cover themselves, and what comes before or behind them.
pub proof fn lemma_covers_parts(front: Seq<DeclModel>, back: Seq<DeclModel>)
    ensures
        covers(front, front),
        covers(front + back, front),
        covers(front + back, back),
{
    let all = front + back;
    assert forall|i: int| 0 <= i < front.len() implies declares(
        front,
        (#[trigger] front[i]).name(),
    ) by {}
    assert forall|i: int| 0 <= i < front.len() implies declares(all, (#[trigger] front[i]).name()) by {
        assert(all[i] == front[i]);
    }
    assert forall|i: int| 0 <= i < back.len() implies declares(all, (#[trigger] back[i]).name()) by {
        assert(all[front.len() + i] == back[i]);
    }
}

/// Attaching a tag keeps what the declarations refer to, and their names.
pub proof fn lemma_attach_all_closed(
    decls: Seq<DeclModel>,
    name: Seq<char>,
    tag: Seq<char>,
    value: Seq<char>,
    among: Seq<DeclModel>,
)
    requires
        closed_within(decls, among),
        attach_all(decls, name, tag, value) is Ok,
    ensures
        closed_within(attach_all(decls, name, tag, value)->Ok_0, among),
        attach_all(decls, name, tag, value)->Ok_0.len() == decls.len(),
        forall|i: int|
            0 <= i < decls.len() ==> (#[trigger] attach_all(decls, name, tag, value)->Ok_0[i]).name()
                == decls[i].name(),
    decreases decls.len(),
{
    if decls.len() > 0 {
        let front = decls.drop_last();
        assert forall|i: int| 0 <= i < front.len() implies (#[trigger] front[i]).is_closed_in(
            among,
        ) by {
            assert(front[i] == decls[i]);
        }
        lemma_attach_all_closed(front, name, tag, value, among);
        let attached = attach_all(decls, name, tag, value)->Ok_0;
        let before = attach_all(front, name, tag, value)->Ok_0;
        assert(decls.last().is_closed_in(among));
        assert forall|i: int| 0 <= i < attached.len() implies (#[trigger] attached[i]).is_closed_in(
            among,
        ) by {
            if i < before.len() {
                assert(attached[i] == before[i]);
            }
        }
        assert forall|i: int| 0 <= i < decls.len() implies (#[trigger] attached[i]).name()
            == decls[i].name() by {
            if i < before.len() {
                assert(attached[i] == before[i]);
                assert(front[i] == decls[i]);
            }
        }
    }
}

/// Allowing for absence keeps a type closed.
pub proof fn lemma_nullable_closed(t: TypeModel, nullable: bool, decls: Seq<DeclModel>)
    requires
        t.is_closed_in(decls),
    ensures
        crate::elm::translate::apply_nullable(t, nullable).is_closed_in(decls),
{
}

/// A member without constraint, which becomes an empty record with the tag,
/// is closed.
pub proof fn lemma_finish_unit_closed(
    decls: Seq<DeclModel>,
    tag: Seq<char>,
    value: Seq<char>,
    nullable: bool,
)
    requires
        closed_within(decls, decls),
    ensures
        closed_outcome(finish(TypeModel::Unit, decls, Some((tag, value)), nullable)),
{
    let alias = DeclModel::TypeAlias {
        name: member_name(tag, value),
        type_: TypeModel::Record(Seq::empty()),
        discriminator: Some((tag, value)),
    };
    let all = decls.push(alias);
    assert(all =~= decls + seq![alias]);
    lemma_covers_parts(decls, seq![alias]);
    lemma_closed_in_more(decls, all, decls);
    assert(alias.is_closed_in(all));
    assert forall|i: int| 0 <= i < all.len() implies (#[trigger] all[i]).is_closed_in(all) by {
        if i < decls.len() {
            assert(all[i] == decls[i]);
        }
    }
    assert(all[all.len() - 1].name() == member_name(tag, value));
    assert(declares(all, member_name(tag, value)));
    lemma_nullable_closed(TypeModel::Ref(member_name(tag, value)), nullable, all);
}

/// A member that is a reference, to whose declaration the tag is attached,
/// is closed.
pub proof fn lemma_finish_ref_closed(
    name: Seq<char>,
    decls: Seq<DeclModel>,
    tag: Seq<char>,
    value: Seq<char>,
    nullable: bool,
)
    requires
        declares(decls, name),
        closed_within(decls, decls),
    ensures
        closed_outcome(finish(TypeModel::Ref(name), decls, Some((tag, value)), nullable)),
{
    if attach_all(decls, name, tag, value) is Ok {
        lemma_attach_all_closed(decls, name, tag, value, decls);
        let attached = attach_all(decls, name, tag, value)->Ok_0;
        assert forall|i: int| 0 <= i < decls.len() implies declares(
            attached,
            (#[trigger] decls[i]).name(),
        ) by {
            assert(attached[i].name() == decls[i].name());
        }
        lemma_closed_in_more(attached, attached, decls);
        lemma_declares_more(attached, decls, name);
        lemma_nullable_closed(TypeModel::Ref(name), nullable, attached);
    }
}

/// The last step of a translation keeps it closed.
pub proof fn lemma_finish_closed(
    base: TypeModel,
    decls: Seq<DeclModel>,
    discriminator: Option<(Seq<char>, Seq<char>)>,
    nullable: bool,
)
    requires
        base.is_closed_in(decls),
        closed_within(decls, decls),
    ensures
        closed_outcome(finish(base, decls, discriminator, nullable)),
{
    match discriminator {
        None => {
            lemma_nullable_closed(base, nullable, decls);
        },
        Some((tag, value)) => match base {
            TypeModel::Unit => {
                lemma_finish_unit_closed(decls, tag, value, nullable);
            },
            TypeModel::Ref(name) => {
                lemma_finish_ref_closed(name, decls, tag, value, nullable);
            },
            _ => {},
        },
    }
}

/// Members whose outcomes are closed are closed when they are taken
/// together.
pub proof fn lemma_gather_closed(items: Seq<(Seq<char>, Translation)>)
    requires
        forall|i: int| 0 <= i < items.len() ==> closed_outcome((#[trigger] items[i]).1),
    ensures
        match gather(items) {
            Ok((types, decls)) => closed_types(types, decls) && closed_within(decls, decls),
            Err(_) => true,
        },
    decreases items.len(),
{
    if items.len() > 0 {
        let front = items.drop_last();
        assert forall|i: int| 0 <= i < front.len() implies closed_outcome(
            (#[trigger] front[i]).1,
        ) by {
            assert(front[i] == items[i]);
        }
        lemma_gather_closed(front);
        match gather(front) {
            Err(_) => {},
            Ok((types, decls)) => match items.last().1 {
                Err(_) => {},
                Ok((t, found)) => {
                    assert(closed_outcome(items[items.len() - 1].1));
                    let all = decls + found;
                    lemma_covers_parts(decls, found);
                    lemma_closed_in_more(decls, all, decls);
                    lemma_closed_in_more(found, all, found);
                    lemma_type_closed_in_more(t, all, found);
                    assert forall|i: int| 0 <= i < all.len() implies (#[trigger] all[i]).is_closed_in(
                        all,
                    ) by {
                        if i < decls.len() {
                            assert(all[i] == decls[i]);
                        } else {
                            assert(all[i] == found[i - decls.len()]);
                        }
                    }
                    let all_types = types.push((items.last().0, t));
                    assert forall|i: int| 0 <= i < all_types.len() implies (
                    #[trigger] all_types[i]).1.is_closed_in(all) by {
                        if i < types.len() {
                            assert(all_types[i] == types[i]);
                            lemma_type_closed_in_more(types[i].1, all, decls);
                        }
                    }
                },
            },
        }
    }
}

/// Fields made of closed types are closed.
pub proof fn lemma_with_fields_closed(
    acc: Entries<(TypeModel, RecordPresence)>,
    types: Seq<(Seq<char>, TypeModel)>,
    presence: RecordPresence,
    decls: Seq<DeclModel>,
)
    requires
        closed_fields(acc, decls),
        closed_types(types, decls),
    ensures
        closed_fields(with_fields(acc, types, presence), decls),
    decreases types.len(),
{
    if types.len() > 0 {
        let front = types.drop_last();
        assert forall|i: int| 0 <= i < front.len() implies (#[trigger] front[i]).1.is_closed_in(
            decls,
        ) by {
            assert(front[i] == types[i]);
        }
        lemma_with_fields_closed(acc, front, presence, decls);
        let before = with_fields(acc, front, presence);
        let stored = (field_type(types.last().1, presence), presence);
        assert(types[types.len() - 1].1.is_closed_in(decls));
        lemma_inserted_entries(before, types.last().0, stored);
        let after = inserted(before, types.last().0, stored);
        assert forall|i: int| 0 <= i < after.len() implies (#[trigger] after[i]).1.0.is_closed_in(
            decls,
        ) by {
            if after[i] != (types.last().0, stored) {
                let j = choose|j: int| 0 <= j < before.len() && before[j] == after[i];
                assert(before[j].1.0.is_closed_in(decls));
            }
        }
    }
}

/// The cases of an enumeration refer to nothing.
pub proof fn lemma_enum_cases_closed(values: Seq<Seq<char>>, decls: Seq<DeclModel>)
    ensures
        closed_cases(enum_cases(values), decls),
    decreases values.len(),
{
    if values.len() > 0 {
        lemma_enum_cases_closed(values.drop_last(), decls);
        let before = enum_cases(values.drop_last());
        lemma_inserted_entries(before, values.last(), None);
        let after = inserted(before, values.last(), None::<TypeModel>);
        assert forall|i: int| 0 <= i < after.len() implies (match (#[trigger] after[i]).1 {
            Some(t) => t.is_closed_in(decls),
            None => true,
        }) by {
            if after[i] != (values.last(), None::<TypeModel>) {
                let j = choose|j: int| 0 <= j < before.len() && before[j] == after[i];
                assert(before[j] == after[i]);
            }
        }
    }
}

/// The cases of a union whose members are closed are closed.
pub proof fn lemma_union_cases_closed(types: Seq<(Seq<char>, TypeModel)>, decls: Seq<DeclModel>)
    requires
        closed_types(types, decls),
    ensures
        closed_cases(union_cases(types), decls),
    decreases types.len(),
{
    if types.len() > 0 {
        let front = types.drop_last();
        assert forall|i: int| 0 <= i < front.len() implies (#[trigger] front[i]).1.is_closed_in(
            decls,
        ) by {
            assert(front[i] == types[i]);
        }
        lemma_union_cases_closed(front, decls);
        let before = union_cases(front);
        assert(types[types.len() - 1].1.is_closed_in(decls));
        lemma_inserted_entries(before, types.last().0, Some(types.last().1));
        let after = inserted(before, types.last().0, Some(types.last().1));
        assert forall|i: int| 0 <= i < after.len() implies (match (#[trigger] after[i]).1 {
            Some(t) => t.is_closed_in(decls),
            None => true,
        }) by {
            if after[i] != (types.last().0, Some(types.last().1)) {
                let j = choose|j: int| 0 <= j < before.len() && before[j] == after[i];
                assert(before[j] == after[i]);
            }
        }
    }
}

/// A node that becomes a named declaration: the declaration `decl`, which
/// is named `name`, behind the declarations `found` of its members.
pub proof fn lemma_named_closed(
    found: Seq<DeclModel>,
    decl: DeclModel,
    name: Seq<char>,
    discriminator: Option<(Seq<char>, Seq<char>)>,
    nullable: bool,
)
    requires
        closed_within(found, found),
        decl.is_closed_in(found),
        decl.name() == name,
    ensures
        closed_outcome(finish(TypeModel::Ref(name), found.push(decl), discriminator, nullable)),
{
    let all = found.push(decl);
    assert(all =~= found + seq![decl]);
    lemma_covers_parts(found, seq![decl]);
    lemma_closed_in_more(found, all, found);
    lemma_closed_in_more(seq![decl], all, found);
    assert(seq![decl][0].is_closed_in(all));
    assert forall|i: int| 0 <= i < all.len() implies (#[trigger] all[i]).is_closed_in(all) by {
        if i < found.len() {
            assert(all[i] == found[i]);
        }
    }
    assert(all[all.len() - 1].name() == name);
    lemma_finish_closed(TypeModel::Ref(name), all, discriminator, nullable);
}

/// Whatever a schema node translates to refers only to names that the
/// translation itself declares: in its type and in every declaration.
pub proof fn lemma_translation_is_closed(
    schema: SchemaNode,
    suggestion: Option<Seq<char>>,
    globals: Entries<SchemaNode>,
    discriminator: Option<(Seq<char>, Seq<char>)>,
    resolving: Seq<bool>,
)
    ensures
        closed_outcome(translate(schema, suggestion, globals, discriminator, resolving)),
    decreases idle(resolving, globals.len()), schema, 1nat,
{
    lemma_translate_plain(schema, suggestion, globals, discriminator, resolving);
    lemma_translate_container(schema, suggestion, globals, discriminator, resolving);
    lemma_translate_members(schema, suggestion, globals, discriminator, resolving);
    match schema {
        SchemaNode::Empty => {
            lemma_finish_closed(TypeModel::Unit, Seq::empty(), discriminator, false);
        },
        SchemaNode::Type { nullable, type_ } => {
            lemma_finish_closed(scalar_type(type_), Seq::empty(), discriminator, nullable);
        },
        SchemaNode::Enum { metadata, nullable, enum_ } => {
            match declared_name(metadata@, suggestion) {
                None => {},
                Some(name) => {
                    let decl = DeclModel::CustomTypeEnum {
                        name,
                        discriminator: None,
                        constructor_prefix: constructor_prefix(metadata@),
                        cases: enum_cases(enum_@.map_values(|v: String| v@)),
                    };
                    lemma_enum_cases_closed(enum_@.map_values(|v: String| v@), Seq::empty());
                    assert(Seq::<DeclModel>::empty().push(decl) =~= seq![decl]);
                    lemma_named_closed(Seq::empty(), decl, name, discriminator, nullable);
                },
            }
        },
        SchemaNode::Elements { nullable, elements } => {
            lemma_translation_is_closed(
                *elements,
                suffixed(suggestion, "Elements"@),
                globals,
                discriminator,
                resolving,
            );
            match wrapped_result(
                translate(
                    *elements,
                    suffixed(suggestion, "Elements"@),
                    globals,
                    discriminator,
                    resolving,
                ),
                elements_context(),
            ) {
                Err(_) => {},
                Ok((t, decls)) => {
                    lemma_finish_closed(
                        TypeModel::List(Box::new(t)),
                        decls,
                        discriminator,
                        nullable,
                    );
                },
            }
        },
        SchemaNode::Values { nullable, values } => {
            lemma_translation_is_closed(
                *values,
                suffixed(suggestion, "Values"@),
                globals,
                discriminator,
                resolving,
            );
            match wrapped_result(
                translate(
                    *values,
                    suffixed(suggestion, "Values"@),
                    globals,
                    discriminator,
                    resolving,
                ),
                values_context(),
            ) {
                Err(_) => {},
                Ok((t, decls)) => {
                    lemma_finish_closed(
                        TypeModel::DictWithStringKeys(Box::new(t)),
                        decls,
                        discriminator,
                        nullable,
                    );
                },
            }
        },
        SchemaNode::Ref { definitions, nullable, ref_ } => {
            lemma_translate_ref(schema, suggestion, globals, discriminator, resolving);
            let local = index_of(definitions@, ref_@);
            let global = index_of(globals, ref_@);
            if 0 <= local < definitions@.len() {
                definitions.lemma_value_decreases(local);
                lemma_translation_is_closed(
                    definitions@[local].1,
                    inherited_name(suggestion, ref_@),
                    globals,
                    discriminator,
                    resolving,
                );
            } else if 0 <= global < globals.len() && !in_progress(resolving, global) {
                lemma_mark_idle(resolving, globals.len(), global, globals.len());
                lemma_translation_is_closed(
                    globals[global].1,
                    inherited_name(suggestion, ref_@),
                    globals,
                    discriminator,
                    mark(resolving, globals.len(), global),
                );
            }
            match pointee_translation(
                definitions@,
                ref_@,
                suggestion,
                globals,
                discriminator,
                resolving,
            ) {
                Err(_) => {},
                Ok((t, decls)) => {
                    lemma_finish_closed(t, decls, discriminator, nullable);
                },
            }
        },
        SchemaNode::Properties { metadata, nullable, properties, optional_properties } => {
            lemma_members_are_closed(properties, globals, None, resolving);
            lemma_members_are_closed(optional_properties, globals, None, resolving);
            match declared_name(metadata@, suggestion) {
                None => {},
                Some(name) => match gather(member_items(properties, globals, None, resolving)) {
                    Err(_) => {},
                    Ok((required_types, required_decls)) => match gather(
                        member_items(optional_properties, globals, None, resolving),
                    ) {
                        Err(_) => {},
                        Ok((optional_types, optional_decls)) => {
                            let found = required_decls + optional_decls;
                            lemma_covers_parts(required_decls, optional_decls);
                            lemma_closed_in_more(required_decls, found, required_decls);
                            lemma_closed_in_more(optional_decls, found, optional_decls);
                            assert forall|i: int| 0 <= i < found.len() implies (
                            #[trigger] found[i]).is_closed_in(found) by {
                                if i < required_decls.len() {
                                    assert(found[i] == required_decls[i]);
                                } else {
                                    assert(found[i] == optional_decls[i - required_decls.len()]);
                                }
                            }
                            assert forall|i: int| 0 <= i < required_types.len() implies (
                            #[trigger] required_types[i]).1.is_closed_in(found) by {
                                lemma_type_closed_in_more(
                                    required_types[i].1,
                                    found,
                                    required_decls,
                                );
                            }
                            assert forall|i: int| 0 <= i < optional_types.len() implies (
                            #[trigger] optional_types[i]).1.is_closed_in(found) by {
                                lemma_type_closed_in_more(
                                    optional_types[i].1,
                                    found,
                                    optional_decls,
                                );
                            }
                            lemma_with_fields_closed(
                                Seq::empty(),
                                required_types,
                                RecordPresence::Required,
                                found,
                            );
                            lemma_with_fields_closed(
                                with_fields(Seq::empty(), required_types, RecordPresence::Required),
                                optional_types,
                                RecordPresence::Optional,
                                found,
                            );
                            let alias = DeclModel::TypeAlias {
                                name,
                                type_: TypeModel::Record(
                                    with_fields(
                                        with_fields(
                                            Seq::empty(),
                                            required_types,
                                            RecordPresence::Required,
                                        ),
                                        optional_types,
                                        RecordPresence::Optional,
                                    ),
                                ),
                                discriminator: None,
                            };
                            lemma_named_closed(found, alias, name, discriminator, nullable);
                        },
                    },
                },
            }
        },
        SchemaNode::Discriminator { metadata, nullable, discriminator: tag_field, mapping } => {
            lemma_members_are_closed(mapping, globals, Some(tag_field@), resolving);
            match declared_name(metadata@, suggestion) {
                None => {},
                Some(name) => match gather(
                    member_items(mapping, globals, Some(tag_field@), resolving),
                ) {
                    Err(_) => {},
                    Ok((types, found)) => {
                        lemma_union_cases_closed(types, found);
                        let decl = DeclModel::CustomTypeEnum {
                            name,
                            discriminator: Some(tag_field@),
                            constructor_prefix: constructor_prefix(metadata@),
                            cases: union_cases(types),
                        };
                        lemma_named_closed(found, decl, name, discriminator, nullable);
                    },
                },
            }
        },
    }
}

/// The members of a node, taken together, are closed.
pub proof fn lemma_members_are_closed(
    members: SortedMap<SchemaNode>,
    globals: Entries<SchemaNode>,
    tag_field: Option<Seq<char>>,
    resolving: Seq<bool>,
)
    ensures
        match gather(member_items(members, globals, tag_field, resolving)) {
            Ok((types, decls)) => closed_types(types, decls) && closed_within(decls, decls),
            Err(_) => true,
        },
    decreases idle(resolving, globals.len()), members, 0nat,
{
    let items = member_items(members, globals, tag_field, resolving);
    lemma_member_items(members, globals, tag_field, resolving);
    assert forall|i: int| 0 <= i < items.len() implies closed_outcome((#[trigger] items[i]).1) by {
        members.lemma_value_decreases(i);
        lemma_translation_is_closed(
            members@[i].1,
            Some(members@[i].0),
            globals,
            member_discriminator(tag_field, members@[i].0),
            resolving,
        );
    }
    lemma_gather_closed(items);
}

} // verus!
