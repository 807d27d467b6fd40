//! From a schema node to the structural type that describes the same values.

use crate::error::{failure, Error, ErrorKind, ErrorModel};
use crate::node::{
    idle, in_progress, lemma_mark_idle, mark, mark_flags, no_flags, none_in_progress, ScalarType,
    SchemaNode,
};
use crate::sorted_map::{index_of, inserted, lemma_index_of, Entries, SortedMap};
use crate::typescript::constructors::{
    lemma_properties_inserted, singleton_object, with_key,
};
use crate::typescript::model::{
    lemma_model, members_model, properties_model, FieldPresence, TSType, TSTypeModel,
};
use vstd::prelude::*;
use vstd::string::*;

verus! {

/// What translating a node gives: its type, or the failure.
pub type Structure = Result<TSTypeModel, ErrorModel>;

/// The name of the type of a primitive.
pub open spec fn scalar_name(kind: ScalarType) -> Seq<char> {
    match kind {
        ScalarType::Int8 | ScalarType::Int16 | ScalarType::Int32 | ScalarType::Uint8
        | ScalarType::Uint16 | ScalarType::Uint32 | ScalarType::Float32
        | ScalarType::Float64 => "number"@,
        ScalarType::String | ScalarType::Timestamp => "string"@,
        ScalarType::Boolean => "bool"@,
    }
}

/// The type `t` with its own nullability set to `nullable`. Types that have
/// none are left as they are.
pub open spec fn with_nullable(t: TSTypeModel, nullable: bool) -> TSTypeModel {
    match t {
        TSTypeModel::Object { properties, .. } => TSTypeModel::Object { properties, nullable },
        TSTypeModel::Record { values, .. } => TSTypeModel::Record { values, nullable },
        TSTypeModel::Scalar { value, .. } => TSTypeModel::Scalar { value, nullable },
        TSTypeModel::Union { members, .. } => TSTypeModel::Union { members, nullable },
        TSTypeModel::List { elements, .. } => TSTypeModel::List { elements, nullable },
        _ => t,
    }
}

/// The outcomes of translating the members of a node, taken together: the
/// first failure in order, or else every member's type under its key.
pub open spec fn gather_types(items: Seq<(Seq<char>, Structure)>) -> Result<
    Seq<(Seq<char>, TSTypeModel)>,
    ErrorModel,
>
    decreases items.len(),
{
    if items.len() == 0 {
        Ok(Seq::empty())
    } else {
        match gather_types(items.drop_last()) {
            Err(e) => Err(e),
            Ok(types) => match items.last().1 {
                Err(e) => Err(e),
                Ok(t) => Ok(types.push((items.last().0, t))),
            },
        }
    }
}

/// The properties `acc` after the properties `types` were stored with the
/// given presence, one after the other.
pub open spec fn with_properties(
    acc: Entries<(TSTypeModel, FieldPresence)>,
    types: Seq<(Seq<char>, TSTypeModel)>,
    presence: FieldPresence,
) -> Entries<(TSTypeModel, FieldPresence)>
    decreases types.len(),
{
    if types.len() == 0 {
        acc
    } else {
        inserted(
            with_properties(acc, types.drop_last(), presence),
            types.last().0,
            (types.last().1, presence),
        )
    }
}

/// The object type for the outcomes of the required and of the optional
/// properties of an object.
pub open spec fn object_structure(
    required: Seq<(Seq<char>, Structure)>,
    optional: Seq<(Seq<char>, Structure)>,
    nullable: bool,
) -> Structure {
    match gather_types(required) {
        Err(e) => Err(e),
        Ok(required_types) => match gather_types(optional) {
            Err(e) => Err(e),
            Ok(optional_types) => Ok(
                TSTypeModel::Object {
                    properties: with_properties(
                        with_properties(Seq::empty(), required_types, FieldPresence::Required),
                        optional_types,
                        FieldPresence::Optional,
                    ),
                    nullable,
                },
            ),
        },
    }
}

/// A member of a union with its tag: an object type gains the tag as a
/// property whose type is the tag's literal; a member without any constraint
/// becomes the object type that has the tag alone; nothing else can be a
/// member.
pub open spec fn tagged(t: TSTypeModel, tag_field: Seq<char>, tag: Seq<char>) -> Structure {
    match t {
        TSTypeModel::NeverObject => Ok(
            singleton_object(tag_field, TSTypeModel::StringScalar(tag), FieldPresence::Required),
        ),
        _ => with_key(t, tag_field, TSTypeModel::StringScalar(tag)),
    }
}

/// The outcome of a member of a union, with its tag.
pub open spec fn tagged_member(member: Structure, tag_field: Seq<char>, tag: Seq<char>) -> Structure {
    match member {
        Err(e) => Err(e),
        Ok(t) => tagged(t, tag_field, tag),
    }
}

/// The types alone, without their keys.
pub open spec fn types_only(types: Seq<(Seq<char>, TSTypeModel)>) -> Seq<TSTypeModel> {
    Seq::new(types.len(), |i: int| types[i].1)
}

/// The union type for the outcomes of the members of a union.
pub open spec fn union_structure(members: Seq<(Seq<char>, Structure)>, nullable: bool) -> Structure {
    match gather_types(members) {
        Err(e) => Err(e),
        Ok(types) => Ok(TSTypeModel::Union { members: types_only(types), nullable }),
    }
}

/// The values of an enumeration as a set: in key order, each once.
pub open spec fn value_set(values: Seq<Seq<char>>) -> Entries<()>
    decreases values.len(),
{
    if values.len() == 0 {
        Seq::empty()
    } else {
        inserted(value_set(values.drop_last()), values.last(), ())
    }
}

/// The union of the string literals of an enumeration.
pub open spec fn literal_union(values: Seq<Seq<char>>, nullable: bool) -> TSTypeModel {
    TSTypeModel::Union {
        members: Seq::new(
            value_set(values).len(),
            |i: int| TSTypeModel::StringScalar(value_set(values)[i].0),
        ),
        nullable,
    }
}

/// The failure of a reference to a definition that no table holds.
pub open spec fn unresolved_failure(name: Seq<char>) -> ErrorModel {
    failure(ErrorKind::UnresolvedReference, "could not find a definition for `"@ + name + "`"@)
}

/// The failure of a reference to a definition that is still being resolved.
pub open spec fn cyclic_failure(name: Seq<char>) -> ErrorModel {
    failure(ErrorKind::CyclicReference, "the definition `"@ + name + "` refers to itself"@)
}

/// What a reference stands for: what it points to, with the nullability of
/// the reference in place of that of the definition.
pub open spec fn ref_structure(pointee: Structure, nullable: bool) -> Structure {
    match pointee {
        Err(e) => Err(e),
        Ok(t) => Ok(with_nullable(t, nullable)),
    }
}

/// What a list stands for.
pub open spec fn list_structure(elements: Structure, nullable: bool) -> Structure {
    match elements {
        Err(e) => Err(e),
        Ok(t) => Ok(TSTypeModel::List { elements: Box::new(t), nullable }),
    }
}

/// What a dictionary stands for.
pub open spec fn dict_structure(values: Structure, nullable: bool) -> Structure {
    match values {
        Err(e) => Err(e),
        Ok(t) => Ok(TSTypeModel::Record { values: Box::new(t), nullable }),
    }
}

/// The structural type that a schema node stands for.
///
/// `globals` are the definitions shared by all schemas; `resolving` says
/// which of them are being resolved further out. A reference is looked up
/// among the definitions written beside it first, and among the global ones
/// after that.
#[verifier::opaque]
pub open spec fn structure_of(
    schema: SchemaNode,
    globals: Entries<SchemaNode>,
    resolving: Seq<bool>,
) -> Structure
    decreases idle(resolving, globals.len()), schema,
{
    match schema {
        SchemaNode::Empty => Ok(TSTypeModel::NeverObject),
        SchemaNode::Type { nullable, type_ } => Ok(
            TSTypeModel::Scalar { value: scalar_name(type_), nullable },
        ),
        SchemaNode::Enum { nullable, enum_, .. } => Ok(
            literal_union(enum_@.map_values(|v: String| v@), nullable),
        ),
        SchemaNode::Ref { definitions, nullable, ref_ } => {
            let local = index_of(definitions@, ref_@);
            let global = index_of(globals, ref_@);
            let pointee: Structure = if 0 <= local < definitions@.len() {
                proof {
                    definitions.lemma_value_decreases(local);
                }
                structure_of(definitions@[local].1, globals, resolving)
            } else if 0 <= global < globals.len() {
                if in_progress(resolving, global) {
                    Err(cyclic_failure(ref_@))
                } else {
                    proof {
                        lemma_mark_idle(resolving, globals.len(), global, globals.len());
                    }
                    structure_of(globals[global].1, globals, mark(resolving, globals.len(), global))
                }
            } else {
                Err(unresolved_failure(ref_@))
            };
            ref_structure(pointee, nullable)
        },
        SchemaNode::Elements { nullable, elements } => list_structure(
            structure_of(*elements, globals, resolving),
            nullable,
        ),
        SchemaNode::Values { nullable, values } => dict_structure(
            structure_of(*values, globals, resolving),
            nullable,
        ),
        SchemaNode::Properties { nullable, properties, optional_properties, .. } => {
            object_structure(
                member_structures(properties, globals, None, resolving),
                member_structures(optional_properties, globals, None, resolving),
                nullable,
            )
        },
        SchemaNode::Discriminator {
            nullable,
            discriminator: tag_field,
            mapping,
            ..
        } => union_structure(
            member_structures(mapping, globals, Some(tag_field@), resolving),
            nullable,
        ),
    }
}

/// The outcome of one member: its type, with the tag where the member
/// belongs to a union.
pub open spec fn member_structure(
    member: Structure,
    tag_field: Option<Seq<char>>,
    key: Seq<char>,
) -> Structure {
    match tag_field {
        None => member,
        Some(field) => tagged_member(member, field, key),
    }
}

/// The outcome of translating each member of an object (`tag_field` is
/// `None`) or of a union, under the member's key.
#[verifier::opaque]
pub open spec fn member_structures(
    members: SortedMap<SchemaNode>,
    globals: Entries<SchemaNode>,
    tag_field: Option<Seq<char>>,
    resolving: Seq<bool>,
) -> Seq<(Seq<char>, Structure)>
    decreases idle(resolving, globals.len()), members,
{
    Seq::new(
        members@.len(),
        |i: int|
            if 0 <= i < members@.len() {
                proof {
                    members.lemma_value_decreases(i);
                }
                (
                    members@[i].0,
                    member_structure(
                        structure_of(members@[i].1, globals, resolving),
                        tag_field,
                        members@[i].0,
                    ),
                )
            } else {
                arbitrary()
            },
    )
}

/// The outcomes of the members, one by one.
pub proof fn lemma_member_structures(
    members: SortedMap<SchemaNode>,
    globals: Entries<SchemaNode>,
    tag_field: Option<Seq<char>>,
    resolving: Seq<bool>,
)
    ensures
        member_structures(members, globals, tag_field, resolving).len() == members@.len(),
        forall|i: int|
            0 <= i < members@.len() ==> (#[trigger] member_structures(
                members,
                globals,
                tag_field,
                resolving,
            )[i]) == (
                members@[i].0,
                member_structure(
                    structure_of(members@[i].1, globals, resolving),
                    tag_field,
                    members@[i].0,
                ),
            ),
{
    reveal(member_structures);
    reveal(structure_of);
}

/// What a reference points to: the definition of that name written beside
/// it, or else the global one, unless that is being resolved already.
pub open spec fn pointee_structure(
    definitions: Entries<SchemaNode>,
    ref_name: Seq<char>,
    globals: Entries<SchemaNode>,
    resolving: Seq<bool>,
) -> Structure {
    let local = index_of(definitions, ref_name);
    let global = index_of(globals, ref_name);
    if 0 <= local < definitions.len() {
        structure_of(definitions[local].1, globals, resolving)
    } else if 0 <= global < globals.len() {
        if in_progress(resolving, global) {
            Err(cyclic_failure(ref_name))
        } else {
            structure_of(globals[global].1, globals, mark(resolving, globals.len(), global))
        }
    } else {
        Err(unresolved_failure(ref_name))
    }
}

/// What `structure_of` says of each form of node.
pub proof fn lemma_structure_of(schema: SchemaNode, globals: Entries<SchemaNode>, resolving: Seq<bool>)
    ensures
        schema is Empty ==> structure_of(schema, globals, resolving) == Ok::<
            TSTypeModel,
            ErrorModel,
        >(TSTypeModel::NeverObject),
        schema is Type ==> structure_of(schema, globals, resolving) == Ok::<
            TSTypeModel,
            ErrorModel,
        >(TSTypeModel::Scalar { value: scalar_name(schema->type_), nullable: schema->Type_nullable }),
        schema is Enum ==> structure_of(schema, globals, resolving) == Ok::<
            TSTypeModel,
            ErrorModel,
        >(literal_union(schema->enum_@.map_values(|v: String| v@), schema->Enum_nullable)),
        schema is Ref ==> structure_of(schema, globals, resolving) == ref_structure(
            pointee_structure(schema->definitions@, schema->ref_@, globals, resolving),
            schema->Ref_nullable,
        ),
        schema is Elements ==> structure_of(schema, globals, resolving) == list_structure(
            structure_of(*schema->elements, globals, resolving),
            schema->Elements_nullable,
        ),
        schema is Values ==> structure_of(schema, globals, resolving) == dict_structure(
            structure_of(*schema->values, globals, resolving),
            schema->Values_nullable,
        ),
        schema is Properties ==> structure_of(schema, globals, resolving) == object_structure(
            member_structures(schema->properties, globals, None, resolving),
            member_structures(schema->optional_properties, globals, None, resolving),
            schema->Properties_nullable,
        ),
        schema is Discriminator ==> structure_of(schema, globals, resolving) == union_structure(
            member_structures(
                schema->mapping,
                globals,
                Some(schema->Discriminator_discriminator@),
                resolving,
            ),
            schema->Discriminator_nullable,
        ),
{
    reveal(structure_of);
    reveal(member_structures);
}

/// A reference to a name that is defined beside it stands for that
/// definition, whatever the global definitions hold under the same name.
pub proof fn lemma_local_definition_wins(
    schema: SchemaNode,
    globals: Entries<SchemaNode>,
    resolving: Seq<bool>,
)
    requires
        schema is Ref,
        index_of(schema->definitions@, schema->ref_@) < schema->definitions@.len(),
    ensures
        structure_of(schema, globals, resolving) == ref_structure(
            structure_of(
                schema->definitions@[index_of(schema->definitions@, schema->ref_@)].1,
                globals,
                resolving,
            ),
            schema->Ref_nullable,
        ),
{
    lemma_structure_of(schema, globals, resolving);
    lemma_index_of(schema->definitions@, schema->ref_@);
}

/// A property that an object may leave out is stored as optional, and one
/// that it must have as required.
pub proof fn lemma_presence_is_kept(key: Seq<char>, t: TSTypeModel, presence: FieldPresence)
    ensures
        with_properties(Seq::empty(), seq![(key, t)], presence) == seq![(key, (t, presence))],
{
    let types = seq![(key, t)];
    assert(types.drop_last() =~= Seq::empty());
    assert(with_properties(Seq::empty(), types.drop_last(), presence) =~= Seq::empty());
    crate::sorted_map::lemma_lower_bound(
        Seq::<(Seq<char>, (TSTypeModel, FieldPresence))>::empty(),
        key,
    );
    assert(inserted(Seq::empty(), key, (t, presence)) =~= seq![(key, (t, presence))]);
}

/// Whether an executable outcome holds what the model says.
pub open spec fn structure_matches(r: Result<TSType, Error>, model: Structure) -> bool {
    match (r, model) {
        (Ok(t), Ok(m)) => t@ == m,
        (Err(e), Err(m)) => e@ == m,
        _ => false,
    }
}

/// Once a member fails, the members taken together fail with its failure.
pub proof fn lemma_gather_types_fails(items: Seq<(Seq<char>, Structure)>, at: int)
    requires
        0 <= at < items.len(),
        gather_types(items.take(at)) is Ok,
        items[at].1 is Err,
    ensures
        gather_types(items) == Err::<Seq<(Seq<char>, TSTypeModel)>, ErrorModel>(
            items[at].1->Err_0,
        ),
    decreases items.len(),
{
    if at == items.len() - 1 {
        assert(items.drop_last() =~= items.take(at));
    } else {
        assert(items.drop_last().take(at) =~= items.take(at));
        lemma_gather_types_fails(items.drop_last(), at);
    }
}

/// The models of the types of members, each under its key.
pub open spec fn keyed_models(types: Seq<(String, TSType)>) -> Seq<(Seq<char>, TSTypeModel)> {
    Seq::new(types.len(), |i: int| (types[i].0@, types[i].1@))
}

impl TSType {
    /// Sets the type's own nullability. Types that have none stay as they
    /// are.
    pub fn set_nullable(&mut self, new_value: bool)
        ensures
            final(self)@ == with_nullable(old(self)@, new_value),
    {
        proof {
            lemma_model(*self);
        }
        match self {
            TSType::Object { nullable, .. } => {
                *nullable = new_value;
            },
            TSType::Record { nullable, .. } => {
                *nullable = new_value;
            },
            TSType::Scalar { nullable, .. } => {
                *nullable = new_value;
            },
            TSType::Union { nullable, .. } => {
                *nullable = new_value;
            },
            TSType::List { nullable, .. } => {
                *nullable = new_value;
            },
            _ => {},
        }
        proof {
            lemma_model(*self);
        }
    }

    /// The member `t` of a union with its tag.
    fn tag_member(t: TSType, tag_field: &str, tag: &str) -> (r: Result<TSType, Error>)
        ensures
            structure_matches(r, tagged(t@, tag_field@, tag@)),
    {
        let literal = TSType::StringScalar(tag.to_owned());
        match t {
            TSType::NeverObject => Ok(
                TSType::new_singleton_object(tag_field, literal, FieldPresence::Required),
            ),
            _ => {
                let mut t = t;
                match t.add_key_to_object(tag_field, literal) {
                    Ok(_) => Ok(t),
                    Err(e) => Err(e),
                }
            },
        }
    }

    /// Translates the members of an object (`tag_field` is `None`) or of a
    /// union in the order of their keys, up to the first that fails.
    fn members_from_schema(
        members: &SortedMap<SchemaNode>,
        globals: &SortedMap<SchemaNode>,
        tag_field: Option<&String>,
        resolving: &Vec<bool>,
    ) -> (r: Result<Vec<(String, TSType)>, Error>)
        ensures
            match r {
                Ok(types) => gather_types(
                    member_structures(
                        *members,
                        globals@,
                        match tag_field {
                            Some(f) => Some(f@),
                            None => None,
                        },
                        resolving@,
                    ),
                ) == Ok::<Seq<(Seq<char>, TSTypeModel)>, ErrorModel>(keyed_models(types@)),
                Err(e) => gather_types(
                    member_structures(
                        *members,
                        globals@,
                        match tag_field {
                            Some(f) => Some(f@),
                            None => None,
                        },
                        resolving@,
                    ),
                ) == Err::<Seq<(Seq<char>, TSTypeModel)>, ErrorModel>(e@),
            },
        decreases idle(resolving@, globals@.len()), members, 0nat,
    {
        let ghost field = match tag_field {
            Some(f) => Some(f@),
            None => None,
        };
        let ghost items = member_structures(*members, globals@, field, resolving@);
        proof {
            lemma_member_structures(*members, globals@, field, resolving@);
        }
        let mut types: Vec<(String, TSType)> = Vec::new();
        let n = members.len();
        let mut i: usize = 0;
        proof {
            assert(items.take(0) =~= Seq::empty());
            assert(keyed_models(types@) =~= Seq::empty());
        }
        while i < n
            invariant
                i <= n,
                n == members@.len(),
                items == member_structures(*members, globals@, field, resolving@),
                items.len() == n,
                forall|j: int|
                    0 <= j < n ==> (#[trigger] items[j]) == (
                        members@[j].0,
                        member_structure(
                            structure_of(members@[j].1, globals@, resolving@),
                            field,
                            members@[j].0,
                        ),
                    ),
                field == match tag_field {
                    Some(f) => Some(f@),
                    None => None,
                },
                gather_types(items.take(i as int)) == Ok::<
                    Seq<(Seq<char>, TSTypeModel)>,
                    ErrorModel,
                >(keyed_models(types@)),
            decreases n - i,
        {
            let key = members.key_at(i);
            proof {
                members.lemma_value_decreases(i as int);
                assert(items.take(i + 1).drop_last() =~= items.take(i as int));
                assert(items.take(i + 1).last() == items[i as int]);
            }
            let translated = TSType::node_from_schema(members.value_at(i), globals, resolving);
            let member = match tag_field {
                None => translated,
                Some(f) => match translated {
                    Err(e) => Err(e),
                    Ok(t) => TSType::tag_member(t, f.as_str(), key.as_str()),
                },
            };
            match member {
                Err(e) => {
                    proof {
                        lemma_gather_types_fails(items, i as int);
                    }
                    return Err(e);
                },
                Ok(t) => {
                    let ghost before = keyed_models(types@);
                    types.push((key.clone(), t));
                    proof {
                        assert(keyed_models(types@) =~= before.push((key@, t@)));
                    }
                },
            }
            i += 1;
        }
        proof {
            assert(items.take(n as int) =~= items);
        }
        Ok(types)
    }

    /// Stores the properties `types` with the given presence.
    fn store_properties(
        properties: &mut SortedMap<(TSType, FieldPresence)>,
        types: Vec<(String, TSType)>,
        presence: FieldPresence,
    )
        ensures
            properties_model(final(properties)@) == with_properties(
                properties_model(old(properties)@),
                keyed_models(types@),
                presence,
            ),
    {
        let ghost keyed = keyed_models(types@);
        proof {
            assert(keyed.take(0) =~= Seq::empty());
        }
        for entry in it: types.into_iter()
            invariant
                keyed == keyed_models(types@),
                it.seq() == types@,
                properties_model(properties@) == with_properties(
                    properties_model(old(properties)@),
                    keyed.take(it.index() as int),
                    presence,
                ),
        {
            let ghost before = properties@;
            proof {
                let done = it.index() as int;
                assert(entry == types@[done]);
                assert(keyed.take(done + 1).drop_last() =~= keyed.take(done));
                assert(keyed.take(done + 1).last() == (entry.0@, entry.1@));
                lemma_properties_inserted(before, entry.0@, (entry.1, presence));
            }
            properties.insert(entry.0, (entry.1, presence));
        }
        proof {
            assert(keyed.take(types@.len() as int) =~= keyed);
        }
    }

    /// The union of the string literals of an enumeration.
    fn literals_from_schema(values: &Vec<String>, nullable: bool) -> (t: TSType)
        ensures
            t@ == literal_union(values@.map_values(|v: String| v@), nullable),
    {
        let ghost texts = values@.map_values(|v: String| v@);
        let mut set: SortedMap<()> = SortedMap::new();
        let mut i: usize = 0;
        proof {
            assert(texts.take(0) =~= Seq::empty());
        }
        while i < values.len()
            invariant
                i <= values@.len(),
                texts == values@.map_values(|v: String| v@),
                set@ == value_set(texts.take(i as int)),
            decreases values@.len() - i,
        {
            proof {
                assert(texts.take(i + 1).drop_last() =~= texts.take(i as int));
                assert(texts.take(i + 1).last() == values@[i as int]@);
            }
            set.insert(values[i].clone(), ());
            i += 1;
        }
        proof {
            assert(texts.take(values@.len() as int) =~= texts);
        }
        let mut members: Vec<TSType> = Vec::new();
        let n = set.len();
        let mut k: usize = 0;
        while k < n
            invariant
                k <= n,
                n == set@.len(),
                members@.len() == k,
                forall|j: int|
                    0 <= j < k ==> (#[trigger] members@[j])@ == TSTypeModel::StringScalar(
                        set@[j].0,
                    ),
            decreases n - k,
        {
            members.push(TSType::StringScalar(set.key_at(k).clone()));
            k += 1;
        }
        let t = TSType::Union { members, nullable };
        proof {
            lemma_model(t);
            assert(members_model(members@) =~= literal_union(texts, nullable)->Union_members);
        }
        t
    }

    /// Translates one node while the definitions flagged in `resolving` are
    /// being resolved further out.
    fn node_from_schema(
        schema: &SchemaNode,
        globals: &SortedMap<SchemaNode>,
        resolving: &Vec<bool>,
    ) -> (r: Result<TSType, Error>)
        ensures
            structure_matches(r, structure_of(*schema, globals@, resolving@)),
        decreases idle(resolving@, globals@.len()), schema, 1nat,
    {
        proof {
            lemma_structure_of(*schema, globals@, resolving@);
        }
        match schema {
            SchemaNode::Empty => Ok(TSType::NeverObject),
            SchemaNode::Type { nullable, type_ } => Ok(
                TSType::Scalar {
                    value: match type_ {
                        ScalarType::Int8 | ScalarType::Int16 | ScalarType::Int32
                        | ScalarType::Uint8 | ScalarType::Uint16 | ScalarType::Uint32
                        | ScalarType::Float32 | ScalarType::Float64 => "number",
                        ScalarType::String | ScalarType::Timestamp => "string",
                        ScalarType::Boolean => "bool",
                    },
                    nullable: *nullable,
                },
            ),
            SchemaNode::Enum { nullable, enum_, .. } => Ok(
                TSType::literals_from_schema(enum_, *nullable),
            ),
            SchemaNode::Ref { definitions, nullable, ref_ } => {
                proof {
                    lemma_index_of(definitions@, ref_@);
                    lemma_index_of(globals@, ref_@);
                }
                let pointee = match definitions.position(ref_.as_str()) {
                    Some(local) => {
                        proof {
                            definitions.lemma_value_decreases(local as int);
                        }
                        TSType::node_from_schema(definitions.value_at(local), globals, resolving)
                    },
                    None => match globals.position(ref_.as_str()) {
                        None => {
                            let mut cause = String::from_str("could not find a definition for `");
                            cause.append(ref_.as_str());
                            cause.append("`");
                            Err(Error::new(ErrorKind::UnresolvedReference, cause))
                        },
                        Some(global) => {
                            if global < resolving.len() && resolving[global] {
                                let mut cause = String::from_str("the definition `");
                                cause.append(ref_.as_str());
                                cause.append("` refers to itself");
                                Err(Error::new(ErrorKind::CyclicReference, cause))
                            } else {
                                let marked = mark_flags(resolving, globals.len(), global);
                                proof {
                                    lemma_mark_idle(
                                        resolving@,
                                        globals@.len(),
                                        global as int,
                                        globals@.len(),
                                    );
                                }
                                TSType::node_from_schema(
                                    globals.value_at(global),
                                    globals,
                                    &marked,
                                )
                            }
                        },
                    },
                };
                match pointee {
                    Err(e) => Err(e),
                    Ok(t) => {
                        let mut t = t;
                        t.set_nullable(*nullable);
                        Ok(t)
                    },
                }
            },
            SchemaNode::Elements { nullable, elements } => {
                match TSType::node_from_schema(elements, globals, resolving) {
                    Err(e) => Err(e),
                    Ok(t) => Ok(TSType::List { elements: Box::new(t), nullable: *nullable }),
                }
            },
            SchemaNode::Values { nullable, values } => {
                match TSType::node_from_schema(values, globals, resolving) {
                    Err(e) => Err(e),
                    Ok(t) => Ok(TSType::Record { values: Box::new(t), nullable: *nullable }),
                }
            },
            SchemaNode::Properties { nullable, properties, optional_properties, .. } => {
                let required = match TSType::members_from_schema(
                    properties,
                    globals,
                    None,
                    resolving,
                ) {
                    Err(e) => {
                        return Err(e);
                    },
                    Ok(types) => types,
                };
                let optional = match TSType::members_from_schema(
                    optional_properties,
                    globals,
                    None,
                    resolving,
                ) {
                    Err(e) => {
                        return Err(e);
                    },
                    Ok(types) => types,
                };
                let mut stored: SortedMap<(TSType, FieldPresence)> = SortedMap::new();
                proof {
                    assert(properties_model(stored@) =~= Seq::empty());
                }
                TSType::store_properties(&mut stored, required, FieldPresence::Required);
                TSType::store_properties(&mut stored, optional, FieldPresence::Optional);
                let t = TSType::Object { properties: stored, nullable: *nullable };
                proof {
                    lemma_model(t);
                }
                Ok(t)
            },
            SchemaNode::Discriminator {
                nullable,
                discriminator: tag_field,
                mapping,
                ..
            } => {
                let types = match TSType::members_from_schema(
                    mapping,
                    globals,
                    Some(tag_field),
                    resolving,
                ) {
                    Err(e) => {
                        return Err(e);
                    },
                    Ok(types) => types,
                };
                let ghost keyed = keyed_models(types@);
                let mut members: Vec<TSType> = Vec::new();
                for entry in it: types.into_iter()
                    invariant
                        it.seq() == types@,
                        members@.len() == it.index(),
                        forall|j: int|
                            0 <= j < it.index() ==> (#[trigger] members@[j])@ == types@[j].1@,
                {
                    proof {
                        assert(entry == types@[it.index() as int]);
                    }
                    members.push(entry.1);
                }
                let t = TSType::Union { members, nullable: *nullable };
                proof {
                    lemma_model(t);
                    assert(members_model(members@) =~= types_only(keyed));
                }
                Ok(t)
            },
        }
    }

    /// Translates a schema node to the structural type of its values.
    /// `globals` are the definitions that every schema may refer to.
    pub fn from_schema(schema: &SchemaNode, globals: &SortedMap<SchemaNode>) -> (r: Result<
        TSType,
        Error,
    >)
        ensures
            structure_matches(
                r,
                structure_of(*schema, globals@, none_in_progress(globals@.len())),
            ),
    {
        let resolving = no_flags(globals.len());
        TSType::node_from_schema(schema, globals, &resolving)
    }
}

} // verus!
