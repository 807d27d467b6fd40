//! The types and declarations that a schema is translated to, before any
//! source text is written.

use crate::inflected_string::InflectedString;
use crate::sorted_map::{lemma_inserted_last, sorted_keys, Entries, SortedMap};
use vstd::prelude::*;

verus! {

/// Whether a record field must be there.
#[derive(Debug, PartialEq, Eq, Clone, Copy, Structural)]
pub enum RecordPresence {
    Required,
    Optional,
}

/// The type of a value.
#[derive(Debug, PartialEq, Eq)]
pub enum Type {
    Int,
    Float,
    Bool,
    String,
    Maybe(Box<Type>),
    Unit,
    DictWithStringKeys(Box<Type>),
    List(Box<Type>),
    Ref(InflectedString),
    Record(SortedMap<(Type, RecordPresence)>),
}

/// A [`Type`] with its names as plain sequences of characters.
pub ghost enum TypeModel {
    Int,
    Float,
    Bool,
    String,
    Maybe(Box<TypeModel>),
    Unit,
    DictWithStringKeys(Box<TypeModel>),
    List(Box<TypeModel>),
    Ref(Seq<char>),
    Record(Entries<(TypeModel, RecordPresence)>),
}

/// A named declaration at the top level of a module.
#[derive(Debug, PartialEq, Eq)]
#[allow(inconsistent_fields)]
pub enum Decl {
    /// A custom type with one constructor for each case.
    CustomTypeEnum {
        name: InflectedString,
        discriminator: Option<String>,
        constructor_prefix: InflectedString,
        cases: SortedMap<Option<Type>>,
    },
    /// A name for a type. A record that is a member of a union carries the
    /// tag field and the tag value by which the union tells it apart.
    TypeAlias { name: InflectedString, type_: Type, discriminator: Option<(String, String)> },
}

/// A [`Decl`] with its names as plain sequences of characters.
#[allow(inconsistent_fields)]
pub ghost enum DeclModel {
    CustomTypeEnum {
        name: Seq<char>,
        discriminator: Option<Seq<char>>,
        constructor_prefix: Seq<char>,
        cases: Entries<Option<TypeModel>>,
    },
    TypeAlias { name: Seq<char>, type_: TypeModel, discriminator: Option<(Seq<char>, Seq<char>)> },
}

impl Type {
    /// The model of a type.
    pub open spec fn model(self) -> TypeModel
        decreases self,
    {
        match self {
            Type::Int => TypeModel::Int,
            Type::Float => TypeModel::Float,
            Type::Bool => TypeModel::Bool,
            Type::String => TypeModel::String,
            Type::Maybe(inner) => TypeModel::Maybe(Box::new(inner.model())),
            Type::Unit => TypeModel::Unit,
            Type::DictWithStringKeys(inner) => TypeModel::DictWithStringKeys(
                Box::new(inner.model()),
            ),
            Type::List(inner) => TypeModel::List(Box::new(inner.model())),
            Type::Ref(name) => TypeModel::Ref(name@),
            Type::Record(fields) => TypeModel::Record(
                Seq::new(
                    fields@.len(),
                    |i: int|
                        if 0 <= i < fields@.len() {
                            proof {
                                fields.lemma_value_decreases(i);
                            }
                            (fields@[i].0, (fields@[i].1.0.model(), fields@[i].1.1))
                        } else {
                            arbitrary()
                        },
                ),
            ),
        }
    }
}

impl View for Type {
    type V = TypeModel;

    open spec fn view(&self) -> TypeModel {
        self.model()
    }
}

/// The model of a type that may be absent.
pub open spec fn optional_type_model(t: Option<Type>) -> Option<TypeModel> {
    match t {
        Some(t) => Some(t@),
        None => None,
    }
}

/// The model of the cases of a custom type.
pub open spec fn cases_model(cases: Entries<Option<Type>>) -> Entries<Option<TypeModel>> {
    Seq::new(cases.len(), |i: int| (cases[i].0, optional_type_model(cases[i].1)))
}

/// The model of the fields of a record.
pub open spec fn fields_model(fields: Entries<(Type, RecordPresence)>) -> Entries<
    (TypeModel, RecordPresence),
> {
    Seq::new(fields.len(), |i: int| (fields[i].0, (fields[i].1.0@, fields[i].1.1)))
}

/// The model of a tag field and a tag value.
pub open spec fn pair_model(pair: Option<(String, String)>) -> Option<(Seq<char>, Seq<char>)> {
    match pair {
        Some((tag, value)) => Some((tag@, value@)),
        None => None,
    }
}

/// The model of a text that may be absent.
pub open spec fn optional_text(text: Option<String>) -> Option<Seq<char>> {
    match text {
        Some(t) => Some(t@),
        None => None,
    }
}

impl View for Decl {
    type V = DeclModel;

    open spec fn view(&self) -> DeclModel {
        match self {
            Decl::CustomTypeEnum { name, discriminator, constructor_prefix, cases } => {
                DeclModel::CustomTypeEnum {
                    name: name@,
                    discriminator: optional_text(*discriminator),
                    constructor_prefix: constructor_prefix@,
                    cases: cases_model(cases@),
                }
            },
            Decl::TypeAlias { name, type_, discriminator } => DeclModel::TypeAlias {
                name: name@,
                type_: type_@,
                discriminator: pair_model(*discriminator),
            },
        }
    }
}

/// The models of a list of declarations.
pub open spec fn decl_models(decls: Seq<Decl>) -> Seq<DeclModel> {
    decls.map_values(|d: Decl| d@)
}

impl DeclModel {
    /// The name under which the declaration is known.
    pub open spec fn name(self) -> Seq<char> {
        match self {
            DeclModel::CustomTypeEnum { name, .. } => name,
            DeclModel::TypeAlias { name, .. } => name,
        }
    }
}

impl TypeModel {
    /// Nowhere in the type does a `Maybe` directly hold another `Maybe`.
    pub open spec fn is_flat(self) -> bool
        decreases self,
    {
        match self {
            TypeModel::Maybe(inner) => !(*inner is Maybe) && inner.is_flat(),
            TypeModel::DictWithStringKeys(inner) => inner.is_flat(),
            TypeModel::List(inner) => inner.is_flat(),
            TypeModel::Record(fields) => forall|i: int|
                0 <= i < fields.len() ==> (#[trigger] fields[i]).1.0.is_flat(),
            _ => true,
        }
    }
}

impl DeclModel {
    /// Nowhere in the declaration does a `Maybe` directly hold another
    /// `Maybe`.
    pub open spec fn is_flat(self) -> bool {
        match self {
            DeclModel::CustomTypeEnum { cases, .. } => forall|i: int|
                0 <= i < cases.len() ==> (match (#[trigger] cases[i]).1 {
                    Some(t) => t.is_flat(),
                    None => true,
                }),
            DeclModel::TypeAlias { type_, .. } => type_.is_flat(),
        }
    }
}

/// Whether every declaration is flat.
pub open spec fn all_flat(decls: Seq<DeclModel>) -> bool {
    forall|i: int| 0 <= i < decls.len() ==> (#[trigger] decls[i]).is_flat()
}

/// The fields of a record in a type's model are those of the record.
pub proof fn lemma_record_model(t: Type)
    requires
        t is Record,
    ensures
        t@ == TypeModel::Record(fields_model(t->Record_0@)),
{
    assert(t@->Record_0 =~= fields_model(t->Record_0@));
}

impl Clone for Type {
    fn clone(&self) -> (copy: Self)
        ensures
            copy@ == self@,
        decreases self,
    {
        match self {
            Type::Int => Type::Int,
            Type::Float => Type::Float,
            Type::Bool => Type::Bool,
            Type::String => Type::String,
            Type::Maybe(inner) => Type::Maybe(Box::new((**inner).clone())),
            Type::Unit => Type::Unit,
            Type::DictWithStringKeys(inner) => Type::DictWithStringKeys(
                Box::new((**inner).clone()),
            ),
            Type::List(inner) => Type::List(Box::new((**inner).clone())),
            Type::Ref(name) => Type::Ref(name.clone()),
            Type::Record(fields) => {
                let mut copy: SortedMap<(Type, RecordPresence)> = SortedMap::new();
                let n = fields.len();
                let mut i: usize = 0;
                while i < n
                    invariant
                        i <= n,
                        n == fields@.len(),
                        sorted_keys(fields@),
                        self->Record_0 == *fields,
                        self is Record,
                        copy@.len() == i,
                        forall|j: int|
                            0 <= j < i ==> (#[trigger] copy@[j]).0 == fields@[j].0 && copy@[j].1.0@
                                == fields@[j].1.0@ && copy@[j].1.1 == fields@[j].1.1,
                    decreases n - i,
                {
                    proof {
                        fields.lemma_value_decreases(i as int);
                        assert(decreases_to!(*self => self->Record_0));
                    }
                    let field = fields.value_at(i);
                    let field_type = field.0.clone();
                    let key = fields.key_at(i).clone();
                    proof {
                        let before = copy@;
                        assert forall|j: int| 0 <= j < before.len() implies crate::text::key_lt(
                            (#[trigger] before[j]).0,
                            key@,
                        ) by {
                            assert(before[j].0 == fields@[j].0);
                        }
                        lemma_inserted_last(before, key@, (field_type, field.1));
                    }
                    copy.insert(key, (field_type, field.1));
                    i += 1;
                }
                let result = Type::Record(copy);
                proof {
                    lemma_record_model(result);
                    lemma_record_model(*self);
                    assert(fields_model(copy@) =~= fields_model(fields@));
                }
                result
            },
        }
    }
}

/// A copy of a type that may be absent.
pub fn clone_optional_type(t: &Option<Type>) -> (copy: Option<Type>)
    ensures
        optional_type_model(copy) == optional_type_model(*t),
{
    match t {
        Some(t) => Some(t.clone()),
        None => None,
    }
}

impl Clone for Decl {
    fn clone(&self) -> (copy: Self)
        ensures
            copy@ == self@,
    {
        match self {
            Decl::CustomTypeEnum { name, discriminator, constructor_prefix, cases } => {
                let mut copy: SortedMap<Option<Type>> = SortedMap::new();
                let n = cases.len();
                let mut i: usize = 0;
                while i < n
                    invariant
                        i <= n,
                        n == cases@.len(),
                        sorted_keys(cases@),
                        copy@.len() == i,
                        forall|j: int|
                            0 <= j < i ==> (#[trigger] copy@[j]).0 == cases@[j].0
                                && optional_type_model(copy@[j].1) == optional_type_model(
                                cases@[j].1,
                            ),
                    decreases n - i,
                {
                    let case = clone_optional_type(cases.value_at(i));
                    let key = cases.key_at(i).clone();
                    proof {
                        let before = copy@;
                        assert forall|j: int| 0 <= j < before.len() implies crate::text::key_lt(
                            (#[trigger] before[j]).0,
                            key@,
                        ) by {
                            assert(before[j].0 == cases@[j].0);
                        }
                        lemma_inserted_last(before, key@, case);
                    }
                    copy.insert(key, case);
                    i += 1;
                }
                proof {
                    assert(cases_model(copy@) =~= cases_model(cases@));
                }
                Decl::CustomTypeEnum {
                    name: name.clone(),
                    discriminator: match discriminator {
                        Some(d) => Some(d.clone()),
                        None => None,
                    },
                    constructor_prefix: constructor_prefix.clone(),
                    cases: copy,
                }
            },
            Decl::TypeAlias { name, type_, discriminator } => Decl::TypeAlias {
                name: name.clone(),
                type_: type_.clone(),
                discriminator: match discriminator {
                    Some((tag, value)) => Some((tag.clone(), value.clone())),
                    None => None,
                },
            },
        }
    }
}

} // verus!
