//! Structural types of the second target, and the declarations that wrap
//! them: type aliases, functions, namespaces and the module around them.

use crate::sorted_map::{Entries, SortedMap};
use vstd::prelude::*;
use vstd::string::*;

verus! {

/// Whether a property of an object type must be there.
#[derive(Debug, PartialEq, Eq, Clone, Copy, Structural)]
pub enum FieldPresence {
    Required,
    Optional,
}

/// A structural type, or a declaration made of such types.
#[derive(Debug, PartialEq, Eq)]
#[allow(inconsistent_fields)]
pub enum TSType {
    Object { properties: SortedMap<(TSType, FieldPresence)>, nullable: bool },
    NeverObject,
    Record { values: Box<TSType>, nullable: bool },
    Scalar { value: &'static str, nullable: bool },
    StringScalar(String),
    TypeRef(String),
    Union { members: Vec<TSType>, nullable: bool },
    List { elements: Box<TSType>, nullable: bool },
    Function { args: SortedMap<TSType>, returning: Box<TSType> },
    TypeDecl { name: String, definition: Box<TSType> },
    ModuleDecl { name: String, members: Vec<TSType> },
    NamespaceDecl { name: String, members: Vec<TSType> },
    NamedFunctionDecl { name: String, function: Box<TSType> },
}

/// A [`TSType`] with its texts as plain sequences of characters.
#[allow(inconsistent_fields)]
pub ghost enum TSTypeModel {
    Object { properties: Entries<(TSTypeModel, FieldPresence)>, nullable: bool },
    NeverObject,
    Record { values: Box<TSTypeModel>, nullable: bool },
    Scalar { value: Seq<char>, nullable: bool },
    StringScalar(Seq<char>),
    TypeRef(Seq<char>),
    Union { members: Seq<TSTypeModel>, nullable: bool },
    List { elements: Box<TSTypeModel>, nullable: bool },
    Function { args: Entries<TSTypeModel>, returning: Box<TSTypeModel> },
    TypeDecl { name: Seq<char>, definition: Box<TSTypeModel> },
    ModuleDecl { name: Seq<char>, members: Seq<TSTypeModel> },
    NamespaceDecl { name: Seq<char>, members: Seq<TSTypeModel> },
    NamedFunctionDecl { name: Seq<char>, function: Box<TSTypeModel> },
}

impl TSType {
    /// The model of a type.
    pub open spec fn model(self) -> TSTypeModel
        decreases self,
    {
        match self {
            TSType::Object { properties, nullable } => TSTypeModel::Object {
                properties: Seq::new(
                    properties@.len(),
                    |i: int|
                        if 0 <= i < properties@.len() {
                            proof {
                                properties.lemma_value_decreases(i);
                            }
                            (properties@[i].0, (properties@[i].1.0.model(), properties@[i].1.1))
                        } else {
                            arbitrary()
                        },
                ),
                nullable,
            },
            TSType::NeverObject => TSTypeModel::NeverObject,
            TSType::Record { values, nullable } => TSTypeModel::Record {
                values: Box::new(values.model()),
                nullable,
            },
            TSType::Scalar { value, nullable } => TSTypeModel::Scalar { value: value@, nullable },
            TSType::StringScalar(text) => TSTypeModel::StringScalar(text@),
            TSType::TypeRef(name) => TSTypeModel::TypeRef(name@),
            TSType::Union { members, nullable } => TSTypeModel::Union {
                members: Seq::new(
                    members@.len(),
                    |i: int|
                        if 0 <= i < members@.len() {
                            members@[i].model()
                        } else {
                            arbitrary()
                        },
                ),
                nullable,
            },
            TSType::List { elements, nullable } => TSTypeModel::List {
                elements: Box::new(elements.model()),
                nullable,
            },
            TSType::Function { args, returning } => TSTypeModel::Function {
                args: Seq::new(
                    args@.len(),
                    |i: int|
                        if 0 <= i < args@.len() {
                            proof {
                                args.lemma_value_decreases(i);
                            }
                            (args@[i].0, args@[i].1.model())
                        } else {
                            arbitrary()
                        },
                ),
                returning: Box::new(returning.model()),
            },
            TSType::TypeDecl { name, definition } => TSTypeModel::TypeDecl {
                name: name@,
                definition: Box::new(definition.model()),
            },
            TSType::ModuleDecl { name, members } => TSTypeModel::ModuleDecl {
                name: name@,
                members: Seq::new(
                    members@.len(),
                    |i: int|
                        if 0 <= i < members@.len() {
                            members@[i].model()
                        } else {
                            arbitrary()
                        },
                ),
            },
            TSType::NamespaceDecl { name, members } => TSTypeModel::NamespaceDecl {
                name: name@,
                members: Seq::new(
                    members@.len(),
                    |i: int|
                        if 0 <= i < members@.len() {
                            members@[i].model()
                        } else {
                            arbitrary()
                        },
                ),
            },
            TSType::NamedFunctionDecl { name, function } => TSTypeModel::NamedFunctionDecl {
                name: name@,
                function: Box::new(function.model()),
            },
        }
    }
}

impl View for TSType {
    type V = TSTypeModel;

    open spec fn view(&self) -> TSTypeModel {
        self.model()
    }
}

/// The models of the properties of an object type.
pub open spec fn properties_model(properties: Entries<(TSType, FieldPresence)>) -> Entries<
    (TSTypeModel, FieldPresence),
> {
    Seq::new(properties.len(), |i: int| (properties[i].0, (properties[i].1.0@, properties[i].1.1)))
}

/// The models of the arguments of a function type.
pub open spec fn args_model(args: Entries<TSType>) -> Entries<TSTypeModel> {
    Seq::new(args.len(), |i: int| (args[i].0, args[i].1@))
}

/// The models of a list of types.
pub open spec fn members_model(members: Seq<TSType>) -> Seq<TSTypeModel> {
    Seq::new(members.len(), |i: int| members[i]@)
}

/// The model of a type, said over the models of its parts.
pub proof fn lemma_model(t: TSType)
    ensures
        t is Object ==> t@ == (TSTypeModel::Object {
            properties: properties_model(t->properties@),
            nullable: t->Object_nullable,
        }),
        t is Union ==> t@ == (TSTypeModel::Union {
            members: members_model(t->Union_members@),
            nullable: t->Union_nullable,
        }),
        t is Function ==> t@ == (TSTypeModel::Function {
            args: args_model(t->args@),
            returning: Box::new((*t->returning)@),
        }),
        t is ModuleDecl ==> t@ == (TSTypeModel::ModuleDecl {
            name: t->ModuleDecl_name@,
            members: members_model(t->ModuleDecl_members@),
        }),
        t is NamespaceDecl ==> t@ == (TSTypeModel::NamespaceDecl {
            name: t->NamespaceDecl_name@,
            members: members_model(t->NamespaceDecl_members@),
        }),
{
    if t is Object {
        assert(t@->properties =~= properties_model(t->properties@));
    }
    if t is Union {
        assert(t@->Union_members =~= members_model(t->Union_members@));
    }
    if t is Function {
        assert(t@->args =~= args_model(t->args@));
    }
    if t is ModuleDecl {
        assert(t@->ModuleDecl_members =~= members_model(t->ModuleDecl_members@));
    }
    if t is NamespaceDecl {
        assert(t@->NamespaceDecl_members =~= members_model(t->NamespaceDecl_members@));
    }
}

} // verus!
