//! Constructors for the types and declarations that the generated file is
//! made of.

use crate::error::{failure, Error, ErrorKind, ErrorModel};
use crate::sorted_map::{inserted, lemma_lower_bound, lemma_same_keys, Entries, SortedMap};
use crate::typescript::model::{
    args_model, lemma_model, members_model, properties_model, FieldPresence, TSType, TSTypeModel,
};
use vstd::prelude::*;
use vstd::string::*;

verus! {

/// The type that stands for "nothing": the result of a function that only
/// acts.
pub open spec fn void_type() -> TSTypeModel {
    TSTypeModel::Scalar { value: "void"@, nullable: false }
}

/// An object type with the single property `key`.
pub open spec fn singleton_object(key: Seq<char>, value: TSTypeModel, presence: FieldPresence) -> TSTypeModel {
    TSTypeModel::Object { properties: seq![(key, (value, presence))], nullable: false }
}

/// A function type with the single argument `name`, which gives nothing back.
pub open spec fn procedure(name: Seq<char>, argument: TSTypeModel) -> TSTypeModel {
    TSTypeModel::Function { args: seq![(name, argument)], returning: Box::new(void_type()) }
}

/// The function through which the host sends a value to the application.
pub open spec fn send_function(value: TSTypeModel) -> TSTypeModel {
    procedure("value"@, value)
}

/// The function through which the host subscribes to values that the
/// application sends: it takes a callback that takes the value.
pub open spec fn subscribe_function(value: TSTypeModel) -> TSTypeModel {
    procedure("callback"@, procedure("value"@, value))
}

/// The declaration of the function that starts the application: it takes
/// the node to mount on, the flags, and optionally the ports, and gives
/// nothing back.
pub open spec fn init_function(flags: TSTypeModel) -> TSTypeModel {
    TSTypeModel::NamedFunctionDecl {
        name: "init"@,
        function: Box::new(
            procedure(
                "config"@,
                TSTypeModel::Object {
                    properties: seq![
                        ("flags"@, (flags, FieldPresence::Required)),
                        (
                            "node"@,
                            (
                                TSTypeModel::Scalar { value: "HTMLElement"@, nullable: false },
                                FieldPresence::Required,
                            ),
                        ),
                        ("ports"@, (TSTypeModel::TypeRef("Ports"@), FieldPresence::Optional)),
                    ],
                    nullable: false,
                },
            ),
        ),
    }
}

/// The failure of adding a property to something that is no object type.
pub open spec fn not_an_object() -> ErrorModel {
    failure(ErrorKind::DiscriminatorTargetInvalid, "add_key_to_object only works on objects"@)
}

/// The type `t` with the required property `key` added, if it is an object
/// type.
pub open spec fn with_key(t: TSTypeModel, key: Seq<char>, value: TSTypeModel) -> Result<
    TSTypeModel,
    ErrorModel,
> {
    match t {
        TSTypeModel::Object { properties, nullable } => Ok(
            TSTypeModel::Object {
                properties: inserted(properties, key, (value, FieldPresence::Required)),
                nullable,
            },
        ),
        _ => Err(not_an_object()),
    }
}

/// Storing a property commutes with taking models.
pub proof fn lemma_properties_inserted(
    properties: Entries<(TSType, FieldPresence)>,
    key: Seq<char>,
    value: (TSType, FieldPresence),
)
    ensures
        properties_model(inserted(properties, key, value)) == inserted(
            properties_model(properties),
            key,
            (value.0@, value.1),
        ),
{
    lemma_same_keys(properties, properties_model(properties), key);
    lemma_lower_bound(properties, key);
    assert(properties_model(inserted(properties, key, value)) =~= inserted(
        properties_model(properties),
        key,
        (value.0@, value.1),
    ));
}

/// Storing an argument commutes with taking models.
pub proof fn lemma_args_inserted(args: Entries<TSType>, key: Seq<char>, value: TSType)
    ensures
        args_model(inserted(args, key, value)) == inserted(args_model(args), key, value@),
{
    lemma_same_keys(args, args_model(args), key);
    lemma_lower_bound(args, key);
    assert(args_model(inserted(args, key, value)) =~= inserted(args_model(args), key, value@));
}

impl TSType {
    /// An object type with the given properties.
    pub fn new_object(properties: SortedMap<(TSType, FieldPresence)>) -> (t: Self)
        ensures
            t@ == (TSTypeModel::Object {
                properties: properties_model(properties@),
                nullable: false,
            }),
    {
        let t = TSType::Object { properties, nullable: false };
        proof {
            lemma_model(t);
        }
        t
    }

    /// An object type with one property.
    pub fn new_singleton_object(key: &str, value: TSType, presence: FieldPresence) -> (t: Self)
        ensures
            t@ == singleton_object(key@, value@, presence),
    {
        let mut properties: SortedMap<(TSType, FieldPresence)> = SortedMap::new();
        properties.insert(key.to_owned(), (value, presence));
        let t = TSType::Object { properties, nullable: false };
        proof {
            lemma_model(t);
            assert(properties_model(properties@) =~= seq![(key@, (value@, presence))]);
        }
        t
    }

    /// Adds the required property `key` to an object type. Anything else is
    /// left as it is and refused.
    pub fn add_key_to_object(&mut self, key: &str, value: TSType) -> (r: Result<(), Error>)
        ensures
            match r {
                Ok(_) => with_key(old(self)@, key@, value@) == Ok::<TSTypeModel, ErrorModel>(
                    final(self)@,
                ),
                Err(e) => with_key(old(self)@, key@, value@) == Err::<TSTypeModel, ErrorModel>(
                    e@,
                ) && final(self)@ == old(self)@,
            },
    {
        proof {
            lemma_model(*self);
        }
        match self {
            TSType::Object { properties, .. } => {
                proof {
                    lemma_properties_inserted(
                        properties@,
                        key@,
                        (value, FieldPresence::Required),
                    );
                }
                properties.insert(key.to_owned(), (value, FieldPresence::Required));
                proof {
                    lemma_model(*self);
                }
                Ok(())
            },
            _ => Err(
                Error::new(
                    ErrorKind::DiscriminatorTargetInvalid,
                    String::from_str("add_key_to_object only works on objects"),
                ),
            ),
        }
    }

    /// The type of an object that can have no property at all.
    pub fn new_neverobject() -> (t: Self)
        ensures
            t@ == TSTypeModel::NeverObject,
    {
        TSType::NeverObject
    }

    /// A function type.
    pub fn new_function(args: SortedMap<TSType>, returning: TSType) -> (t: Self)
        ensures
            t@ == (TSTypeModel::Function {
                args: args_model(args@),
                returning: Box::new(returning@),
            }),
    {
        let t = TSType::Function { args, returning: Box::new(returning) };
        proof {
            lemma_model(t);
        }
        t
    }

    /// The type of no value.
    pub fn new_void() -> (t: Self)
        ensures
            t@ == void_type(),
    {
        TSType::Scalar { value: "void", nullable: false }
    }

    /// A function type with one argument that gives nothing back.
    fn new_procedure(name: &str, argument: TSType) -> (t: Self)
        ensures
            t@ == procedure(name@, argument@),
    {
        let mut args: SortedMap<TSType> = SortedMap::new();
        proof {
            lemma_args_inserted(args@, name@, argument);
            assert(args_model(args@) =~= Seq::empty());
        }
        args.insert(name.to_owned(), argument);
        proof {
            assert(args_model(args@) =~= seq![(name@, argument@)]);
        }
        TSType::new_function(args, TSType::new_void())
    }

    /// The declaration of the function that starts the application with the
    /// given type of flags.
    pub fn new_init(flags: TSType) -> (t: Self)
        ensures
            t@ == init_function(flags@),
    {
        let mut config: SortedMap<(TSType, FieldPresence)> = SortedMap::new();
        let node = TSType::Scalar { value: "HTMLElement", nullable: false };
        let ports = TSType::new_ref("Ports");
        let ghost first = (flags, FieldPresence::Required);
        let ghost second = (node, FieldPresence::Required);
        let ghost third = (ports, FieldPresence::Optional);
        proof {
            reveal_strlit("flags");
            reveal_strlit("node");
            reveal_strlit("ports");
            lemma_order_of_config();
        }
        config.insert(String::from_str("flags"), (flags, FieldPresence::Required));
        proof {
            crate::sorted_map::lemma_inserted_last(Seq::empty(), "flags"@, first);
            assert(config@ =~= seq![("flags"@, first)]);
        }
        config.insert(String::from_str("node"), (node, FieldPresence::Required));
        proof {
            crate::sorted_map::lemma_inserted_last(seq![("flags"@, first)], "node"@, second);
            assert(config@ =~= seq![("flags"@, first), ("node"@, second)]);
        }
        config.insert(String::from_str("ports"), (ports, FieldPresence::Optional));
        proof {
            crate::sorted_map::lemma_inserted_last(
                seq![("flags"@, first), ("node"@, second)],
                "ports"@,
                third,
            );
            assert(config@ =~= seq![("flags"@, first), ("node"@, second), ("ports"@, third)]);
            assert(properties_model(config@) =~= seq![
                ("flags"@, (flags@, FieldPresence::Required)),
                ("node"@, (node@, FieldPresence::Required)),
                ("ports"@, (ports@, FieldPresence::Optional)),
            ]);
        }
        let function = TSType::new_procedure("config", TSType::new_object(config));
        TSType::new_named_function("init", function)
    }

    /// The function through which the host sends a value to the application.
    pub fn new_send_function(value: TSType) -> (t: Self)
        ensures
            t@ == send_function(value@),
    {
        TSType::new_procedure("value", value)
    }

    /// The function through which the host subscribes to the values that the
    /// application sends.
    pub fn new_subscribe_function(value: TSType) -> (t: Self)
        ensures
            t@ == subscribe_function(value@),
    {
        TSType::new_procedure("callback", TSType::new_procedure("value", value))
    }

    /// A reference to a type by its name.
    pub fn new_ref(name: &str) -> (t: Self)
        ensures
            t@ == TSTypeModel::TypeRef(name@),
    {
        TSType::TypeRef(name.to_owned())
    }

    /// The declaration of the module that holds all namespaces.
    pub fn new_module(name: &str, members: Vec<TSType>) -> (t: Self)
        ensures
            t@ == (TSTypeModel::ModuleDecl { name: name@, members: members_model(members@) }),
    {
        let t = TSType::ModuleDecl { name: name.to_owned(), members };
        proof {
            lemma_model(t);
        }
        t
    }

    /// The declaration of a namespace.
    pub fn new_namespace(name: &str, members: Vec<TSType>) -> (t: Self)
        ensures
            t@ == (TSTypeModel::NamespaceDecl { name: name@, members: members_model(members@) }),
    {
        let t = TSType::NamespaceDecl { name: name.to_owned(), members };
        proof {
            lemma_model(t);
        }
        t
    }

    /// The declaration of a function under a name.
    pub fn new_named_function(name: &str, function: TSType) -> (t: Self)
        ensures
            t@ == (TSTypeModel::NamedFunctionDecl { name: name@, function: Box::new(function@) }),
    {
        TSType::NamedFunctionDecl { name: name.to_owned(), function: Box::new(function) }
    }

    /// The declaration of the function that starts an application whose
    /// flags have this type.
    pub fn into_init(self) -> (t: Self)
        ensures
            t@ == init_function(self@),
    {
        TSType::new_init(self)
    }

    /// The declaration of this type under a name.
    pub fn into_typedecl(self, name: &str) -> (t: Self)
        ensures
            t@ == (TSTypeModel::TypeDecl { name: name@, definition: Box::new(self@) }),
    {
        TSType::TypeDecl { name: name.to_owned(), definition: Box::new(self) }
    }
}

/// The three keys of the configuration come in this order.
proof fn lemma_order_of_config()
    ensures
        crate::text::key_lt("flags"@, "node"@),
        crate::text::key_lt("flags"@, "ports"@),
        crate::text::key_lt("node"@, "ports"@),
{
    reveal_strlit("flags");
    reveal_strlit("node");
    reveal_strlit("ports");
    lemma_first_char_decides("flags"@, "node"@);
    lemma_first_char_decides("flags"@, "ports"@);
    lemma_first_char_decides("node"@, "ports"@);
}

/// Of two texts that start with ASCII characters, the one with the smaller
/// first character comes first.
proof fn lemma_first_char_decides(a: Seq<char>, b: Seq<char>)
    requires
        a.len() > 0,
        b.len() > 0,
        (a[0] as u32) < (b[0] as u32),
        (b[0] as u32) < 128,
    ensures
        crate::text::key_lt(a, b),
{
    let x = vstd::utf8::encode_utf8(a);
    let y = vstd::utf8::encode_utf8(b);
    let p = a[0] as u32;
    let q = b[0] as u32;
    assert(x == vstd::utf8::encode_scalar(p) + vstd::utf8::encode_utf8(a.drop_first()));
    assert(y == vstd::utf8::encode_scalar(q) + vstd::utf8::encode_utf8(b.drop_first()));
    assert(vstd::utf8::encode_scalar(p) == seq![vstd::utf8::leading_byte_width_1(p)]);
    assert(vstd::utf8::encode_scalar(q) == seq![vstd::utf8::leading_byte_width_1(q)]);
    assert(((p & 0x7F) as u8) < ((q & 0x7F) as u8)) by (bit_vector)
        requires
            p < q,
            q < 128,
    ;
    assert(x[0] == vstd::utf8::leading_byte_width_1(p));
    assert(y[0] == vstd::utf8::leading_byte_width_1(q));
}

} // verus!
