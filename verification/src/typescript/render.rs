//! How structural types and declarations are written.

use crate::sorted_map::Entries;
use crate::text::{contains_char, replace_char, replace_char_with};
use crate::typescript::model::{
    args_model, lemma_model, members_model, properties_model, FieldPresence, TSType, TSTypeModel,
};
use vstd::prelude::*;
use vstd::string::*;

verus! {

/// What follows a type that also admits `null`.
pub open spec fn nullable_suffix(nullable: bool) -> Seq<char> {
    if nullable {
        " | null"@
    } else {
        Seq::empty()
    }
}

/// The mark behind the key of a property: a `?` where it may be left out.
pub open spec fn presence_mark(presence: FieldPresence) -> Seq<char> {
    match presence {
        FieldPresence::Required => Seq::empty(),
        FieldPresence::Optional => "?"@,
    }
}

/// The element type of a list with `[]` behind it, in parentheses where it
/// holds a space.
pub open spec fn list_of(elements: Seq<char>) -> Seq<char> {
    if elements.contains(' ') {
        "("@ + elements + ")[]"@
    } else {
        elements + "[]"@
    }
}

/// What stands between the arguments of a function and its result: a colon
/// in a declaration, an arrow in a type.
pub open spec fn result_mark(toplevel: bool) -> Seq<char> {
    if toplevel {
        "): "@
    } else {
        ") => "@
    }
}

/// The source text of a type or declaration. `toplevel` says that a function
/// is written as part of a declaration rather than as a type.
pub open spec fn ts_source(t: TSTypeModel, toplevel: bool) -> Seq<char>
    decreases t,
{
    match t {
        TSTypeModel::Object { properties, nullable } => "{\n"@ + properties_source(properties)
            + "}"@ + nullable_suffix(nullable),
        TSTypeModel::NeverObject => "Record<string, never>"@,
        TSTypeModel::Record { values, nullable } => "Record<string, "@ + ts_source(*values, false)
            + ">"@ + nullable_suffix(nullable),
        TSTypeModel::Scalar { value, nullable } => value + nullable_suffix(nullable),
        TSTypeModel::StringScalar(text) => "\""@ + text + "\""@,
        TSTypeModel::TypeRef(name) => name,
        TSTypeModel::Union { members, nullable } => union_source(members) + nullable_suffix(
            nullable,
        ),
        TSTypeModel::List { elements, nullable } => list_of(ts_source(*elements, false))
            + nullable_suffix(nullable),
        TSTypeModel::Function { args, returning } => "("@ + args_source(args) + result_mark(
            toplevel,
        ) + ts_source(*returning, false),
        TSTypeModel::TypeDecl { name, definition } => "type "@ + name + " = "@ + ts_source(
            *definition,
            false,
        ),
        TSTypeModel::ModuleDecl { name, members } => "declare module "@ + name + " {\n"@
            + members_source(members) + "}"@,
        TSTypeModel::NamespaceDecl { name, members } => "namespace "@ + name + " {\n"@
            + members_source(members) + "}"@,
        TSTypeModel::NamedFunctionDecl { name, function } => "function "@ + name + ts_source(
            *function,
            true,
        ),
    }
}

/// The properties of an object type, one on each line: the key, a `?` where
/// the property is optional, and the type.
pub open spec fn properties_source(properties: Entries<(TSTypeModel, FieldPresence)>) -> Seq<char>
    decreases properties,
{
    if properties.len() == 0 {
        Seq::empty()
    } else {
        properties_source(properties.drop_last()) + "  "@ + properties.last().0 + presence_mark(
            properties.last().1.1,
        ) + ": "@ + replace_char(ts_source(properties.last().1.0, false), '\n', "\n  "@) + ";\n"@
    }
}

/// The members of a union, with a bar between each two.
pub open spec fn union_source(members: Seq<TSTypeModel>) -> Seq<char>
    decreases members,
{
    if members.len() == 0 {
        Seq::empty()
    } else if members.len() == 1 {
        ts_source(members[0], false)
    } else {
        union_source(members.drop_last()) + " | "@ + ts_source(members.last(), false)
    }
}

/// The arguments of a function, each with its type, with a comma between
/// each two.
pub open spec fn args_source(args: Entries<TSTypeModel>) -> Seq<char>
    decreases args,
{
    if args.len() == 0 {
        Seq::empty()
    } else if args.len() == 1 {
        args[0].0 + ": "@ + ts_source(args[0].1, false)
    } else {
        args_source(args.drop_last()) + ", "@ + args.last().0 + ": "@ + ts_source(
            args.last().1,
            false,
        )
    }
}

/// The members of a module or namespace, each indented on a line of its own.
pub open spec fn members_source(members: Seq<TSTypeModel>) -> Seq<char>
    decreases members,
{
    if members.len() == 0 {
        Seq::empty()
    } else {
        members_source(members.drop_last()) + "  "@ + replace_char(
            ts_source(members.last(), true),
            '\n',
            "\n  "@,
        ) + "\n"@
    }
}

/// A property that may be left out is written with a `?` behind its key,
/// and a property that must be there without one.
pub proof fn lemma_optional_property_is_marked(
    front: Entries<(TSTypeModel, FieldPresence)>,
    key: Seq<char>,
    t: TSTypeModel,
)
    ensures
        properties_source(front.push((key, (t, FieldPresence::Optional)))) == properties_source(
            front,
        ) + "  "@ + key + "?"@ + ": "@ + replace_char(ts_source(t, false), '\n', "\n  "@) + ";\n"@,
        properties_source(front.push((key, (t, FieldPresence::Required)))) == properties_source(
            front,
        ) + "  "@ + key + ": "@ + replace_char(ts_source(t, false), '\n', "\n  "@) + ";\n"@,
{
    let optional = front.push((key, (t, FieldPresence::Optional)));
    let required = front.push((key, (t, FieldPresence::Required)));
    assert(optional.drop_last() =~= front);
    assert(required.drop_last() =~= front);
    assert(properties_source(front) + "  "@ + key + Seq::<char>::empty() =~= properties_source(
        front,
    ) + "  "@ + key);
}

/// Appends ` | null` where `nullable` says so.
fn push_nullable(out: &mut String, nullable: bool)
    ensures
        final(out)@ == old(out)@ + nullable_suffix(nullable),
{
    if nullable {
        out.append(" | null");
    } else {
        assert(out@ =~= out@ + Seq::<char>::empty());
    }
}

impl TSType {
    /// The members of a module or namespace as they are written.
    fn members_to_source(owner: &TSType, members: &Vec<TSType>) -> (out: String)
        requires
            decreases_to!(*owner => *members),
        ensures
            out@ == members_source(members_model(members@)),
        decreases owner, 0nat,
    {
        let ghost model = members_model(members@);
        let mut out = String::new();
        let n = members.len();
        let mut i: usize = 0;
        proof {
            assert(model.take(0) =~= Seq::empty());
        }
        while i < n
            invariant
                i <= n,
                n == members@.len(),
                decreases_to!(*owner => *members),
                model == members_model(members@),
                out@ == members_source(model.take(i as int)),
            decreases n - i,
        {
            proof {
                assert(model.take(i + 1).drop_last() =~= model.take(i as int));
                assert(model.take(i + 1).last() == model[i as int]);
                assert(decreases_to!(*members => members@[i as int]));
            }
            out.append("  ");
            let source = members[i].to_source(true);
            let indented = replace_char_with(source.as_str(), '\n', "\n  ");
            out.append(indented.as_str());
            out.append("\n");
            i += 1;
        }
        proof {
            assert(model.take(n as int) =~= model);
        }
        out
    }

    /// The source text of the type or declaration. `is_toplevel` says that a
    /// function is written as part of a declaration rather than as a type.
    pub fn to_source(&self, is_toplevel: bool) -> (out: String)
        ensures
            out@ == ts_source(self@, is_toplevel),
        decreases self, 1nat,
    {
        proof {
            lemma_model(*self);
        }
        match self {
            TSType::Object { properties, nullable } => {
                let ghost model = properties_model(properties@);
                let mut body = String::new();
                let n = properties.len();
                let mut i: usize = 0;
                proof {
                    assert(model.take(0) =~= Seq::empty());
                }
                while i < n
                    invariant
                        i <= n,
                        n == properties@.len(),
                        self is Object,
                        self->properties == *properties,
                        model == properties_model(properties@),
                        body@ == properties_source(model.take(i as int)),
                    decreases n - i,
                {
                    proof {
                        assert(model.take(i + 1).drop_last() =~= model.take(i as int));
                        assert(model.take(i + 1).last() == model[i as int]);
                        properties.lemma_value_decreases(i as int);
                        assert(decreases_to!(*self => self->properties));
                    }
                    let property = properties.value_at(i);
                    body.append("  ");
                    body.append(properties.key_at(i).as_str());
                    match property.1 {
                        FieldPresence::Required => {
                            assert(body@ =~= body@ + Seq::<char>::empty());
                        },
                        FieldPresence::Optional => body.append("?"),
                    }
                    body.append(": ");
                    let source = property.0.to_source(false);
                    let indented = replace_char_with(source.as_str(), '\n', "\n  ");
                    body.append(indented.as_str());
                    body.append(";\n");
                    i += 1;
                }
                proof {
                    assert(model.take(n as int) =~= model);
                }
                let mut out = String::from_str("{\n");
                out.append(body.as_str());
                out.append("}");
                push_nullable(&mut out, *nullable);
                out
            },
            TSType::NeverObject => String::from_str("Record<string, never>"),
            TSType::Record { values, nullable } => {
                let mut out = String::from_str("Record<string, ");
                let source = values.to_source(false);
                out.append(source.as_str());
                out.append(">");
                push_nullable(&mut out, *nullable);
                out
            },
            TSType::Scalar { value, nullable } => {
                let mut out = String::from_str(value);
                push_nullable(&mut out, *nullable);
                out
            },
            TSType::StringScalar(text) => {
                let mut out = String::from_str("\"");
                out.append(text.as_str());
                out.append("\"");
                out
            },
            TSType::TypeRef(name) => name.clone(),
            TSType::Union { members, nullable } => {
                let ghost model = members_model(members@);
                let mut out = String::new();
                let n = members.len();
                let mut i: usize = 0;
                proof {
                    assert(model.take(0) =~= Seq::empty());
                }
                while i < n
                    invariant
                        i <= n,
                        n == members@.len(),
                        self is Union,
                        self->Union_members == *members,
                        model == members_model(members@),
                        out@ == union_source(model.take(i as int)),
                    decreases n - i,
                {
                    proof {
                        assert(model.take(i + 1).drop_last() =~= model.take(i as int));
                        assert(model.take(i + 1).last() == model[i as int]);
                        assert(model.take(i + 1)[0] == model[0]);
                        assert(decreases_to!(*self => self->Union_members));
                        assert(decreases_to!(*members => members@[i as int]));
                    }
                    if i != 0 {
                        out.append(" | ");
                    }
                    let source = members[i].to_source(false);
                    out.append(source.as_str());
                    i += 1;
                }
                proof {
                    assert(model.take(n as int) =~= model);
                }
                push_nullable(&mut out, *nullable);
                out
            },
            TSType::List { elements, nullable } => {
                let source = elements.to_source(false);
                let mut out = String::new();
                if contains_char(source.as_str(), ' ') {
                    out.append("(");
                    out.append(source.as_str());
                    out.append(")[]");
                } else {
                    out.append(source.as_str());
                    out.append("[]");
                }
                assert(out@ =~= list_of(source@));
                push_nullable(&mut out, *nullable);
                out
            },
            TSType::Function { args, returning } => {
                let ghost model = args_model(args@);
                let mut list = String::new();
                let n = args.len();
                let mut i: usize = 0;
                proof {
                    assert(model.take(0) =~= Seq::empty());
                }
                while i < n
                    invariant
                        i <= n,
                        n == args@.len(),
                        self is Function,
                        self->args == *args,
                        model == args_model(args@),
                        list@ == args_source(model.take(i as int)),
                    decreases n - i,
                {
                    proof {
                        assert(model.take(i + 1).drop_last() =~= model.take(i as int));
                        assert(model.take(i + 1).last() == model[i as int]);
                        assert(model.take(i + 1)[0] == model[0]);
                        args.lemma_value_decreases(i as int);
                        assert(decreases_to!(*self => self->args));
                    }
                    if i != 0 {
                        list.append(", ");
                    }
                    list.append(args.key_at(i).as_str());
                    list.append(": ");
                    let source = args.value_at(i).to_source(false);
                    list.append(source.as_str());
                    i += 1;
                }
                proof {
                    assert(model.take(n as int) =~= model);
                }
                let mut out = String::from_str("(");
                out.append(list.as_str());
                if is_toplevel {
                    out.append("): ");
                } else {
                    out.append(") => ");
                }
                let result = returning.to_source(false);
                out.append(result.as_str());
                out
            },
            TSType::TypeDecl { name, definition } => {
                let mut out = String::from_str("type ");
                out.append(name.as_str());
                out.append(" = ");
                let source = definition.to_source(false);
                out.append(source.as_str());
                out
            },
            TSType::ModuleDecl { name, members } => {
                let mut out = String::from_str("declare module ");
                out.append(name.as_str());
                out.append(" {\n");
                let body = TSType::members_to_source(self, members);
                out.append(body.as_str());
                out.append("}");
                out
            },
            TSType::NamespaceDecl { name, members } => {
                let mut out = String::from_str("namespace ");
                out.append(name.as_str());
                out.append(" {\n");
                let body = TSType::members_to_source(self, members);
                out.append(body.as_str());
                out.append("}");
                out
            },
            TSType::NamedFunctionDecl { name, function } => {
                let mut out = String::from_str("function ");
                out.append(name.as_str());
                let source = function.to_source(true);
                out.append(source.as_str());
                out
            },
        }
    }
}

} // verus!
