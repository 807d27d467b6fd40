//! The schema document as a whole: the shared definitions and, for each
//! module of the application, its flags and its ports. From it come the
//! file of structural types and the files of typed source.

use crate::elm;
use crate::elm::model::DeclModel;
use crate::elm::module::{module_insertion, module_source, ModuleModel, PortModel};
use crate::elm::translate::translation;
use crate::error::{failure, wrap_result, wrapped, wrapped_result, Error, ErrorKind, ErrorModel};
use crate::inflected_string::text_matches;
use crate::node::{none_in_progress, SchemaNode};
use crate::sorted_map::{inserted, Entries, SortedMap};
use crate::text::{join, join_strings, split, split_on, views};
use crate::typescript::constructors::{
    init_function, lemma_properties_inserted, send_function, singleton_object,
    subscribe_function,
};
use crate::typescript::model::{properties_model, FieldPresence, TSType, TSTypeModel};
use crate::typescript::namespace::{
    declaration_of, path_model, stored, NamespaceBuilder, NamespaceModel,
};
use crate::typescript::render::ts_source;
use crate::typescript::translate::{structure_matches, structure_of};
use vstd::prelude::*;
use vstd::string::*;

verus! {

/// The direction of a port, seen from the host.
#[derive(Debug, PartialEq, Eq, Clone, Copy, Structural)]
pub enum PortDirection {
    /// The host sends, the application subscribes.
    JsToElm,
    /// The application sends, the host subscribes.
    ElmToJs,
}

/// What a port says about itself besides the form of its values.
#[derive(Debug, PartialEq, Eq, Clone, Copy, Structural)]
pub struct PortMeta {
    pub direction: PortDirection,
}

/// A schema as it was read: the node, or the reason why what was read is no
/// schema.
pub type Interpreted = Result<SchemaNode, String>;

/// A port as a module declares it: its direction and the schema of its
/// values as it was read.
#[derive(Debug, PartialEq, Eq)]
pub struct Port {
    pub metadata: PortMeta,
    pub schema: Interpreted,
}

/// A module of the application: the schema of its flags as it was read, if
/// it takes any, and its ports by name, if it has any.
#[derive(Debug, PartialEq, Eq)]
pub struct Module {
    pub flags: Option<Interpreted>,
    pub ports: Option<SortedMap<Port>>,
}

/// The schema document: the definitions that every schema in it may refer
/// to, and the modules by their dotted names.
#[derive(Debug, PartialEq, Eq)]
pub struct Schema {
    pub definitions: SortedMap<SchemaNode>,
    pub modules: SortedMap<Module>,
}

/// The declaration of a type under a name.
pub open spec fn type_declaration(name: Seq<char>, definition: TSTypeModel) -> TSTypeModel {
    TSTypeModel::TypeDecl { name, definition: Box::new(definition) }
}

/// The failure of something that was read and is no schema.
pub open spec fn invalid_failure(why: Seq<char>) -> ErrorModel {
    failure(ErrorKind::SchemaInvalid, why)
}

/// The outcome of a step on a schema as it was read: where it is no schema,
/// the failure says why, and the step is not taken.
pub open spec fn port_structure(read: Interpreted, name: Seq<char>, globals: Entries<SchemaNode>) -> Result<
    TSTypeModel,
    ErrorModel,
> {
    match read {
        Err(why) => Err(
            wrapped(invalid_failure(why@), "could not interpret JTD schema for port "@ + name),
        ),
        Ok(schema) => wrapped_result(
            structure_of(schema, globals, none_in_progress(globals.len())),
            "could not convert port "@ + name,
        ),
    }
}

/// The declaration of the type of a module's flags. A module without flags
/// takes the object without properties.
pub open spec fn flags_declaration(
    module_name: Seq<char>,
    flags: Option<Interpreted>,
    globals: Entries<SchemaNode>,
) -> Result<TSTypeModel, ErrorModel> {
    match flags {
        None => Ok(type_declaration("Flags"@, TSTypeModel::NeverObject)),
        Some(Err(why)) => Err(
            wrapped(
                invalid_failure(why@),
                "could not interpret JTD schema for flags in the "@ + module_name + " module"@,
            ),
        ),
        Some(Ok(schema)) => match wrapped_result(
            structure_of(schema, globals, none_in_progress(globals.len())),
            "could not convert flags"@,
        ) {
            Err(e) => Err(e),
            Ok(t) => Ok(type_declaration("Flags"@, t)),
        },
    }
}

/// What the host finds under the name of a port: an object with the function
/// to send a value, or with the function to subscribe to values.
pub open spec fn port_object(direction: PortDirection, value: TSTypeModel) -> TSTypeModel {
    match direction {
        PortDirection::JsToElm => singleton_object(
            "send"@,
            send_function(value),
            FieldPresence::Required,
        ),
        PortDirection::ElmToJs => singleton_object(
            "subscribe"@,
            subscribe_function(value),
            FieldPresence::Required,
        ),
    }
}

/// The properties of the type of a module's ports, for the first `upto`
/// ports. Each is optional: a port that the application never uses is not
/// there at run time.
pub open spec fn port_properties(ports: Entries<Port>, upto: int, globals: Entries<SchemaNode>) -> Result<
    Entries<(TSTypeModel, FieldPresence)>,
    ErrorModel,
>
    decreases upto,
{
    if upto <= 0 || upto > ports.len() {
        Ok(Seq::empty())
    } else {
        match port_properties(ports, upto - 1, globals) {
            Err(e) => Err(e),
            Ok(front) => match port_structure(
                ports[upto - 1].1.schema,
                ports[upto - 1].0,
                globals,
            ) {
                Err(e) => Err(e),
                Ok(t) => Ok(
                    inserted(
                        front,
                        ports[upto - 1].0,
                        (
                            port_object(ports[upto - 1].1.metadata.direction, t),
                            FieldPresence::Optional,
                        ),
                    ),
                ),
            },
        }
    }
}

/// The declaration of the type of a module's ports. A module without ports
/// has the object without properties.
pub open spec fn ports_declaration(ports: Option<SortedMap<Port>>, globals: Entries<SchemaNode>) -> Result<
    TSTypeModel,
    ErrorModel,
> {
    match ports {
        None => Ok(type_declaration("Ports"@, TSTypeModel::NeverObject)),
        Some(ports) => match port_properties(ports@, ports@.len() as int, globals) {
            Err(e) => Err(e),
            Ok(properties) => Ok(
                type_declaration("Ports"@, TSTypeModel::Object { properties, nullable: false }),
            ),
        },
    }
}

/// The tree of namespaces after the module `name` was added: in the
/// namespace that its dotted name leads to stand the type of its flags, the
/// type of its ports, and the function that starts it.
pub open spec fn with_module(
    tree: NamespaceModel,
    name: Seq<char>,
    module: Module,
    globals: Entries<SchemaNode>,
) -> Result<NamespaceModel, ErrorModel> {
    let path = split(name, '.');
    match flags_declaration(name, module.flags, globals) {
        Err(e) => Err(e),
        Ok(flags) => match stored(tree, path, flags) {
            Err(e) => Err(e),
            Ok(with_flags) => match ports_declaration(module.ports, globals) {
                Err(e) => Err(e),
                Ok(ports) => match stored(with_flags, path, ports) {
                    Err(e) => Err(e),
                    Ok(with_ports) => stored(
                        with_ports,
                        path,
                        init_function(TSTypeModel::TypeRef("Flags"@)),
                    ),
                },
            },
        },
    }
}

/// The tree of namespaces for the first `upto` modules.
pub open spec fn namespaces(modules: Entries<Module>, upto: int, globals: Entries<SchemaNode>) -> Result<
    NamespaceModel,
    ErrorModel,
>
    decreases upto,
{
    if upto <= 0 || upto > modules.len() {
        Ok(NamespaceModel::Root { name: "Elm"@, below: Seq::empty() })
    } else {
        match namespaces(modules, upto - 1, globals) {
            Err(e) => Err(e),
            Ok(tree) => with_module(tree, modules[upto - 1].0, modules[upto - 1].1, globals),
        }
    }
}

/// The file of structural types for a schema document.
pub open spec fn typescript_file(schema: Schema) -> Result<Seq<char>, ErrorModel> {
    match namespaces(schema.modules@, schema.modules@.len() as int, schema.definitions@) {
        Err(e) => Err(e),
        Ok(tree) => Ok(
            "// Warning: this file is automatically generated. Don't edit by hand!\n\n"@
                + ts_source(declaration_of(tree), true),
        ),
    }
}

/// The direction of a port, seen from the application.
pub open spec fn seen_from_application(direction: PortDirection) -> elm::layout::PortDirection {
    match direction {
        PortDirection::ElmToJs => elm::layout::PortDirection::Send,
        PortDirection::JsToElm => elm::layout::PortDirection::Subscribe,
    }
}

/// The path of the file of a module: the parts of its name as directories.
pub open spec fn file_path(name: Seq<Seq<char>>) -> Seq<char> {
    join(name, "/"@) + ".elm"@
}

/// The context added to a failure below the flags of a module.
pub open spec fn flags_context() -> Seq<char> {
    "could not convert flags type to Elm module"@
}

/// What a schema as it was read adds to the declarations `decls` of a
/// module under the name `name`. Where what was read is no schema, the
/// failure says why; a failure of the translation carries `context`.
pub open spec fn inserted_read(
    decls: Seq<DeclModel>,
    read: Interpreted,
    name: Seq<char>,
    globals: Entries<SchemaNode>,
    context: Seq<char>,
) -> Result<(Seq<DeclModel>, DeclModel), ErrorModel> {
    match read {
        Err(why) => Err(invalid_failure(why@)),
        Ok(schema) => wrapped_result(
            module_insertion(decls, translation(schema, Some(name), globals, None), Some(name)),
            context,
        ),
    }
}

/// The file with the flags of the module whose name has the parts
/// `name_base`: its path and its contents.
#[verifier::opaque]
pub open spec fn flags_file(name_base: Seq<Seq<char>>, flags: Interpreted, globals: Entries<SchemaNode>) -> Result<
    (Seq<char>, Seq<char>),
    ErrorModel,
> {
    match inserted_read(Seq::empty(), flags, "Flags"@, globals, flags_context()) {
        Err(e) => Err(e),
        Ok((decls, _)) => match wrapped_result(
            module_source(
                ModuleModel { name: name_base.push("Flags"@), decls, ports: Seq::empty() },
            ),
            "could not get source"@,
        ) {
            Err(e) => Err(e),
            Ok(source) => Ok((file_path(name_base.push("Flags"@)), source)),
        },
    }
}

/// The context added to a failure below the port `name`.
pub open spec fn port_context(name: Seq<char>) -> Seq<char> {
    "could not convert the `"@ + name + "` port to Elm"@
}

/// The module `module` after the port `name` was added: what its schema
/// declares, and the port itself.
pub open spec fn with_port(
    module: ModuleModel,
    name: Seq<char>,
    port: Port,
    globals: Entries<SchemaNode>,
) -> Result<ModuleModel, ErrorModel> {
    match inserted_read(module.decls, port.schema, name, globals, port_context(name)) {
        Err(e) => Err(e),
        Ok((decls, payload)) => Ok(
            ModuleModel {
                name: module.name,
                decls,
                ports: module.ports.push(
                    PortModel {
                        name,
                        direction: seen_from_application(port.metadata.direction),
                        type_: payload,
                    },
                ),
            },
        ),
    }
}

/// The module with the first `upto` ports of the module whose name has the
/// parts `name_base`.
pub open spec fn ports_module(
    name_base: Seq<Seq<char>>,
    ports: Entries<Port>,
    upto: int,
    globals: Entries<SchemaNode>,
) -> Result<ModuleModel, ErrorModel>
    decreases upto,
{
    if upto <= 0 || upto > ports.len() {
        Ok(ModuleModel { name: name_base.push("Ports"@), decls: Seq::empty(), ports: Seq::empty() })
    } else {
        match ports_module(name_base, ports, upto - 1, globals) {
            Err(e) => Err(e),
            Ok(module) => with_port(module, ports[upto - 1].0, ports[upto - 1].1, globals),
        }
    }
}

/// The file with the ports of the module whose name has the parts
/// `name_base`: its path and its contents.
#[verifier::opaque]
pub open spec fn ports_file(name_base: Seq<Seq<char>>, ports: Entries<Port>, globals: Entries<SchemaNode>) -> Result<
    (Seq<char>, Seq<char>),
    ErrorModel,
> {
    match ports_module(name_base, ports, ports.len() as int, globals) {
        Err(e) => Err(e),
        Ok(module) => match wrapped_result(module_source(module), "could not get source"@) {
            Err(e) => Err(e),
            Ok(source) => Ok((file_path(name_base.push("Ports"@)), source)),
        },
    }
}

/// The files `files` with the file of a module's flags added, if the module
/// takes flags.
pub open spec fn add_flags_file(
    files: Entries<Seq<char>>,
    name_base: Seq<Seq<char>>,
    flags: Option<Interpreted>,
    globals: Entries<SchemaNode>,
) -> Result<Entries<Seq<char>>, ErrorModel> {
    match flags {
        None => Ok(files),
        Some(schema) => match flags_file(name_base, schema, globals) {
            Err(e) => Err(e),
            Ok((path, source)) => Ok(inserted(files, path, source)),
        },
    }
}

/// The files `files` with the file of a module's ports added, if the module
/// has ports.
pub open spec fn add_ports_file(
    files: Entries<Seq<char>>,
    name_base: Seq<Seq<char>>,
    ports: Option<SortedMap<Port>>,
    globals: Entries<SchemaNode>,
) -> Result<Entries<Seq<char>>, ErrorModel> {
    match ports {
        None => Ok(files),
        Some(ports) => match ports_file(name_base, ports@, globals) {
            Err(e) => Err(e),
            Ok((path, source)) => Ok(inserted(files, path, source)),
        },
    }
}

/// The files of typed source for the first `upto` modules, by path.
pub open spec fn elm_files(modules: Entries<Module>, upto: int, globals: Entries<SchemaNode>) -> Result<
    Entries<Seq<char>>,
    ErrorModel,
>
    decreases upto,
{
    if upto <= 0 || upto > modules.len() {
        Ok(Seq::empty())
    } else {
        match elm_files(modules, upto - 1, globals) {
            Err(e) => Err(e),
            Ok(files) => match add_flags_file(
                files,
                split(modules[upto - 1].0, '.'),
                modules[upto - 1].1.flags,
                globals,
            ) {
                Err(e) => Err(e),
                Ok(with_flags) => add_ports_file(
                    with_flags,
                    split(modules[upto - 1].0, '.'),
                    modules[upto - 1].1.ports,
                    globals,
                ),
            },
        }
    }
}

/// The contents of files by path, as plain sequences of characters.
pub open spec fn file_models(files: Entries<String>) -> Entries<Seq<char>> {
    Seq::new(files.len(), |i: int| (files[i].0, files[i].1@))
}

/// Adding a module to a well-formed tree fails only where the type of its
/// flags or of its ports cannot be made, and leaves the tree well-formed.
pub proof fn lemma_with_module_well_formed(
    tree: NamespaceModel,
    name: Seq<char>,
    module: Module,
    globals: Entries<SchemaNode>,
)
    requires
        tree.well_formed(),
    ensures
        with_module(tree, name, module, globals) is Err <==> flags_declaration(
            name,
            module.flags,
            globals,
        ) is Err || ports_declaration(module.ports, globals) is Err,
        with_module(tree, name, module, globals) is Ok ==> with_module(
            tree,
            name,
            module,
            globals,
        )->Ok_0.well_formed(),
{
    let path = split(name, '.');
    crate::text::lemma_join_split(name, '.');
    if flags_declaration(name, module.flags, globals) is Ok {
        let flags = flags_declaration(name, module.flags, globals)->Ok_0;
        crate::typescript::namespace::lemma_stored_well_formed(tree, path, flags);
        let with_flags = stored(tree, path, flags)->Ok_0;
        if ports_declaration(module.ports, globals) is Ok {
            let ports = ports_declaration(module.ports, globals)->Ok_0;
            crate::typescript::namespace::lemma_stored_well_formed(with_flags, path, ports);
            let with_ports = stored(with_flags, path, ports)->Ok_0;
            crate::typescript::namespace::lemma_stored_well_formed(
                with_ports,
                path,
                init_function(TSTypeModel::TypeRef("Flags"@)),
            );
        }
    }
}

/// The tree of namespaces is well-formed, whatever the modules.
pub proof fn lemma_namespaces_well_formed(
    modules: Entries<Module>,
    upto: int,
    globals: Entries<SchemaNode>,
)
    ensures
        namespaces(modules, upto, globals) is Ok ==> namespaces(
            modules,
            upto,
            globals,
        )->Ok_0.well_formed(),
    decreases upto,
{
    if 0 < upto <= modules.len() {
        lemma_namespaces_well_formed(modules, upto - 1, globals);
        if namespaces(modules, upto - 1, globals) is Ok {
            lemma_with_module_well_formed(
                namespaces(modules, upto - 1, globals)->Ok_0,
                modules[upto - 1].0,
                modules[upto - 1].1,
                globals,
            );
        }
    } else {
        let root = NamespaceModel::Root { name: "Elm"@, below: Seq::empty() };
        assert(root.well_formed());
    }
}

/// Storing a file commutes with taking models.
pub proof fn lemma_files_inserted(files: Entries<String>, path: Seq<char>, contents: String)
    ensures
        file_models(inserted(files, path, contents)) == inserted(
            file_models(files),
            path,
            contents@,
        ),
{
    crate::sorted_map::lemma_same_keys(files, file_models(files), path);
    crate::sorted_map::lemma_lower_bound(files, path);
    assert(file_models(inserted(files, path, contents)) =~= inserted(
        file_models(files),
        path,
        contents@,
    ));
}

/// Once a port cannot be translated, the type of the ports cannot be made.
pub proof fn lemma_port_properties_fail(
    ports: Entries<Port>,
    upto: int,
    at: int,
    globals: Entries<SchemaNode>,
)
    requires
        0 <= at < upto <= ports.len(),
        port_properties(ports, at + 1, globals) is Err,
    ensures
        port_properties(ports, upto, globals) == port_properties(ports, at + 1, globals),
    decreases upto,
{
    if upto > at + 1 {
        lemma_port_properties_fail(ports, upto - 1, at, globals);
    }
}

/// Once a module cannot be added, the tree of namespaces cannot be made.
pub proof fn lemma_namespaces_fail(
    modules: Entries<Module>,
    upto: int,
    at: int,
    globals: Entries<SchemaNode>,
)
    requires
        0 <= at < upto <= modules.len(),
        namespaces(modules, at + 1, globals) is Err,
    ensures
        namespaces(modules, upto, globals) == namespaces(modules, at + 1, globals),
    decreases upto,
{
    if upto > at + 1 {
        lemma_namespaces_fail(modules, upto - 1, at, globals);
    }
}

/// Once a port cannot be added, the module of the ports cannot be made.
pub proof fn lemma_ports_module_fails(
    name_base: Seq<Seq<char>>,
    ports: Entries<Port>,
    upto: int,
    at: int,
    globals: Entries<SchemaNode>,
)
    requires
        0 <= at < upto <= ports.len(),
        ports_module(name_base, ports, at + 1, globals) is Err,
    ensures
        ports_module(name_base, ports, upto, globals) == ports_module(
            name_base,
            ports,
            at + 1,
            globals,
        ),
    decreases upto,
{
    if upto > at + 1 {
        lemma_ports_module_fails(name_base, ports, upto - 1, at, globals);
    }
}

/// Once the files of a module cannot be made, no files are made.
pub proof fn lemma_elm_files_fail(
    modules: Entries<Module>,
    upto: int,
    at: int,
    globals: Entries<SchemaNode>,
)
    requires
        0 <= at < upto <= modules.len(),
        elm_files(modules, at + 1, globals) is Err,
    ensures
        elm_files(modules, upto, globals) == elm_files(modules, at + 1, globals),
    decreases upto,
{
    if upto > at + 1 {
        lemma_elm_files_fail(modules, upto - 1, at, globals);
    }
}

/// The parts of a path, borrowed.
fn path_refs<'a>(parts: &'a Vec<String>) -> (refs: Vec<&'a str>)
    ensures
        path_model(refs@) == views(parts@),
{
    let mut refs: Vec<&'a str> = Vec::new();
    let mut i: usize = 0;
    while i < parts.len()
        invariant
            i <= parts@.len(),
            refs@.len() == i,
            forall|j: int| 0 <= j < i ==> (#[trigger] refs@[j])@ == parts@[j]@,
        decreases parts@.len() - i,
    {
        refs.push(parts[i].as_str());
        i += 1;
    }
    assert(path_model(refs@) =~= views(parts@));
    refs
}

/// The parts of a name with one more part behind them.
fn extended(parts: &Vec<String>, last: &str) -> (all: Vec<String>)
    ensures
        views(all@) == views(parts@).push(last@),
{
    let mut all: Vec<String> = Vec::new();
    let mut i: usize = 0;
    while i < parts.len()
        invariant
            i <= parts@.len(),
            all@.len() == i,
            forall|j: int| 0 <= j < i ==> (#[trigger] all@[j])@ == parts@[j]@,
        decreases parts@.len() - i,
    {
        all.push(parts[i].clone());
        i += 1;
    }
    all.push(last.to_owned());
    assert(views(all@) =~= views(parts@).push(last@));
    all
}

/// The declaration of the type of a module's flags.
fn declare_flags(
    module_name: &str,
    flags: &Option<Interpreted>,
    globals: &SortedMap<SchemaNode>,
) -> (r: Result<TSType, Error>)
    ensures
        structure_matches(r, flags_declaration(module_name@, *flags, globals@)),
{
    match flags {
        None => Ok(TSType::new_neverobject().into_typedecl("Flags")),
        Some(Err(why)) => {
            let mut context = String::from_str("could not interpret JTD schema for flags in the ");
            context.append(module_name);
            context.append(" module");
            Err(Error::new(ErrorKind::SchemaInvalid, why.clone()).wrap(context))
        },
        Some(Ok(schema)) => match wrap_result(
            TSType::from_schema(schema, globals),
            String::from_str("could not convert flags"),
        ) {
            Err(e) => Err(e),
            Ok(t) => Ok(t.into_typedecl("Flags")),
        },
    }
}

/// What the host finds under the name of a port.
fn port_to_object(direction: PortDirection, value: TSType) -> (t: TSType)
    ensures
        t@ == port_object(direction, value@),
{
    match direction {
        PortDirection::JsToElm => TSType::new_singleton_object(
            "send",
            TSType::new_send_function(value),
            FieldPresence::Required,
        ),
        PortDirection::ElmToJs => TSType::new_singleton_object(
            "subscribe",
            TSType::new_subscribe_function(value),
            FieldPresence::Required,
        ),
    }
}

/// The structural type of the values of the port `name`.
fn port_to_structure(read: &Interpreted, name: &str, globals: &SortedMap<SchemaNode>) -> (r: Result<
    TSType,
    Error,
>)
    ensures
        structure_matches(r, port_structure(*read, name@, globals@)),
{
    match read {
        Err(why) => {
            let mut context = String::from_str("could not interpret JTD schema for port ");
            context.append(name);
            Err(Error::new(ErrorKind::SchemaInvalid, why.clone()).wrap(context))
        },
        Ok(schema) => {
            let mut context = String::from_str("could not convert port ");
            context.append(name);
            wrap_result(TSType::from_schema(schema, globals), context)
        },
    }
}

/// The declaration of the type of a module's ports.
fn declare_ports(all_ports: &Option<SortedMap<Port>>, globals: &SortedMap<SchemaNode>) -> (r: Result<
    TSType,
    Error,
>)
    ensures
        structure_matches(r, ports_declaration(*all_ports, globals@)),
{
    match all_ports {
        None => Ok(TSType::new_neverobject().into_typedecl("Ports")),
        Some(ports) => {
            let mut port_keys: SortedMap<(TSType, FieldPresence)> = SortedMap::new();
            let n = ports.len();
            let mut i: usize = 0;
            proof {
                assert(properties_model(port_keys@) =~= Seq::empty());
            }
            while i < n
                invariant
                    i <= n,
                    n == ports@.len(),
                    *all_ports == Some(*ports),
                    port_properties(ports@, i as int, globals@) == Ok::<
                        Entries<(TSTypeModel, FieldPresence)>,
                        ErrorModel,
                    >(properties_model(port_keys@)),
                decreases n - i,
            {
                let name = ports.key_at(i);
                let port = ports.value_at(i);
                let value = match port_to_structure(&port.schema, name.as_str(), globals) {
                    Ok(t) => t,
                    Err(e) => {
                        proof {
                            lemma_port_properties_fail(ports@, n as int, i as int, globals@);
                        }
                        return Err(e);
                    },
                };
                let object = port_to_object(port.metadata.direction, value);
                proof {
                    lemma_properties_inserted(
                        port_keys@,
                        name@,
                        (object, FieldPresence::Optional),
                    );
                }
                port_keys.insert(name.clone(), (object, FieldPresence::Optional));
                i += 1;
            }
            Ok(TSType::new_object(port_keys).into_typedecl("Ports"))
        },
    }
}

/// Adds the declarations of the module `name` to the tree of namespaces.
fn add_module(
    builder: &mut NamespaceBuilder,
    name: &str,
    module: &Module,
    globals: &SortedMap<SchemaNode>,
) -> (r: Result<(), Error>)
    ensures
        match r {
            Ok(_) => with_module(old(builder)@, name@, *module, globals@) == Ok::<
                NamespaceModel,
                ErrorModel,
            >(final(builder)@),
            Err(e) => with_module(old(builder)@, name@, *module, globals@) == Err::<
                NamespaceModel,
                ErrorModel,
            >(e@),
        },
{
    let parts = split_on(name, '.');
    let refs = path_refs(&parts);
    let path = refs.as_slice();
    let flags = match declare_flags(name, &module.flags, globals) {
        Ok(t) => t,
        Err(e) => {
            return Err(e);
        },
    };
    match builder.insert(path, flags) {
        Ok(_) => {},
        Err(e) => {
            return Err(e);
        },
    }
    let ports = match declare_ports(&module.ports, globals) {
        Ok(t) => t,
        Err(e) => {
            return Err(e);
        },
    };
    match builder.insert(path, ports) {
        Ok(_) => {},
        Err(e) => {
            return Err(e);
        },
    }
    builder.insert(path, TSType::new_ref("Flags").into_init())
}

/// Adds what a schema as it was read declares to a module, under the name
/// `name`.
fn insert_read(
    module: &mut elm::module::Module,
    read: &Interpreted,
    name: &str,
    globals: &SortedMap<SchemaNode>,
    context: String,
) -> (r: Result<elm::model::Decl, Error>)
    ensures
        match r {
            Ok(decl) => inserted_read(old(module)@.decls, *read, name@, globals@, context@) == Ok::<
                (Seq<elm::model::DeclModel>, elm::model::DeclModel),
                ErrorModel,
            >((final(module)@.decls, decl@)) && final(module)@.name == old(module)@.name
                && final(module)@.ports == old(module)@.ports,
            Err(e) => inserted_read(old(module)@.decls, *read, name@, globals@, context@) == Err::<
                (Seq<elm::model::DeclModel>, elm::model::DeclModel),
                ErrorModel,
            >(e@) && final(module)@ == old(module)@,
        },
{
    match read {
        Err(why) => Err(Error::new(ErrorKind::SchemaInvalid, why.clone())),
        Ok(schema) => wrap_result(
            module.insert_from_schema(schema, Some(name.to_owned()), globals),
            context,
        ),
    }
}

/// The file with the flags of a module: its path and its contents.
fn render_flags_file(
    name_base: &Vec<String>,
    flags: &Interpreted,
    globals: &SortedMap<SchemaNode>,
) -> (r: Result<(String, String), Error>)
    ensures
        match r {
            Ok((path, source)) => flags_file(views(name_base@), *flags, globals@) == Ok::<
                (Seq<char>, Seq<char>),
                ErrorModel,
            >((path@, source@)),
            Err(e) => flags_file(views(name_base@), *flags, globals@) == Err::<
                (Seq<char>, Seq<char>),
                ErrorModel,
            >(e@),
        },
{
    reveal(flags_file);
    let mut module = elm::module::Module::new(extended(name_base, "Flags"));
    match insert_read(
        &mut module,
        flags,
        "Flags",
        globals,
        String::from_str("could not convert flags type to Elm module"),
    ) {
        Ok(_) => {},
        Err(e) => {
            return Err(e);
        },
    }
    let source = match wrap_result(module.to_source(), String::from_str("could not get source")) {
        Ok(s) => s,
        Err(e) => {
            return Err(e);
        },
    };
    let mut path = join_strings(&module.name, "/");
    path.append(".elm");
    Ok((path, source))
}

/// Adds the port `name` to the module of the ports.
fn add_port(
    module: &mut elm::module::Module,
    name: &String,
    port: &Port,
    globals: &SortedMap<SchemaNode>,
) -> (r: Result<(), Error>)
    ensures
        match r {
            Ok(_) => with_port(old(module)@, name@, *port, globals@) == Ok::<
                ModuleModel,
                ErrorModel,
            >(final(module)@),
            Err(e) => with_port(old(module)@, name@, *port, globals@) == Err::<
                ModuleModel,
                ErrorModel,
            >(e@),
        },
{
    let mut context = String::from_str("could not convert the `");
    context.append(name.as_str());
    context.append("` port to Elm");
    let payload = match insert_read(module, &port.schema, name.as_str(), globals, context) {
        Ok(decl) => decl,
        Err(e) => {
            return Err(e);
        },
    };
    let direction = match port.metadata.direction {
        PortDirection::ElmToJs => elm::layout::PortDirection::Send,
        PortDirection::JsToElm => elm::layout::PortDirection::Subscribe,
    };
    module.insert_port(elm::module::Port::new(name.clone(), direction, payload));
    Ok(())
}

/// The file with the ports of a module: its path and its contents.
fn render_ports_file(
    name_base: &Vec<String>,
    ports: &SortedMap<Port>,
    globals: &SortedMap<SchemaNode>,
) -> (r: Result<(String, String), Error>)
    ensures
        match r {
            Ok((path, source)) => ports_file(views(name_base@), ports@, globals@) == Ok::<
                (Seq<char>, Seq<char>),
                ErrorModel,
            >((path@, source@)),
            Err(e) => ports_file(views(name_base@), ports@, globals@) == Err::<
                (Seq<char>, Seq<char>),
                ErrorModel,
            >(e@),
        },
{
    reveal(ports_file);
    let mut module = elm::module::Module::new(extended(name_base, "Ports"));
    let n = ports.len();
    let mut i: usize = 0;
    while i < n
        invariant
            i <= n,
            n == ports@.len(),
            ports_module(views(name_base@), ports@, i as int, globals@) == Ok::<
                ModuleModel,
                ErrorModel,
            >(module@),
        decreases n - i,
    {
        match add_port(&mut module, ports.key_at(i), ports.value_at(i), globals) {
            Ok(_) => {},
            Err(e) => {
                proof {
                    reveal(ports_file);
                    lemma_ports_module_fails(
                        views(name_base@),
                        ports@,
                        n as int,
                        i as int,
                        globals@,
                    );
                }
                return Err(e);
            },
        }
        i += 1;
    }
    proof {
        lemma_ports_module_name(views(name_base@), ports@, n as int, globals@);
    }
    let source = match wrap_result(module.to_source(), String::from_str("could not get source")) {
        Ok(s) => s,
        Err(e) => {
            return Err(e);
        },
    };
    let mut path = join_strings(&module.name, "/");
    path.append(".elm");
    Ok((path, source))
}

/// The module of the ports keeps its name.
pub proof fn lemma_ports_module_name(
    name_base: Seq<Seq<char>>,
    ports: Entries<Port>,
    upto: int,
    globals: Entries<SchemaNode>,
)
    ensures
        ports_module(name_base, ports, upto, globals) is Ok ==> ports_module(
            name_base,
            ports,
            upto,
            globals,
        )->Ok_0.name == name_base.push("Ports"@),
    decreases upto,
{
    if 0 < upto <= ports.len() {
        lemma_ports_module_name(name_base, ports, upto - 1, globals);
    }
}

/// Adds the files of the module `name` to `files`.
fn add_module_files(
    files: &mut SortedMap<String>,
    name: &str,
    module: &Module,
    globals: &SortedMap<SchemaNode>,
) -> (r: Result<(), Error>)
    ensures
        match add_flags_file(
            file_models(old(files)@),
            split(name@, '.'),
            module.flags,
            globals@,
        ) {
            Err(e) => r is Err && r->Err_0@ == e,
            Ok(with_flags) => match add_ports_file(
                with_flags,
                split(name@, '.'),
                module.ports,
                globals@,
            ) {
                Err(e) => r is Err && r->Err_0@ == e,
                Ok(all) => r is Ok && file_models(final(files)@) == all,
            },
        },
{
    let name_base = split_on(name, '.');
    match &module.flags {
        None => {},
        Some(flags) => {
            let (path, source) = match render_flags_file(&name_base, flags, globals) {
                Ok(file) => file,
                Err(e) => {
                    return Err(e);
                },
            };
            proof {
                lemma_files_inserted(files@, path@, source);
            }
            files.insert(path, source);
        },
    }
    match &module.ports {
        None => {},
        Some(ports) => {
            let (path, source) = match render_ports_file(&name_base, ports, globals) {
                Ok(file) => file,
                Err(e) => {
                    return Err(e);
                },
            };
            proof {
                lemma_files_inserted(files@, path@, source);
            }
            files.insert(path, source);
        },
    }
    Ok(())
}

impl Schema {
    /// The file of structural types: one module declaration with a
    /// namespace for each module of the application.
    pub fn to_ts(&self) -> (r: Result<String, Error>)
        ensures
            text_matches(r, typescript_file(*self)),
    {
        let mut builder = NamespaceBuilder::root("Elm");
        let n = self.modules.len();
        let mut i: usize = 0;
        while i < n
            invariant
                i <= n,
                n == self.modules@.len(),
                namespaces(self.modules@, i as int, self.definitions@) == Ok::<
                    NamespaceModel,
                    ErrorModel,
                >(builder@),
            decreases n - i,
        {
            match add_module(
                &mut builder,
                self.modules.key_at(i).as_str(),
                self.modules.value_at(i),
                &self.definitions,
            ) {
                Ok(_) => {},
                Err(e) => {
                    proof {
                        lemma_namespaces_fail(
                            self.modules@,
                            n as int,
                            i as int,
                            self.definitions@,
                        );
                    }
                    return Err(e);
                },
            }
            i += 1;
        }
        let mut out = String::from_str(
            "// Warning: this file is automatically generated. Don't edit by hand!\n\n",
        );
        let source = builder.into_tstype().to_source(true);
        out.append(source.as_str());
        Ok(out)
    }

    /// The files of typed source, by path: for each module one with its
    /// flags and one with its ports, as far as it has them.
    pub fn to_elm(&self) -> (r: Result<SortedMap<String>, Error>)
        ensures
            match r {
                Ok(files) => elm_files(
                    self.modules@,
                    self.modules@.len() as int,
                    self.definitions@,
                ) == Ok::<Entries<Seq<char>>, ErrorModel>(file_models(files@)),
                Err(e) => elm_files(self.modules@, self.modules@.len() as int, self.definitions@)
                    == Err::<Entries<Seq<char>>, ErrorModel>(e@),
            },
    {
        let mut files: SortedMap<String> = SortedMap::new();
        let n = self.modules.len();
        let mut i: usize = 0;
        proof {
            assert(file_models(files@) =~= Seq::empty());
        }
        while i < n
            invariant
                i <= n,
                n == self.modules@.len(),
                elm_files(self.modules@, i as int, self.definitions@) == Ok::<
                    Entries<Seq<char>>,
                    ErrorModel,
                >(file_models(files@)),
            decreases n - i,
        {
            match add_module_files(
                &mut files,
                self.modules.key_at(i).as_str(),
                self.modules.value_at(i),
                &self.definitions,
            ) {
                Ok(_) => {},
                Err(e) => {
                    proof {
                        lemma_elm_files_fail(
                            self.modules@,
                            n as int,
                            i as int,
                            self.definitions@,
                        );
                    }
                    return Err(e);
                },
            }
            i += 1;
        }
        Ok(files)
    }
}

} // verus!

