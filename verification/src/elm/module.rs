//! A module of generated source: its declarations and its ports.

use crate::elm::decl::{
    decl_decoder, decl_encoder, decl_source, decoder_name_of, encoder_name_of,
};
use crate::elm::layout::{port_text, write_port, PortDirection};
use crate::elm::model::{decl_models, Decl, DeclModel, Type, TypeModel};
use crate::elm::merge::{
    distinct_names, first_named, lemma_first_named, lemma_merged, merge_decls, merged,
    position_of_decl,
};
use crate::elm::translate::{declares, name_failure, translation, Translation};
use crate::error::{failure, Error, ErrorKind, ErrorModel};
use crate::inflected_string::{
    pascal_identifier, text_matches, to_pascal, InflectedString,
};
use crate::node::SchemaNode;
use crate::sorted_map::SortedMap;
use crate::text::{join, join_strings, views};
use vstd::prelude::*;
use vstd::string::*;

verus! {

/// A named channel between the application and its host, and the
/// declaration of the values that pass through it.
#[derive(Debug, PartialEq, Eq)]
pub struct Port {
    pub name: String,
    pub direction: PortDirection,
    pub type_: Decl,
}

/// A [`Port`] with its texts as plain sequences of characters.
pub ghost struct PortModel {
    pub name: Seq<char>,
    pub direction: PortDirection,
    pub type_: DeclModel,
}

impl View for Port {
    type V = PortModel;

    open spec fn view(&self) -> PortModel {
        PortModel { name: self.name@, direction: self.direction, type_: self.type_@ }
    }
}

/// The name of the function that the typed function around a port uses: the
/// encoder where values are sent, the decoder where they arrive.
pub open spec fn codec_name(direction: PortDirection, payload: Seq<char>) -> Result<
    Seq<char>,
    ErrorModel,
> {
    match direction {
        PortDirection::Send => encoder_name_of(payload),
        PortDirection::Subscribe => decoder_name_of(payload),
    }
}

/// The source text of a port: the raw port and the typed function around it.
pub open spec fn port_source(p: PortModel) -> Result<Seq<char>, ErrorModel> {
    match pascal_identifier(p.name) {
        Err(e) => Err(e),
        Ok(pascal_port) => match pascal_identifier(p.type_.name()) {
            Err(e) => Err(e),
            Ok(payload) => match codec_name(p.direction, p.type_.name()) {
                Err(e) => Err(e),
                Ok(codec) => Ok(port_text(p.direction, p.name, pascal_port, payload, codec)),
            },
        },
    }
}

impl Port {
    /// A port with the given name and direction for values of the declared
    /// type.
    pub fn new(name: String, direction: PortDirection, type_: Decl) -> (port: Self)
        ensures
            port@ == (PortModel { name: name@, direction, type_: type_@ }),
    {
        Port { name, direction, type_ }
    }

    /// The source text of the port.
    pub fn to_source(&self) -> (r: Result<String, Error>)
        ensures
            text_matches(r, port_source(self@)),
    {
        let pascal_port = match to_pascal(self.name.as_str()) {
            Ok(s) => s,
            Err(e) => {
                return Err(e);
            },
        };
        let payload = match self.type_.name().to_pascal_case() {
            Ok(s) => s,
            Err(e) => {
                return Err(e);
            },
        };
        let codec = match self.direction {
            PortDirection::Send => self.type_.encoder_name(),
            PortDirection::Subscribe => self.type_.decoder_name(),
        };
        let codec = match codec {
            Ok(s) => s,
            Err(e) => {
                return Err(e);
            },
        };
        Ok(
            write_port(
                self.direction,
                self.name.as_str(),
                pascal_port.as_str(),
                payload.as_str(),
                codec.as_str(),
            ),
        )
    }
}

/// A module: its dotted name in parts, its declarations in the order in
/// which they were found, and its ports.
#[derive(Debug, PartialEq, Eq)]
pub struct Module {
    pub name: Vec<String>,
    pub decls: Vec<Decl>,
    pub ports: Vec<Port>,
}

/// A [`Module`] with its texts as plain sequences of characters.
pub ghost struct ModuleModel {
    pub name: Seq<Seq<char>>,
    pub decls: Seq<DeclModel>,
    pub ports: Seq<PortModel>,
}

/// The models of a list of ports.
pub open spec fn port_models(ports: Seq<Port>) -> Seq<PortModel> {
    ports.map_values(|p: Port| p@)
}

impl View for Module {
    type V = ModuleModel;

    open spec fn view(&self) -> ModuleModel {
        ModuleModel {
            name: views(self.name@),
            decls: decl_models(self.decls@),
            ports: port_models(self.ports@),
        }
    }
}

/// The alias that gives the name `name` to a type that has none.
pub open spec fn top_alias(name: Seq<char>, t: TypeModel) -> DeclModel {
    DeclModel::TypeAlias { name, type_: t, discriminator: None }
}

/// What a schema adds to the declarations `decls` of a module, and the
/// declaration that stands for the schema as a whole.
///
/// What the schema declares joins the declarations of the module, each
/// name once. Where the schema translates to a reference, the declaration
/// of that name stands for it. Any other type is given the suggested name
/// by a new alias; without a suggestion that fails.
pub open spec fn module_insertion(decls: Seq<DeclModel>, translation: Translation, suggestion: Option<Seq<char>>) -> Result<
    (Seq<DeclModel>, DeclModel),
    ErrorModel,
> {
    match translation {
        Err(e) => Err(e),
        Ok((TypeModel::Ref(name), found)) => match merged(decls, found) {
            Err(e) => Err(e),
            Ok(all) => Ok((all, all[first_named(all, name)])),
        },
        Ok((other, found)) => match suggestion {
            None => Err(
                name_failure(
                    "need a name suggestion to create a top-level definition from an unnamed type"@,
                ),
            ),
            Some(name) => match merged(decls, found.push(top_alias(name, other))) {
                Err(e) => Err(e),
                Ok(all) => Ok((all, top_alias(name, other))),
            },
        },
    }
}

/// The failure of rendering a module without any declaration.
pub open spec fn empty_module_failure(name: Seq<Seq<char>>) -> ErrorModel {
    failure(
        ErrorKind::EmptyModule,
        "Module "@ + join(name, "."@) + " didn't contain any definitions"@,
    )
}

/// What every generated module starts with, behind its name.
pub open spec fn module_preamble() -> Seq<char> {
    " exposing (..)\n\n{-| Warning: this file is automatically generated. Don't edit by hand!\n-}\n\nimport Json.Decode\nimport Json.Decode.Pipeline\nimport Json.Encode\n"@
}

/// A declaration in a module: the definition, the decoder and the encoder.
pub open spec fn decl_section(d: DeclModel) -> Result<Seq<char>, ErrorModel> {
    match decl_source(d) {
        Err(e) => Err(e),
        Ok(source) => match decl_decoder(d) {
            Err(e) => Err(e),
            Ok(decoder) => match decl_encoder(d) {
                Err(e) => Err(e),
                Ok(encoder) => Ok(
                    "\n\n"@ + source + "\n\n\n"@ + decoder + "\n\n\n"@ + encoder + "\n"@,
                ),
            },
        },
    }
}

/// The first `upto` declarations of a module, one section each.
pub open spec fn decl_sections(decls: Seq<DeclModel>, upto: int) -> Result<Seq<char>, ErrorModel>
    decreases upto,
{
    if upto <= 0 || upto > decls.len() {
        Ok(Seq::empty())
    } else {
        match decl_sections(decls, upto - 1) {
            Err(e) => Err(e),
            Ok(front) => match decl_section(decls[upto - 1]) {
                Err(e) => Err(e),
                Ok(section) => Ok(front + section),
            },
        }
    }
}

/// The first `upto` ports of a module, one section each.
pub open spec fn port_sections(ports: Seq<PortModel>, upto: int) -> Result<Seq<char>, ErrorModel>
    decreases upto,
{
    if upto <= 0 || upto > ports.len() {
        Ok(Seq::empty())
    } else {
        match port_sections(ports, upto - 1) {
            Err(e) => Err(e),
            Ok(front) => match port_source(ports[upto - 1]) {
                Err(e) => Err(e),
                Ok(source) => Ok(front + "\n\n"@ + source + "\n"@),
            },
        }
    }
}

/// The word before `module` in a module that has ports.
pub open spec fn port_module_mark(has_ports: bool) -> Seq<char> {
    if has_ports {
        "port "@
    } else {
        Seq::empty()
    }
}

/// The source text of a module. A module without declarations has none.
pub open spec fn module_source(m: ModuleModel) -> Result<Seq<char>, ErrorModel> {
    if m.decls.len() == 0 {
        Err(empty_module_failure(m.name))
    } else {
        match decl_sections(m.decls, m.decls.len() as int) {
            Err(e) => Err(e),
            Ok(decls) => match port_sections(m.ports, m.ports.len() as int) {
                Err(e) => Err(e),
                Ok(ports) => Ok(
                    port_module_mark(m.ports.len() > 0) + "module "@ + join(m.name, "."@)
                        + module_preamble() + decls + ports,
                ),
            },
        }
    }
}

/// A module without any declaration cannot be rendered: that fails as an
/// empty module, and the failure names the module by its dotted path.
pub proof fn lemma_empty_module_fails(m: ModuleModel)
    requires
        m.decls.len() == 0,
    ensures
        module_source(m) == Err::<Seq<char>, ErrorModel>(empty_module_failure(m.name)),
        empty_module_failure(m.name).kind == ErrorKind::EmptyModule,
        crate::error::headline(empty_module_failure(m.name)) == "Module "@ + join(m.name, "."@)
            + " didn't contain any definitions"@,
{
}

/// Once a declaration cannot be rendered, the module cannot be rendered.
pub proof fn lemma_decl_sections_fail(decls: Seq<DeclModel>, upto: int, at: int)
    requires
        0 <= at < upto <= decls.len(),
        decl_sections(decls, at + 1) is Err,
    ensures
        decl_sections(decls, upto) == decl_sections(decls, at + 1),
    decreases upto,
{
    if upto > at + 1 {
        lemma_decl_sections_fail(decls, upto - 1, at);
    }
}

/// Once a port cannot be rendered, the module cannot be rendered.
pub proof fn lemma_port_sections_fail(ports: Seq<PortModel>, upto: int, at: int)
    requires
        0 <= at < upto <= ports.len(),
        port_sections(ports, at + 1) is Err,
    ensures
        port_sections(ports, upto) == port_sections(ports, at + 1),
    decreases upto,
{
    if upto > at + 1 {
        lemma_port_sections_fail(ports, upto - 1, at);
    }
}

/// A declaration as it stands in a module: the definition, the decoder and
/// the encoder.
fn render_section(decl: &Decl) -> (r: Result<String, Error>)
    ensures
        text_matches(r, decl_section(decl@)),
{
    let source = match decl.to_source() {
        Ok(s) => s,
        Err(e) => {
            return Err(e);
        },
    };
    let decoder = match decl.to_decoder_source() {
        Ok(s) => s,
        Err(e) => {
            return Err(e);
        },
    };
    let encoder = match decl.to_encoder_source() {
        Ok(s) => s,
        Err(e) => {
            return Err(e);
        },
    };
    let mut section = String::from_str("\n\n");
    section.append(source.as_str());
    section.append("\n\n\n");
    section.append(decoder.as_str());
    section.append("\n\n\n");
    section.append(encoder.as_str());
    section.append("\n");
    Ok(section)
}

impl Module {
    /// A module with the given name and nothing in it.
    pub fn new(name: Vec<String>) -> (module: Self)
        ensures
            module@ == (ModuleModel { name: views(name@), decls: Seq::empty(), ports: Seq::empty() }),
    {
        let module = Module { name, decls: Vec::new(), ports: Vec::new() };
        assert(module@.decls =~= Seq::empty());
        assert(module@.ports =~= Seq::empty());
        module
    }

    /// Translates `schema` and adds what it declares to the module, each
    /// name once. The result is the declaration that stands for the schema
    /// as a whole. Where that fails the module stays as it is.
    pub fn insert_from_schema(
        &mut self,
        schema: &SchemaNode,
        name_suggestion: Option<String>,
        globals: &SortedMap<SchemaNode>,
    ) -> (r: Result<Decl, Error>)
        ensures
            match r {
                Ok(decl) => module_insertion(
                    old(self)@.decls,
                    translation(
                        *schema,
                        crate::elm::model::optional_text(name_suggestion),
                        globals@,
                        None,
                    ),
                    crate::elm::model::optional_text(name_suggestion),
                ) == Ok::<(Seq<DeclModel>, DeclModel), ErrorModel>((final(self)@.decls, decl@))
                    && final(self)@.name == old(self)@.name && final(self)@.ports == old(
                    self,
                )@.ports,
                Err(e) => module_insertion(
                    old(self)@.decls,
                    translation(
                        *schema,
                        crate::elm::model::optional_text(name_suggestion),
                        globals@,
                        None,
                    ),
                    crate::elm::model::optional_text(name_suggestion),
                ) == Err::<(Seq<DeclModel>, DeclModel), ErrorModel>(e@) && final(self)@ == old(
                    self,
                )@,
            },
            distinct_names(old(self)@.decls) ==> distinct_names(final(self)@.decls),
    {
        let ghost before = self@.decls;
        let top_name = match &name_suggestion {
            Some(name) => Some(name.clone()),
            None => None,
        };
        let (type_, found) = match Type::from_schema(schema, name_suggestion, globals, None) {
            Ok(translation) => translation,
            Err(e) => {
                return Err(e);
            },
        };
        let ghost found_models = decl_models(found@);
        let held = self.decls.len();
        match type_ {
            Type::Ref(name) => {
                match merge_decls(&mut self.decls, found) {
                    Err(e) => {
                        self.decls.truncate(held);
                        Err(e)
                    },
                    Ok(_) => {
                        proof {
                            let all = decl_models(self.decls@);
                            lemma_merged(before, found_models);
                            lemma_first_named(all, name@);
                            let k = choose|k: int|
                                0 <= k < found_models.len() && (#[trigger] found_models[k]).name()
                                    == name@;
                            assert(declares(all, found_models[k].name()));
                        }
                        match position_of_decl(&self.decls, name.orig()) {
                            Some(i) => Ok(self.decls[i].clone()),
                            None => vstd::pervasive::unreached(),
                        }
                    },
                }
            },
            other => {
                match top_name {
                    None => Err(
                        Error::new(
                            ErrorKind::NameRequired,
                            String::from_str(
                                "need a name suggestion to create a top-level definition from an unnamed type",
                            ),
                        ),
                    ),
                    Some(name) => {
                        let top = Decl::TypeAlias {
                            name: InflectedString(name.clone()),
                            type_: other.clone(),
                            discriminator: None,
                        };
                        let mut found = found;
                        found.push(
                            Decl::TypeAlias {
                                name: InflectedString(name),
                                type_: other,
                                discriminator: None,
                            },
                        );
                        proof {
                            assert(decl_models(found@) =~= found_models.push(top@));
                            if merged(before, decl_models(found@)) is Ok {
                                lemma_merged(before, decl_models(found@));
                            }
                        }
                        match merge_decls(&mut self.decls, found) {
                            Err(e) => {
                                self.decls.truncate(held);
                                Err(e)
                            },
                            Ok(_) => Ok(top),
                        }
                    },
                }
            },
        }
    }

    /// Adds a port to the module.
    pub fn insert_port(&mut self, port: Port)
        ensures
            final(self)@ == (ModuleModel {
                name: old(self)@.name,
                decls: old(self)@.decls,
                ports: old(self)@.ports.push(port@),
            }),
    {
        let ghost before = port_models(self.ports@);
        self.ports.push(port);
        assert(port_models(self.ports@) =~= before.push(port@));
    }

    /// The source text of the module. A module without any declaration is
    /// refused; the failure names the module.
    pub fn to_source(&self) -> (r: Result<String, Error>)
        ensures
            text_matches(r, module_source(self@)),
            self@.decls.len() == 0 ==> r is Err && r->Err_0@.kind == ErrorKind::EmptyModule,
    {
        let dotted = join_strings(&self.name, ".");
        if self.decls.len() == 0 {
            let mut cause = String::from_str("Module ");
            cause.append(dotted.as_str());
            cause.append(" didn't contain any definitions");
            return Err(Error::new(ErrorKind::EmptyModule, cause));
        }
        let ghost decls = decl_models(self.decls@);
        let ghost ports = port_models(self.ports@);
        let mut sections = String::new();
        let n = self.decls.len();
        let mut i: usize = 0;
        while i < n
            invariant
                i <= n,
                n == self.decls@.len(),
                n > 0,
                decls == decl_models(self.decls@),
                decl_sections(decls, i as int) == Ok::<Seq<char>, ErrorModel>(sections@),
            decreases n - i,
        {
            let section = match render_section(&self.decls[i]) {
                Ok(s) => s,
                Err(e) => {
                    proof {
                        lemma_decl_sections_fail(decls, n as int, i as int);
                    }
                    return Err(e);
                },
            };
            sections.append(section.as_str());
            i += 1;
        }
        let mut port_text = String::new();
        let m = self.ports.len();
        let mut k: usize = 0;
        while k < m
            invariant
                k <= m,
                m == self.ports@.len(),
                n == self.decls@.len(),
                n > 0,
                decls == decl_models(self.decls@),
                ports == port_models(self.ports@),
                decl_sections(decls, n as int) == Ok::<Seq<char>, ErrorModel>(sections@),
                port_sections(ports, k as int) == Ok::<Seq<char>, ErrorModel>(port_text@),
            decreases m - k,
        {
            let source = match self.ports[k].to_source() {
                Ok(s) => s,
                Err(e) => {
                    proof {
                        lemma_port_sections_fail(ports, m as int, k as int);
                    }
                    return Err(e);
                },
            };
            port_text.append("\n\n");
            port_text.append(source.as_str());
            port_text.append("\n");
            k += 1;
        }
        let mut out = String::new();
        if m > 0 {
            out.append("port ");
        } else {
            assert(out@ =~= out@ + Seq::<char>::empty());
        }
        out.append("module ");
        out.append(dotted.as_str());
        out.append(
            " exposing (..)\n\n{-| Warning: this file is automatically generated. Don't edit by hand!\n-}\n\nimport Json.Decode\nimport Json.Decode.Pipeline\nimport Json.Encode\n",
        );
        out.append(sections.as_str());
        out.append(port_text.as_str());
        Ok(out)
    }
}

} // verus!
