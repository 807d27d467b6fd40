//! The strongly typed target: named declarations, each with a decoder and an
//! encoder, and the ports through which values pass.

pub mod closure;
pub mod decl;
pub mod equality;
pub mod invariants;
pub mod layout;
pub mod merge;
pub mod model;
pub mod module;
pub mod render;
pub mod translate;

pub use model::{Decl, DeclModel, RecordPresence, Type, TypeModel};
pub use layout::PortDirection;
pub use module::{Module, ModuleModel, Port, PortModel};
