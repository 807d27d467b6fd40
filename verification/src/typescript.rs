//! The structural target: types without any logic, nested in namespaces.

pub mod constructors;
pub mod model;
pub mod namespace;
pub mod render;
pub mod translate;

pub use model::{FieldPresence, TSType, TSTypeModel};
pub use namespace::{NamespaceBuilder, NamespaceModel};
