//! From one description of the values that an Elm application and its host
//! exchange, the source text for both sides: Elm types with their decoders
//! and encoders, and TypeScript types for the host.
//!
//! A schema node ([`node`]) is translated twice: to named declarations for
//! Elm ([`elm`]) and to structural types for TypeScript ([`typescript`]).
//! [`schema`] does that for every module of a document and lays the results
//! out as files.

pub mod elm;
pub mod error;
pub mod inflected_string;
pub mod node;
pub mod schema;
pub mod sorted_map;
pub mod text;
pub mod typescript;
