//! A structured, path-addressed model of a Rust package's public API.
//!
//! The analysis resolves a package's module tree from its manifest and file layout
//! ([`manifest`], [`walk`]), turns each parsed source file ([`syntax`]) into records
//! of its public modules, structs, enums and functions ([`extract`]), lowers field
//! types into linkable signature segments ([`signature`]), and decides how records
//! are named, written and selected in an on-disk cache ([`cache`]).

pub mod cache;
pub mod docstring;
pub mod extract;
pub mod manifest;
pub mod model;
pub mod signature;
pub mod syntax;
pub mod text;
pub mod walk;
