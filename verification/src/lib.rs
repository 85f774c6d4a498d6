//! Version mangling of native symbols.
//!
//! Two versions of one native library linked into a single binary collide
//! on their symbol names. This crate derives a version tag for a build,
//! produces the preprocessor header that appends the tag to a symbol, and
//! rewrites a batch of foreign declarations so that each one links against
//! the mangled name `<name>_<tag>`.

pub mod compiler;
pub mod declaration;
pub mod error;
pub mod header;
pub mod parse;
pub mod probe;
pub mod rewrite;
pub mod scan;
pub mod source;
pub mod text;
pub mod version;

pub use crate::compiler::{include_flag, Compiler, HeaderInclude};
pub use crate::declaration::{
    Declaration, DeclarationKind, Item, MangledDeclaration, MangledItem, Visibility,
};
pub use crate::error::Error;
pub use crate::header::{export_directive, versioned_header, ENV_NAME};
pub use crate::parse::parse;
pub use crate::probe::{git_shorthash, head_target, revision_marker, Answer, Probe};
pub use crate::rewrite::{mangle, mangle_declaration, render, rewrite, versioned_extern};
pub use crate::version::{crate_version, identifier_suffix, version};
