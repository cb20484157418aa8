//! Resolution of Protocol-Buffer schema graphs for a schema registry.
//!
//! The crate turns a compiled descriptor set and the source text of its files
//! into a nested tree of schema references, one node per import, and offers
//! the pure building blocks around that: comment stripping, the compiler's
//! argument list, the search for source files, and the final assembly.

pub mod assembly;
pub mod comment_laws;
pub mod comments;
pub mod compiler;
pub mod decode;
pub mod descriptor;
pub mod error;
pub mod loader;
pub mod loader_laws;
pub mod reference_laws;
pub mod references;
pub mod registered;
pub mod schema_type;
pub mod text;
pub mod version;
