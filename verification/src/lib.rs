//! Typed views of a package manifest held in a parsed TOML document.
//!
//! A [`Manifest`] owns a `toml_document::Document` and answers three kinds of
//! question about it: what a dotted path leads to, which dependencies the
//! manifest declares, and which build targets it describes.  The document is
//! never copied: whatever is handed out borrows from it.  Results that leave
//! the process are laid out as flat buffers with a 32-bit length.
//!
//! The document itself is foreign.  What the contracts say about it is said
//! over [`Node`], the mathematical tree that the document stands for.

pub mod node;
pub mod error;
pub mod document;
pub mod containment;
pub mod lookup;
pub mod manifest;
pub mod dependency;
pub mod target;
pub mod buffer;

pub use crate::buffer::{BorrowedSlice, OwnedSlice, RawDependency, RawSlice};
pub use crate::containment::Contained;
pub use crate::dependency::Dependency;
pub use crate::document::Entry;
pub use crate::error::{PathError, QueryError};
pub use crate::manifest::Manifest;
pub use crate::node::Node;
pub use crate::target::OutputTarget;
