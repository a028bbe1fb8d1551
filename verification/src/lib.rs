//! File resolution and caching in front of a document compiler, with the
//! content model of a small site generator around it.
//!
//! An identifier names a file in the project, in a package, or in memory.
//! [`files::Files`] fetches each file at most once and keeps what that gave,
//! content or error; [`data::FileData`] holds content as text or as bytes and
//! moves between the two without losing a byte.

pub mod data;
pub mod encoding;
pub mod entry;
pub mod error;
pub mod files;
pub mod front_matter;
pub mod id;
pub mod modify;
pub mod page;
pub mod resolve;
