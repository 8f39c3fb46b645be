//! Conversion of Argo float-profile files into profile and metadata documents.
//!
//! The library works on values that a reader has already pulled out of a
//! profile file (see [`container::Container`]) and produces the two linked
//! document types, deduplicating metadata across a batch.
pub mod text;
pub mod unpack;
pub mod container;
pub mod catalog;
pub mod extract;
pub mod record;
pub mod pipeline;
