//! A verified repository for blog posts: identifier and timestamp codecs, an
//! in-memory post table with cursor pagination, and the assembly of wire replies.

pub mod error;
pub mod timestamp;
pub mod ident;
pub mod models;
pub mod store;
pub mod lemmas;
pub mod service;
