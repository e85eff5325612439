//! A client library for one Supreme Court case record: it models the decoded
//! JSON document, gates every extraction on an object root, and offers a fixed
//! set of verified accessors over the document, together with URL building,
//! tag stripping, and a renderer for persistence.

pub mod case;
pub mod codec;
pub mod error;
pub mod json;
pub mod render;
pub mod strip;
pub mod text;
pub mod web;
