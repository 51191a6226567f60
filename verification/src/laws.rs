//! What the gateway promises, in terms of what goes in and what comes out.
//!
//! Each law relates the results of the operations to their inputs directly: by the characters
//! and bytes that stand in them, by the values of named header fields, and by what the outside
//! decoders and readers give.

pub mod errors;
pub mod replies;
pub mod requests;
pub mod settings;
pub mod texts;
