//! keep-sse: a keep-alive gateway for streamed language-model replies.
//!
//! Requests that ask a language model for a streamed reply are recognised ([`detect`],
//! [`dispatch`]), and their replies are bridged into event streams that are kept alive while the
//! model is silent ([`sse`], [`boundary`], [`reading`]). A failure behind an open event stream
//! is told in the manner of the interface that the client uses ([`error_event`]). Every other
//! request is passed on as it is ([`proxy`]). What all of this promises is stated and proved in
//! [`laws`].

pub mod boundary;
pub mod config;
pub mod detect;
pub mod dispatch;
pub mod encoding;
pub mod error_event;
pub mod headers;
pub mod json;
pub mod laws;
pub mod pprof;
pub mod proxy;
pub mod reading;
pub mod server;
pub mod sse;
pub mod text;
