//! Core of SHDP, a binary request/response protocol whose wire format is
//! defined at the bit level: a directional bit-stream codec, a frame layer
//! with a 56-bit header, an event dispatch registry, and the version-1 event
//! codecs built on a 5-bit variable-length character code (the fyve
//! alphabet).

pub mod args;
pub mod bits;
pub mod client;
pub mod decoder;
pub mod encoder;
pub mod errors;
pub mod fyve;
pub mod html;
pub mod json;
pub mod registry;
pub mod server;
pub mod text;
pub mod transport;
pub mod versions;
