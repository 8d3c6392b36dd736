//! The request handling of a small HTTP server that lists a directory of audio
//! tracks as JSON and serves single files from it: reading the request target
//! from the bytes of a request, decoding it, choosing the resource it names,
//! and framing the response. Reading sockets, files and directories is left to
//! the caller, who hands the outcome back as plain values.

pub mod text;
pub mod codec;
pub mod request;
pub mod route;
pub mod media;
pub mod respond;
pub mod frame;
pub mod settings;
