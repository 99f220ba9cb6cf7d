//! Decoder for download link containers.
//!
//! A container holds a package: a name, a password and a list of links. The
//! links sit in text that is base64 inside AES-128-CBC inside base64; the
//! key to it is wrapped and must be unwrapped by a key service first. This
//! library does everything but talk to the service: `DlcDecoder::key_request`
//! says what to ask, and `DlcDecoder::from_data` decodes the container with
//! the reply.

pub mod cipher;
pub mod codec;
pub mod container;
pub mod decoder;
pub mod error;
pub mod package;
pub mod parser;
pub mod text;

pub use container::{KeyRequest, ServiceReply};
pub use decoder::DlcDecoder;
pub use error::DlcError;
pub use package::{DlcLink, DlcPackage};
