//! A small static file server: its settings, the resolution of request URLs
//! to files under a root directory, and the choice of the response to send.
//!
//! The library decides; the caller performs the I/O. It resolves the request
//! URL to path components, probes the file system itself, and hands what it
//! found back to obtain the reply.

pub mod content_types;
pub mod lemmas;
pub mod paths;
pub mod server;

pub use content_types::ContentTypes;
pub use paths::{extension, request_segments_of};
pub use server::{is_valid_header_value, FileLookup, FileServer, HeaderError, Reply};
