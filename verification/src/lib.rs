//! Core of a small static-file HTTP server.
//!
//! The library holds the pure logic of the server: parsing the request
//! line out of the bytes read from a connection, resolving a request path
//! to a file under the served root directory without ever escaping it,
//! choosing a content type from the file extension, and rendering the
//! response bytes with an exact `Content-Length`. All socket and
//! filesystem work stays with the caller, which feeds the results of
//! those operations back into the functions here as plain values.

pub mod config;
pub mod content_type;
pub mod dec;
pub mod listing;
pub mod path;
pub mod request;
pub mod response;
pub mod util;
