//! The fixed words of the response head.

use vstd::prelude::*;

verus! {

/// The protocol version of the status line.
pub const HTTP_VERSION: &'static str = "HTTP/1.1";

/// The name of the header that announces the body's length in bytes.
pub const CONTENT_LENGTH: &'static str = "Content-Length";

/// The name of the header that announces the body's media type.
pub const CONTENT_TYPE: &'static str = "Content-Type";

/// The media type of every body.
pub const CONTENT_JSON: &'static str = "application/json";

} // verus!
