//! A text-based HTTP/1.x message model.
//!
//! Raw text or bytes are parsed into structured [`Request`] / [`Response`]
//! values (method, target, version, headers, body, status line) and rendered
//! back into their wire form. Every stage reports failures through a small
//! typed error taxonomy, [`ParseErrorKind`].

pub mod error;
pub mod headers;
pub mod method;
pub mod presets;
pub mod request;
pub mod resp_presets;
pub mod response;
pub mod status;
pub mod text;
pub mod util;
pub mod version;

pub use crate::error::HttpParseError;
pub use crate::error::ParseErrorKind;
pub use crate::headers::HeaderMap;
pub use crate::method::HttpMethod;
pub use crate::request::Request;
pub use crate::response::Response;
pub use crate::response::ResponseBuilder;
pub use crate::status::HttpStatus;
pub use crate::status::HttpStatusGroup;
pub use crate::util::Destruct;
pub use crate::util::TryRequest;
pub use crate::version::HttpVersion;
