//! Output-safety and literal-decoding core for a template engine.
//!
//! The crate turns engine values into text that is safe for a chosen
//! output context (HTML, JSON, or none) and decodes JSON-style escape
//! sequences found in string literals, including UTF-16 surrogate
//! pairs.  Byte-search helpers used by the surrounding lexer live here
//! as well.

pub mod chars;
pub mod dispatch;
pub mod error;
pub mod htmlescape;
pub mod output;
pub mod outside;
pub mod search;
pub mod unescape;
pub mod value;

pub use dispatch::invalid_autoescape;
pub use dispatch::write_escaped;
pub use dispatch::write_with_html_escaping;
pub use dispatch::AutoEscape;
pub use dispatch::SerializationFailed;
pub use error::Error;
pub use error::ErrorKind;
pub use htmlescape::HtmlEscape;
pub use output::Output;
pub use search::memchr;
pub use search::memstr;
pub use unescape::unescape;
pub use unescape::Unescaper;
pub use value::SealedMarker;
pub use value::StringType;
pub use value::Value;
pub use value::ValueKind;
