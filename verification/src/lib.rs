//! A small request tracer: spans with payloads, recorded per request and
//! written out as one JSON object per line.
pub mod clock;
pub mod context;
pub mod errors;
pub mod handlers;
pub mod hock;
pub mod payload;
pub mod request;
pub mod span;
pub mod text;
pub mod util;
