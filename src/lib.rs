//! A small HTTP/1.1 server engine: request-head parsing, exact-match routing,
//! response assembly with default fields, and the per-connection keep-alive
//! state machine. Socket I/O is driven by the caller.

pub mod caller;
pub mod fields;
pub mod http_method;
pub mod http_status;
pub mod parser;
pub mod request;
pub mod response;
pub mod router;
pub mod server;
pub mod text;
