//! A verified bridge between an HTTP front door and an external, event-driven
//! responder. Each inbound request gets a fresh identifier and a single-use
//! reply slot, travels to the responder as a JSON envelope, and is answered
//! when a reply carrying its identifier comes back, in whatever order replies
//! arrive.
//!
//! - `correlator`: identifiers and the table of reply slots.
//! - `envelope`, `json`: the request envelope and its JSON text.
//! - `decode`: the grammar and decoder of reply envelopes.
//! - `request`, `http`: reading HTTP requests, writing responses with CORS headers.
//! - `bridge`: the decisions of the request bridge and the reply ingress.
//! - `laws`, `roundtrip`: properties of the above, proved.
//! - `keys`: the placeholder key commands of the application shell.
//! - `text`: UTF-8 checks borrowed from std.

pub mod bridge;
pub mod correlator;
pub mod decode;
pub mod envelope;
pub mod http;
pub mod json;
pub mod keys;
pub mod laws;
pub mod request;
pub mod roundtrip;
pub mod text;
