//! The control-plane API: length-prefixed JSON `Request`/`Response`
//! messages over a Unix socket, plus an unsolicited `Event` stream.

pub mod client;
pub mod messages;
pub mod protocol;
pub mod server;

pub use messages::{Event, Request, Response};
