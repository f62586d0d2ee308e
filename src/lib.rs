//! Client-side request/response engine for HTTP/3: request building, body
//! chunking, pending-body flow control, response assembly and persistent-stream
//! framing, each stated and proved over a mathematical model.
use vstd::prelude::*;

pub mod assembly;
pub mod body;
pub mod content_type;
pub mod decimal;
pub mod event_loop;
pub mod framing;
pub mod header;
pub mod pending;
pub mod progress;
pub mod request;
pub mod response;
pub mod table;

verus! {

} // verus!
