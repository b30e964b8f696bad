//! The client side of the protocol: while waiting for the response to a
//! request, events that arrive first are skipped, and the other way round.

use crate::ipc::messages::{Event, Response, ServerMessage};
use vstd::prelude::*;

verus! {

/// The response in a server message, if it is one (events are skipped
/// while a request waits).
pub fn as_response(msg: ServerMessage) -> (r: Option<Response>)
    ensures
        r == match msg {
            ServerMessage::Response(x) => Some(x),
            ServerMessage::Event(_) => None,
        },
{
    match msg {
        ServerMessage::Response(r) => Some(r),
        ServerMessage::Event(_) => None,
    }
}

/// The event in a server message, if it is one.
pub fn as_event(msg: ServerMessage) -> (r: Option<Event>)
    ensures
        r == match msg {
            ServerMessage::Event(e) => Some(e),
            ServerMessage::Response(_) => None,
        },
{
    match msg {
        ServerMessage::Event(e) => Some(e),
        ServerMessage::Response(_) => None,
    }
}

} // verus!
