//! The per-connection state machine: what one connection decides at
//! each step of its read, dispatch, write loop.
//!
//! The surrounding loop performs the transport reads and writes and
//! reports their outcome as an event; this module decides, from the
//! current state and the event alone, whether the connection goes on
//! reading or closes, with which error, and with which reply.

use vstd::prelude::*;
use crate::command::Command;
use crate::command::Reply;
use crate::dispatch::dispatch;
use crate::dispatch::map_after;
use crate::dispatch::reply_matches;
use crate::store::Store;

verus! {

/// Where a connection stands. `Closed` is terminal: nothing is
/// processed for a closed connection.
#[derive(Debug, Clone, Copy, PartialEq, Eq)]
pub enum ConnState {
    Reading,
    Closed,
}

/// What the transport and the decoder reported.
#[derive(Debug, Clone, PartialEq, Eq)]
pub enum ConnEvent {
    /// A frame arrived and decoded into a command.
    Received(Command),
    /// The peer closed the stream cleanly.
    StreamEnded,
    /// The stream held a malformed frame, or a frame that decoded
    /// into no command.
    BadFrame,
    /// Writing the previous reply to the transport failed.
    WriteFailed,
}

/// Why a connection closed, when it closed on an error.
#[derive(Debug, Clone, Copy, PartialEq, Eq)]
pub enum ConnError {
    Protocol,
    Transport,
}

/// One step of the connection loop. A received command is dispatched
/// and answered with the connection kept open — also when the command
/// is unsupported; every other event closes the connection, with the
/// error that matches it, and leaves the store untouched.
pub fn conn_step(store: &mut Store, state: ConnState, event: ConnEvent) -> (r: (
    ConnState,
    Option<Reply>,
    Option<ConnError>,
))
    requires
        old(store).wf(),
    ensures
        final(store).wf(),
        final(store).shards@.len() == old(store).shards@.len(),
        (match state {
            ConnState::Closed => {
                &&& r == (ConnState::Closed, None::<Reply>, None::<ConnError>)
                &&& final(store)@ == old(store)@
            },
            ConnState::Reading => (match event {
                ConnEvent::Received(cmd) => {
                    &&& r.0 == ConnState::Reading
                    &&& r.1 matches Some(rep) && reply_matches(cmd, old(store)@, rep)
                    &&& r.2 == None::<ConnError>
                    &&& final(store)@ == map_after(cmd, old(store)@)
                },
                ConnEvent::StreamEnded => {
                    &&& r == (ConnState::Closed, None::<Reply>, None::<ConnError>)
                    &&& final(store)@ == old(store)@
                },
                ConnEvent::BadFrame => {
                    &&& r == (ConnState::Closed, None::<Reply>, Some(ConnError::Protocol))
                    &&& final(store)@ == old(store)@
                },
                ConnEvent::WriteFailed => {
                    &&& r == (ConnState::Closed, None::<Reply>, Some(ConnError::Transport))
                    &&& final(store)@ == old(store)@
                },
            }),
        }),
{
    match state {
        ConnState::Closed => (ConnState::Closed, None, None),
        ConnState::Reading => match event {
            ConnEvent::Received(cmd) => {
                let rep = dispatch(store, cmd);
                (ConnState::Reading, Some(rep), None)
            },
            ConnEvent::StreamEnded => (ConnState::Closed, None, None),
            ConnEvent::BadFrame => (ConnState::Closed, None, Some(ConnError::Protocol)),
            ConnEvent::WriteFailed => (ConnState::Closed, None, Some(ConnError::Transport)),
        },
    }
}

} // verus!
