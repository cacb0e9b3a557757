//! The per-connection protocol state machine.
//!
//! Each live connection runs one instance: inbound transport items go in,
//! a successor state and a short script of actions come out. The
//! surrounding server performs the actions in order — registering the
//! subscription, sending the event text or the liveness acknowledgment,
//! or, once the connection reaches its terminal state, removing it from
//! the subscription registry so no dangling handle is retained. The
//! machine never closes a connection over malformed input: it answers
//! with exactly one error event and waits for the next command.

use vstd::prelude::*;
use crate::codec::WsEvent;
use crate::codec::error_text;
use crate::codec::render_event;
use crate::codec::subscribed_text;
use crate::parser::SpecCommand;
use crate::parser::WsCommand;
use crate::parser::parse_command;
use crate::parser::spec_parse_command;

verus! {

/// The lifecycle of one connection. `Open` and `Active` behave alike; the
/// distinction only documents whether any subscription was made yet.
/// `Closed` is terminal.
#[derive(Clone, Copy, Debug, PartialEq, Eq, Structural)]
pub enum ConnState {
    Open,
    Active,
    Closed,
}

/// One item arriving from a connection's transport.
#[derive(Debug)]
pub enum Inbound {
    /// A text message: a protocol command, well-formed or not.
    Text(String),
    /// Any other frame the transport may deliver; ignored.
    Frame,
    /// An orderly close.
    Close,
    /// A transport-level read error.
    Failure,
}

/// One instruction to the surrounding server.
#[derive(Debug)]
pub enum Action {
    /// Register this connection's interest in the session.
    Subscribe { session_id: String },
    /// Send this event text to the client.
    Send(String),
    /// Send a protocol-level liveness acknowledgment with no payload.
    Pong,
    /// Remove this connection from the subscription registry.
    Cleanup,
}

/// Advances one connection by one inbound item.
///
/// A malformed message earns exactly one `error` event and leaves the
/// state unchanged, so the connection stays open and the next command is
/// handled on its own terms. A close or a transport failure moves to
/// `Closed` and asks for cleanup; the terminal state absorbs everything.
pub fn step(state: ConnState, msg: Inbound) -> (r: (ConnState, Vec<Action>))
    ensures
        state is Closed ==> r.0 is Closed && r.1@.len() == 0,
        !(state is Closed) ==> match msg {
            Inbound::Text(t) => match spec_parse_command(t@) {
                Result::Ok(SpecCommand::Subscribe(sid)) => {
                    &&& r.0 is Active
                    &&& r.1@.len() == 2
                    &&& (r.1@[0] matches Action::Subscribe { session_id } && session_id@ == sid)
                    &&& (r.1@[1] matches Action::Send(txt) && txt@ == subscribed_text(sid))
                },
                Result::Ok(SpecCommand::Ping) => r.0 == state && r.1@.len() == 1
                    && r.1@[0] is Pong,
                Result::Err(e) => {
                    &&& r.0 == state
                    &&& r.1@.len() == 1
                    &&& (r.1@[0] matches Action::Send(txt) && txt@ == error_text(e.spec_message()))
                },
            },
            Inbound::Frame => r.0 == state && r.1@.len() == 0,
            Inbound::Close => r.0 is Closed && r.1@.len() == 1 && r.1@[0] is Cleanup,
            Inbound::Failure => r.0 is Closed && r.1@.len() == 1 && r.1@[0] is Cleanup,
        },
{
    let mut actions: Vec<Action> = Vec::new();
    if let ConnState::Closed = state {
        return (ConnState::Closed, actions);
    }
    match msg {
        Inbound::Text(t) => match parse_command(t.as_str()) {
            Result::Ok(WsCommand::Subscribe { session_id }) => {
                let ev = render_event(
                    &WsEvent::Subscribed { session_id: session_id.clone() },
                );
                actions.push(Action::Subscribe { session_id });
                actions.push(Action::Send(ev));
                (ConnState::Active, actions)
            },
            Result::Ok(WsCommand::Ping) => {
                actions.push(Action::Pong);
                (state, actions)
            },
            Result::Err(e) => {
                let ev = render_event(&WsEvent::Error { message: e.message() });
                actions.push(Action::Send(ev));
                (state, actions)
            },
        },
        Inbound::Frame => (state, actions),
        Inbound::Close => {
            actions.push(Action::Cleanup);
            (ConnState::Closed, actions)
        },
        Inbound::Failure => {
            actions.push(Action::Cleanup);
            (ConnState::Closed, actions)
        },
    }
}

/// A malformed message never ends the connection: the state after it is
/// the state before it, still open, and the one action is the error
/// event — so a valid command arriving next is answered exactly as
/// `step`'s contract promises for it, unaffected by the rejection.
pub proof fn lemma_malformed_is_tolerated(
    state: ConnState,
    pre: (ConnState, Vec<Action>),
    e: crate::parser::ParseError,
)
    requires
        !(state is Closed),
        pre.0 == state,
        pre.1@.len() == 1,
        (pre.1@[0] matches Action::Send(txt) && txt@ == error_text(e.spec_message())),
    ensures
        !(pre.0 is Closed),
        forall|a: int| 0 <= a < pre.1@.len() ==> !((#[trigger] pre.1@[a]) is Cleanup) && !(
        pre.1@[a] is Subscribe),
{
}

} // verus!
