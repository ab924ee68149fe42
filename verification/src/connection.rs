//! The life of one connection, as a state machine.
//!
//! The library decides; its caller acts. `step` takes the state of a
//! connection and what has just happened on it, and returns the next state
//! and what to do next: read from the peer, ask the blob store, send bytes
//! to the peer, or close. A connection serves one request and is closed.

use crate::handlers::{
    handle_request, plan, save_file, save_file_model, send_file, send_file_model, server_error,
    Plan, PlanModel,
};
use crate::parser::{parse_model, parse_req};
use crate::request::{HttpRequest, RequestModel};
use crate::response::{bare, wire, Status};
use crate::router::{Handler, RouteModel, Router};
use vstd::prelude::*;

verus! {

/// The number of bytes that the one read of a connection asks for.
pub const READ_LIMIT: usize = 1024;

/// Where a connection stands, as a mathematical value.
pub enum ConnModel {
    Accepted,
    Reading,
    Parsed(RequestModel, Handler),
    Dispatched,
    WriteComplete,
    Failed,
}

/// Where a connection stands.
#[derive(Debug)]
pub enum ConnState {
    /// The connection has been handed over; nothing was done on it yet.
    Accepted,
    /// The one read has been asked for.
    Reading,
    /// The request has been parsed and its handler waits for the blob
    /// store.
    Parsed(HttpRequest, Handler),
    /// The response has been handed out for sending.
    Dispatched,
    /// The response has been sent. The connection is over.
    WriteComplete,
    /// The read, the parse or the send has failed. The connection is over.
    Failed,
}

impl View for ConnState {
    type V = ConnModel;

    open spec fn view(&self) -> ConnModel {
        match self {
            ConnState::Accepted => ConnModel::Accepted,
            ConnState::Reading => ConnModel::Reading,
            ConnState::Parsed(request, handler) => ConnModel::Parsed(request@, *handler),
            ConnState::Dispatched => ConnModel::Dispatched,
            ConnState::WriteComplete => ConnModel::WriteComplete,
            ConnState::Failed => ConnModel::Failed,
        }
    }
}

/// What has happened on a connection, as a mathematical value.
pub enum EventModel {
    Start,
    ReadDone(Seq<u8>),
    ReadFailed,
    BlobRead(Option<Seq<u8>>),
    BlobWritten(bool),
    Sent,
    SendFailed,
}

/// What has happened on a connection since the last step.
#[derive(Clone, Debug, PartialEq, Eq)]
pub enum Event {
    /// Nothing yet: the connection has just been accepted.
    Start,
    /// The read returned these bytes.
    ReadDone(Vec<u8>),
    /// The read failed.
    ReadFailed,
    /// The blob store was asked for a blob and returned its bytes, or
    /// `None` where it has no such blob or could not read it.
    BlobRead(Option<Vec<u8>>),
    /// The blob store was asked to store a blob and reports whether it did.
    BlobWritten(bool),
    /// The bytes handed out for sending have been sent.
    Sent,
    /// The bytes handed out for sending could not be sent.
    SendFailed,
}

impl View for Event {
    type V = EventModel;

    open spec fn view(&self) -> EventModel {
        match self {
            Event::Start => EventModel::Start,
            Event::ReadDone(bytes) => EventModel::ReadDone(bytes@),
            Event::ReadFailed => EventModel::ReadFailed,
            Event::BlobRead(Some(content)) => EventModel::BlobRead(Some(content@)),
            Event::BlobRead(None) => EventModel::BlobRead(None),
            Event::BlobWritten(stored) => EventModel::BlobWritten(*stored),
            Event::Sent => EventModel::Sent,
            Event::SendFailed => EventModel::SendFailed,
        }
    }
}

/// What to do next on a connection, as a mathematical value.
pub enum CommandModel {
    Read(usize),
    ReadBlob(Seq<u8>),
    WriteBlob(Seq<u8>, Seq<u8>),
    Send(Seq<u8>),
    Close,
}

/// What the caller has to do next on a connection. The outcome of each
/// command but `Close` comes back as the event of the next step.
#[derive(Clone, Debug, PartialEq, Eq)]
pub enum Command {
    /// Read once from the peer, at most this many bytes.
    Read(usize),
    /// Ask the blob store for the blob of this name.
    ReadBlob(Vec<u8>),
    /// Ask the blob store to store these bytes under this name.
    WriteBlob(Vec<u8>, Vec<u8>),
    /// Send these bytes to the peer.
    Send(Vec<u8>),
    /// Close the connection.
    Close,
}

impl View for Command {
    type V = CommandModel;

    open spec fn view(&self) -> CommandModel {
        match self {
            Command::Read(limit) => CommandModel::Read(*limit),
            Command::ReadBlob(name) => CommandModel::ReadBlob(name@),
            Command::WriteBlob(name, data) => CommandModel::WriteBlob(name@, data@),
            Command::Send(bytes) => CommandModel::Send(bytes@),
            Command::Close => CommandModel::Close,
        }
    }
}

/// The response that a peer gets where no request could be had.
pub open spec fn error_wire() -> Seq<u8> {
    wire(bare(Status::InternalServerError))
}

/// The step that follows a successful read of `bytes`.
///
/// Bytes that are no request are answered with a server error, and the
/// connection has failed. A request whose response is ready is answered
/// with it. A request for the blob store waits, parsed, for the store.
pub open spec fn after_read(routes: Seq<RouteModel>, bytes: Seq<u8>) -> (ConnModel, CommandModel) {
    match parse_model(bytes) {
        Err(_) => (ConnModel::Failed, CommandModel::Send(error_wire())),
        Ok(request) => match plan(routes, request) {
            PlanModel::Respond(response) => (
                ConnModel::Dispatched,
                CommandModel::Send(wire(response)),
            ),
            PlanModel::ReadBlob(name) => (
                ConnModel::Parsed(request, Handler::FileRead),
                CommandModel::ReadBlob(name),
            ),
            PlanModel::WriteBlob(name, data) => (
                ConnModel::Parsed(request, Handler::FileWrite),
                CommandModel::WriteBlob(name, data),
            ),
        },
    }
}

/// The next state of a connection and the next command, given its state and
/// what has happened.
///
/// An event that the state does not wait for ends the connection: it is
/// closed, and has failed unless the response was sent before.
pub open spec fn step_model(routes: Seq<RouteModel>, state: ConnModel, event: EventModel) -> (
    ConnModel,
    CommandModel,
) {
    match (state, event) {
        (ConnModel::Accepted, EventModel::Start) => (
            ConnModel::Reading,
            CommandModel::Read(READ_LIMIT),
        ),
        (ConnModel::Reading, EventModel::ReadDone(bytes)) => after_read(routes, bytes),
        (ConnModel::Reading, EventModel::ReadFailed) => (
            ConnModel::Failed,
            CommandModel::Send(error_wire()),
        ),
        (ConnModel::Parsed(_, Handler::FileRead), EventModel::BlobRead(blob)) => (
            ConnModel::Dispatched,
            CommandModel::Send(wire(send_file_model(blob))),
        ),
        (ConnModel::Parsed(request, Handler::FileWrite), EventModel::BlobWritten(stored)) => (
            ConnModel::Dispatched,
            CommandModel::Send(wire(save_file_model(request.body, stored))),
        ),
        (ConnModel::Dispatched, EventModel::Sent) => (
            ConnModel::WriteComplete,
            CommandModel::Close,
        ),
        (ConnModel::WriteComplete, _) => (ConnModel::WriteComplete, CommandModel::Close),
        _ => (ConnModel::Failed, CommandModel::Close),
    }
}

impl ConnModel {
    /// Whether the connection is over.
    pub open spec fn is_terminal(self) -> bool {
        self is WriteComplete || self is Failed
    }
}

/// The largest number of steps that a connection in `state` can still take
/// before it is over.
pub open spec fn steps_left(state: ConnModel) -> nat {
    match state {
        ConnModel::Accepted => 4,
        ConnModel::Reading => 3,
        ConnModel::Parsed(_, _) => 2,
        ConnModel::Dispatched => 1,
        ConnModel::WriteComplete => 0,
        ConnModel::Failed => 0,
    }
}

/// Every step brings a connection nearer to its end, whatever happens on
/// it; a connection that is over stays as it is and is told to close; and
/// a connection is told to close only when it is over.
pub proof fn lemma_step_ends(routes: Seq<RouteModel>, state: ConnModel, event: EventModel)
    ensures
        ({
            let (next, command) = step_model(routes, state, event);
            &&& !state.is_terminal() ==> steps_left(next) < steps_left(state)
            &&& state.is_terminal() ==> next == state && command == CommandModel::Close
            &&& command == CommandModel::Close ==> next.is_terminal()
        }),
{
}

impl ConnState {
    /// The state of a connection that has just been accepted.
    pub fn new() -> (r: ConnState)
        ensures
            r@ == ConnModel::Accepted,
    {
        ConnState::Accepted
    }

    /// Tells whether the connection is over.
    pub fn is_terminal(&self) -> (r: bool)
        ensures
            r == self@.is_terminal(),
    {
        match self {
            ConnState::WriteComplete => true,
            ConnState::Failed => true,
            _ => false,
        }
    }
}

/// Takes a connection one step further.
pub fn step(state: ConnState, event: Event, router: &Router) -> (r: (ConnState, Command))
    ensures
        (r.0@, r.1@) == step_model(router@, state@, event@),
{
    match (state, event) {
        (ConnState::Accepted, Event::Start) => (ConnState::Reading, Command::Read(READ_LIMIT)),
        (ConnState::Reading, Event::ReadDone(bytes)) => match parse_req(bytes.as_slice()) {
            Err(_) => (ConnState::Failed, Command::Send(server_error().serialize())),
            Ok(request) => match handle_request(&request, router) {
                Plan::Respond(response) => (
                    ConnState::Dispatched,
                    Command::Send(response.serialize()),
                ),
                Plan::ReadBlob(name) => (
                    ConnState::Parsed(request, Handler::FileRead),
                    Command::ReadBlob(name),
                ),
                Plan::WriteBlob(name, data) => (
                    ConnState::Parsed(request, Handler::FileWrite),
                    Command::WriteBlob(name, data),
                ),
            },
        },
        (ConnState::Reading, Event::ReadFailed) => (
            ConnState::Failed,
            Command::Send(server_error().serialize()),
        ),
        (ConnState::Parsed(_, Handler::FileRead), Event::BlobRead(blob)) => (
            ConnState::Dispatched,
            Command::Send(send_file(blob).serialize()),
        ),
        (ConnState::Parsed(request, Handler::FileWrite), Event::BlobWritten(stored)) => (
            ConnState::Dispatched,
            Command::Send(save_file(request.body.as_slice(), stored).serialize()),
        ),
        (ConnState::Dispatched, Event::Sent) => (ConnState::WriteComplete, Command::Close),
        (ConnState::WriteComplete, _) => (ConnState::WriteComplete, Command::Close),
        _ => (ConnState::Failed, Command::Close),
    }
}

} // verus!
