//! The handlers, and the choice among them.
//!
//! A handler turns a request into a response and never fails. The two file
//! handlers need the blob store, which lives outside this library: for them
//! `handle_request` says what to ask of the store, and `send_file` and
//! `save_file` turn the store's answer into the response.

use crate::request::{value_or_empty, HttpRequest, RequestModel};
use crate::response::{
    bare, carrying, content_length, content_type, wire, Response, ResponseModel, Status,
};
use crate::router::{dispatch_model, Handler, RouteModel, Router};
use crate::text::{ascii, ascii_bytes, bytes_eq, decimal};
use vstd::prelude::*;
use vstd::slice::slice_to_vec;

verus! {

/// The kind of a body of text.
pub open spec fn text_plain() -> Seq<u8> {
    ascii("text/plain"@)
}

/// The kind of a body of arbitrary bytes.
pub open spec fn octet_stream() -> Seq<u8> {
    ascii("application/octet-stream"@)
}

/// The answer to a request for the root: success, no header, no body.
pub open spec fn root_model() -> ResponseModel {
    bare(Status::Success)
}

/// The answer to an echo request: the dynamic segment as it stands, as text.
pub open spec fn echo_model(value: Seq<u8>) -> ResponseModel {
    carrying(Status::Success, text_plain(), value)
}

/// The answer to a request for the user agent: the value of the request's
/// `user-agent` header, as text; the empty text where it has none.
pub open spec fn user_agent_model(request: RequestModel) -> ResponseModel {
    carrying(
        Status::Success,
        text_plain(),
        value_or_empty(request.headers, ascii("user-agent"@)),
    )
}

/// The answer to a request for a blob, given what the store found: the blob,
/// or not found.
pub open spec fn send_file_model(blob: Option<Seq<u8>>) -> ResponseModel {
    match blob {
        Some(content) => carrying(Status::Success, octet_stream(), content),
        None => bare(Status::NotFound),
    }
}

/// The answer to a request to store `body`, given whether the store took
/// it: created, with the stored bytes, or a server error.
pub open spec fn save_file_model(body: Seq<u8>, stored: bool) -> ResponseModel {
    if stored {
        carrying(Status::Created, octet_stream(), body)
    } else {
        bare(Status::InternalServerError)
    }
}

/// What handling a request starts with, as a mathematical value.
pub enum PlanModel {
    Respond(ResponseModel),
    ReadBlob(Seq<u8>),
    WriteBlob(Seq<u8>, Seq<u8>),
}

/// What handling a request starts with.
#[derive(Clone, Debug, PartialEq, Eq)]
pub enum Plan {
    /// The response is ready.
    Respond(Response),
    /// The blob of this name has to be read; `send_file` makes the response
    /// of what the store returns.
    ReadBlob(Vec<u8>),
    /// These bytes have to be stored as the blob of this name; `save_file`
    /// makes the response of what the store reports.
    WriteBlob(Vec<u8>, Vec<u8>),
}

impl View for Plan {
    type V = PlanModel;

    open spec fn view(&self) -> PlanModel {
        match self {
            Plan::Respond(response) => PlanModel::Respond(response@),
            Plan::ReadBlob(name) => PlanModel::ReadBlob(name@),
            Plan::WriteBlob(name, data) => PlanModel::WriteBlob(name@, data@),
        }
    }
}

/// What the table `routes` makes of `request`. A request that no route
/// matches is answered with not found, without header or body.
pub open spec fn plan(routes: Seq<RouteModel>, request: RequestModel) -> PlanModel {
    match dispatch_model(routes, request.method, request.path) {
        None => PlanModel::Respond(bare(Status::NotFound)),
        Some((handler, segment)) => match handler {
            Handler::Root => PlanModel::Respond(root_model()),
            Handler::Echo => PlanModel::Respond(echo_model(segment)),
            Handler::UserAgent => PlanModel::Respond(user_agent_model(request)),
            Handler::FileRead => PlanModel::ReadBlob(segment),
            Handler::FileWrite => PlanModel::WriteBlob(segment, request.body),
        },
    }
}

/// Every response that a handler makes is framed: where it names the
/// length of its body, that is the exact number of the body's bytes. This
/// holds for every table, every request and every answer of the store.
pub proof fn lemma_responses_are_framed(
    routes: Seq<RouteModel>,
    request: RequestModel,
    blob: Option<Seq<u8>>,
    stored: bool,
)
    ensures
        plan(routes, request) matches PlanModel::Respond(response) ==> response.framed(),
        send_file_model(blob).framed(),
        save_file_model(request.body, stored).framed(),
{
    reveal_strlit("content-type");
    reveal_strlit("content-length");
    assert(content_type() != content_length()) by {
        assert(content_type().len() != content_length().len());
    }
}

/// A request that no route of the table matches is answered with not
/// found, without header or body, whatever the table and the request.
pub proof fn lemma_unmatched_is_not_found(routes: Seq<RouteModel>, request: RequestModel)
    requires
        dispatch_model(routes, request.method, request.path) is None,
    ensures
        plan(routes, request) == PlanModel::Respond(bare(Status::NotFound)),
        bare(Status::NotFound).headers.len() == 0,
        bare(Status::NotFound).body.len() == 0,
        wire(bare(Status::NotFound)) == ascii("HTTP/1.1 404 Not Found\r\n\r\n"@),
{
    reveal_strlit("HTTP/1.1");
    reveal_strlit("Not Found");
    reveal_strlit("\r\n");
    reveal_strlit("HTTP/1.1 404 Not Found\r\n\r\n");
    reveal_with_fuel(decimal, 3);
}

/// Answers a request for the root.
pub fn root() -> (r: Response)
    ensures
        r@ == root_model(),
        r@.framed(),
{
    Response::empty(Status::Success)
}

/// Answers a request that no route matches.
pub fn not_found() -> (r: Response)
    ensures
        r@ == bare(Status::NotFound),
        r@.framed(),
{
    Response::empty(Status::NotFound)
}

/// Answers where no request could be had: the read failed, or the bytes
/// read are no request.
pub fn server_error() -> (r: Response)
    ensures
        r@ == bare(Status::InternalServerError),
        r@.framed(),
{
    Response::empty(Status::InternalServerError)
}

/// Answers an echo request with its dynamic segment.
pub fn echo_response(value: &[u8]) -> (r: Response)
    ensures
        r@ == echo_model(value@),
        r@.framed(),
{
    proof {
        reveal_strlit("text/plain");
    }
    Response::with_body(Status::Success, ascii_bytes("text/plain"), slice_to_vec(value))
}

/// Answers a request for the user agent.
pub fn user_agent(request: &HttpRequest) -> (r: Response)
    ensures
        r@ == user_agent_model(request@),
        r@.framed(),
{
    proof {
        reveal_strlit("text/plain");
        reveal_strlit("user-agent");
    }
    let name = ascii_bytes("user-agent");
    let agent = request.headers.value_or_empty(name.as_slice());
    Response::with_body(Status::Success, ascii_bytes("text/plain"), agent)
}

/// Answers a request for a blob with what the store returned for it:
/// `Some` with the blob's bytes, `None` where it has no such blob or could
/// not read it.
pub fn send_file(blob: Option<Vec<u8>>) -> (r: Response)
    ensures
        r@ == send_file_model(
            match blob {
                Some(content) => Some(content@),
                None => None,
            },
        ),
        r@.framed(),
{
    proof {
        reveal_strlit("application/octet-stream");
    }
    match blob {
        Some(content) => Response::with_body(
            Status::Success,
            ascii_bytes("application/octet-stream"),
            content,
        ),
        None => Response::empty(Status::NotFound),
    }
}

/// Answers a request to store `body` with what the store reported:
/// `stored` tells whether the write went through.
pub fn save_file(body: &[u8], stored: bool) -> (r: Response)
    ensures
        r@ == save_file_model(body@, stored),
        r@.framed(),
{
    proof {
        reveal_strlit("application/octet-stream");
    }
    if stored {
        Response::with_body(
            Status::Created,
            ascii_bytes("application/octet-stream"),
            slice_to_vec(body),
        )
    } else {
        Response::empty(Status::InternalServerError)
    }
}

/// Whether `name` is a single path segment, as the blob store is addressed
/// by: not empty, neither `.` nor `..`, and without a slash, a backslash or
/// a zero byte in it.
pub open spec fn is_segment(name: Seq<u8>) -> bool {
    &&& name.len() > 0
    &&& name != ascii("."@)
    &&& name != ascii(".."@)
    &&& forall|i: int|
        0 <= i < name.len() ==> #[trigger] name[i] != 47 && name[i] != 92 && name[i] != 0
}

/// Tells whether `name` is a single path segment. A store that keeps its
/// blobs in a directory asks this before it touches a file.
pub fn is_single_segment(name: &[u8]) -> (r: bool)
    ensures
        r == is_segment(name@),
{
    proof {
        reveal_strlit(".");
        reveal_strlit("..");
    }
    let dot = ascii_bytes(".");
    let dots = ascii_bytes("..");
    if name.len() == 0 || bytes_eq(name, dot.as_slice()) || bytes_eq(name, dots.as_slice()) {
        return false;
    }
    let mut i: usize = 0;
    while i < name.len()
        invariant
            i <= name.len(),
            forall|j: int| 0 <= j < i ==> #[trigger] name@[j] != 47 && name@[j] != 92 && name@[j] != 0,
        decreases name.len() - i,
    {
        let b: u8 = name[i];
        if b == 47 || b == 92 || b == 0 {
            return false;
        }
        i += 1;
    }
    true
}

/// Chooses the handler for a request and runs it as far as it goes without
/// the blob store.
pub fn handle_request(http_request: &HttpRequest, router: &Router) -> (r: Plan)
    ensures
        r@ == plan(router@, http_request@),
        r matches Plan::Respond(response) ==> response@.framed(),
        dispatch_model(router@, http_request.method, http_request.path@) is None ==> r@
            == PlanModel::Respond(bare(Status::NotFound)),
{
    match router.dispatch(http_request.method, http_request.path.as_slice()) {
        None => Plan::Respond(not_found()),
        Some(found) => match found.handler {
            Handler::Root => Plan::Respond(root()),
            Handler::Echo => Plan::Respond(echo_response(found.segment.as_slice())),
            Handler::UserAgent => Plan::Respond(user_agent(http_request)),
            Handler::FileRead => Plan::ReadBlob(found.segment),
            Handler::FileWrite => Plan::WriteBlob(
                found.segment,
                slice_to_vec(http_request.body.as_slice()),
            ),
        },
    }
}

} // verus!
