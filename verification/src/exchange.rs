//! One request and its response, with the blob store in the picture.
//!
//! The blob store is modelled as a map from names to bytes that never
//! fails: a read finds what the map holds, a write always goes through.

use crate::connection::{error_wire, step_model, CommandModel, ConnModel, EventModel};
use crate::handlers::{
    octet_stream, plan, save_file_model, send_file_model, PlanModel,
};
use crate::parser::parse_model;
use crate::request::HttpMethod;
use crate::response::{carrying, wire, Status};
use crate::router::{lemma_standard_dispatch, standard_routes, RouteModel};
use crate::text::ascii;
use vstd::prelude::*;

verus! {

/// What a read of the blob `name` finds in `store`.
pub open spec fn lookup(store: Map<Seq<u8>, Seq<u8>>, name: Seq<u8>) -> Option<Seq<u8>> {
    if store.contains_key(name) {
        Some(store[name])
    } else {
        None
    }
}

/// The bytes that a command sends to the peer.
pub open spec fn sent_by(command: CommandModel) -> Seq<u8> {
    match command {
        CommandModel::Send(bytes) => bytes,
        _ => Seq::empty(),
    }
}

/// The outcome of one connection: what the peer was sent, and what the
/// store holds afterwards.
pub struct Exchange {
    pub sent: Seq<u8>,
    pub store: Map<Seq<u8>, Seq<u8>>,
}

/// The outcome of a connection on which `raw` is read, served with the
/// table `routes` against `store`: the steps of the state machine from the
/// read to the send, with the store's answer in between where the handler
/// asks for it.
pub open spec fn exchange(routes: Seq<RouteModel>, store: Map<Seq<u8>, Seq<u8>>, raw: Seq<u8>)
    -> Exchange {
    let (state, command) = step_model(routes, ConnModel::Reading, EventModel::ReadDone(raw));
    match command {
        CommandModel::ReadBlob(name) => Exchange {
            sent: sent_by(step_model(routes, state, EventModel::BlobRead(lookup(store, name))).1),
            store,
        },
        CommandModel::WriteBlob(name, data) => Exchange {
            sent: sent_by(step_model(routes, state, EventModel::BlobWritten(true)).1),
            store: store.insert(name, data),
        },
        _ => Exchange { sent: sent_by(command), store },
    }
}

/// What an exchange comes to, handler by handler: bytes that are no request
/// are answered with the server error; a request is answered with what its
/// handler makes of it and of the store; only a write changes the store.
pub proof fn lemma_exchange(routes: Seq<RouteModel>, store: Map<Seq<u8>, Seq<u8>>, raw: Seq<u8>)
    ensures
        exchange(routes, store, raw) == match parse_model(raw) {
            Err(_) => Exchange { sent: error_wire(), store },
            Ok(request) => match plan(routes, request) {
                PlanModel::Respond(response) => Exchange { sent: wire(response), store },
                PlanModel::ReadBlob(name) => Exchange {
                    sent: wire(send_file_model(lookup(store, name))),
                    store,
                },
                PlanModel::WriteBlob(name, data) => Exchange {
                    sent: wire(save_file_model(request.body, true)),
                    store: store.insert(name, data),
                },
            },
        },
{
}

/// Serving a `GET` request leaves the store as it was, so the same request
/// served again is answered with the same bytes.
pub proof fn lemma_get_is_idempotent(store: Map<Seq<u8>, Seq<u8>>, raw: Seq<u8>)
    requires
        parse_model(raw) matches Ok(request) && request.method == HttpMethod::GET,
    ensures
        exchange(standard_routes(), store, raw).store == store,
        exchange(standard_routes(), exchange(standard_routes(), store, raw).store, raw).sent
            == exchange(standard_routes(), store, raw).sent,
{
    let request = parse_model(raw)->Ok_0;
    lemma_standard_dispatch(request.method, request.path);
}

/// A blob that a `POST` request has stored is what a later `GET` request
/// for the same path is answered with.
pub proof fn lemma_stored_blob_is_served(
    store: Map<Seq<u8>, Seq<u8>>,
    post: Seq<u8>,
    get: Seq<u8>,
    name: Seq<u8>,
)
    requires
        parse_model(post) matches Ok(request) && request.method == HttpMethod::POST
            && request.path == ascii("/files/"@) + name,
        parse_model(get) matches Ok(request) && request.method == HttpMethod::GET && request.path
            == ascii("/files/"@) + name,
    ensures
        ({
            let body = parse_model(post)->Ok_0.body;
            let first = exchange(standard_routes(), store, post);
            let second = exchange(standard_routes(), first.store, get);
            &&& first.sent == wire(carrying(Status::Created, octet_stream(), body))
            &&& first.store == store.insert(name, body)
            &&& second.sent == wire(carrying(Status::Success, octet_stream(), body))
            &&& second.store == first.store
        }),
{
    reveal_strlit("/");
    reveal_strlit("/user-agent");
    reveal_strlit("/echo/");
    reveal_strlit("/files/");
    let path = ascii("/files/"@) + name;
    assert(path.skip(7) =~= name);
    assert(!ascii("/echo/"@).is_prefix_of(path)) by {
        assert(ascii("/echo/"@)[1] != path[1]);
    }
    lemma_standard_dispatch(HttpMethod::POST, path);
    lemma_standard_dispatch(HttpMethod::GET, path);
}

} // verus!
