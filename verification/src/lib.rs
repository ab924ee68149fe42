//! A minimal HTTP/1.1 server core: the parser of requests, the route table,
//! the handlers, the serializer of responses and the state machine of a
//! connection. Sockets and files stay with the caller.

pub mod connection;
pub mod exchange;
pub mod handlers;
pub mod parser;
pub mod request;
pub mod response;
pub mod roundtrip;
pub mod router;
pub mod text;

pub use connection::{step, Command, ConnState, Event, READ_LIMIT};
pub use handlers::{
    echo_response, handle_request, is_single_segment, not_found, root, save_file, send_file,
    server_error, user_agent, Plan,
};
pub use parser::parse_req;
pub use request::{Header, Headers, HttpMethod, HttpRequest, ParseError};
pub use response::{Response, Status};
pub use router::{Handler, Matcher, Route, RouteMatch, Router};
