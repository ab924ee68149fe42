use http_server::{
    handle_request, parse_req, step, Command, ConnState, Event, Handler, Header, HttpMethod,
    Matcher, Plan, Response, Route, RouteMatch, Router, Status, READ_LIMIT,
};

fn route(method: HttpMethod, matcher: Matcher, handler: Handler) -> Route {
    Route { method, matcher, handler }
}

#[test]
fn standard_table_routes() {
    let router = Router::standard();
    assert_eq!(router.routes.len(), 5);
    assert_eq!(
        router.dispatch(HttpMethod::GET, b"/"),
        Some(RouteMatch { handler: Handler::Root, segment: Vec::new() })
    );
    assert_eq!(
        router.dispatch(HttpMethod::GET, b"/echo/hello"),
        Some(RouteMatch { handler: Handler::Echo, segment: b"hello".to_vec() })
    );
    assert_eq!(
        router.dispatch(HttpMethod::GET, b"/echo/a/b"),
        Some(RouteMatch { handler: Handler::Echo, segment: b"a/b".to_vec() })
    );
    assert_eq!(
        router.dispatch(HttpMethod::GET, b"/user-agent"),
        Some(RouteMatch { handler: Handler::UserAgent, segment: Vec::new() })
    );
    assert_eq!(
        router.dispatch(HttpMethod::GET, b"/files/foo.txt"),
        Some(RouteMatch { handler: Handler::FileRead, segment: b"foo.txt".to_vec() })
    );
    assert_eq!(
        router.dispatch(HttpMethod::POST, b"/files/foo.txt"),
        Some(RouteMatch { handler: Handler::FileWrite, segment: b"foo.txt".to_vec() })
    );
    assert_eq!(router.dispatch(HttpMethod::POST, b"/"), None);
    assert_eq!(router.dispatch(HttpMethod::GET, b"/echo"), None);
    assert_eq!(router.dispatch(HttpMethod::GET, b"/user-agent/"), None);
    assert_eq!(router.dispatch(HttpMethod::GET, b""), None);
}

#[test]
fn exact_route_wins_over_prefix_route() {
    let router = Router::new(vec![
        route(HttpMethod::GET, Matcher::Prefix(b"/a/".to_vec()), Handler::Echo),
        route(HttpMethod::GET, Matcher::Exact(b"/a/b".to_vec()), Handler::Root),
        route(HttpMethod::GET, Matcher::Prefix(b"/a/b".to_vec()), Handler::UserAgent),
        route(HttpMethod::GET, Matcher::Exact(b"/a/b".to_vec()), Handler::FileRead),
    ]);
    assert_eq!(
        router.dispatch(HttpMethod::GET, b"/a/b"),
        Some(RouteMatch { handler: Handler::Root, segment: Vec::new() })
    );
    assert_eq!(
        router.dispatch(HttpMethod::GET, b"/a/bc"),
        Some(RouteMatch { handler: Handler::Echo, segment: b"bc".to_vec() })
    );
    assert_eq!(router.dispatch(HttpMethod::POST, b"/a/b"), None);
    assert_eq!(Router::new(Vec::new()).dispatch(HttpMethod::GET, b"/"), None);
}

#[test]
fn file_requests_go_to_the_store() {
    let router = Router::standard();
    let get = parse_req(b"GET /files/foo.txt HTTP/1.1\r\n\r\n").unwrap();
    assert_eq!(handle_request(&get, &router), Plan::ReadBlob(b"foo.txt".to_vec()));
    let post = parse_req(b"POST /files/foo.txt HTTP/1.1\r\n\r\nhello").unwrap();
    assert_eq!(
        handle_request(&post, &router),
        Plan::WriteBlob(b"foo.txt".to_vec(), b"hello".to_vec())
    );
}

#[test]
fn serializes_in_the_order_given() {
    let response = Response {
        status: Status::Created,
        headers: vec![
            Header { name: b"b".to_vec(), value: b"2".to_vec() },
            Header { name: b"a".to_vec(), value: b"".to_vec() },
            Header { name: b"content-length".to_vec(), value: b"99".to_vec() },
        ],
        body: b"xy".to_vec(),
    };
    assert_eq!(
        response.serialize(),
        b"HTTP/1.1 201 Created\r\nb: 2\r\na: \r\ncontent-length: 99\r\n\r\nxy".to_vec()
    );
    assert_eq!(Response::empty(Status::Success).serialize(), b"HTTP/1.1 200 OK\r\n\r\n".to_vec());
    assert_eq!(Status::Success.phrase(), b"OK".to_vec());
    assert_eq!(Status::Created.phrase(), b"Created".to_vec());
    assert_eq!(Status::NotFound.phrase(), b"Not Found".to_vec());
    assert_eq!(Status::InternalServerError.phrase(), b"Internal Server Error".to_vec());
}

#[test]
fn connection_reads_once_first() {
    let router = Router::standard();
    let (state, command) = step(ConnState::new(), Event::Start, &router);
    assert!(matches!(state, ConnState::Reading));
    assert_eq!(command, Command::Read(1024));
    assert!(!state.is_terminal());
    assert_eq!(READ_LIMIT, 1024);
}

#[test]
fn failed_read_is_answered_with_a_server_error() {
    let router = Router::standard();
    let (state, command) = step(ConnState::Reading, Event::ReadFailed, &router);
    assert!(matches!(state, ConnState::Failed));
    assert_eq!(command, Command::Send(b"HTTP/1.1 500 Internal Server Error\r\n\r\n".to_vec()));
    let (state, command) = step(state, Event::Sent, &router);
    assert!(matches!(state, ConnState::Failed));
    assert!(state.is_terminal());
    assert_eq!(command, Command::Close);
}

#[test]
fn bad_request_is_answered_with_a_server_error() {
    let router = Router::standard();
    let (state, command) =
        step(ConnState::Reading, Event::ReadDone(b"PATCH / HTTP/1.1\r\n\r\n".to_vec()), &router);
    assert!(matches!(state, ConnState::Failed));
    assert_eq!(command, Command::Send(b"HTTP/1.1 500 Internal Server Error\r\n\r\n".to_vec()));
}

#[test]
fn connection_waits_for_the_store() {
    let router = Router::standard();
    let (state, command) = step(
        ConnState::Reading,
        Event::ReadDone(b"GET /files/a HTTP/1.1\r\n\r\n".to_vec()),
        &router,
    );
    assert!(matches!(state, ConnState::Parsed(_, Handler::FileRead)));
    assert_eq!(command, Command::ReadBlob(b"a".to_vec()));
    let (state, command) = step(state, Event::BlobRead(Some(b"xyz".to_vec())), &router);
    assert!(matches!(state, ConnState::Dispatched));
    assert_eq!(
        command,
        Command::Send(
            b"HTTP/1.1 200 OK\r\ncontent-type: application/octet-stream\r\ncontent-length: 3\r\n\r\nxyz"
                .to_vec()
        )
    );
    let (state, command) = step(state, Event::Sent, &router);
    assert!(matches!(state, ConnState::WriteComplete));
    assert!(state.is_terminal());
    assert_eq!(command, Command::Close);

    let (state, command) = step(
        ConnState::Reading,
        Event::ReadDone(b"POST /files/a HTTP/1.1\r\n\r\nxyz".to_vec()),
        &router,
    );
    assert!(matches!(state, ConnState::Parsed(_, Handler::FileWrite)));
    assert_eq!(command, Command::WriteBlob(b"a".to_vec(), b"xyz".to_vec()));
    let (state, command) = step(state, Event::BlobWritten(false), &router);
    assert!(matches!(state, ConnState::Dispatched));
    assert_eq!(command, Command::Send(b"HTTP/1.1 500 Internal Server Error\r\n\r\n".to_vec()));
}

#[test]
fn failed_send_fails_the_connection() {
    let router = Router::standard();
    let (state, command) = step(ConnState::Dispatched, Event::SendFailed, &router);
    assert!(matches!(state, ConnState::Failed));
    assert_eq!(command, Command::Close);
}

#[test]
fn unexpected_event_closes_the_connection() {
    let router = Router::standard();
    let (state, command) = step(ConnState::Accepted, Event::Sent, &router);
    assert!(matches!(state, ConnState::Failed));
    assert_eq!(command, Command::Close);
    let (state, command) = step(ConnState::Reading, Event::BlobWritten(true), &router);
    assert!(matches!(state, ConnState::Failed));
    assert_eq!(command, Command::Close);
    let (state, command) = step(ConnState::WriteComplete, Event::Start, &router);
    assert!(matches!(state, ConnState::WriteComplete));
    assert_eq!(command, Command::Close);
    let request = parse_req(b"GET /files/a HTTP/1.1\r\n\r\n").unwrap();
    let (state, command) =
        step(ConnState::Parsed(request, Handler::FileRead), Event::BlobWritten(true), &router);
    assert!(matches!(state, ConnState::Failed));
    assert_eq!(command, Command::Close);
}

#[test]
fn blob_names_are_single_segments() {
    assert!(http_server::is_single_segment(b"foo.txt"));
    assert!(http_server::is_single_segment(b"..."));
    assert!(http_server::is_single_segment(b".hidden"));
    assert!(http_server::is_single_segment("\u{e9}".as_bytes()));
    assert!(!http_server::is_single_segment(b""));
    assert!(!http_server::is_single_segment(b"."));
    assert!(!http_server::is_single_segment(b".."));
    assert!(!http_server::is_single_segment(b"a/b"));
    assert!(!http_server::is_single_segment(b"/etc/passwd"));
    assert!(!http_server::is_single_segment(b"..\\x"));
    assert!(!http_server::is_single_segment(b"a\0b"));
}

#[test]
fn response_on_the_wire_is_read_back() {
    let body = "caf\u{e9}\r\n\r\nx: y".as_bytes();
    let wire = http_server::echo_response(body).serialize();
    let (status_line, mut rest) = http_server::parser::split_line(&wire);
    assert_eq!(status_line, &b"HTTP/1.1 200 OK"[..]);
    let mut headers = http_server::Headers::new();
    loop {
        let (line, next) = http_server::parser::split_line(rest);
        rest = next;
        if line.is_empty() {
            break;
        }
        http_server::parser::add_header_line(&mut headers, line);
    }
    assert_eq!(headers.len(), 2);
    assert_eq!(headers.get(b"content-type"), Some(&b"text/plain".to_vec()));
    assert_eq!(body.len(), 13);
    assert_eq!(headers.get(b"content-length"), Some(&b"13".to_vec()));
    assert_eq!(rest, body);
}
