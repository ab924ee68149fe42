use http_server::{
    handle_request, parse_req, save_file, send_file, step, Command, ConnState, Event, ParseError,
    Plan, Response, Router, Status,
};

/// A blob store that lives in memory.
struct MemoryStore {
    blobs: Vec<(Vec<u8>, Vec<u8>)>,
}

impl MemoryStore {
    fn new() -> Self {
        MemoryStore { blobs: Vec::new() }
    }

    fn read(&self, name: &[u8]) -> Option<Vec<u8>> {
        self.blobs.iter().rev().find(|(n, _)| n.as_slice() == name).map(|(_, data)| data.clone())
    }

    fn write(&mut self, name: &[u8], data: &[u8]) -> bool {
        self.blobs.push((name.to_vec(), data.to_vec()));
        true
    }
}

/// Serves one request against the store, as a caller of the library does.
fn serve(store: &mut MemoryStore, raw: &[u8]) -> Vec<u8> {
    let router = Router::standard();
    let mut state = ConnState::new();
    let mut event = Event::Start;
    let mut sent: Vec<u8> = Vec::new();
    for _ in 0..8 {
        let (next, command) = step(state, event, &router);
        state = next;
        event = match command {
            Command::Read(limit) => {
                assert_eq!(limit, 1024);
                Event::ReadDone(raw.to_vec())
            }
            Command::ReadBlob(name) => Event::BlobRead(store.read(&name)),
            Command::WriteBlob(name, data) => Event::BlobWritten(store.write(&name, &data)),
            Command::Send(bytes) => {
                sent.extend_from_slice(&bytes);
                Event::Sent
            }
            Command::Close => {
                assert!(state.is_terminal());
                return sent;
            }
        };
    }
    panic!("the connection was not closed");
}

fn header<'a>(response: &'a Response, name: &[u8]) -> Option<&'a [u8]> {
    response.headers.iter().find(|h| h.name.as_slice() == name).map(|h| h.value.as_slice())
}

fn respond(raw: &[u8]) -> Response {
    let request = parse_req(raw).unwrap();
    match handle_request(&request, &Router::standard()) {
        Plan::Respond(response) => response,
        other => panic!("no response yet: {:?}", other),
    }
}

#[test]
fn scenario_root() {
    let mut store = MemoryStore::new();
    let out = serve(&mut store, b"GET / HTTP/1.1\r\n\r\n");
    assert_eq!(out, b"HTTP/1.1 200 OK\r\n\r\n".to_vec());
}

#[test]
fn scenario_echo() {
    let response = respond(b"GET /echo/abc HTTP/1.1\r\n\r\n");
    assert_eq!(response.status, Status::Success);
    assert_eq!(response.status.number(), 200);
    assert_eq!(header(&response, b"content-type"), Some(&b"text/plain"[..]));
    assert_eq!(header(&response, b"content-length"), Some(&b"3"[..]));
    assert_eq!(response.body, b"abc".to_vec());
    assert_eq!(
        response.serialize(),
        b"HTTP/1.1 200 OK\r\ncontent-type: text/plain\r\ncontent-length: 3\r\n\r\nabc".to_vec()
    );
}

#[test]
fn scenario_user_agent() {
    let response = respond(b"GET /user-agent HTTP/1.1\r\nUser-Agent: curl/7.1\r\n\r\n");
    assert_eq!(response.status, Status::Success);
    assert_eq!(response.body, b"curl/7.1".to_vec());
    assert_eq!(header(&response, b"content-length"), Some(&b"8"[..]));
    assert_eq!(header(&response, b"content-type"), Some(&b"text/plain"[..]));
}

#[test]
fn scenario_store_then_fetch() {
    let mut store = MemoryStore::new();
    let out = serve(
        &mut store,
        b"POST /files/foo.txt HTTP/1.1\r\ncontent-length: 5\r\n\r\nhello",
    );
    assert!(out.starts_with(b"HTTP/1.1 201 Created\r\n"));
    assert_eq!(
        out,
        b"HTTP/1.1 201 Created\r\ncontent-type: application/octet-stream\r\ncontent-length: 5\r\n\r\nhello"
            .to_vec()
    );
    assert_eq!(store.read(b"foo.txt"), Some(b"hello".to_vec()));
    let out = serve(&mut store, b"GET /files/foo.txt HTTP/1.1\r\n\r\n");
    assert_eq!(
        out,
        b"HTTP/1.1 200 OK\r\ncontent-type: application/octet-stream\r\ncontent-length: 5\r\n\r\nhello"
            .to_vec()
    );
}

#[test]
fn scenario_missing_file() {
    let mut store = MemoryStore::new();
    let out = serve(&mut store, b"GET /files/missing.txt HTTP/1.1\r\n\r\n");
    assert_eq!(out, b"HTTP/1.1 404 Not Found\r\n\r\n".to_vec());
    let response = send_file(None);
    assert_eq!(response.status, Status::NotFound);
    assert_eq!(response.status.number(), 404);
    assert!(response.headers.is_empty());
    assert!(response.body.is_empty());
}

#[test]
fn scenario_two_words_in_request_line() {
    assert_eq!(parse_req(b"GET /\r\n\r\n").unwrap_err(), ParseError::MalformedRequestLine);
    let mut store = MemoryStore::new();
    let out = serve(&mut store, b"GET /\r\n\r\n");
    assert_eq!(out, b"HTTP/1.1 500 Internal Server Error\r\n\r\n".to_vec());
}

#[test]
fn failed_write_is_a_server_error() {
    let response = save_file(b"hello", false);
    assert_eq!(response.status, Status::InternalServerError);
    assert_eq!(response.status.number(), 500);
    assert!(response.headers.is_empty());
    assert!(response.body.is_empty());
    assert_eq!(response.serialize(), b"HTTP/1.1 500 Internal Server Error\r\n\r\n".to_vec());
}

#[test]
fn stored_write_echoes_what_was_stored() {
    let response = save_file(b"hello", true);
    assert_eq!(response.status, Status::Created);
    assert_eq!(response.status.number(), 201);
    assert_eq!(header(&response, b"content-type"), Some(&b"application/octet-stream"[..]));
    assert_eq!(header(&response, b"content-length"), Some(&b"5"[..]));
    assert_eq!(response.body, b"hello".to_vec());
}

#[test]
fn same_get_twice_gives_the_same_bytes() {
    let mut store = MemoryStore::new();
    store.write(b"a.bin", &[0, 1, 2, 255]);
    for raw in [
        &b"GET / HTTP/1.1\r\n\r\n"[..],
        &b"GET /echo/twice HTTP/1.1\r\n\r\n"[..],
        &b"GET /user-agent HTTP/1.1\r\nuser-agent: x\r\n\r\n"[..],
        &b"GET /files/a.bin HTTP/1.1\r\n\r\n"[..],
        &b"GET /files/none HTTP/1.1\r\n\r\n"[..],
        &b"GET /nowhere HTTP/1.1\r\n\r\n"[..],
    ] {
        let before = store.blobs.clone();
        let first = serve(&mut store, raw);
        let second = serve(&mut store, raw);
        assert_eq!(first, second);
        assert_eq!(store.blobs, before);
    }
}

#[test]
fn unmatched_requests_are_not_found() {
    let mut store = MemoryStore::new();
    for raw in [
        &b"GET /nowhere HTTP/1.1\r\n\r\n"[..],
        &b"GET /echo HTTP/1.1\r\n\r\n"[..],
        &b"GET /user-agent/x HTTP/1.1\r\n\r\n"[..],
        &b"GET /files HTTP/1.1\r\n\r\n"[..],
        &b"POST / HTTP/1.1\r\n\r\n"[..],
        &b"POST /echo/abc HTTP/1.1\r\n\r\n"[..],
        &b"POST /user-agent HTTP/1.1\r\n\r\n"[..],
        &b"GET x HTTP/1.1\r\n\r\n"[..],
    ] {
        let response = respond(raw);
        assert_eq!(response.status, Status::NotFound);
        assert!(response.headers.is_empty());
        assert!(response.body.is_empty());
        assert_eq!(serve(&mut store, raw), b"HTTP/1.1 404 Not Found\r\n\r\n".to_vec());
    }
}

#[test]
fn content_length_counts_bytes() {
    let empty = respond(b"GET /echo/ HTTP/1.1\r\n\r\n");
    assert_eq!(header(&empty, b"content-length"), Some(&b"0"[..]));
    assert!(empty.body.is_empty());

    let accented = respond("GET /echo/\u{e9}t\u{e9} HTTP/1.1\r\n\r\n".as_bytes());
    assert_eq!(accented.body, "\u{e9}t\u{e9}".as_bytes().to_vec());
    assert_eq!(accented.body.len(), 5);
    assert_eq!(header(&accented, b"content-length"), Some(&b"5"[..]));

    let agent = respond("GET /user-agent HTTP/1.1\r\nUser-Agent: \u{65e5}\u{672c}\r\n\r\n".as_bytes());
    assert_eq!(agent.body.len(), 6);
    assert_eq!(header(&agent, b"content-length"), Some(&b"6"[..]));

    let no_agent = respond(b"GET /user-agent HTTP/1.1\r\n\r\n");
    assert!(no_agent.body.is_empty());
    assert_eq!(header(&no_agent, b"content-length"), Some(&b"0"[..]));

    let long = send_file(Some(vec![7u8; 1234]));
    assert_eq!(header(&long, b"content-length"), Some(&b"1234"[..]));
}
