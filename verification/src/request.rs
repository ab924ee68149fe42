//! The structured request: its method, its header map and the request itself.

use crate::text::{ascii, ascii_bytes, bytes_eq};
use vstd::prelude::*;
use vstd::slice::slice_to_vec;

verus! {

/// The request methods that the server knows.
#[derive(Clone, Copy, Debug, PartialEq, Eq, Structural)]
pub enum HttpMethod {
    GET,
    POST,
}

/// Why a byte buffer is not a request.
#[derive(Clone, Copy, Debug, PartialEq, Eq, Structural)]
pub enum ParseError {
    /// The first line does not hold exactly three words.
    MalformedRequestLine,
    /// The first word of the first line is not a known method.
    UnsupportedMethod,
}

/// The method that a word of the request line names, if it names one.
/// Methods are written in capitals and matched byte for byte.
pub open spec fn method_of(token: Seq<u8>) -> Option<HttpMethod> {
    if token == ascii("GET"@) {
        Some(HttpMethod::GET)
    } else if token == ascii("POST"@) {
        Some(HttpMethod::POST)
    } else {
        None
    }
}

impl HttpMethod {
    /// The word that names this method on the wire.
    pub open spec fn token(self) -> Seq<u8> {
        match self {
            HttpMethod::GET => ascii("GET"@),
            HttpMethod::POST => ascii("POST"@),
        }
    }

    /// Reads a method from a word of the request line.
    pub fn from_token(token: &[u8]) -> (r: Option<HttpMethod>)
        ensures
            r == method_of(token@),
    {
        proof {
            reveal_strlit("GET");
            reveal_strlit("POST");
        }
        let get = ascii_bytes("GET");
        let post = ascii_bytes("POST");
        if bytes_eq(token, get.as_slice()) {
            Some(HttpMethod::GET)
        } else if bytes_eq(token, post.as_slice()) {
            Some(HttpMethod::POST)
        } else {
            None
        }
    }

    /// Writes the word that names this method.
    pub fn as_bytes(&self) -> (r: Vec<u8>)
        ensures
            r@ == self.token(),
    {
        proof {
            reveal_strlit("GET");
            reveal_strlit("POST");
        }
        match self {
            HttpMethod::GET => ascii_bytes("GET"),
            HttpMethod::POST => ascii_bytes("POST"),
        }
    }
}

/// One header: a name and a value.
#[derive(Clone, Debug, PartialEq, Eq)]
pub struct Header {
    pub name: Vec<u8>,
    pub value: Vec<u8>,
}

/// The name and the value of a header, as byte strings.
impl View for Header {
    type V = (Seq<u8>, Seq<u8>);

    open spec fn view(&self) -> (Seq<u8>, Seq<u8>) {
        (self.name@, self.value@)
    }
}

/// The headers of a request: a map from name to value in which no name
/// occurs twice.
#[derive(Debug)]
pub struct Headers {
    entries: Vec<Header>,
}

impl View for Headers {
    type V = Map<Seq<u8>, Seq<u8>>;

    /// The map from each name held to its value.
    closed spec fn view(&self) -> Map<Seq<u8>, Seq<u8>> {
        Map::new(
            |name: Seq<u8>| exists|i: int| #[trigger] self.names(i, name),
            |name: Seq<u8>| self.entries[choose|i: int| #[trigger] self.names(i, name)].value@,
        )
    }
}

impl Headers {
    /// Whether the entry at `i` has the name `name`.
    closed spec fn names(&self, i: int, name: Seq<u8>) -> bool {
        0 <= i < self.entries.len() && self.entries[i].name@ == name
    }

    /// No two entries have the same name.
    #[verifier::type_invariant]
    closed spec fn distinct(&self) -> bool {
        forall|i: int, j: int|
            0 <= i < j < self.entries.len() ==> #[trigger] self.entries[i].name@
                != #[trigger] self.entries[j].name@
    }

    /// The map without any header.
    pub fn new() -> (r: Headers)
        ensures
            r@ == Map::<Seq<u8>, Seq<u8>>::empty(),
    {
        Headers { entries: Vec::new() }
    }

    /// The number of headers held.
    pub fn len(&self) -> (n: usize)
        ensures
            n == self@.dom().len(),
            self@.dom().finite(),
    {
        proof {
            use_type_invariant(self);
            self.lemma_dom_len(self.entries.len() as int);
            assert(self.upto(self.entries.len() as int) =~= self@.dom());
        }
        self.entries.len()
    }

    /// The names of the first `n` entries.
    closed spec fn upto(&self, n: int) -> Set<Seq<u8>> {
        Set::new(|name: Seq<u8>| exists|i: int| i < n && #[trigger] self.names(i, name))
    }

    /// The first `n` entries have `n` names between them.
    proof fn lemma_dom_len(&self, n: int)
        requires
            self.distinct(),
            0 <= n <= self.entries.len(),
        ensures
            self.upto(n).finite(),
            self.upto(n).len() == n,
        decreases n,
    {
        if n == 0 {
            assert(self.upto(0) =~= Set::<Seq<u8>>::empty());
        } else {
            self.lemma_dom_len(n - 1);
            let last = self.entries[n - 1].name@;
            assert(self.names(n - 1, last));
            assert(self.upto(n) =~= self.upto(n - 1).insert(last));
        }
    }

    /// The place of the header `name` among the entries, if it has one.
    fn position(&self, name: &[u8]) -> (r: Option<usize>)
        ensures
            match r {
                Some(i) => self.names(i as int, name@),
                None => forall|j: int| !self.names(j, name@),
            },
    {
        let mut i: usize = 0;
        while i < self.entries.len()
            invariant
                i <= self.entries.len(),
                forall|j: int| 0 <= j < i ==> !self.names(j, name@),
            decreases self.entries.len() - i,
        {
            if bytes_eq(self.entries[i].name.as_slice(), name) {
                return Some(i);
            }
            i += 1;
        }
        None
    }

    /// Sets the header `name` to `value`. A value that the name had before
    /// is replaced.
    pub fn insert(&mut self, name: Vec<u8>, value: Vec<u8>)
        ensures
            final(self)@ == old(self)@.insert(name@, value@),
    {
        proof {
            use_type_invariant(&*self);
        }
        let found = self.position(name.as_slice());
        let ghost before = *self;
        let ghost key = name@;
        let ghost val = value@;
        let mut entries: Vec<Header> = Vec::new();
        core::mem::swap(&mut entries, &mut self.entries);
        match found {
            Some(i) => {
                entries.set(i, Header { name, value });
            },
            None => {
                entries.push(Header { name, value });
            },
        }
        let ghost at = match found {
            Some(i) => i as int,
            None => before.entries.len() as int,
        };
        assert forall|i: int, j: int| 0 <= i < j < entries.len() implies #[trigger] entries[i].name@
            != #[trigger] entries[j].name@ by {
            if i != at && j == at {
                assert(!before.names(i, key));
            }
        }
        self.entries = entries;
        proof {
            assert(self.names(at, key));
            assert forall|k: Seq<u8>| self@.dom().contains(k) <==> before@.insert(
                key,
                val,
            ).dom().contains(k) by {
                if self@.dom().contains(k) {
                    let j = choose|j: int| self.names(j, k);
                    if j != at {
                        assert(before.names(j, k));
                    }
                }
                if before@.dom().contains(k) {
                    let j = choose|j: int| before.names(j, k);
                    assert(self.names(j, k));
                }
            }
        }
    }

    /// Looks up the value of the header `name`.
    pub fn get(&self, name: &[u8]) -> (r: Option<&Vec<u8>>)
        ensures
            match r {
                Some(value) => self@.contains_key(name@) && value@ == self@[name@],
                None => !self@.contains_key(name@),
            },
    {
        proof {
            use_type_invariant(self);
        }
        match self.position(name) {
            Some(i) => Some(&self.entries[i].value),
            None => None,
        }
    }

    /// The value of the header `name`, or the empty string where the
    /// request has no such header.
    pub fn value_or_empty(&self, name: &[u8]) -> (r: Vec<u8>)
        ensures
            r@ == value_or_empty(self@, name@),
    {
        match self.get(name) {
            Some(value) => slice_to_vec(value.as_slice()),
            None => Vec::new(),
        }
    }
}

/// The value that `headers` gives `name`, or the empty string where it gives
/// none.
pub open spec fn value_or_empty(headers: Map<Seq<u8>, Seq<u8>>, name: Seq<u8>) -> Seq<u8> {
    if headers.contains_key(name) {
        headers[name]
    } else {
        Seq::empty()
    }
}

/// What a request says: the mathematical value behind an `HttpRequest`.
pub struct RequestModel {
    pub method: HttpMethod,
    pub path: Seq<u8>,
    pub version: Seq<u8>,
    /// From each header name, in lower case, to its trimmed value.
    pub headers: Map<Seq<u8>, Seq<u8>>,
    pub body: Seq<u8>,
}

/// A request as a handler receives it.
#[derive(Debug)]
pub struct HttpRequest {
    pub path: Vec<u8>,
    pub method: HttpMethod,
    pub version: Vec<u8>,
    pub headers: Headers,
    pub body: Vec<u8>,
}

impl View for HttpRequest {
    type V = RequestModel;

    open spec fn view(&self) -> RequestModel {
        RequestModel {
            method: self.method,
            path: self.path@,
            version: self.version@,
            headers: self.headers@,
            body: self.body@,
        }
    }
}

impl HttpRequest {
    /// Builds a request from the words of its request line, its headers and
    /// its body. The method word has to name a known method.
    pub fn new(path: &[u8], version: &[u8], method: &[u8], headers: Headers, body: &[u8]) -> (r:
        Result<HttpRequest, ParseError>)
        ensures
            match method_of(method@) {
                Some(m) => r is Ok && r->Ok_0@ == (RequestModel {
                    method: m,
                    path: path@,
                    version: version@,
                    headers: headers@,
                    body: body@,
                }),
                None => r == Err::<HttpRequest, ParseError>(ParseError::UnsupportedMethod),
            },
    {
        match HttpMethod::from_token(method) {
            Some(m) => Ok(
                HttpRequest {
                    path: slice_to_vec(path),
                    method: m,
                    version: slice_to_vec(version),
                    headers,
                    body: slice_to_vec(body),
                },
            ),
            None => Err(ParseError::UnsupportedMethod),
        }
    }
}

} // verus!
