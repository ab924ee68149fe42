//! The structured response and its wire format.

use crate::request::Header;
use crate::text::{ascii, ascii_bytes, decimal, decimal_bytes, SPACE};
use vstd::prelude::*;

verus! {

/// The outcomes that the server reports.
#[derive(Clone, Copy, Debug, PartialEq, Eq, Structural)]
pub enum Status {
    Success,
    Created,
    NotFound,
    InternalServerError,
}

impl Status {
    /// The status code.
    pub open spec fn code(self) -> nat {
        match self {
            Status::Success => 200,
            Status::Created => 201,
            Status::NotFound => 404,
            Status::InternalServerError => 500,
        }
    }

    /// The reason phrase that goes with the code.
    pub open spec fn reason(self) -> Seq<u8> {
        match self {
            Status::Success => ascii("OK"@),
            Status::Created => ascii("Created"@),
            Status::NotFound => ascii("Not Found"@),
            Status::InternalServerError => ascii("Internal Server Error"@),
        }
    }

    /// The status code as a number.
    pub fn number(&self) -> (n: u16)
        ensures
            n == self.code(),
    {
        match self {
            Status::Success => 200,
            Status::Created => 201,
            Status::NotFound => 404,
            Status::InternalServerError => 500,
        }
    }

    /// The reason phrase as bytes.
    pub fn phrase(&self) -> (r: Vec<u8>)
        ensures
            r@ == self.reason(),
    {
        proof {
            reveal_strlit("OK");
            reveal_strlit("Created");
            reveal_strlit("Not Found");
            reveal_strlit("Internal Server Error");
        }
        match self {
            Status::Success => ascii_bytes("OK"),
            Status::Created => ascii_bytes("Created"),
            Status::NotFound => ascii_bytes("Not Found"),
            Status::InternalServerError => ascii_bytes("Internal Server Error"),
        }
    }
}

/// What a response says: the mathematical value behind a `Response`.
pub struct ResponseModel {
    pub status: Status,
    /// The headers, each a name and a value, in the order in which they are
    /// sent.
    pub headers: Seq<(Seq<u8>, Seq<u8>)>,
    pub body: Seq<u8>,
}

/// A response as a handler returns it.
#[derive(Clone, Debug, PartialEq, Eq)]
pub struct Response {
    pub status: Status,
    pub headers: Vec<Header>,
    pub body: Vec<u8>,
}

impl View for Response {
    type V = ResponseModel;

    open spec fn view(&self) -> ResponseModel {
        ResponseModel {
            status: self.status,
            headers: Seq::new(self.headers@.len(), |i: int| self.headers@[i]@),
            body: self.body@,
        }
    }
}

/// The name of the header that announces the length of the body.
pub open spec fn content_length() -> Seq<u8> {
    ascii("content-length"@)
}

/// The name of the header that announces the kind of the body.
pub open spec fn content_type() -> Seq<u8> {
    ascii("content-type"@)
}

impl ResponseModel {
    /// Every `content-length` header of the response gives the exact
    /// length of its body, in decimal.
    pub open spec fn framed(self) -> bool {
        forall|i: int|
            0 <= i < self.headers.len() && (#[trigger] self.headers[i]).0 == content_length()
                ==> self.headers[i].1 == decimal(self.body.len())
    }
}

/// The response with a status and nothing else: no header, no body.
pub open spec fn bare(status: Status) -> ResponseModel {
    ResponseModel { status, headers: Seq::empty(), body: Seq::empty() }
}

/// The response that carries `body`: its kind in a `content-type` header,
/// then its length in a `content-length` header.
pub open spec fn carrying(status: Status, kind: Seq<u8>, body: Seq<u8>) -> ResponseModel {
    ResponseModel {
        status,
        headers: seq![(content_type(), kind), (content_length(), decimal(body.len()))],
        body,
    }
}

/// The protocol version that every response announces.
pub open spec fn version() -> Seq<u8> {
    ascii("HTTP/1.1"@)
}

/// The end of a line on the wire.
pub open spec fn crlf() -> Seq<u8> {
    ascii("\r\n"@)
}

/// The status line: version, code and reason phrase, a space between them.
pub open spec fn status_line(status: Status) -> Seq<u8> {
    version() + seq![SPACE] + decimal(status.code()) + seq![SPACE] + status.reason() + crlf()
}

/// One header on the wire: name, colon, space, value.
pub open spec fn header_line(header: (Seq<u8>, Seq<u8>)) -> Seq<u8> {
    header.0 + ascii(": "@) + header.1 + crlf()
}

/// The headers on the wire, in their order.
pub open spec fn header_lines(headers: Seq<(Seq<u8>, Seq<u8>)>) -> Seq<u8>
    decreases headers.len(),
{
    if headers.len() == 0 {
        Seq::empty()
    } else {
        header_lines(headers.drop_last()) + header_line(headers.last())
    }
}

/// The wire format of a response: the status line, the headers, an empty
/// line, the body.
pub open spec fn wire(response: ResponseModel) -> Seq<u8> {
    status_line(response.status) + header_lines(response.headers) + crlf() + response.body
}

/// Appends the bytes of `s` to `out`.
pub fn append(out: &mut Vec<u8>, s: &[u8])
    ensures
        final(out)@ == old(out)@ + s@,
{
    let mut i: usize = 0;
    while i < s.len()
        invariant
            i <= s.len(),
            out@ == old(out)@ + s@.take(i as int),
        decreases s.len() - i,
    {
        out.push(s[i]);
        i += 1;
    }
}

impl Response {
    /// A response with a status and nothing else.
    pub fn empty(status: Status) -> (r: Response)
        ensures
            r@ == bare(status),
            r@.framed(),
    {
        let r = Response { status, headers: Vec::new(), body: Vec::new() };
        assert(r@.headers =~= Seq::empty());
        r
    }

    /// A response that carries `body`, with its kind and its length in the
    /// headers.
    pub fn with_body(status: Status, kind: Vec<u8>, body: Vec<u8>) -> (r: Response)
        ensures
            r@ == carrying(status, kind@, body@),
            r@.framed(),
    {
        proof {
            reveal_strlit("content-type");
            reveal_strlit("content-length");
        }
        let mut headers: Vec<Header> = Vec::new();
        headers.push(Header { name: ascii_bytes("content-type"), value: kind });
        headers.push(
            Header { name: ascii_bytes("content-length"), value: decimal_bytes(body.len()) },
        );
        let r = Response { status, headers, body };
        assert(r@.headers =~= carrying(status, kind@, body@).headers);
        assert(content_type() != content_length()) by {
            assert(content_type().len() != content_length().len());
        }
        r
    }

    /// Writes the response in its wire format.
    pub fn serialize(&self) -> (r: Vec<u8>)
        ensures
            r@ == wire(self@),
    {
        proof {
            reveal_strlit("HTTP/1.1");
            reveal_strlit("\r\n");
            reveal_strlit(": ");
        }
        let mut out: Vec<u8> = ascii_bytes("HTTP/1.1");
        out.push(SPACE);
        let code = decimal_bytes(self.status.number() as usize);
        append(&mut out, code.as_slice());
        out.push(SPACE);
        let phrase = self.status.phrase();
        append(&mut out, phrase.as_slice());
        let line_end = ascii_bytes("\r\n");
        append(&mut out, line_end.as_slice());
        let separator = ascii_bytes(": ");
        let mut i: usize = 0;
        while i < self.headers.len()
            invariant
                i <= self.headers.len(),
                line_end@ == crlf(),
                separator@ == ascii(": "@),
                out@ == status_line(self.status) + header_lines(self@.headers.take(i as int)),
            decreases self.headers.len() - i,
        {
            append(&mut out, self.headers[i].name.as_slice());
            append(&mut out, separator.as_slice());
            append(&mut out, self.headers[i].value.as_slice());
            append(&mut out, line_end.as_slice());
            proof {
                let upto = self@.headers.take(i + 1);
                assert(upto.drop_last() =~= self@.headers.take(i as int));
            }
            i += 1;
        }
        assert(self@.headers.take(i as int) =~= self@.headers);
        append(&mut out, line_end.as_slice());
        append(&mut out, self.body.as_slice());
        out
    }
}

} // verus!
