//! Writing a request on the wire and parsing it again gives the request
//! back, and a response on the wire is read back by the same rules.

use crate::handlers::{octet_stream, text_plain};
use crate::parser::{
    after_first_line, body_section, first_line, header_section, parse_model, with_header_line,
};
use crate::request::{method_of, HttpMethod, ParseError, RequestModel};
use crate::response::{
    carrying, crlf, header_line, header_lines, status_line, version, wire, ResponseModel, Status,
};
use crate::text::{
    ascii, blank, decimal, is_space, is_trimmed, is_word, lemma_decimal_is_digits, lemma_span_is,
    lemma_tokens_after_word, lemma_trim_of_trimmed, lower, lower_byte, other_than, trim, COLON,
    LF, SPACE,
};
use vstd::prelude::*;

verus! {

/// A header name as the parser hands it on: no whitespace, no colon and no
/// capital letter in it.
pub open spec fn is_header_name(name: Seq<u8>) -> bool {
    forall|i: int|
        0 <= i < name.len() ==> !is_space(#[trigger] name[i]) && name[i] != COLON && lower_byte(
            name[i],
        ) == name[i]
}

/// A header value as the parser hands it on: trimmed, and without a line
/// feed in it.
pub open spec fn is_header_value(value: Seq<u8>) -> bool {
    is_trimmed(value) && forall|i: int| 0 <= i < value.len() ==> #[trigger] value[i] != LF
}

/// Whether each of `headers` has a name and a value such as the parser
/// hands on.
pub open spec fn are_readable(headers: Seq<(Seq<u8>, Seq<u8>)>) -> bool {
    forall|i: int|
        0 <= i < headers.len() ==> is_header_name((#[trigger] headers[i]).0) && is_header_value(
            headers[i].1,
        )
}

/// The map that a list of headers stands for: each name with the value
/// that the last header of that name gives it.
pub open spec fn header_map(headers: Seq<(Seq<u8>, Seq<u8>)>) -> Map<Seq<u8>, Seq<u8>>
    decreases headers.len(),
{
    if headers.len() == 0 {
        Map::empty()
    } else {
        header_map(headers.drop_last()).insert(headers.last().0, headers.last().1)
    }
}

/// The request line: method, path and version, a space between them.
pub open spec fn request_line(method: HttpMethod, path: Seq<u8>, version: Seq<u8>) -> Seq<u8> {
    method.token() + seq![SPACE] + path + seq![SPACE] + version
}

/// The wire format of a request: the request line, the headers, an empty
/// line, the body.
pub open spec fn request_wire(
    method: HttpMethod,
    path: Seq<u8>,
    version: Seq<u8>,
    headers: Seq<(Seq<u8>, Seq<u8>)>,
    body: Seq<u8>,
) -> Seq<u8> {
    request_line(method, path, version) + crlf() + header_lines(headers) + crlf() + body
}

/// A line without a line feed in it, written with its line ending before
/// `rest`, is read back as that line, and `rest` is what follows it.
pub proof fn lemma_line_then_rest(line: Seq<u8>, rest: Seq<u8>)
    requires
        forall|i: int| 0 <= i < line.len() ==> #[trigger] line[i] != LF,
    ensures
        first_line(line + crlf() + rest) == line,
        after_first_line(line + crlf() + rest) == rest,
{
    reveal_strlit("\r\n");
    // The first line feed stands right behind the line and its carriage
    // return.
    let s = line + crlf() + rest;
    let n = line.len() as int + 1;
    lemma_span_is(s, other_than(LF), n);
}

/// Reading the line of a header sets its name to its value.
pub proof fn lemma_header_line_read(
    header: (Seq<u8>, Seq<u8>),
    headers: Map<Seq<u8>, Seq<u8>>,
)
    requires
        is_header_name(header.0),
        is_header_value(header.1),
    ensures
        with_header_line(headers, header.0 + ascii(": "@) + header.1) == headers.insert(
            header.0,
            header.1,
        ),
{
    reveal_strlit(": ");
    let name = header.0;
    let value = header.1;
    let line = name + ascii(": "@) + value;
    let n = name.len() as int;
    // The first colon of the line is the one behind the name.
    lemma_span_is(line, other_than(COLON), n);
    assert(line.take(n) =~= name);
    assert(is_trimmed(name));
    lemma_trim_of_trimmed(name);
    assert(lower(name) =~= name);
    // Behind the colon stand one space and the value.
    let after = line.skip(n + 1);
    lemma_span_is(after, blank(), 1);
    lemma_trim_of_trimmed(value);
    assert(trim(after) == value);
}

/// Headers written before `rest` are read one after the other, and the
/// reading goes on in `rest`.
pub proof fn lemma_headers_then_rest(headers: Seq<(Seq<u8>, Seq<u8>)>, rest: Seq<u8>)
    requires
        are_readable(headers),
    ensures
        header_section(header_lines(headers) + rest, Map::empty()) == header_section(
            rest,
            header_map(headers),
        ),
        body_section(header_lines(headers) + rest) == body_section(rest),
    decreases headers.len(),
{
    if headers.len() > 0 {
        reveal_strlit(": ");
        let last = headers.last();
        let init = headers.drop_last();
        let content = last.0 + ascii(": "@) + last.1;
        let tail = header_line(last) + rest;
        // All headers but the last are read first, by induction; then the
        // line of the last one.
        assert(are_readable(init));
        lemma_headers_then_rest(init, tail);
        assert(header_lines(headers) + rest =~= header_lines(init) + tail);
        assert forall|i: int| 0 <= i < content.len() implies #[trigger] content[i] != LF by {}
        lemma_line_then_rest(content, rest);
        lemma_header_line_read(last, header_map(init));
    }
}

/// A request that is written on the wire and parsed again is the same
/// request: the same method, path and version, its headers as a map, and
/// the same body. This holds for every request whose path and version are
/// words and whose header names and values are such as the parser hands on.
pub proof fn lemma_parse_of_request_wire(
    method: HttpMethod,
    path: Seq<u8>,
    version: Seq<u8>,
    headers: Seq<(Seq<u8>, Seq<u8>)>,
    body: Seq<u8>,
)
    requires
        is_word(path),
        is_word(version),
        are_readable(headers),
    ensures
        parse_model(request_wire(method, path, version, headers, body)) == Ok::<
            RequestModel,
            ParseError,
        >(RequestModel { method, path, version, headers: header_map(headers), body }),
{
    reveal_strlit("GET");
    reveal_strlit("POST");
    reveal_strlit("\r\n");
    let token = method.token();
    let line = request_line(method, path, version);
    let rest = header_lines(headers) + crlf() + body;
    let s = request_wire(method, path, version, headers, body);

    // The request line is the first line.
    assert(s =~= line + crlf() + rest);
    assert forall|i: int| 0 <= i < line.len() implies #[trigger] line[i] != LF by {}
    lemma_line_then_rest(line, rest);

    // The three words of the request line.
    let after_path = seq![SPACE] + version;
    let after_token = seq![SPACE] + path + seq![SPACE] + version;
    assert(line =~= token + after_token);
    lemma_tokens_after_word(token, after_token);
    assert(after_token.skip(1) =~= path + after_path);
    lemma_tokens_after_word(path, after_path);
    assert(after_path.skip(1) =~= version + Seq::<u8>::empty());
    lemma_tokens_after_word(version, Seq::empty());
    assert(method_of(token) == Some(method));

    // The headers and the body.
    lemma_headers_then_rest(headers, crlf() + body);
    assert(rest =~= header_lines(headers) + (crlf() + body));
    lemma_line_then_rest(Seq::empty(), body);
}

/// A response that is written on the wire is read back by the rules that
/// requests are read by: its first line is the status line, the lines after
/// it give its headers as a map, and what follows the empty line is its
/// body, byte for byte.
pub proof fn lemma_read_of_response_wire(response: ResponseModel)
    requires
        are_readable(response.headers),
    ensures
        first_line(wire(response)) + crlf() == status_line(response.status),
        header_section(after_first_line(wire(response)), Map::empty()) == header_map(
            response.headers,
        ),
        body_section(after_first_line(wire(response))) == response.body,
{
    reveal_strlit("HTTP/1.1");
    reveal_strlit("OK");
    reveal_strlit("Created");
    reveal_strlit("Not Found");
    reveal_strlit("Internal Server Error");
    reveal_strlit("\r\n");
    let status = response.status;
    let digits = decimal(status.code());
    let reason = status.reason();
    let line = version() + seq![SPACE] + digits + seq![SPACE] + reason;
    let rest = header_lines(response.headers) + crlf() + response.body;
    // The status line is the first line.
    lemma_decimal_is_digits(status.code());
    assert forall|i: int| 0 <= i < line.len() implies #[trigger] line[i] != LF by {}
    assert(wire(response) =~= line + crlf() + rest);
    lemma_line_then_rest(line, rest);

    // The headers and the body.
    lemma_headers_then_rest(response.headers, crlf() + response.body);
    assert(rest =~= header_lines(response.headers) + (crlf() + response.body));
    lemma_line_then_rest(Seq::empty(), response.body);
}

/// Every response that carries a body of text or of bytes has headers that
/// are read back: the wire gives its body back, whatever the body holds.
pub proof fn lemma_carried_body_is_read_back(status: Status, body: Seq<u8>)
    ensures
        are_readable(carrying(status, text_plain(), body).headers),
        are_readable(carrying(status, octet_stream(), body).headers),
        body_section(after_first_line(wire(carrying(status, text_plain(), body)))) == body,
        body_section(after_first_line(wire(carrying(status, octet_stream(), body)))) == body,
{
    reveal_strlit("content-type");
    reveal_strlit("content-length");
    reveal_strlit("text/plain");
    reveal_strlit("application/octet-stream");
    lemma_decimal_is_digits(body.len());
    lemma_read_of_response_wire(carrying(status, text_plain(), body));
    lemma_read_of_response_wire(carrying(status, octet_stream(), body));
}

} // verus!
