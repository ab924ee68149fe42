//! From the bytes of a connection to a structured request.
//!
//! A request is a request line, header lines up to the first empty line, and
//! a body: whatever follows that empty line. A line ends at a line feed; a
//! carriage return just before that line feed belongs to the line ending too.

use crate::request::{method_of, Headers, HttpRequest, ParseError, RequestModel};
use crate::text::{
    find_byte, is_trimmed, is_word, lemma_lower, lemma_tokens_are_words, lemma_trim_is_trimmed,
    lower, split_whitespace, to_lower, tokens, trim, trim_bytes, until, COLON, CR, LF,
};
use vstd::prelude::*;
use vstd::slice::{slice_subrange, slice_to_vec};

verus! {

/// The first line of `s`, without its line ending. The last line of a buffer
/// needs no line ending.
pub open spec fn first_line(s: Seq<u8>) -> Seq<u8> {
    let n = until(s, LF) as int;
    if 0 < n < s.len() && s[n - 1] == CR {
        s.take(n - 1)
    } else {
        s.take(n)
    }
}

/// What follows the first line of `s` and its line ending.
pub open spec fn after_first_line(s: Seq<u8>) -> Seq<u8> {
    let n = until(s, LF) as int;
    if n < s.len() {
        s.skip(n + 1)
    } else {
        Seq::empty()
    }
}

/// `headers` after the header line `line` has been read. The line is split at
/// its first colon: what stands before it, trimmed and in lower case, is the
/// name; what follows it, trimmed, is the value, which replaces any earlier
/// value of that name. A line without a colon changes nothing.
pub open spec fn with_header_line(headers: Map<Seq<u8>, Seq<u8>>, line: Seq<u8>) -> Map<
    Seq<u8>,
    Seq<u8>,
> {
    let n = until(line, COLON) as int;
    if n < line.len() {
        headers.insert(lower(trim(line.take(n))), trim(line.skip(n + 1)))
    } else {
        headers
    }
}

/// `headers` after the header lines at the start of `s` have been read, one
/// after the other, up to the first empty line or the end of `s`.
pub open spec fn header_section(s: Seq<u8>, headers: Map<Seq<u8>, Seq<u8>>) -> Map<
    Seq<u8>,
    Seq<u8>,
>
    decreases s.len(),
{
    if s.len() == 0 || first_line(s).len() == 0 {
        headers
    } else {
        header_section(after_first_line(s), with_header_line(headers, first_line(s)))
    }
}

/// What follows the first empty line of `s`; nothing where `s` has no empty
/// line.
pub open spec fn body_section(s: Seq<u8>) -> Seq<u8>
    decreases s.len(),
{
    if s.len() == 0 {
        Seq::empty()
    } else if first_line(s).len() == 0 {
        after_first_line(s)
    } else {
        body_section(after_first_line(s))
    }
}

/// Whether every name of `headers` is in lower case and trimmed, and every
/// value trimmed.
pub open spec fn is_canonical(headers: Map<Seq<u8>, Seq<u8>>) -> bool {
    forall|name: Seq<u8>| #[trigger]
        headers.contains_key(name) ==> lower(name) == name && is_trimmed(name) && is_trimmed(
            headers[name],
        )
}

/// Reading header lines into canonical headers leaves them canonical.
pub proof fn lemma_header_section_is_canonical(s: Seq<u8>, headers: Map<Seq<u8>, Seq<u8>>)
    requires
        is_canonical(headers),
    ensures
        is_canonical(header_section(s, headers)),
    decreases s.len(),
{
    if s.len() > 0 && first_line(s).len() > 0 {
        let line = first_line(s);
        let n = until(line, COLON) as int;
        lemma_trim_is_trimmed(line.take(n));
        lemma_lower(trim(line.take(n)));
        lemma_trim_is_trimmed(line.skip(n + 1));
        lemma_header_section_is_canonical(after_first_line(s), with_header_line(headers, line));
    }
}

/// The request that the bytes `s` spell, or the reason why they spell none.
///
/// The first line has to hold exactly three words: method, path and version.
/// The method has to be a known one. The lines after it are the headers, and
/// what follows the first empty line is the body.
pub open spec fn parse_model(s: Seq<u8>) -> Result<RequestModel, ParseError> {
    let words = tokens(first_line(s));
    let rest = after_first_line(s);
    if words.len() != 3 {
        Err(ParseError::MalformedRequestLine)
    } else {
        match method_of(words[0]) {
            None => Err(ParseError::UnsupportedMethod),
            Some(method) => Ok(
                RequestModel {
                    method,
                    path: words[1],
                    version: words[2],
                    headers: header_section(rest, Map::empty()),
                    body: body_section(rest),
                },
            ),
        }
    }
}

/// Splits `s` into its first line and what follows that line.
pub fn split_line(s: &[u8]) -> (r: (&[u8], &[u8]))
    ensures
        r.0@ == first_line(s@),
        r.1@ == after_first_line(s@),
        s@.len() > 0 ==> r.1@.len() < s@.len(),
{
    let n: usize = find_byte(s, LF);
    let line = if 0 < n && n < s.len() && s[n - 1] == CR {
        slice_subrange(s, 0, n - 1)
    } else {
        slice_subrange(s, 0, n)
    };
    let rest = if n < s.len() {
        slice_subrange(s, n + 1, s.len())
    } else {
        slice_subrange(s, n, n)
    };
    (line, rest)
}

/// Reads one header line into `headers`.
pub fn add_header_line(headers: &mut Headers, line: &[u8])
    ensures
        final(headers)@ == with_header_line(old(headers)@, line@),
{
    let n: usize = find_byte(line, COLON);
    if n < line.len() {
        let name = to_lower(trim_bytes(slice_subrange(line, 0, n)));
        let value = slice_to_vec(trim_bytes(slice_subrange(line, n + 1, line.len())));
        headers.insert(name, value);
    }
}

/// Parses the bytes read from a connection into a request.
///
/// Fails with `MalformedRequestLine` where the first line does not hold
/// exactly three words, and with `UnsupportedMethod` where it does and the
/// first of them is not a known method.
pub fn parse_req(req: &[u8]) -> (r: Result<HttpRequest, ParseError>)
    ensures
        match parse_model(req@) {
            Ok(model) => r is Ok && r->Ok_0@ == model,
            Err(e) => r is Err && r->Err_0 == e,
        },
        r matches Ok(request) ==> is_word(request.path@) && is_word(request.version@)
            && is_canonical(request.headers@),
{
    proof {
        lemma_tokens_are_words(first_line(req@));
        lemma_header_section_is_canonical(after_first_line(req@), Map::empty());
    }
    let (request_line, after) = split_line(req);
    let words = split_whitespace(request_line);
    if words.len() != 3 {
        return Err(ParseError::MalformedRequestLine);
    }
    let mut headers = Headers::new();
    let mut rest: &[u8] = after;
    let mut body: &[u8] = after;
    let mut done: bool = false;
    while !done
        invariant
            !done ==> header_section(after@, Map::empty()) == header_section(rest@, headers@),
            !done ==> body_section(after@) == body_section(rest@),
            done ==> headers@ == header_section(after@, Map::empty()),
            done ==> body@ == body_section(after@),
        decreases
                (if done {
                    0
                } else {
                    rest@.len() + 1
                }),
    {
        if rest.len() == 0 {
            body = rest;
            done = true;
        } else {
            let (line, next) = split_line(rest);
            if line.len() == 0 {
                body = next;
                done = true;
            } else {
                add_header_line(&mut headers, line);
                rest = next;
            }
        }
    }
    HttpRequest::new(
        words[1].as_slice(),
        words[2].as_slice(),
        words[0].as_slice(),
        headers,
        body,
    )
}

} // verus!
