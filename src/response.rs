//! Responses: a status line, header lines and a body, and their framing on
//! the wire.

use vstd::prelude::*;
use crate::bytes::{contains, occurs_at, push_all};
use crate::number::{decimal, push_decimal};
use crate::text::{
    connection_close_header, connection_close_header_bytes, content_length_prefix,
    content_length_prefix_bytes, crlf, crlf_bytes, gzip_encoding_header, gzip_encoding_header_bytes,
    octet_stream_header, octet_stream_header_bytes, status_ok, status_ok_bytes, text_plain_header,
    text_plain_header_bytes,
};

verus! {

/// A response before framing.
pub struct Response {
    pub status: Vec<u8>,
    pub headers: Vec<Vec<u8>>,
    pub body: Vec<u8>,
}

/// The mathematical value of a [`Response`].
pub struct ResponseView {
    pub status: Seq<u8>,
    pub headers: Seq<Seq<u8>>,
    pub body: Seq<u8>,
}

impl View for Response {
    type V = ResponseView;

    open spec fn view(&self) -> ResponseView {
        ResponseView {
            status: self.status@,
            headers: self.headers@.map_values(|h: Vec<u8>| h@),
            body: self.body@,
        }
    }
}

/// Each header line followed by CRLF.
pub open spec fn header_block(hs: Seq<Seq<u8>>) -> Seq<u8>
    decreases hs.len(),
{
    if hs.len() == 0 {
        seq![]
    } else {
        header_block(hs.drop_last()) + hs.last() + crlf()
    }
}

/// The bytes sent for a response: status line, headers, a blank line, body.
pub open spec fn wire(r: ResponseView) -> Seq<u8> {
    r.status + crlf() + header_block(r.headers) + crlf() + r.body
}

/// `Connection: close` when the connection is to be closed, else nothing.
pub open spec fn close_headers(close: bool) -> Seq<Seq<u8>> {
    if close {
        seq![connection_close_header()]
    } else {
        seq![]
    }
}

/// The `Content-Length` header for a body of `n` bytes.
pub open spec fn length_header(n: nat) -> Seq<u8> {
    content_length_prefix() + decimal(n)
}

/// A response with no body.
pub open spec fn status_reply(status: Seq<u8>, close: bool) -> ResponseView {
    ResponseView { status, headers: close_headers(close), body: seq![] }
}

/// A 200 response carrying `body` as it is.
pub open spec fn body_reply(content_type: Seq<u8>, body: Seq<u8>, close: bool) -> ResponseView {
    ResponseView {
        status: status_ok(),
        headers: seq![content_type, length_header(body.len())] + close_headers(close),
        body,
    }
}

/// A 200 response carrying a gzip-compressed text body.
pub open spec fn gzip_reply(compressed: Seq<u8>, close: bool) -> ResponseView {
    ResponseView {
        status: status_ok(),
        headers: seq![text_plain_header(), gzip_encoding_header(), length_header(compressed.len())]
            + close_headers(close),
        body: compressed,
    }
}

/// The content type of a 200 response: raw bytes for a file, else text.
pub open spec fn content_type(file: bool) -> Seq<u8> {
    if file {
        octet_stream_header()
    } else {
        text_plain_header()
    }
}

/// The header lines of [`close_headers`].
fn close_header_lines(close: bool) -> (r: Vec<Vec<u8>>)
    ensures
        r@.map_values(|h: Vec<u8>| h@) == close_headers(close),
{
    let mut hs: Vec<Vec<u8>> = Vec::new();
    if close {
        hs.push(connection_close_header_bytes());
        assert(hs@.map_values(|h: Vec<u8>| h@) =~= close_headers(close));
    } else {
        assert(hs@.map_values(|h: Vec<u8>| h@) =~= close_headers(close));
    }
    hs
}

/// The bytes of [`length_header`].
fn length_header_bytes(n: usize) -> (r: Vec<u8>)
    ensures
        r@ == length_header(n as nat),
{
    let mut h = content_length_prefix_bytes();
    push_decimal(&mut h, n);
    h
}

/// A response with the given status line and no body.
pub fn status_response(status: Vec<u8>, close: bool) -> (r: Response)
    ensures
        r@ == status_reply(status@, close),
{
    Response { status, headers: close_header_lines(close), body: Vec::new() }
}

/// A 200 response whose body is `body`; `file` selects the binary content
/// type over plain text.
pub fn response_with_body(body: &[u8], file: bool, close: bool) -> (r: Response)
    ensures
        r@ == body_reply(content_type(file), body@, close),
{
    let ct = if file {
        octet_stream_header_bytes()
    } else {
        text_plain_header_bytes()
    };
    let mut headers: Vec<Vec<u8>> = Vec::new();
    headers.push(ct);
    headers.push(length_header_bytes(body.len()));
    let ghost front = headers@.map_values(|h: Vec<u8>| h@);
    assert(front =~= seq![content_type(file), length_header(body@.len())]);
    let mut extra = close_header_lines(close);
    headers.append(&mut extra);
    let r = Response { status: status_ok_bytes(), headers, body: vstd::slice::slice_to_vec(body) };
    assert(r@.headers =~= front + close_headers(close));
    r
}

/// A 200 response whose body is the already compressed `body`.
pub fn response_with_body_compressed(body: Vec<u8>, close: bool) -> (r: Response)
    ensures
        r@ == gzip_reply(body@, close),
{
    let mut headers: Vec<Vec<u8>> = Vec::new();
    headers.push(text_plain_header_bytes());
    headers.push(gzip_encoding_header_bytes());
    headers.push(length_header_bytes(body.len()));
    let ghost front = headers@.map_values(|h: Vec<u8>| h@);
    assert(front =~= seq![text_plain_header(), gzip_encoding_header(), length_header(body@.len())]);
    let mut extra = close_header_lines(close);
    headers.append(&mut extra);
    let r = Response { status: status_ok_bytes(), headers, body };
    assert(r@.headers =~= front + close_headers(close));
    r
}

impl Response {
    /// Frames the response for the wire.
    pub fn encode(&self) -> (r: Vec<u8>)
        ensures
            r@ == wire(self@),
    {
        let ghost hs = self@.headers;
        let mut out: Vec<u8> = Vec::new();
        push_all(&mut out, self.status.as_slice());
        push_all(&mut out, crlf_bytes().as_slice());
        let mut i: usize = 0;
        assert(hs.subrange(0, 0) =~= seq![]);
        while i < self.headers.len()
            invariant
                i <= self.headers@.len(),
                hs == self@.headers,
                out@ == self.status@ + crlf() + header_block(hs.subrange(0, i as int)),
            decreases self.headers@.len() - i,
        {
            assert(hs.subrange(0, i + 1).drop_last() =~= hs.subrange(0, i as int));
            push_all(&mut out, self.headers[i].as_slice());
            push_all(&mut out, crlf_bytes().as_slice());
            i = i + 1;
        }
        assert(hs.subrange(0, i as int) =~= hs);
        push_all(&mut out, crlf_bytes().as_slice());
        push_all(&mut out, self.body.as_slice());
        out
    }
}

proof fn lemma_occurs_within(pre: Seq<u8>, s: Seq<u8>, post: Seq<u8>, p: Seq<u8>, j: int)
    requires
        occurs_at(s, p, j),
    ensures
        occurs_at(pre + s + post, p, pre.len() + j),
{
    assert((pre + s + post).subrange(pre.len() + j, pre.len() + j + p.len()) =~= s.subrange(
        j,
        j + p.len(),
    ));
}

proof fn lemma_header_in_block(hs: Seq<Seq<u8>>, i: int)
    requires
        0 <= i < hs.len(),
    ensures
        contains(header_block(hs), hs[i] + crlf()),
    decreases hs.len(),
{
    let front = header_block(hs.drop_last());
    if i == hs.len() - 1 {
        assert(header_block(hs) =~= front + (hs[i] + crlf()) + seq![]);
        assert((hs[i] + crlf()).subrange(0, (hs[i] + crlf()).len() as int) =~= hs[i] + crlf());
        lemma_occurs_within(front, hs[i] + crlf(), seq![], hs[i] + crlf(), 0);
    } else {
        lemma_header_in_block(hs.drop_last(), i);
        let j = choose|j: int| occurs_at(front, hs[i] + crlf(), j);
        assert(header_block(hs) =~= seq![] + front + (hs.last() + crlf()));
        lemma_occurs_within(seq![], front, hs.last() + crlf(), hs[i] + crlf(), j);
    }
}

/// Every header line of a response is sent, followed by CRLF.
pub proof fn lemma_header_on_wire(r: ResponseView, i: int)
    requires
        0 <= i < r.headers.len(),
    ensures
        contains(wire(r), r.headers[i] + crlf()),
{
    lemma_header_in_block(r.headers, i);
    let hb = header_block(r.headers);
    let j = choose|j: int| occurs_at(hb, r.headers[i] + crlf(), j);
    assert(wire(r) =~= (r.status + crlf()) + hb + (crlf() + r.body));
    lemma_occurs_within(r.status + crlf(), hb, crlf() + r.body, r.headers[i] + crlf(), j);
}

} // verus!
