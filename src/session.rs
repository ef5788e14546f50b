//! The decisions of a connection session: what to do with one buffer read
//! from the socket, and how to answer once a file has been read or written.

use vstd::prelude::*;
use crate::bytes::{bytes_eq, contains, copy_range, find_in, has_prefix, push_all, starts_with};
use crate::compress::{gzip_compress, gzip_of};
use crate::number::{parse_decimal, parse_usize};
use crate::request::{header_value, parse, request_parser, Request, RequestView};
use crate::response::{
    body_reply, close_headers, gzip_reply, lemma_header_on_wire, response_with_body,
    response_with_body_compressed, status_reply, status_response, wire, Response, ResponseView,
};
use crate::text::{
    accept_encoding, accept_encoding_bytes, close, close_bytes, connection, connection_bytes,
    connection_close_header, content_length, content_length_bytes, crlf, echo_prefix,
    echo_prefix_bytes, files_prefix, files_prefix_bytes, get, get_bytes, gzip, gzip_bytes,
    octet_stream_header, post, post_bytes, root_path, root_path_bytes, status_bad_request,
    status_bad_request_bytes, status_created, status_created_bytes, status_not_allowed,
    status_not_allowed_bytes, status_not_found, status_not_found_bytes, status_ok, status_ok_bytes,
    status_server_error, status_server_error_bytes, text_plain_header, user_agent,
    user_agent_bytes, user_agent_path, user_agent_path_bytes,
};

verus! {

/// What the session does next.
pub enum Action {
    /// Send the response; then close the connection if `close` holds,
    /// else wait for the next request.
    Reply { response: Response, close: bool },
    /// Read the file at `path`, answer with [`file_read_response`], then go
    /// on as for `Reply`.
    ReadFile { path: Vec<u8>, close: bool },
    /// Write `contents` to the file at `path`, answer with
    /// [`file_write_response`], then go on as for `Reply`.
    WriteFile { path: Vec<u8>, contents: Vec<u8>, close: bool },
    /// The peer has closed the connection: end the session.
    Close,
}

/// The mathematical value of an [`Action`].
pub enum ActionView {
    Reply { response: ResponseView, close: bool },
    ReadFile { path: Seq<u8>, close: bool },
    WriteFile { path: Seq<u8>, contents: Seq<u8>, close: bool },
    Close,
}

impl View for Action {
    type V = ActionView;

    open spec fn view(&self) -> ActionView {
        match self {
            Action::Reply { response, close } => ActionView::Reply {
                response: response@,
                close: *close,
            },
            Action::ReadFile { path, close } => ActionView::ReadFile { path: path@, close: *close },
            Action::WriteFile { path, contents, close } => ActionView::WriteFile {
                path: path@,
                contents: contents@,
                close: *close,
            },
            Action::Close => ActionView::Close,
        }
    }
}

/// The storage root as bytes, if one is configured.
pub open spec fn root_view(root: Option<&[u8]>) -> Option<Seq<u8>> {
    match root {
        Some(r) => Some(r@),
        None => None,
    }
}

/// The request asks that the connection be closed after the response.
pub open spec fn wants_close(req: RequestView) -> bool {
    header_value(req.headers, connection()) == Some(close())
}

/// The request's `Accept-Encoding` mentions gzip.
pub open spec fn accepts_gzip(req: RequestView) -> bool {
    match header_value(req.headers, accept_encoding()) {
        Some(v) => contains(v, gzip()),
        None => false,
    }
}

/// Send `response`, closing afterwards if `close` holds.
pub open spec fn reply(response: ResponseView, close: bool) -> ActionView {
    ActionView::Reply { response, close }
}

/// The answer to a request that cannot be served: 400, and the connection
/// is closed.
pub open spec fn reject() -> ActionView {
    reply(status_reply(status_bad_request(), true), true)
}

/// The file that a name under `/files/` stands for.
pub open spec fn file_path(root: Seq<u8>, name: Seq<u8>) -> Seq<u8> {
    root + seq![0x2fu8] + name
}

/// The routing table.
pub open spec fn route(req: RequestView, root: Option<Seq<u8>>) -> ActionView {
    let c = wants_close(req);
    let p = req.path;
    if p == root_path() {
        reply(status_reply(status_ok(), c), c)
    } else if p == user_agent_path() {
        match header_value(req.headers, user_agent()) {
            Some(ua) => reply(body_reply(text_plain_header(), ua, c), c),
            None => reject(),
        }
    } else if has_prefix(p, echo_prefix()) {
        if p.len() < 6 {
            reject()
        } else {
            let msg = p.subrange(6, p.len() as int);
            if accepts_gzip(req) {
                reply(gzip_reply(gzip_of(msg), c), c)
            } else {
                reply(body_reply(text_plain_header(), msg, c), c)
            }
        }
    } else if has_prefix(p, files_prefix()) {
        if req.method != get() && req.method != post() {
            reply(status_reply(status_not_allowed(), c), c)
        } else if p.len() < 7 {
            reject()
        } else {
            match root {
                None => reply(status_reply(status_server_error(), true), true),
                Some(r) => {
                    let path = file_path(r, p.subrange(7, p.len() as int));
                    if req.method == get() {
                        ActionView::ReadFile { path, close: c }
                    } else {
                        match header_value(req.headers, content_length()) {
                            None => reject(),
                            Some(v) => match parse_usize(v) {
                                None => reject(),
                                Some(n) => if n == req.body.len() {
                                    ActionView::WriteFile { path, contents: req.body, close: c }
                                } else {
                                    reply(status_reply(status_bad_request(), c), c)
                                },
                            },
                        }
                    }
                },
            }
        }
    } else {
        reply(status_reply(status_not_found(), c), c)
    }
}

/// What the session does with a buffer read from the socket: an empty read
/// means the peer closed; a malformed request is rejected; anything else
/// is routed.
pub open spec fn decide(buf: Seq<u8>, root: Option<Seq<u8>>) -> ActionView {
    if buf.len() == 0 {
        ActionView::Close
    } else {
        match parse(buf) {
            None => reject(),
            Some(req) => route(req, root),
        }
    }
}

/// The answer once a file was read (`Some`) or could not be (`None`).
pub open spec fn read_reply(content: Option<Seq<u8>>, close: bool) -> ResponseView {
    match content {
        Some(c) => body_reply(octet_stream_header(), c, close),
        None => status_reply(status_not_found(), close),
    }
}

/// The answer once a file was written (`true`) or could not be (`false`).
pub open spec fn write_reply(ok: bool, close: bool) -> ResponseView {
    if ok {
        status_reply(status_created(), close)
    } else {
        status_reply(status_server_error(), close)
    }
}

/// The executable form of [`reject`].
fn rejection() -> (a: Action)
    ensures
        a@ == reject(),
{
    Action::Reply { response: status_response(status_bad_request_bytes(), true), close: true }
}

/// Whether the last header named `name` has exactly the value `value`.
fn header_is(req: &Request, name: &[u8], value: &[u8]) -> (r: bool)
    ensures
        r == (header_value(req@.headers, name@) == Some(value@)),
{
    match req.header(name) {
        Some(v) => bytes_eq(v.as_slice(), value),
        None => false,
    }
}

/// Routes a decoded request.
pub fn route_request(req: &Request, root: Option<&[u8]>) -> (a: Action)
    ensures
        a@ == route(req@, root_view(root)),
{
    let c = header_is(req, connection_bytes().as_slice(), close_bytes().as_slice());
    let p = req.path.as_slice();
    if bytes_eq(p, root_path_bytes().as_slice()) {
        Action::Reply { response: status_response(status_ok_bytes(), c), close: c }
    } else if bytes_eq(p, user_agent_path_bytes().as_slice()) {
        match req.header(user_agent_bytes().as_slice()) {
            Some(ua) => Action::Reply {
                response: response_with_body(ua.as_slice(), false, c),
                close: c,
            },
            None => rejection(),
        }
    } else if starts_with(p, echo_prefix_bytes().as_slice()) {
        if p.len() < 6 {
            rejection()
        } else {
            let msg = copy_range(p, 6, p.len());
            let gz = match req.header(accept_encoding_bytes().as_slice()) {
                Some(v) => find_in(v.as_slice(), gzip_bytes().as_slice()),
                None => false,
            };
            if gz {
                let compressed = gzip_compress(msg.as_slice());
                Action::Reply { response: response_with_body_compressed(compressed, c), close: c }
            } else {
                Action::Reply { response: response_with_body(msg.as_slice(), false, c), close: c }
            }
        }
    } else if starts_with(p, files_prefix_bytes().as_slice()) {
        let is_get = bytes_eq(req.method.as_slice(), get_bytes().as_slice());
        let is_post = bytes_eq(req.method.as_slice(), post_bytes().as_slice());
        if !is_get && !is_post {
            Action::Reply { response: status_response(status_not_allowed_bytes(), c), close: c }
        } else if p.len() < 7 {
            rejection()
        } else {
            match root {
                None => Action::Reply {
                    response: status_response(status_server_error_bytes(), true),
                    close: true,
                },
                Some(r) => {
                    let mut path = vstd::slice::slice_to_vec(r);
                    path.push(0x2f);
                    push_all(&mut path, vstd::slice::slice_subrange(p, 7, p.len()));
                    assert(path@ == file_path(r@, req@.path.subrange(7, req@.path.len() as int)));
                    if is_get {
                        Action::ReadFile { path, close: c }
                    } else {
                        match req.header(content_length_bytes().as_slice()) {
                            None => rejection(),
                            Some(v) => match parse_decimal(v.as_slice()) {
                                None => rejection(),
                                Some(n) => if n == req.body.len() {
                                    Action::WriteFile {
                                        path,
                                        contents: vstd::slice::slice_to_vec(req.body.as_slice()),
                                        close: c,
                                    }
                                } else {
                                    Action::Reply {
                                        response: status_response(status_bad_request_bytes(), c),
                                        close: c,
                                    }
                                },
                            },
                        }
                    }
                },
            }
        }
    } else {
        Action::Reply { response: status_response(status_not_found_bytes(), c), close: c }
    }
}

/// Decides what the session does with one buffer read from the socket.
pub fn handle_request(buf: &[u8], root: Option<&[u8]>) -> (a: Action)
    ensures
        a@ == decide(buf@, root_view(root)),
{
    if buf.len() == 0 {
        return Action::Close;
    }
    match request_parser(buf) {
        None => rejection(),
        Some(req) => route_request(&req, root),
    }
}

/// The answer to a file read: its content, or 404 when it could not be read.
pub fn file_read_response(content: Option<Vec<u8>>, close: bool) -> (r: Response)
    ensures
        r@ == read_reply(
            match content {
                Some(c) => Some(c@),
                None => None,
            },
            close,
        ),
{
    match content {
        Some(c) => response_with_body(c.as_slice(), true, close),
        None => status_response(status_not_found_bytes(), close),
    }
}

/// The answer to a file write: 201, or 500 when it failed.
pub fn file_write_response(ok: bool, close: bool) -> (r: Response)
    ensures
        r@ == write_reply(ok, close),
{
    if ok {
        status_response(status_created_bytes(), close)
    } else {
        status_response(status_server_error_bytes(), close)
    }
}

/// `Connection: close` stands among the headers that end with
/// `close_headers(true)`.
proof fn lemma_close_header_listed()
    ensures
        close_headers(true).contains(connection_close_header()),
        forall|front: Seq<Seq<u8>>|
            #[trigger] (front + close_headers(true)).contains(connection_close_header()),
{
    assert(close_headers(true)[0] == connection_close_header());
    assert forall|front: Seq<Seq<u8>>|
        #[trigger] (front + close_headers(true)).contains(connection_close_header()) by {
        assert((front + close_headers(true))[front.len() as int] == connection_close_header());
    }
}

/// A listed `Connection: close` header goes out on the wire.
proof fn lemma_close_sent(r: ResponseView)
    requires
        r.headers.contains(connection_close_header()),
    ensures
        contains(wire(r), connection_close_header() + crlf()),
{
    let i = choose|i: int| 0 <= i < r.headers.len() && r.headers[i] == connection_close_header();
    lemma_header_on_wire(r, i);
}

/// A request that carries `Connection: close` is answered with a
/// `Connection: close` header line on the wire, and the session ends after
/// that answer, whichever way a file access that the request calls for
/// turns out.
pub proof fn lemma_close_is_honoured(buf: Seq<u8>, root: Option<Seq<u8>>)
    requires
        parse(buf) matches Some(req) && wants_close(req),
    ensures
        match decide(buf, root) {
            ActionView::Reply { response, close } => close && contains(
                wire(response),
                connection_close_header() + crlf(),
            ),
            ActionView::ReadFile { close, .. } => close && forall|content: Option<Seq<u8>>|
                contains(
                    #[trigger] wire(read_reply(content, close)),
                    connection_close_header() + crlf(),
                ),
            ActionView::WriteFile { close, .. } => close && forall|ok: bool|
                contains(
                    #[trigger] wire(write_reply(ok, close)),
                    connection_close_header() + crlf(),
                ),
            ActionView::Close => false,
        },
{
    lemma_close_header_listed();
    assert(buf.len() > 0);
    match decide(buf, root) {
        ActionView::Reply { response, close } => {
            lemma_close_sent(response);
        },
        ActionView::ReadFile { close, .. } => {
            assert forall|content: Option<Seq<u8>>|
                contains(
                    #[trigger] wire(read_reply(content, close)),
                    connection_close_header() + crlf(),
                ) by {
                lemma_close_sent(read_reply(content, close));
            }
        },
        ActionView::WriteFile { close, .. } => {
            assert forall|ok: bool|
                contains(
                    #[trigger] wire(write_reply(ok, close)),
                    connection_close_header() + crlf(),
                ) by {
                lemma_close_sent(write_reply(ok, close));
            }
        },
        ActionView::Close => {},
    }
}

/// A POST under `/files/` whose `Content-Length` does not give the body's
/// length is answered with 400, and no file is written.
pub proof fn lemma_length_mismatch_writes_nothing(buf: Seq<u8>, root: Seq<u8>)
    requires
        parse(buf) matches Some(req) && req.method == post() && has_prefix(req.path, files_prefix())
            && req.path.len() >= 7 && (header_value(req.headers, content_length()) matches Some(v)
            && (parse_usize(v) matches Some(n) && n != req.body.len())),
    ensures
        decide(buf, Some(root)) == reply(
            status_reply(status_bad_request(), wants_close(parse(buf)->0)),
            wants_close(parse(buf)->0),
        ),
{
    let req = parse(buf)->0;
    let p = req.path;
    assert(p[1] == p.subrange(0, 6)[1]);
    assert(p[1] == 0x66);
    assert(p != root_path());
    assert(p != user_agent_path()) by {
        if p == user_agent_path() {
            assert(p[1] == 0x75);
        }
    }
    assert(!has_prefix(p, echo_prefix())) by {
        if has_prefix(p, echo_prefix()) {
            assert(p[1] == p.subrange(0, 5)[1]);
        }
    }
    assert(buf.len() > 0);
}

/// A well-formed request without `Connection: close` keeps the connection
/// open, whichever way a file access that it calls for turns out, unless
/// it is rejected with 400 or the file routes have no storage root.
pub proof fn lemma_keep_alive(buf: Seq<u8>, root: Option<Seq<u8>>)
    requires
        parse(buf) matches Some(req) && !wants_close(req),
    ensures
        match decide(buf, root) {
            ActionView::Reply { response, close } => close ==> (decide(buf, root) == reject()
                || response == status_reply(status_server_error(), true)),
            ActionView::ReadFile { close, .. } => !close,
            ActionView::WriteFile { close, .. } => !close,
            ActionView::Close => false,
        },
{
    assert(buf.len() > 0);
}

} // verus!
