//! Fixed byte strings of the wire protocol, each as a spec value and an
//! executable constructor that yields exactly those bytes.

use vstd::prelude::*;

verus! {

/// The bytes of `\r\n`.
pub open spec fn crlf() -> Seq<u8> {
    seq![0x0du8, 0x0a]
}

/// Builds the bytes of `\r\n`.
pub fn crlf_bytes() -> (r: Vec<u8>)
    ensures
        r@ == crlf(),
{
    vec![0x0du8, 0x0a]
}

/// The bytes of `Connection`.
pub open spec fn connection() -> Seq<u8> {
    seq![0x43u8, 0x6f, 0x6e, 0x6e, 0x65, 0x63, 0x74, 0x69, 0x6f, 0x6e]
}

/// Builds the bytes of `Connection`.
pub fn connection_bytes() -> (r: Vec<u8>)
    ensures
        r@ == connection(),
{
    vec![0x43u8, 0x6f, 0x6e, 0x6e, 0x65, 0x63, 0x74, 0x69, 0x6f, 0x6e]
}

/// The bytes of `close`.
pub open spec fn close() -> Seq<u8> {
    seq![0x63u8, 0x6c, 0x6f, 0x73, 0x65]
}

/// Builds the bytes of `close`.
pub fn close_bytes() -> (r: Vec<u8>)
    ensures
        r@ == close(),
{
    vec![0x63u8, 0x6c, 0x6f, 0x73, 0x65]
}

/// The bytes of `User-Agent`.
pub open spec fn user_agent() -> Seq<u8> {
    seq![0x55u8, 0x73, 0x65, 0x72, 0x2d, 0x41, 0x67, 0x65, 0x6e, 0x74]
}

/// Builds the bytes of `User-Agent`.
pub fn user_agent_bytes() -> (r: Vec<u8>)
    ensures
        r@ == user_agent(),
{
    vec![0x55u8, 0x73, 0x65, 0x72, 0x2d, 0x41, 0x67, 0x65, 0x6e, 0x74]
}

/// The bytes of `Accept-Encoding`.
pub open spec fn accept_encoding() -> Seq<u8> {
    seq![0x41u8, 0x63, 0x63, 0x65, 0x70, 0x74, 0x2d, 0x45, 0x6e, 0x63, 0x6f, 0x64, 0x69, 0x6e, 0x67]
}

/// Builds the bytes of `Accept-Encoding`.
pub fn accept_encoding_bytes() -> (r: Vec<u8>)
    ensures
        r@ == accept_encoding(),
{
    vec![0x41u8, 0x63, 0x63, 0x65, 0x70, 0x74, 0x2d, 0x45, 0x6e, 0x63, 0x6f, 0x64, 0x69, 0x6e, 0x67]
}

/// The bytes of `gzip`.
pub open spec fn gzip() -> Seq<u8> {
    seq![0x67u8, 0x7a, 0x69, 0x70]
}

/// Builds the bytes of `gzip`.
pub fn gzip_bytes() -> (r: Vec<u8>)
    ensures
        r@ == gzip(),
{
    vec![0x67u8, 0x7a, 0x69, 0x70]
}

/// The bytes of `Content-Length`.
pub open spec fn content_length() -> Seq<u8> {
    seq![0x43u8, 0x6f, 0x6e, 0x74, 0x65, 0x6e, 0x74, 0x2d, 0x4c, 0x65, 0x6e, 0x67, 0x74, 0x68]
}

/// Builds the bytes of `Content-Length`.
pub fn content_length_bytes() -> (r: Vec<u8>)
    ensures
        r@ == content_length(),
{
    vec![0x43u8, 0x6f, 0x6e, 0x74, 0x65, 0x6e, 0x74, 0x2d, 0x4c, 0x65, 0x6e, 0x67, 0x74, 0x68]
}

/// The bytes of `GET`.
pub open spec fn get() -> Seq<u8> {
    seq![0x47u8, 0x45, 0x54]
}

/// Builds the bytes of `GET`.
pub fn get_bytes() -> (r: Vec<u8>)
    ensures
        r@ == get(),
{
    vec![0x47u8, 0x45, 0x54]
}

/// The bytes of `POST`.
pub open spec fn post() -> Seq<u8> {
    seq![0x50u8, 0x4f, 0x53, 0x54]
}

/// Builds the bytes of `POST`.
pub fn post_bytes() -> (r: Vec<u8>)
    ensures
        r@ == post(),
{
    vec![0x50u8, 0x4f, 0x53, 0x54]
}

/// The bytes of `/`.
pub open spec fn root_path() -> Seq<u8> {
    seq![0x2fu8]
}

/// Builds the bytes of `/`.
pub fn root_path_bytes() -> (r: Vec<u8>)
    ensures
        r@ == root_path(),
{
    vec![0x2fu8]
}

/// The bytes of `/user-agent`.
pub open spec fn user_agent_path() -> Seq<u8> {
    seq![0x2fu8, 0x75, 0x73, 0x65, 0x72, 0x2d, 0x61, 0x67, 0x65, 0x6e, 0x74]
}

/// Builds the bytes of `/user-agent`.
pub fn user_agent_path_bytes() -> (r: Vec<u8>)
    ensures
        r@ == user_agent_path(),
{
    vec![0x2fu8, 0x75, 0x73, 0x65, 0x72, 0x2d, 0x61, 0x67, 0x65, 0x6e, 0x74]
}

/// The bytes of `/echo`.
pub open spec fn echo_prefix() -> Seq<u8> {
    seq![0x2fu8, 0x65, 0x63, 0x68, 0x6f]
}

/// Builds the bytes of `/echo`.
pub fn echo_prefix_bytes() -> (r: Vec<u8>)
    ensures
        r@ == echo_prefix(),
{
    vec![0x2fu8, 0x65, 0x63, 0x68, 0x6f]
}

/// The bytes of `/files`.
pub open spec fn files_prefix() -> Seq<u8> {
    seq![0x2fu8, 0x66, 0x69, 0x6c, 0x65, 0x73]
}

/// Builds the bytes of `/files`.
pub fn files_prefix_bytes() -> (r: Vec<u8>)
    ensures
        r@ == files_prefix(),
{
    vec![0x2fu8, 0x66, 0x69, 0x6c, 0x65, 0x73]
}

/// The bytes of `HTTP/1.1 200 OK`.
pub open spec fn status_ok() -> Seq<u8> {
    seq![0x48u8, 0x54, 0x54, 0x50, 0x2f, 0x31, 0x2e, 0x31, 0x20, 0x32, 0x30, 0x30, 0x20, 0x4f, 0x4b]
}

/// Builds the bytes of `HTTP/1.1 200 OK`.
pub fn status_ok_bytes() -> (r: Vec<u8>)
    ensures
        r@ == status_ok(),
{
    vec![0x48u8, 0x54, 0x54, 0x50, 0x2f, 0x31, 0x2e, 0x31, 0x20, 0x32, 0x30, 0x30, 0x20, 0x4f, 0x4b]
}

/// The bytes of `HTTP/1.1 201 Created`.
pub open spec fn status_created() -> Seq<u8> {
    seq![0x48u8, 0x54, 0x54, 0x50, 0x2f, 0x31, 0x2e, 0x31, 0x20, 0x32, 0x30, 0x31, 0x20, 0x43, 0x72, 0x65, 0x61, 0x74, 0x65, 0x64]
}

/// Builds the bytes of `HTTP/1.1 201 Created`.
pub fn status_created_bytes() -> (r: Vec<u8>)
    ensures
        r@ == status_created(),
{
    vec![0x48u8, 0x54, 0x54, 0x50, 0x2f, 0x31, 0x2e, 0x31, 0x20, 0x32, 0x30, 0x31, 0x20, 0x43, 0x72, 0x65, 0x61, 0x74, 0x65, 0x64]
}

/// The bytes of `HTTP/1.1 400 Bad Request`.
pub open spec fn status_bad_request() -> Seq<u8> {
    seq![0x48u8, 0x54, 0x54, 0x50, 0x2f, 0x31, 0x2e, 0x31, 0x20, 0x34, 0x30, 0x30, 0x20, 0x42, 0x61, 0x64, 0x20, 0x52, 0x65, 0x71, 0x75, 0x65, 0x73, 0x74]
}

/// Builds the bytes of `HTTP/1.1 400 Bad Request`.
pub fn status_bad_request_bytes() -> (r: Vec<u8>)
    ensures
        r@ == status_bad_request(),
{
    vec![0x48u8, 0x54, 0x54, 0x50, 0x2f, 0x31, 0x2e, 0x31, 0x20, 0x34, 0x30, 0x30, 0x20, 0x42, 0x61, 0x64, 0x20, 0x52, 0x65, 0x71, 0x75, 0x65, 0x73, 0x74]
}

/// The bytes of `HTTP/1.1 404 Not Found`.
pub open spec fn status_not_found() -> Seq<u8> {
    seq![0x48u8, 0x54, 0x54, 0x50, 0x2f, 0x31, 0x2e, 0x31, 0x20, 0x34, 0x30, 0x34, 0x20, 0x4e, 0x6f, 0x74, 0x20, 0x46, 0x6f, 0x75, 0x6e, 0x64]
}

/// Builds the bytes of `HTTP/1.1 404 Not Found`.
pub fn status_not_found_bytes() -> (r: Vec<u8>)
    ensures
        r@ == status_not_found(),
{
    vec![0x48u8, 0x54, 0x54, 0x50, 0x2f, 0x31, 0x2e, 0x31, 0x20, 0x34, 0x30, 0x34, 0x20, 0x4e, 0x6f, 0x74, 0x20, 0x46, 0x6f, 0x75, 0x6e, 0x64]
}

/// The bytes of `HTTP/1.1 405 Method Not Allowed`.
pub open spec fn status_not_allowed() -> Seq<u8> {
    seq![0x48u8, 0x54, 0x54, 0x50, 0x2f, 0x31, 0x2e, 0x31, 0x20, 0x34, 0x30, 0x35, 0x20, 0x4d, 0x65, 0x74, 0x68, 0x6f, 0x64, 0x20, 0x4e, 0x6f, 0x74, 0x20, 0x41, 0x6c, 0x6c, 0x6f, 0x77, 0x65, 0x64]
}

/// Builds the bytes of `HTTP/1.1 405 Method Not Allowed`.
pub fn status_not_allowed_bytes() -> (r: Vec<u8>)
    ensures
        r@ == status_not_allowed(),
{
    vec![0x48u8, 0x54, 0x54, 0x50, 0x2f, 0x31, 0x2e, 0x31, 0x20, 0x34, 0x30, 0x35, 0x20, 0x4d, 0x65, 0x74, 0x68, 0x6f, 0x64, 0x20, 0x4e, 0x6f, 0x74, 0x20, 0x41, 0x6c, 0x6c, 0x6f, 0x77, 0x65, 0x64]
}

/// The bytes of `HTTP/1.1 500 Internal Server Error`.
pub open spec fn status_server_error() -> Seq<u8> {
    seq![0x48u8, 0x54, 0x54, 0x50, 0x2f, 0x31, 0x2e, 0x31, 0x20, 0x35, 0x30, 0x30, 0x20, 0x49, 0x6e, 0x74, 0x65, 0x72, 0x6e, 0x61, 0x6c, 0x20, 0x53, 0x65, 0x72, 0x76, 0x65, 0x72, 0x20, 0x45, 0x72, 0x72, 0x6f, 0x72]
}

/// Builds the bytes of `HTTP/1.1 500 Internal Server Error`.
pub fn status_server_error_bytes() -> (r: Vec<u8>)
    ensures
        r@ == status_server_error(),
{
    vec![0x48u8, 0x54, 0x54, 0x50, 0x2f, 0x31, 0x2e, 0x31, 0x20, 0x35, 0x30, 0x30, 0x20, 0x49, 0x6e, 0x74, 0x65, 0x72, 0x6e, 0x61, 0x6c, 0x20, 0x53, 0x65, 0x72, 0x76, 0x65, 0x72, 0x20, 0x45, 0x72, 0x72, 0x6f, 0x72]
}

/// The bytes of `Connection: close`.
pub open spec fn connection_close_header() -> Seq<u8> {
    seq![0x43u8, 0x6f, 0x6e, 0x6e, 0x65, 0x63, 0x74, 0x69, 0x6f, 0x6e, 0x3a, 0x20, 0x63, 0x6c, 0x6f, 0x73, 0x65]
}

/// Builds the bytes of `Connection: close`.
pub fn connection_close_header_bytes() -> (r: Vec<u8>)
    ensures
        r@ == connection_close_header(),
{
    vec![0x43u8, 0x6f, 0x6e, 0x6e, 0x65, 0x63, 0x74, 0x69, 0x6f, 0x6e, 0x3a, 0x20, 0x63, 0x6c, 0x6f, 0x73, 0x65]
}

/// The bytes of `Content-Type: text/plain`.
pub open spec fn text_plain_header() -> Seq<u8> {
    seq![0x43u8, 0x6f, 0x6e, 0x74, 0x65, 0x6e, 0x74, 0x2d, 0x54, 0x79, 0x70, 0x65, 0x3a, 0x20, 0x74, 0x65, 0x78, 0x74, 0x2f, 0x70, 0x6c, 0x61, 0x69, 0x6e]
}

/// Builds the bytes of `Content-Type: text/plain`.
pub fn text_plain_header_bytes() -> (r: Vec<u8>)
    ensures
        r@ == text_plain_header(),
{
    vec![0x43u8, 0x6f, 0x6e, 0x74, 0x65, 0x6e, 0x74, 0x2d, 0x54, 0x79, 0x70, 0x65, 0x3a, 0x20, 0x74, 0x65, 0x78, 0x74, 0x2f, 0x70, 0x6c, 0x61, 0x69, 0x6e]
}

/// The bytes of `Content-Type: application/octet-stream`.
pub open spec fn octet_stream_header() -> Seq<u8> {
    seq![0x43u8, 0x6f, 0x6e, 0x74, 0x65, 0x6e, 0x74, 0x2d, 0x54, 0x79, 0x70, 0x65, 0x3a, 0x20, 0x61, 0x70, 0x70, 0x6c, 0x69, 0x63, 0x61, 0x74, 0x69, 0x6f, 0x6e, 0x2f, 0x6f, 0x63, 0x74, 0x65, 0x74, 0x2d, 0x73, 0x74, 0x72, 0x65, 0x61, 0x6d]
}

/// Builds the bytes of `Content-Type: application/octet-stream`.
pub fn octet_stream_header_bytes() -> (r: Vec<u8>)
    ensures
        r@ == octet_stream_header(),
{
    vec![0x43u8, 0x6f, 0x6e, 0x74, 0x65, 0x6e, 0x74, 0x2d, 0x54, 0x79, 0x70, 0x65, 0x3a, 0x20, 0x61, 0x70, 0x70, 0x6c, 0x69, 0x63, 0x61, 0x74, 0x69, 0x6f, 0x6e, 0x2f, 0x6f, 0x63, 0x74, 0x65, 0x74, 0x2d, 0x73, 0x74, 0x72, 0x65, 0x61, 0x6d]
}

/// The bytes of `Content-Encoding: gzip`.
pub open spec fn gzip_encoding_header() -> Seq<u8> {
    seq![0x43u8, 0x6f, 0x6e, 0x74, 0x65, 0x6e, 0x74, 0x2d, 0x45, 0x6e, 0x63, 0x6f, 0x64, 0x69, 0x6e, 0x67, 0x3a, 0x20, 0x67, 0x7a, 0x69, 0x70]
}

/// Builds the bytes of `Content-Encoding: gzip`.
pub fn gzip_encoding_header_bytes() -> (r: Vec<u8>)
    ensures
        r@ == gzip_encoding_header(),
{
    vec![0x43u8, 0x6f, 0x6e, 0x74, 0x65, 0x6e, 0x74, 0x2d, 0x45, 0x6e, 0x63, 0x6f, 0x64, 0x69, 0x6e, 0x67, 0x3a, 0x20, 0x67, 0x7a, 0x69, 0x70]
}

/// The bytes of `Content-Length: `.
pub open spec fn content_length_prefix() -> Seq<u8> {
    seq![0x43u8, 0x6f, 0x6e, 0x74, 0x65, 0x6e, 0x74, 0x2d, 0x4c, 0x65, 0x6e, 0x67, 0x74, 0x68, 0x3a, 0x20]
}

/// Builds the bytes of `Content-Length: `.
pub fn content_length_prefix_bytes() -> (r: Vec<u8>)
    ensures
        r@ == content_length_prefix(),
{
    vec![0x43u8, 0x6f, 0x6e, 0x74, 0x65, 0x6e, 0x74, 0x2d, 0x4c, 0x65, 0x6e, 0x67, 0x74, 0x68, 0x3a, 0x20]
}

} // verus!
