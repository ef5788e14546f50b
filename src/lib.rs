//! A small HTTP/1.1 server core: a request decoder, response framing with
//! optional gzip bodies, and the per-request decisions of a connection session.

pub mod bytes;
pub mod compress;
pub mod number;
pub mod request;
pub mod request_text;
pub mod response;
pub mod session;
pub mod text;
