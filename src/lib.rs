//! The HTTP/1.1 message layer of a small web server: request text is parsed into an
//! immutable [`Request`], and a [`Response`] is rendered into the exact bytes to send.
use vstd::prelude::*;

pub mod laws;
pub mod parse;
pub mod request;
pub mod response;
pub mod text;

pub use parse::{
    assemble_request, parse_first_line, parse_non_first_line, parse_request, scan_request,
    split_lines, RequestToken,
};
pub use request::{ParseError, Request};
pub use response::{Response, ResponseHeader, Status};

verus! {

} // verus!
