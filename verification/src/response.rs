//! Construction and serialization of HTTP responses.
//!
//! A response carries one of three statuses, a content type, and a
//! body; its serialized form is the status line, a `Content-Type`
//! header, a `Content-Length` header holding exactly the byte length
//! of the body, a blank line, and the body itself.

use crate::content_type::{content_type_of, get_content_type, mime_html};
use crate::dec::dec_bytes;
use crate::dec::u64_to_dec;
use crate::path::ResolvedTarget;
use vstd::prelude::*;

verus! {

/// The status of a response.
#[derive(Clone, Copy, PartialEq, Eq, Structural, Debug)]
pub enum Status {
    Success,
    NotFound,
    InternalError,
}

impl Status {
    /// The numeric status code.
    pub open spec fn spec_code(self) -> u16 {
        match self {
            Status::Success => 200,
            Status::NotFound => 404,
            Status::InternalError => 500,
        }
    }

    /// The numeric status code.
    pub fn code(&self) -> (c: u16)
        ensures
            c == self.spec_code(),
    {
        match self {
            Status::Success => 200,
            Status::NotFound => 404,
            Status::InternalError => 500,
        }
    }
}

/// One HTTP response, before serialization.
pub struct Response {
    pub status: Status,
    pub content_type: Vec<u8>,
    pub body: Vec<u8>,
}

/// The status line of a 200 response.
pub open spec fn line_success() -> Seq<u8> {
    seq!['H' as u8, 'T' as u8, 'T' as u8, 'P' as u8, '/' as u8, '1' as u8, '.' as u8, '1' as u8, ' ' as u8, '2' as u8, '0' as u8, '0' as u8, ' ' as u8, 'O' as u8, 'K' as u8, '\r' as u8, '\n' as u8]
}

/// The status line of a 404 response.
pub open spec fn line_not_found() -> Seq<u8> {
    seq!['H' as u8, 'T' as u8, 'T' as u8, 'P' as u8, '/' as u8, '1' as u8, '.' as u8, '1' as u8, ' ' as u8, '4' as u8, '0' as u8, '4' as u8, ' ' as u8, 'N' as u8, 'o' as u8, 't' as u8, ' ' as u8, 'F' as u8, 'o' as u8, 'u' as u8, 'n' as u8, 'd' as u8, '\r' as u8, '\n' as u8]
}

/// The status line of a 500 response.
pub open spec fn line_internal_error() -> Seq<u8> {
    seq!['H' as u8, 'T' as u8, 'T' as u8, 'P' as u8, '/' as u8, '1' as u8, '.' as u8, '1' as u8, ' ' as u8, '5' as u8, '0' as u8, '0' as u8, ' ' as u8, 'I' as u8, 'n' as u8, 't' as u8, 'e' as u8, 'r' as u8, 'n' as u8, 'a' as u8, 'l' as u8, ' ' as u8, 'S' as u8, 'e' as u8, 'r' as u8, 'v' as u8, 'e' as u8, 'r' as u8, ' ' as u8, 'E' as u8, 'r' as u8, 'r' as u8, 'o' as u8, 'r' as u8, '\r' as u8, '\n' as u8]
}

/// The bytes before the content-type value.
pub open spec fn ct_header_prefix() -> Seq<u8> {
    seq!['C' as u8, 'o' as u8, 'n' as u8, 't' as u8, 'e' as u8, 'n' as u8, 't' as u8, '-' as u8, 'T' as u8, 'y' as u8, 'p' as u8, 'e' as u8, ':' as u8, ' ' as u8]
}

/// The bytes between the content type and the length value.
pub open spec fn len_header_prefix() -> Seq<u8> {
    seq!['\r' as u8, '\n' as u8, 'C' as u8, 'o' as u8, 'n' as u8, 't' as u8, 'e' as u8, 'n' as u8, 't' as u8, '-' as u8, 'L' as u8, 'e' as u8, 'n' as u8, 'g' as u8, 't' as u8, 'h' as u8, ':' as u8, ' ' as u8]
}

/// The blank line that closes the headers.
pub open spec fn header_end() -> Seq<u8> {
    seq!['\r' as u8, '\n' as u8, '\r' as u8, '\n' as u8]
}

/// The fixed body of a 404 response.
pub open spec fn not_found_body() -> Seq<u8> {
    seq!['<' as u8, 'h' as u8, 't' as u8, 'm' as u8, 'l' as u8, '>' as u8, '<' as u8, 'b' as u8, 'o' as u8, 'd' as u8, 'y' as u8, '>' as u8, '<' as u8, 'h' as u8, '1' as u8, '>' as u8, '4' as u8, '0' as u8, '4' as u8, ' ' as u8, 'N' as u8, 'o' as u8, 't' as u8, ' ' as u8, 'F' as u8, 'o' as u8, 'u' as u8, 'n' as u8, 'd' as u8, '<' as u8, '/' as u8, 'h' as u8, '1' as u8, '>' as u8, '<' as u8, 'p' as u8, '>' as u8, 'T' as u8, 'h' as u8, 'e' as u8, ' ' as u8, 'r' as u8, 'e' as u8, 'q' as u8, 'u' as u8, 'e' as u8, 's' as u8, 't' as u8, 'e' as u8, 'd' as u8, ' ' as u8, 'r' as u8, 'e' as u8, 's' as u8, 'o' as u8, 'u' as u8, 'r' as u8, 'c' as u8, 'e' as u8, ' ' as u8, 'd' as u8, 'o' as u8, 'e' as u8, 's' as u8, ' ' as u8, 'n' as u8, 'o' as u8, 't' as u8, ' ' as u8, 'e' as u8, 'x' as u8, 'i' as u8, 's' as u8, 't' as u8, '.' as u8, '<' as u8, '/' as u8, 'p' as u8, '>' as u8, '<' as u8, '/' as u8, 'b' as u8, 'o' as u8, 'd' as u8, 'y' as u8, '>' as u8, '<' as u8, '/' as u8, 'h' as u8, 't' as u8, 'm' as u8, 'l' as u8, '>' as u8]
}

/// The fixed body of a 500 response.
pub open spec fn error_body() -> Seq<u8> {
    seq!['<' as u8, 'h' as u8, 't' as u8, 'm' as u8, 'l' as u8, '>' as u8, '<' as u8, 'b' as u8, 'o' as u8, 'd' as u8, 'y' as u8, '>' as u8, '<' as u8, 'h' as u8, '1' as u8, '>' as u8, '5' as u8, '0' as u8, '0' as u8, ' ' as u8, 'I' as u8, 'n' as u8, 't' as u8, 'e' as u8, 'r' as u8, 'n' as u8, 'a' as u8, 'l' as u8, ' ' as u8, 'S' as u8, 'e' as u8, 'r' as u8, 'v' as u8, 'e' as u8, 'r' as u8, ' ' as u8, 'E' as u8, 'r' as u8, 'r' as u8, 'o' as u8, 'r' as u8, '<' as u8, '/' as u8, 'h' as u8, '1' as u8, '>' as u8, '<' as u8, 'p' as u8, '>' as u8, 'T' as u8, 'h' as u8, 'e' as u8, ' ' as u8, 's' as u8, 'e' as u8, 'r' as u8, 'v' as u8, 'e' as u8, 'r' as u8, ' ' as u8, 'f' as u8, 'a' as u8, 'i' as u8, 'l' as u8, 'e' as u8, 'd' as u8, ' ' as u8, 't' as u8, 'o' as u8, ' ' as u8, 'r' as u8, 'e' as u8, 'a' as u8, 'd' as u8, ' ' as u8, 't' as u8, 'h' as u8, 'e' as u8, ' ' as u8, 'r' as u8, 'e' as u8, 'q' as u8, 'u' as u8, 'e' as u8, 's' as u8, 't' as u8, 'e' as u8, 'd' as u8, ' ' as u8, 'r' as u8, 'e' as u8, 's' as u8, 'o' as u8, 'u' as u8, 'r' as u8, 'c' as u8, 'e' as u8, '.' as u8, '<' as u8, '/' as u8, 'p' as u8, '>' as u8, '<' as u8, '/' as u8, 'b' as u8, 'o' as u8, 'd' as u8, 'y' as u8, '>' as u8, '<' as u8, '/' as u8, 'h' as u8, 't' as u8, 'm' as u8, 'l' as u8, '>' as u8]
}

fn line_success_vec() -> (v: Vec<u8>)
    ensures
        v@ == line_success(),
{
    let v: Vec<u8> = vec!['H' as u8, 'T' as u8, 'T' as u8, 'P' as u8, '/' as u8, '1' as u8, '.' as u8, '1' as u8, ' ' as u8, '2' as u8, '0' as u8, '0' as u8, ' ' as u8, 'O' as u8, 'K' as u8, '\r' as u8, '\n' as u8];
    proof {
        assert(v@ =~= line_success());
    }
    v
}

fn line_not_found_vec() -> (v: Vec<u8>)
    ensures
        v@ == line_not_found(),
{
    let v: Vec<u8> = vec!['H' as u8, 'T' as u8, 'T' as u8, 'P' as u8, '/' as u8, '1' as u8, '.' as u8, '1' as u8, ' ' as u8, '4' as u8, '0' as u8, '4' as u8, ' ' as u8, 'N' as u8, 'o' as u8, 't' as u8, ' ' as u8, 'F' as u8, 'o' as u8, 'u' as u8, 'n' as u8, 'd' as u8, '\r' as u8, '\n' as u8];
    proof {
        assert(v@ =~= line_not_found());
    }
    v
}

fn line_internal_error_vec() -> (v: Vec<u8>)
    ensures
        v@ == line_internal_error(),
{
    let v: Vec<u8> = vec!['H' as u8, 'T' as u8, 'T' as u8, 'P' as u8, '/' as u8, '1' as u8, '.' as u8, '1' as u8, ' ' as u8, '5' as u8, '0' as u8, '0' as u8, ' ' as u8, 'I' as u8, 'n' as u8, 't' as u8, 'e' as u8, 'r' as u8, 'n' as u8, 'a' as u8, 'l' as u8, ' ' as u8, 'S' as u8, 'e' as u8, 'r' as u8, 'v' as u8, 'e' as u8, 'r' as u8, ' ' as u8, 'E' as u8, 'r' as u8, 'r' as u8, 'o' as u8, 'r' as u8, '\r' as u8, '\n' as u8];
    proof {
        assert(v@ =~= line_internal_error());
    }
    v
}

fn ct_header_prefix_vec() -> (v: Vec<u8>)
    ensures
        v@ == ct_header_prefix(),
{
    let v: Vec<u8> = vec!['C' as u8, 'o' as u8, 'n' as u8, 't' as u8, 'e' as u8, 'n' as u8, 't' as u8, '-' as u8, 'T' as u8, 'y' as u8, 'p' as u8, 'e' as u8, ':' as u8, ' ' as u8];
    proof {
        assert(v@ =~= ct_header_prefix());
    }
    v
}

fn len_header_prefix_vec() -> (v: Vec<u8>)
    ensures
        v@ == len_header_prefix(),
{
    let v: Vec<u8> = vec!['\r' as u8, '\n' as u8, 'C' as u8, 'o' as u8, 'n' as u8, 't' as u8, 'e' as u8, 'n' as u8, 't' as u8, '-' as u8, 'L' as u8, 'e' as u8, 'n' as u8, 'g' as u8, 't' as u8, 'h' as u8, ':' as u8, ' ' as u8];
    proof {
        assert(v@ =~= len_header_prefix());
    }
    v
}

fn header_end_vec() -> (v: Vec<u8>)
    ensures
        v@ == header_end(),
{
    let v: Vec<u8> = vec!['\r' as u8, '\n' as u8, '\r' as u8, '\n' as u8];
    proof {
        assert(v@ =~= header_end());
    }
    v
}

fn not_found_body_vec() -> (v: Vec<u8>)
    ensures
        v@ == not_found_body(),
{
    let v: Vec<u8> = vec!['<' as u8, 'h' as u8, 't' as u8, 'm' as u8, 'l' as u8, '>' as u8, '<' as u8, 'b' as u8, 'o' as u8, 'd' as u8, 'y' as u8, '>' as u8, '<' as u8, 'h' as u8, '1' as u8, '>' as u8, '4' as u8, '0' as u8, '4' as u8, ' ' as u8, 'N' as u8, 'o' as u8, 't' as u8, ' ' as u8, 'F' as u8, 'o' as u8, 'u' as u8, 'n' as u8, 'd' as u8, '<' as u8, '/' as u8, 'h' as u8, '1' as u8, '>' as u8, '<' as u8, 'p' as u8, '>' as u8, 'T' as u8, 'h' as u8, 'e' as u8, ' ' as u8, 'r' as u8, 'e' as u8, 'q' as u8, 'u' as u8, 'e' as u8, 's' as u8, 't' as u8, 'e' as u8, 'd' as u8, ' ' as u8, 'r' as u8, 'e' as u8, 's' as u8, 'o' as u8, 'u' as u8, 'r' as u8, 'c' as u8, 'e' as u8, ' ' as u8, 'd' as u8, 'o' as u8, 'e' as u8, 's' as u8, ' ' as u8, 'n' as u8, 'o' as u8, 't' as u8, ' ' as u8, 'e' as u8, 'x' as u8, 'i' as u8, 's' as u8, 't' as u8, '.' as u8, '<' as u8, '/' as u8, 'p' as u8, '>' as u8, '<' as u8, '/' as u8, 'b' as u8, 'o' as u8, 'd' as u8, 'y' as u8, '>' as u8, '<' as u8, '/' as u8, 'h' as u8, 't' as u8, 'm' as u8, 'l' as u8, '>' as u8];
    proof {
        assert(v@ =~= not_found_body());
    }
    v
}

fn error_body_vec() -> (v: Vec<u8>)
    ensures
        v@ == error_body(),
{
    let v: Vec<u8> = vec!['<' as u8, 'h' as u8, 't' as u8, 'm' as u8, 'l' as u8, '>' as u8, '<' as u8, 'b' as u8, 'o' as u8, 'd' as u8, 'y' as u8, '>' as u8, '<' as u8, 'h' as u8, '1' as u8, '>' as u8, '5' as u8, '0' as u8, '0' as u8, ' ' as u8, 'I' as u8, 'n' as u8, 't' as u8, 'e' as u8, 'r' as u8, 'n' as u8, 'a' as u8, 'l' as u8, ' ' as u8, 'S' as u8, 'e' as u8, 'r' as u8, 'v' as u8, 'e' as u8, 'r' as u8, ' ' as u8, 'E' as u8, 'r' as u8, 'r' as u8, 'o' as u8, 'r' as u8, '<' as u8, '/' as u8, 'h' as u8, '1' as u8, '>' as u8, '<' as u8, 'p' as u8, '>' as u8, 'T' as u8, 'h' as u8, 'e' as u8, ' ' as u8, 's' as u8, 'e' as u8, 'r' as u8, 'v' as u8, 'e' as u8, 'r' as u8, ' ' as u8, 'f' as u8, 'a' as u8, 'i' as u8, 'l' as u8, 'e' as u8, 'd' as u8, ' ' as u8, 't' as u8, 'o' as u8, ' ' as u8, 'r' as u8, 'e' as u8, 'a' as u8, 'd' as u8, ' ' as u8, 't' as u8, 'h' as u8, 'e' as u8, ' ' as u8, 'r' as u8, 'e' as u8, 'q' as u8, 'u' as u8, 'e' as u8, 's' as u8, 't' as u8, 'e' as u8, 'd' as u8, ' ' as u8, 'r' as u8, 'e' as u8, 's' as u8, 'o' as u8, 'u' as u8, 'r' as u8, 'c' as u8, 'e' as u8, '.' as u8, '<' as u8, '/' as u8, 'p' as u8, '>' as u8, '<' as u8, '/' as u8, 'b' as u8, 'o' as u8, 'd' as u8, 'y' as u8, '>' as u8, '<' as u8, '/' as u8, 'h' as u8, 't' as u8, 'm' as u8, 'l' as u8, '>' as u8];
    proof {
        assert(v@ =~= error_body());
    }
    v
}


/// The status line of a response.
pub open spec fn status_line(s: Status) -> Seq<u8> {
    match s {
        Status::Success => line_success(),
        Status::NotFound => line_not_found(),
        Status::InternalError => line_internal_error(),
    }
}

/// The serialized form of a response: status line, content type, the
/// exact byte length of the body as `Content-Length`, a blank line,
/// and the body.
pub open spec fn http_message(status: Status, ct: Seq<u8>, body: Seq<u8>) -> Seq<u8> {
    status_line(status) + ct_header_prefix() + ct + len_header_prefix() + dec_bytes(body.len())
        + header_end() + body
}

/// The fixed 404 response: HTML stating the resource does not exist.
pub open spec fn is_not_found_response(r: Response) -> bool {
    &&& r.status is NotFound
    &&& r.content_type@ == mime_html()
    &&& r.body@ == not_found_body()
}

/// The fixed 500 response: HTML stating the read failed.
pub open spec fn is_error_response(r: Response) -> bool {
    &&& r.status is InternalError
    &&& r.content_type@ == mime_html()
    &&& r.body@ == error_body()
}

/// Builds the fixed 404 response.
pub fn not_found_response() -> (r: Response)
    ensures
        is_not_found_response(r),
{
    Response {
        status: Status::NotFound,
        content_type: crate::content_type::mime_html_vec(),
        body: not_found_body_vec(),
    }
}

/// Builds the fixed 500 response.
pub fn internal_error_response() -> (r: Response)
    ensures
        is_error_response(r),
{
    Response {
        status: Status::InternalError,
        content_type: crate::content_type::mime_html_vec(),
        body: error_body_vec(),
    }
}

/// Builds the response for a resolution outcome. For a file target the
/// caller passes the bytes it read, or `None` when the read failed,
/// which yields the fixed 500 response. A directory-listing fallback
/// is served exactly as not-found.
pub fn build_response(target: &ResolvedTarget, file_content: Option<Vec<u8>>) -> (r: Response)
    ensures
        match target {
            ResolvedTarget::File(p) => match file_content {
                Some(b) => r.status is Success && r.content_type@ == content_type_of(p@)
                    && r.body@ == b@,
                None => is_error_response(r),
            },
            _ => is_not_found_response(r),
        },
{
    match target {
        ResolvedTarget::File(p) => match file_content {
            Some(b) => Response { status: Status::Success, content_type: get_content_type(p), body: b },
            None => internal_error_response(),
        },
        _ => not_found_response(),
    }
}

/// Serializes a response. The `Content-Length` header always holds the
/// exact byte length of the body that follows the blank line.
pub fn response_bytes(r: &Response) -> (out: Vec<u8>)
    ensures
        out@ == http_message(r.status, r.content_type@, r.body@),
{
    let mut out: Vec<u8> = Vec::new();
    let sl = match r.status {
        Status::Success => line_success_vec(),
        Status::NotFound => line_not_found_vec(),
        Status::InternalError => line_internal_error_vec(),
    };
    out.extend_from_slice(sl.as_slice());
    let ctp = ct_header_prefix_vec();
    out.extend_from_slice(ctp.as_slice());
    out.extend_from_slice(r.content_type.as_slice());
    let lp = len_header_prefix_vec();
    out.extend_from_slice(lp.as_slice());
    let n = u64_to_dec(r.body.len() as u64);
    out.extend_from_slice(n.as_slice());
    let he = header_end_vec();
    out.extend_from_slice(he.as_slice());
    out.extend_from_slice(r.body.as_slice());
    proof {
        assert(out@ =~= http_message(r.status, r.content_type@, r.body@));
    }
    out
}

} // verus!
