//! The wire parser: turns the first line and the header lines read off a
//! connection into a structured request head, and assembles the final
//! request once the body bytes are in.
//!
//! The application owns the socket: it reads one line at a time (a read
//! failure or timeout abandons the connection) and stops at the first blank
//! line. Everything the lines mean is decided here: how the request line
//! splits into method and path, which header declares the body length and
//! what that declaration is worth, and how the header block is joined back
//! together for the handler.

use crate::text::{
    bytes_of, has_prefix_lower, lit_bytes, lower_eq_prefix, parse_usize_or_zero, push_all,
    token_end, trim_crlf, trim_ws, trimmed_crlf, trimmed_ws, usize_or_zero, ws_end,
};
use vstd::prelude::*;

verus! {

/// The structured head of one request: everything known before the body is
/// read.
pub struct RequestHead {
    pub method: Vec<u8>,
    pub path: Vec<u8>,
    pub headers: Vec<u8>,
    pub content_length: usize,
}

/// A request of the textual call variant.
pub struct Request {
    pub method: Vec<u8>,
    pub path: Vec<u8>,
    pub body: Vec<u8>,
}

/// A request of the binary call variant. When the payload guard fired,
/// `body_too_large` is set and the body was never read off the wire.
pub struct RequestV2 {
    pub method: Vec<u8>,
    pub path: Vec<u8>,
    pub headers: Vec<u8>,
    pub body: Vec<u8>,
    pub body_too_large: bool,
}

impl RequestV2 {
    /// An oversized request carries no body bytes.
    pub open spec fn wf(&self) -> bool {
        self.body_too_large ==> self.body@.len() == 0
    }
}

/// The method token of a request line: its first whitespace-separated token.
pub open spec fn method_of(line: Seq<u8>) -> Seq<u8> {
    line.subrange(ws_end(line, 0), token_end(line, ws_end(line, 0)))
}

/// The second token of a request line, possibly empty.
pub open spec fn raw_path_of(line: Seq<u8>) -> Seq<u8> {
    let b = token_end(line, ws_end(line, 0));
    let c = ws_end(line, b);
    line.subrange(c, token_end(line, c))
}

/// The path of a request line: its second token, defaulting to `/` when the
/// line has no second token.
pub open spec fn path_of(line: Seq<u8>) -> Seq<u8> {
    if raw_path_of(line).len() == 0 {
        seq![47u8]
    } else {
        raw_path_of(line)
    }
}

/// The header name that declares the body length, as the lower-case
/// pattern the case-insensitive matching compares against.
pub open spec fn cl_name() -> Seq<u8> {
    bytes_of("content-length:"@)
}

/// Whether a trimmed header line declares the body length. The name is
/// matched case-insensitively; the case of every header is otherwise
/// preserved.
pub open spec fn names_content_length(line: Seq<u8>) -> bool {
    lower_eq_prefix(line, cl_name())
}

/// The value part of a header line, after the given name.
pub open spec fn header_value(line: Seq<u8>, name: Seq<u8>) -> Seq<u8> {
    line.subrange(name.len() as int, line.len() as int)
}

/// What one declaring line contributes: its value, trimmed, read as a
/// number, with malformed or out-of-range values collapsing to zero.
pub open spec fn content_length_of_line(line: Seq<u8>) -> int {
    usize_or_zero(trimmed_ws(header_value(line, cl_name())))
}

/// The declared body length of a header block: zero when no line declares
/// one, otherwise the value of the last declaring line.
pub open spec fn declared_content_length(lines: Seq<Seq<u8>>) -> int
    decreases lines.len(),
{
    if lines.len() == 0 {
        0
    } else if names_content_length(trimmed_crlf(lines.last())) {
        content_length_of_line(trimmed_crlf(lines.last()))
    } else {
        declared_content_length(lines.drop_last())
    }
}

/// The header block as the handler sees it: each line trimmed of trailing
/// CR/LF, in original order, joined with a single LF.
pub open spec fn joined_headers(lines: Seq<Seq<u8>>) -> Seq<u8>
    decreases lines.len(),
{
    if lines.len() == 0 {
        Seq::empty()
    } else if lines.len() == 1 {
        trimmed_crlf(lines[0])
    } else {
        joined_headers(lines.drop_last()) + seq![10u8] + trimmed_crlf(lines.last())
    }
}

/// Whether a raw line, trimmed of trailing CR/LF, is blank. The
/// application's read loop stops collecting header lines at the first blank
/// line.
pub fn line_ends_head(line: &Vec<u8>) -> (r: bool)
    ensures
        r == (trimmed_crlf(line@).len() == 0),
{
    let t = trim_crlf(line);
    t.len() == 0
}

/// Parses the head of one request from the raw request line and the raw
/// header lines collected before the first blank line.
///
/// Returns `None` exactly when the request line has no method token — the
/// graceful no-request outcome for a peer that closed immediately or sent
/// nothing usable. Otherwise the head carries the method, the path (`/`
/// when absent), the trimmed and rejoined header block, and the declared
/// body length.
pub fn parse_head(request_line: &Vec<u8>, header_lines: &Vec<Vec<u8>>) -> (r: Option<
    RequestHead,
>)
    ensures
        match r {
            None => method_of(request_line@).len() == 0,
            Some(h) => {
                &&& method_of(request_line@).len() > 0
                &&& h.method@ == method_of(request_line@)
                &&& h.path@ == path_of(request_line@)
                &&& h.headers@ == joined_headers(header_lines.deep_view())
                &&& h.content_length as int == declared_content_length(header_lines.deep_view())
            },
        },
{
    let a = crate::text::skip_ws_from(request_line, 0);
    let b = crate::text::token_end_from(request_line, a);
    if a == b {
        return None;
    }
    let method = crate::text::copy_range(request_line, a, b);
    let c = crate::text::skip_ws_from(request_line, b);
    let d = crate::text::token_end_from(request_line, c);
    let path = if c == d {
        let mut p: Vec<u8> = Vec::new();
        p.push(47);
        proof {
            assert(p@ =~= seq![47u8]);
        }
        p
    } else {
        crate::text::copy_range(request_line, c, d)
    };

    proof {
        reveal_strlit("content-length:");
    }
    let name = lit_bytes("content-length:");

    let ghost lines = header_lines.deep_view();
    let mut headers: Vec<u8> = Vec::new();
    let mut content_length: usize = 0;
    let mut i: usize = 0;
    while i < header_lines.len()
        invariant
            i <= header_lines.len(),
            lines == header_lines.deep_view(),
            lines.len() == header_lines@.len(),
            name@ == cl_name(),
            headers@ == joined_headers(lines.subrange(0, i as int)),
            content_length as int == declared_content_length(lines.subrange(0, i as int)),
        decreases header_lines.len() - i,
    {
        proof {
            assert(lines[i as int] == header_lines@[i as int]@);
        }
        let t = trim_crlf(&header_lines[i]);
        if i > 0 {
            headers.push(10);
        }
        push_all(&mut headers, &t);
        if has_prefix_lower(&t, &name) {
            let value = crate::text::copy_range(&t, name.len(), t.len());
            proof {
                assert(value@ =~= header_value(t@, cl_name()));
            }
            let trimmed_value = trim_ws(&value);
            content_length = parse_usize_or_zero(&trimmed_value);
        }
        proof {
            let prev = lines.subrange(0, i as int);
            let next = lines.subrange(0, i + 1);
            assert(next.drop_last() =~= prev);
            assert(next.last() == lines[i as int]);
            if i == 0 {
                assert(headers@ =~= joined_headers(next));
            } else {
                assert(headers@ =~= joined_headers(prev) + seq![10u8] + trimmed_crlf(
                    lines[i as int],
                ));
            }
        }
        i = i + 1;
    }
    proof {
        assert(lines.subrange(0, lines.len() as int) =~= lines);
    }
    Some(RequestHead { method, path, headers, content_length })
}

/// Assembles a textual-variant request once exactly the declared number of
/// body bytes has been read: the body is carried through unchanged.
pub fn finish_request(head: RequestHead, body: Vec<u8>) -> (r: Request)
    requires
        body@.len() == head.content_length,
    ensures
        r.method@ == head.method@,
        r.path@ == head.path@,
        r.body@ == body@,
{
    Request { method: head.method, path: head.path, body }
}

/// Assembles a binary-variant request once exactly the declared number of
/// body bytes has been read: the body is carried through unchanged.
pub fn finish_request_v2(head: RequestHead, body: Vec<u8>) -> (r: RequestV2)
    requires
        body@.len() == head.content_length,
    ensures
        r.wf(),
        !r.body_too_large,
        r.method@ == head.method@,
        r.path@ == head.path@,
        r.headers@ == head.headers@,
        r.body@ == body@,
{
    RequestV2 {
        method: head.method,
        path: head.path,
        headers: head.headers,
        body,
        body_too_large: false,
    }
}

/// Marks a request oversized: the guard fired, so the body stays empty and
/// must never be read off the wire.
pub fn oversize_request(head: RequestHead) -> (r: RequestV2)
    ensures
        r.wf(),
        r.body_too_large,
        r.body@.len() == 0,
        r.method@ == head.method@,
        r.path@ == head.path@,
        r.headers@ == head.headers@,
{
    RequestV2 {
        method: head.method,
        path: head.path,
        headers: head.headers,
        body: Vec::new(),
        body_too_large: true,
    }
}

} // verus!
