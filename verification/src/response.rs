//! Responses and their wire format: status line, header lines, the length of
//! the body, a blank line, the body.

use vstd::prelude::*;
use crate::bytes::{append, crlf, decimal, push_decimal, text, CR, LF, SP};
use crate::status::{ResponseKind, HTTP_VERSION};
use crate::table::Table;

verus! {

/// The headers of one response: a mapping from header name to value, written
/// out in the order in which the names were first inserted.
pub type HeaderSet = Table;

/// One response before it is written out.
#[derive(Debug, PartialEq, Eq)]
pub struct Response {
    pub kind: ResponseKind,
    pub headers: HeaderSet,
    /// The body; without one, the status text stands in for it.
    pub body: Option<Vec<u8>>,
}

/// What a response holds, as mathematical values.
pub struct ResponseView {
    pub kind: ResponseKind,
    pub headers: Seq<(Seq<u8>, Seq<u8>)>,
    pub body: Option<Seq<u8>>,
}

/// `HTTP/1.1`, the status text and a line terminator.
pub open spec fn status_line(kind: ResponseKind) -> Seq<u8> {
    text(HTTP_VERSION) + seq![SP] + text(kind.status()) + crlf()
}

/// One header as `Name: Value` and a line terminator.
pub open spec fn header_line(header: (Seq<u8>, Seq<u8>)) -> Seq<u8> {
    header.0 + text(": ") + header.1 + crlf()
}

/// The header lines one after the other.
pub open spec fn header_block(headers: Seq<(Seq<u8>, Seq<u8>)>) -> Seq<u8>
    decreases headers.len(),
{
    if headers.len() == 0 {
        Seq::empty()
    } else {
        header_block(headers.drop_last()) + header_line(headers.last())
    }
}

/// The `Content-Length` header for a body of `n` bytes, and the blank line
/// that ends the head of the response.
pub open spec fn length_line(n: nat) -> Seq<u8> {
    text("Content-Length: ") + decimal(n) + crlf() + crlf()
}

impl ResponseView {
    /// A response of the given kind without headers and without a body of its own.
    pub open spec fn bare(kind: ResponseKind) -> ResponseView {
        ResponseView { kind, headers: Seq::empty(), body: None }
    }

    /// The bytes sent as the body: the body itself, or the status text where
    /// the response has none.
    pub open spec fn content(self) -> Seq<u8> {
        match self.body {
            Some(body) => body,
            None => text(self.kind.status()),
        }
    }

    /// The response on the wire.
    pub open spec fn wire(self) -> Seq<u8> {
        status_line(self.kind) + header_block(self.headers) + length_line(self.content().len())
            + self.content()
    }
}

impl View for Response {
    type V = ResponseView;

    open spec fn view(&self) -> ResponseView {
        ResponseView {
            kind: self.kind,
            headers: self.headers@,
            body: match self.body {
                Some(body) => Some(body@),
                None => None,
            },
        }
    }
}

fn push_line_end(out: &mut Vec<u8>)
    ensures
        final(out)@ == old(out)@ + crlf(),
{
    out.push(CR);
    out.push(LF);
    assert(final(out)@ =~= old(out)@ + crlf());
}

fn push_status_line(out: &mut Vec<u8>, kind: ResponseKind)
    ensures
        final(out)@ == old(out)@ + status_line(kind),
{
    append(out, HTTP_VERSION.as_bytes());
    out.push(SP);
    append(out, kind.status_text().as_bytes());
    push_line_end(out);
    assert(final(out)@ =~= old(out)@ + status_line(kind));
}

fn push_header_line(out: &mut Vec<u8>, name: &[u8], value: &[u8])
    ensures
        final(out)@ == old(out)@ + header_line((name@, value@)),
{
    append(out, name);
    append(out, ": ".as_bytes());
    append(out, value);
    push_line_end(out);
    assert(final(out)@ =~= old(out)@ + header_line((name@, value@)));
}

fn push_length_line(out: &mut Vec<u8>, n: usize)
    ensures
        final(out)@ == old(out)@ + length_line(n as nat),
{
    append(out, "Content-Length: ".as_bytes());
    push_decimal(out, n);
    push_line_end(out);
    push_line_end(out);
    assert(final(out)@ =~= old(out)@ + length_line(n as nat));
}

impl Response {
    /// A response of the given kind without headers and without a body of its own.
    pub fn bare(kind: ResponseKind) -> (r: Response)
        ensures
            r@ == ResponseView::bare(kind),
            r.headers.wf(),
    {
        Response { kind, headers: Table::new(), body: None }
    }

    /// Serialises the response: the status line, each header, the length of
    /// the body, a blank line, and the body with nothing after it.
    pub fn to_bytes(&self) -> (out: Vec<u8>)
        ensures
            out@ == self@.wire(),
    {
        let mut out: Vec<u8> = Vec::new();
        push_status_line(&mut out, self.kind);
        let n: usize = self.headers.len();
        let mut i: usize = 0;
        assert(self.headers@.subrange(0, 0) =~= Seq::<(Seq<u8>, Seq<u8>)>::empty());
        while i < n
            invariant
                n == self.headers@.len(),
                i <= n,
                out@ == status_line(self.kind) + header_block(self.headers@.subrange(0, i as int)),
            decreases n - i,
        {
            let entry = self.headers.entry(i);
            let ghost before = out@;
            push_header_line(&mut out, entry.key.as_slice(), entry.value.as_slice());
            proof {
                let upto = self.headers@.subrange(0, i + 1);
                assert(upto.drop_last() =~= self.headers@.subrange(0, i as int));
                assert(upto.last() == self.headers@[i as int]);
                assert(out@ =~= status_line(self.kind) + header_block(upto));
            }
            i += 1;
        }
        assert(self.headers@.subrange(0, n as int) =~= self.headers@);
        match &self.body {
            Some(body) => {
                push_length_line(&mut out, body.len());
                append(&mut out, body.as_slice());
            },
            None => {
                let status = self.kind.status_text().as_bytes();
                push_length_line(&mut out, status.len());
                append(&mut out, status);
            },
        }
        out
    }
}

} // verus!
