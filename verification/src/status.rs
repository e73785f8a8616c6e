//! The closed set of outcomes a request can have, each with its fixed status.

use vstd::prelude::*;
use crate::bytes::{decimal, text, SP};

verus! {

/// The protocol version every response announces.
pub const HTTP_VERSION: &'static str = "HTTP/1.1";

/// How a request was resolved. The kind alone decides the status line.
#[derive(Clone, Copy, Debug, PartialEq, Eq, Structural)]
pub enum ResponseKind {
    Success,
    TemporaryRedirect,
    PermanentRedirect,
    BadRequest,
    RequestTargetTooLong,
    NotFound,
}

impl ResponseKind {
    /// The numeric status code.
    pub open spec fn code(self) -> nat {
        match self {
            ResponseKind::Success => 200,
            ResponseKind::TemporaryRedirect => 307,
            ResponseKind::PermanentRedirect => 307,
            ResponseKind::BadRequest => 400,
            ResponseKind::RequestTargetTooLong => 414,
            ResponseKind::NotFound => 404,
        }
    }

    /// The reason phrase that follows the code.
    pub open spec fn reason(self) -> &'static str {
        match self {
            ResponseKind::Success => "OK",
            ResponseKind::TemporaryRedirect => "TEMPORARY REDIRECT",
            ResponseKind::PermanentRedirect => "PERMANENT REDIRECT",
            ResponseKind::BadRequest => "BAD REQUEST",
            ResponseKind::RequestTargetTooLong => "REQUEST-URI TOO LONG",
            ResponseKind::NotFound => "NOT FOUND",
        }
    }

    /// Code and reason as one piece of text, such as `404 NOT FOUND`.
    pub open spec fn status(self) -> &'static str {
        match self {
            ResponseKind::Success => "200 OK",
            ResponseKind::TemporaryRedirect => "307 TEMPORARY REDIRECT",
            ResponseKind::PermanentRedirect => "307 PERMANENT REDIRECT",
            ResponseKind::BadRequest => "400 BAD REQUEST",
            ResponseKind::RequestTargetTooLong => "414 REQUEST-URI TOO LONG",
            ResponseKind::NotFound => "404 NOT FOUND",
        }
    }

    /// Whether the kind is one of the two redirects.
    pub open spec fn is_redirect(self) -> bool {
        self == ResponseKind::TemporaryRedirect || self == ResponseKind::PermanentRedirect
    }

    /// The numeric status code.
    pub fn status_code(self) -> (c: u16)
        ensures
            c == self.code(),
    {
        match self {
            ResponseKind::Success => 200,
            ResponseKind::TemporaryRedirect => 307,
            ResponseKind::PermanentRedirect => 307,
            ResponseKind::BadRequest => 400,
            ResponseKind::RequestTargetTooLong => 414,
            ResponseKind::NotFound => 404,
        }
    }

    /// Code and reason as one piece of text.
    pub fn status_text(self) -> (s: &'static str)
        ensures
            s@ == self.status()@,
            text(s) == text(self.status()),
    {
        match self {
            ResponseKind::Success => "200 OK",
            ResponseKind::TemporaryRedirect => "307 TEMPORARY REDIRECT",
            ResponseKind::PermanentRedirect => "307 PERMANENT REDIRECT",
            ResponseKind::BadRequest => "400 BAD REQUEST",
            ResponseKind::RequestTargetTooLong => "414 REQUEST-URI TOO LONG",
            ResponseKind::NotFound => "404 NOT FOUND",
        }
    }
}

/// The redirect kind that the cache setting selects: answers that clients may
/// cache are permanent redirects, the others temporary ones.
pub open spec fn redirect_kind(allow_client_cache: bool) -> ResponseKind {
    if allow_client_cache {
        ResponseKind::PermanentRedirect
    } else {
        ResponseKind::TemporaryRedirect
    }
}

/// Picks the redirect kind for the cache setting.
pub fn choose_redirect(allow_client_cache: bool) -> (kind: ResponseKind)
    ensures
        kind == redirect_kind(allow_client_cache),
{
    if allow_client_cache {
        ResponseKind::PermanentRedirect
    } else {
        ResponseKind::TemporaryRedirect
    }
}

/// The status text is the code in decimal, a space, and the reason phrase.
pub proof fn lemma_status_is_code_and_reason(kind: ResponseKind)
    ensures
        text(kind.status()) == decimal(kind.code()) + seq![SP] + text(kind.reason()),
{
    reveal_strlit("200 OK");
    reveal_strlit("307 TEMPORARY REDIRECT");
    reveal_strlit("307 PERMANENT REDIRECT");
    reveal_strlit("400 BAD REQUEST");
    reveal_strlit("414 REQUEST-URI TOO LONG");
    reveal_strlit("404 NOT FOUND");
    reveal_strlit("OK");
    reveal_strlit("TEMPORARY REDIRECT");
    reveal_strlit("PERMANENT REDIRECT");
    reveal_strlit("BAD REQUEST");
    reveal_strlit("REQUEST-URI TOO LONG");
    reveal_strlit("NOT FOUND");
    vstd::string::is_ascii_spec_bytes(kind.status());
    vstd::string::is_ascii_spec_bytes(kind.reason());
    reveal_with_fuel(decimal, 3);
    assert(text(kind.status()) =~= decimal(kind.code()) + seq![SP] + text(kind.reason()));
}

} // verus!
