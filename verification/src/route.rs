//! Routing: from a request target and what the store holds for its token to
//! the response.

use vstd::prelude::*;
use vstd::slice::slice_to_vec;
use crate::bytes::{replace_all, same, substitute, text};
use crate::request::{parse_head, parse_request, token, token_of};
use crate::response::{Response, ResponseView};
use crate::status::{choose_redirect, redirect_kind, ResponseKind};
use crate::store::{destination, Store};
use crate::table::Table;

verus! {

/// The placeholder that a page template holds where the token belongs.
pub const TOKEN_MARK: &'static str = "REDIRECTION_TOKEN";

/// The placeholder that the redirect page holds where the destination belongs.
pub const LINK_MARK: &'static str = "REDIRECTION_LINK";

/// Name of the header that carries the destination of a redirect.
pub const LOCATION: &'static str = "Location";

/// The root path, which serves the index page.
pub const ROOT_PATH: &'static str = "/";

/// The other path of the index page.
pub const INDEX_PATH: &'static str = "/index.html";

/// The path of the style sheet.
pub const STYLE_PATH: &'static str = "/style.css";

/// By default clients may cache redirects.
pub const LET_CLIENTS_CACHE: bool = true;

/// By default the request line may have any length: zero stands for no limit.
pub const MAX_HTTP_REQUEST_LEN: usize = 0;

/// The texts the server answers with. The two templates hold placeholders.
#[derive(Debug, PartialEq, Eq)]
pub struct Pages {
    /// Template of the page for an unknown token.
    pub not_found: Vec<u8>,
    /// Template of the page that accompanies a redirect.
    pub redirect: Vec<u8>,
    pub index: Vec<u8>,
    pub style_sheet: Vec<u8>,
}

/// What the server is configured with.
#[derive(Debug, PartialEq, Eq)]
pub struct Site {
    pub pages: Pages,
    /// Whether redirects are answered as permanent, so that clients may cache them.
    pub allow_client_cache: bool,
    /// Cap on the bytes read for the request line; zero means no cap.
    pub max_request_len: usize,
}

/// The redirect page for `token` and its destination `link`: the token is
/// filled in first, the destination after it.
pub open spec fn redirect_page(template: Seq<u8>, token: Seq<u8>, link: Seq<u8>) -> Seq<u8> {
    replace_all(replace_all(template, text(TOKEN_MARK), token), text(LINK_MARK), link)
}

/// The page that tells that `token` is unknown.
pub open spec fn not_found_page(template: Seq<u8>, token: Seq<u8>) -> Seq<u8> {
    replace_all(template, text(TOKEN_MARK), token)
}

/// The response to a `GET` for `target`, where `found` is what the store holds
/// for the token of the target. A stored destination always wins; the static
/// paths are served only where the store holds nothing.
pub open spec fn route_spec(site: Site, target: Seq<u8>, found: Option<Seq<u8>>) -> ResponseView {
    match found {
        Some(link) => ResponseView {
            kind: redirect_kind(site.allow_client_cache),
            headers: seq![(text(LOCATION), link)],
            body: Some(redirect_page(site.pages.redirect@, token_of(target), link)),
        },
        None => if target == text(ROOT_PATH) || target == text(INDEX_PATH) {
            ResponseView {
                kind: ResponseKind::Success,
                headers: Seq::empty(),
                body: Some(site.pages.index@),
            }
        } else if target == text(STYLE_PATH) {
            ResponseView {
                kind: ResponseKind::Success,
                headers: Seq::empty(),
                body: Some(site.pages.style_sheet@),
            }
        } else {
            ResponseView {
                kind: ResponseKind::NotFound,
                headers: Seq::empty(),
                body: Some(not_found_page(site.pages.not_found@, token_of(target))),
            }
        },
    }
}

/// The response to what was read off a connection, given the links of the store.
pub open spec fn respond_spec(links: Map<Seq<u8>, Seq<u8>>, site: Site, head: Seq<u8>)
    -> ResponseView {
    match parse_head(head) {
        Err(kind) => ResponseView::bare(kind),
        Ok(request) => route_spec(
            site,
            request.target,
            destination(links, token_of(request.target)),
        ),
    }
}

/// The token whose redirect answers `head`, if a redirect does.
pub open spec fn served_token(links: Map<Seq<u8>, Seq<u8>>, head: Seq<u8>) -> Option<Seq<u8>> {
    match parse_head(head) {
        Err(_) => None,
        Ok(request) => if links.dom().contains(token_of(request.target)) {
            Some(token_of(request.target))
        } else {
            None
        },
    }
}

/// The view of an optional, borrowed byte string.
pub open spec fn optional_bytes(bytes: Option<&Vec<u8>>) -> Option<Seq<u8>> {
    match bytes {
        Some(b) => Some(b@),
        None => None,
    }
}

/// The view of an optional byte string.
pub open spec fn optional_text(bytes: Option<Vec<u8>>) -> Option<Seq<u8>> {
    match bytes {
        Some(b) => Some(b@),
        None => None,
    }
}

/// A response and, for a redirect, the token that was asked for.
#[derive(Debug, PartialEq, Eq)]
pub struct Answer {
    pub response: Response,
    /// The token of a redirect, for the log; `None` for every other response.
    pub served: Option<Vec<u8>>,
}

/// Routes a `GET` for `target`, where `found` is what the store holds for the
/// token of the target.
pub fn route(site: &Site, target: &[u8], found: Option<&Vec<u8>>) -> (r: Response)
    ensures
        r@ == route_spec(*site, target@, optional_bytes(found)),
        r.headers.wf(),
{
    match found {
        Some(link) => {
            let name = token(target);
            let with_token = substitute(site.pages.redirect.as_slice(), TOKEN_MARK.as_bytes(), name);
            let page = substitute(with_token.as_slice(), LINK_MARK.as_bytes(), link.as_slice());
            let mut headers = Table::new();
            headers.insert(slice_to_vec(LOCATION.as_bytes()), link.clone());
            assert(headers@ =~= seq![(text(LOCATION), link@)]);
            Response { kind: choose_redirect(site.allow_client_cache), headers, body: Some(page) }
        },
        None => {
            if same(target, ROOT_PATH.as_bytes()) || same(target, INDEX_PATH.as_bytes()) {
                Response {
                    kind: ResponseKind::Success,
                    headers: Table::new(),
                    body: Some(site.pages.index.clone()),
                }
            } else if same(target, STYLE_PATH.as_bytes()) {
                Response {
                    kind: ResponseKind::Success,
                    headers: Table::new(),
                    body: Some(site.pages.style_sheet.clone()),
                }
            } else {
                let page = substitute(
                    site.pages.not_found.as_slice(),
                    TOKEN_MARK.as_bytes(),
                    token(target),
                );
                Response { kind: ResponseKind::NotFound, headers: Table::new(), body: Some(page) }
            }
        },
    }
}

/// Answers what was read off a connection: parses it, looks the token up in
/// the store, and routes. Every input has a response.
pub fn respond(store: &Store, site: &Site, head: &[u8]) -> (answer: Answer)
    requires
        store.wf(),
    ensures
        answer.response@ == respond_spec(store@, *site, head@),
        answer.response.headers.wf(),
        optional_text(answer.served) == served_token(store@, head@),
{
    match parse_request(head) {
        Err(kind) => Answer { response: Response::bare(kind), served: None },
        Ok(request) => {
            let name = token(request.target.as_slice());
            let found = store.get(name);
            let served = match found {
                Some(_) => Some(slice_to_vec(name)),
                None => None,
            };
            Answer { response: route(site, request.target.as_slice(), found), served }
        },
    }
}

} // verus!
