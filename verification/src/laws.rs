//! What holds of the server as a whole, proved from the contracts of its parts.

use vstd::prelude::*;
use vstd::utf8::valid_utf8;
use crate::bytes::{
    crlf, lemma_first_match_is, lemma_first_match_none, lemma_occurs_shift, occurs_at,
    replace_all, text, CR, LF, SLASH, SP,
};
use crate::connection::{on_read, Outcome};
use crate::request::{
    lemma_split_three, parse_head, parse_line, request_line, split, token_of, RequestView, GET,
};
use crate::response::ResponseView;
use crate::route::{
    not_found_page, redirect_page, respond_spec, served_token, Site, INDEX_PATH, LINK_MARK,
    LOCATION, ROOT_PATH, STYLE_PATH, TOKEN_MARK,
};
use crate::server::{
    links_after, next_action, next_state, proceed, LoopAction, LoopEvent, LoopState, StoreCheck,
};
use crate::status::{redirect_kind, ResponseKind, HTTP_VERSION};
use crate::store::destination;

verus! {

/// The request line `GET /<token> HTTP/1.1`.
pub open spec fn get_line(token: Seq<u8>) -> Seq<u8> {
    text(GET) + seq![SP] + (seq![SLASH] + token) + seq![SP] + text(HTTP_VERSION)
}

/// `s` holds none of the bytes that delimit the request line and its fields.
pub open spec fn plain(s: Seq<u8>) -> bool {
    !s.contains(SP) && !s.contains(CR) && !s.contains(LF)
}

/// `pat` occurs somewhere in `text`.
pub open spec fn occurs(text: Seq<u8>, pat: Seq<u8>) -> bool {
    exists|i: int| occurs_at(text, pat, i)
}

/// A byte that neither of two texts holds is not in the two put together.
proof fn lemma_lacks_concat(a: Seq<u8>, b: Seq<u8>, x: u8)
    requires
        !a.contains(x),
        !b.contains(x),
    ensures
        !(a + b).contains(x),
{
    assert forall|i: int| 0 <= i < (a + b).len() implies (a + b)[i] != x by {
        if i < a.len() {
            assert(a.contains(a[i]));
        } else {
            assert(b.contains(b[i - a.len()]));
        }
    }
}

/// The method and the version are what they read, and hold no delimiter.
proof fn lemma_fixed_fields()
    ensures
        text(GET) == seq![0x47u8, 0x45u8, 0x54u8],
        plain(text(GET)),
        plain(text(HTTP_VERSION)),
{
    reveal_strlit("GET");
    reveal_strlit("HTTP/1.1");
    vstd::string::is_ascii_spec_bytes(GET);
    vstd::string::is_ascii_spec_bytes(HTTP_VERSION);
    assert(text(GET) =~= seq![0x47u8, 0x45u8, 0x54u8]);
    assert(text(HTTP_VERSION) =~= seq![
        0x48u8,
        0x54u8,
        0x54u8,
        0x50u8,
        0x2fu8,
        0x31u8,
        0x2eu8,
        0x31u8,
    ]);
}

/// A line without a line feed, followed by a line terminator, is the request
/// line of whatever it starts.
pub proof fn lemma_request_line(line: Seq<u8>, rest: Seq<u8>)
    requires
        !line.contains(LF),
    ensures
        request_line(line + crlf() + rest) == Some(line),
{
    let head = line + crlf() + rest;
    let at = line.len() as int;
    assert(head.subrange(at, at + 2) =~= crlf());
    assert forall|j: int| 0 <= j < at implies !occurs_at(head, crlf(), j) by {
        if occurs_at(head, crlf(), j) {
            assert(head.subrange(j, j + 2)[1] == LF);
            if j + 1 < at {
                assert(line.contains(line[j + 1]));
            }
        }
    }
    lemma_first_match_is(head, crlf(), at);
    assert(head.subrange(0, at) =~= line);
}

/// The request line `GET /<token> HTTP/1.1` parses into its three fields.
pub proof fn lemma_get_line(token: Seq<u8>)
    requires
        plain(token),
    ensures
        !get_line(token).contains(CR),
        !get_line(token).contains(LF),
        parse_line(get_line(token)) == Ok::<RequestView, ResponseKind>(
            RequestView {
                method: text(GET),
                target: seq![SLASH] + token,
                version: text(HTTP_VERSION),
            },
        ),
        token_of(seq![SLASH] + token) == token,
{
    lemma_fixed_fields();
    let target = seq![SLASH] + token;
    let space = seq![SP];
    lemma_lacks_concat(seq![SLASH], token, SP);
    lemma_lacks_concat(seq![SLASH], token, CR);
    lemma_lacks_concat(seq![SLASH], token, LF);
    lemma_split_three(text(GET), target, text(HTTP_VERSION));
    lemma_lacks_concat(text(GET), space, CR);
    lemma_lacks_concat(text(GET), space, LF);
    lemma_lacks_concat(text(GET) + space, target, CR);
    lemma_lacks_concat(text(GET) + space, target, LF);
    lemma_lacks_concat(text(GET) + space + target, space, CR);
    lemma_lacks_concat(text(GET) + space + target, space, LF);
    lemma_lacks_concat(text(GET) + space + target + space, text(HTTP_VERSION), CR);
    lemma_lacks_concat(text(GET) + space + target + space, text(HTTP_VERSION), LF);
    assert(target.drop_first() =~= token);
}

/// A `GET` for a token that the store holds is answered by the configured
/// redirect, with the destination in the `Location` header and the redirect
/// page, filled in with token and destination, as the body. Whatever follows
/// the request line changes nothing.
pub proof fn law_known_token_redirects(
    links: Map<Seq<u8>, Seq<u8>>,
    site: Site,
    token: Seq<u8>,
    url: Seq<u8>,
    rest: Seq<u8>,
)
    requires
        plain(token),
        valid_utf8(get_line(token) + crlf() + rest),
        links.dom().contains(token),
        links[token] == url,
    ensures
        respond_spec(links, site, get_line(token) + crlf() + rest) == (ResponseView {
            kind: redirect_kind(site.allow_client_cache),
            headers: seq![(text(LOCATION), url)],
            body: Some(redirect_page(site.pages.redirect@, token, url)),
        }),
        served_token(links, get_line(token) + crlf() + rest) == Some(token),
{
    lemma_get_line(token);
    lemma_request_line(get_line(token), rest);
}

/// A `GET` for a token that the store does not hold, on a path that is not
/// one of the static ones, is answered with 404 and the page that names the token.
pub proof fn law_unknown_token_not_found(
    links: Map<Seq<u8>, Seq<u8>>,
    site: Site,
    token: Seq<u8>,
    rest: Seq<u8>,
)
    requires
        plain(token),
        valid_utf8(get_line(token) + crlf() + rest),
        !links.dom().contains(token),
        seq![SLASH] + token != text(ROOT_PATH),
        seq![SLASH] + token != text(INDEX_PATH),
        seq![SLASH] + token != text(STYLE_PATH),
    ensures
        respond_spec(links, site, get_line(token) + crlf() + rest) == (ResponseView {
            kind: ResponseKind::NotFound,
            headers: Seq::empty(),
            body: Some(not_found_page(site.pages.not_found@, token)),
        }),
        served_token(links, get_line(token) + crlf() + rest) is None,
{
    lemma_get_line(token);
    lemma_request_line(get_line(token), rest);
}

/// Where the placeholder occurs in a text, the text with the placeholder
/// replaced holds the replacement.
pub proof fn lemma_replaced_holds_value(text: Seq<u8>, pat: Seq<u8>, with: Seq<u8>)
    requires
        pat.len() > 0,
        occurs(text, pat),
    ensures
        occurs(replace_all(text, pat, with), with),
    decreases text.len(),
{
    let i = choose|i: int| occurs_at(text, pat, i);
    let out = replace_all(text, pat, with);
    if occurs_at(text, pat, 0) {
        assert(out.subrange(0, with.len() as int) =~= with);
        assert(occurs_at(out, with, 0));
    } else {
        let tail = text.drop_first();
        lemma_occurs_shift(text, pat, i - 1);
        assert(occurs_at(tail, pat, i - 1));
        lemma_replaced_holds_value(tail, pat, with);
        let inner = replace_all(tail, pat, with);
        let j = choose|j: int| occurs_at(inner, with, j);
        assert(out.subrange(j + 1, j + 1 + with.len()) =~= inner.subrange(j, j + with.len()));
        assert(occurs_at(out, with, j + 1));
    }
}

/// The page for an unknown token names the token, where the template has a
/// place for it.
pub proof fn law_not_found_page_names_token(template: Seq<u8>, token: Seq<u8>)
    requires
        occurs(template, text(TOKEN_MARK)),
    ensures
        occurs(not_found_page(template, token), token),
{
    reveal_strlit("REDIRECTION_TOKEN");
    vstd::string::is_ascii_spec_bytes(TOKEN_MARK);
    lemma_replaced_holds_value(template, text(TOKEN_MARK), token);
}

/// The redirect page names the destination, where the template, with the
/// token filled in, has a place for it.
pub proof fn law_redirect_page_names_destination(template: Seq<u8>, token: Seq<u8>, link: Seq<u8>)
    requires
        occurs(replace_all(template, text(TOKEN_MARK), token), text(LINK_MARK)),
    ensures
        occurs(redirect_page(template, token, link), link),
{
    reveal_strlit("REDIRECTION_LINK");
    vstd::string::is_ascii_spec_bytes(LINK_MARK);
    lemma_replaced_holds_value(replace_all(template, text(TOKEN_MARK), token), text(LINK_MARK), link);
}

/// A request line with fewer or more than three fields is a bad request,
/// whatever it holds and whatever the store holds.
pub proof fn law_field_count(links: Map<Seq<u8>, Seq<u8>>, site: Site, head: Seq<u8>)
    requires
        request_line(head) matches Some(line) && split(line, SP).len() != 3,
    ensures
        respond_spec(links, site, head) == ResponseView::bare(ResponseKind::BadRequest),
{
}

/// A request line of three fields whose first is not exactly `GET` is answered
/// with 404. And whatever the number of fields, a line whose first field is
/// not `GET` is never answered with a redirect or with a page.
pub proof fn law_other_method(links: Map<Seq<u8>, Seq<u8>>, site: Site, head: Seq<u8>)
    requires
        request_line(head) matches Some(line) && split(line, SP)[0] != text(GET),
    ensures
        !respond_spec(links, site, head).kind.is_redirect(),
        respond_spec(links, site, head).kind != ResponseKind::Success,
        valid_utf8(head) && plain_line(head) && split(request_line(head)->0, SP).len() == 3
            ==> respond_spec(links, site, head) == ResponseView::bare(ResponseKind::NotFound),
{
}

/// The request line of `head` holds no stray carriage return or line feed.
pub open spec fn plain_line(head: Seq<u8>) -> bool {
    request_line(head) matches Some(line) && !line.contains(CR) && !line.contains(LF)
}

/// Text without a line feed has no line terminator, and is answered with 414.
pub proof fn law_unterminated(links: Map<Seq<u8>, Seq<u8>>, site: Site, head: Seq<u8>)
    requires
        valid_utf8(head),
        !head.contains(LF),
    ensures
        request_line(head) is None,
        respond_spec(links, site, head) == ResponseView::bare(ResponseKind::RequestTargetTooLong),
        served_token(links, head) is None,
{
    assert forall|j: int| 0 <= j && j + crlf().len() <= head.len() implies !occurs_at(
        head,
        crlf(),
        j,
    ) by {
        if occurs_at(head, crlf(), j) {
            assert(head.subrange(j, j + 2)[1] == LF);
            assert(head.contains(head[j + 1]));
        }
    }
    lemma_first_match_none(head, crlf());
}

/// A read that fills the byte budget without bringing a line feed is answered
/// with 414, and the answer ends the connection.
pub proof fn law_full_budget_is_too_long(
    links: Map<Seq<u8>, Seq<u8>>,
    site: Site,
    buffered: Seq<u8>,
    limit: nat,
    chunk: Seq<u8>,
)
    requires
        limit > 0,
        chunk.len() > 0,
        (buffered + chunk).len() >= limit,
        !(buffered + chunk).contains(LF),
        valid_utf8(buffered + chunk),
    ensures
        on_read(links, site, buffered, limit, Some(chunk)) == (Outcome::Reply {
            bytes: ResponseView::bare(ResponseKind::RequestTargetTooLong).wire(),
            served: None,
        }),
{
    law_unterminated(links, site, buffered + chunk);
}

/// What follows the first line terminator is discarded: two texts that start
/// with the same request line are answered alike.
pub proof fn law_headers_ignored(
    links: Map<Seq<u8>, Seq<u8>>,
    site: Site,
    line: Seq<u8>,
    one: Seq<u8>,
    other: Seq<u8>,
)
    requires
        !line.contains(LF),
        valid_utf8(line + crlf() + one),
        valid_utf8(line + crlf() + other),
    ensures
        parse_head(line + crlf() + one) == parse_head(line + crlf() + other),
        respond_spec(links, site, line + crlf() + one) == respond_spec(
            links,
            site,
            line + crlf() + other,
        ),
{
    lemma_request_line(line, one);
    lemma_request_line(line, other);
}

/// The same bytes, read in the same state against the same links, get the
/// same answer, byte for byte: answering changes nothing that an answer
/// depends on.
pub proof fn law_same_request_same_reply(
    links: Map<Seq<u8>, Seq<u8>>,
    site: Site,
    buffered: Seq<u8>,
    limit: nat,
    chunk: Option<Seq<u8>>,
    first: Outcome,
    second: Outcome,
)
    requires
        first == on_read(links, site, buffered, limit, chunk),
        second == on_read(links, site, buffered, limit, chunk),
    ensures
        first == second,
{
}

/// After a load that failed, every token has the destination it had before,
/// in whatever state the failure is reported. The same holds after a change
/// check, whatever it gave, and after an incoming connection.
pub proof fn law_failed_load_keeps_links(
    links: Map<Seq<u8>, Seq<u8>>,
    state: LoopState,
    check: StoreCheck,
    accepted: bool,
    token: Seq<u8>,
)
    ensures
        destination(links_after(links, state, LoopEvent::Loaded(None)), token) == destination(
            links,
            token,
        ),
        links_after(links, state, LoopEvent::Loaded(None)) == links,
        links_after(links, state, LoopEvent::Checked(check)) == links,
        links_after(links, state, LoopEvent::Incoming { accepted }) == links,
{
}

/// Neither a failed change check, nor a failed load, nor a connection that
/// could not be accepted stops the loop: each leads back to waiting for the
/// next connection, and an accepted connection is served whatever the store
/// reported.
pub proof fn law_loop_goes_on(accepted: bool, check: StoreCheck)
    ensures
        next_state(LoopState::Loading { accepted }, LoopEvent::Loaded(None)) == LoopState::Idle,
        next_action(LoopState::Loading { accepted }, LoopEvent::Loaded(None)) == proceed(accepted),
        check != StoreCheck::Changed ==> next_state(
            LoopState::Checking { accepted },
            LoopEvent::Checked(check),
        ) == LoopState::Idle && next_action(
            LoopState::Checking { accepted },
            LoopEvent::Checked(check),
        ) == proceed(accepted),
        proceed(false) == LoopAction::Accept,
        proceed(true) == LoopAction::Serve,
{
}

} // verus!
