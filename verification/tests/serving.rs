use shortlink::connection::{Action, Connection, Event};
use shortlink::reader::{LineReader, CHUNK_SIZE};
use shortlink::response::Response;
use shortlink::route::{respond, route, Pages, Site, LET_CLIENTS_CACHE, MAX_HTTP_REQUEST_LEN};
use shortlink::server::{
    after_store, LoopAction, LoopEvent, Server, StoreCheck, Turn, READ_TIMEOUT_MS,
};
use shortlink::status::ResponseKind;
use shortlink::store::Store;
use shortlink::table::Table;

fn pages() -> Pages {
    Pages {
        not_found: b"<p>No link for REDIRECTION_TOKEN.</p>".to_vec(),
        redirect: b"<a href=\"REDIRECTION_LINK\">REDIRECTION_TOKEN</a>".to_vec(),
        index: b"<h1>index</h1>".to_vec(),
        style_sheet: b"body { margin: 0 }".to_vec(),
    }
}

fn site(allow_client_cache: bool, max_request_len: usize) -> Site {
    Site { pages: pages(), allow_client_cache, max_request_len }
}

fn example_store() -> Store {
    let mut store = Store::new();
    store.insert(b"abc".to_vec(), b"https://example.com".to_vec());
    store
}

fn text_of(bytes: &[u8]) -> String {
    String::from_utf8(bytes.to_vec()).unwrap()
}

/// Feeds the whole request in one read and returns the bytes of the reply.
fn reply_to(store: &Store, site: &Site, request: &[u8]) -> Vec<u8> {
    let mut connection = Connection::new(site.max_request_len);
    match connection.step(store, site, Event::Data(request.to_vec())) {
        Action::Reply { bytes, .. } => bytes,
        other => panic!("no reply: {:?}", other),
    }
}

fn location_header() -> Table {
    let mut headers = Table::new();
    headers.insert(b"Location".to_vec(), b"https://example.com".to_vec());
    headers
}

#[test]
fn defaults_are_as_documented() {
    assert_eq!(CHUNK_SIZE, 128);
    assert_eq!(READ_TIMEOUT_MS, 500);
    assert_eq!(MAX_HTTP_REQUEST_LEN, 0);
    assert!(LET_CLIENTS_CACHE);
}

#[test]
fn store_holds_what_was_inserted() {
    let mut store = Store::new();
    assert_eq!(store.len(), 0);
    assert_eq!(store.get(b"abc"), None);
    store.insert(b"abc".to_vec(), b"https://example.com".to_vec());
    store.insert(b"x".to_vec(), b"https://x.org".to_vec());
    assert_eq!(store.len(), 2);
    assert_eq!(store.get(b"abc"), Some(&b"https://example.com".to_vec()));
    assert_eq!(store.get(b"x"), Some(&b"https://x.org".to_vec()));
    assert_eq!(store.get(b"missing"), None);
    store.insert(b"abc".to_vec(), b"https://other.example".to_vec());
    assert_eq!(store.len(), 2);
    assert_eq!(store.get(b"abc"), Some(&b"https://other.example".to_vec()));
}

#[test]
fn store_lookup_does_not_change_the_store() {
    let store = example_store();
    let first = store.get(b"abc").cloned();
    let second = store.get(b"abc").cloned();
    assert_eq!(first, second);
    assert_eq!(store, example_store());
}

#[test]
fn failed_refresh_keeps_the_links() {
    let mut store = example_store();
    assert!(!store.refresh(None));
    assert_eq!(store.get(b"abc"), Some(&b"https://example.com".to_vec()));
    assert_eq!(store.len(), 1);
}

#[test]
fn successful_refresh_replaces_the_links() {
    let mut store = example_store();
    let mut fresh = Store::new();
    fresh.insert(b"new".to_vec(), b"https://new.example".to_vec());
    fresh.insert(b"two".to_vec(), b"https://two.example".to_vec());
    assert!(store.refresh(Some(fresh)));
    assert_eq!(store.get(b"abc"), None);
    assert_eq!(store.get(b"new"), Some(&b"https://new.example".to_vec()));
    assert_eq!(store.len(), 2);
}

#[test]
fn route_hit_is_a_redirect_with_location_and_page() {
    let link = b"https://example.com".to_vec();
    let response = route(&site(false, 0), b"/abc", Some(&link));
    assert_eq!(
        response,
        Response {
            kind: ResponseKind::TemporaryRedirect,
            headers: location_header(),
            body: Some(b"<a href=\"https://example.com\">abc</a>".to_vec()),
        }
    );
}

#[test]
fn route_hit_is_permanent_where_clients_may_cache() {
    let link = b"https://example.com".to_vec();
    let response = route(&site(true, 0), b"/abc", Some(&link));
    assert_eq!(response.kind, ResponseKind::PermanentRedirect);
    assert_eq!(response.headers, location_header());
}

#[test]
fn route_hit_wins_over_static_paths() {
    let link = b"https://example.com".to_vec();
    for target in [&b"/"[..], &b"/index.html"[..], &b"/style.css"[..]] {
        let response = route(&site(false, 0), target, Some(&link));
        assert_eq!(response.kind, ResponseKind::TemporaryRedirect);
    }
}

#[test]
fn route_miss_serves_the_index() {
    for target in [&b"/"[..], &b"/index.html"[..]] {
        let response = route(&site(false, 0), target, None);
        assert_eq!(
            response,
            Response {
                kind: ResponseKind::Success,
                headers: Table::new(),
                body: Some(b"<h1>index</h1>".to_vec()),
            }
        );
    }
}

#[test]
fn route_miss_serves_the_style_sheet() {
    let response = route(&site(false, 0), b"/style.css", None);
    assert_eq!(
        response,
        Response {
            kind: ResponseKind::Success,
            headers: Table::new(),
            body: Some(b"body { margin: 0 }".to_vec()),
        }
    );
}

#[test]
fn route_miss_elsewhere_is_not_found_and_names_the_token() {
    let response = route(&site(false, 0), b"/missing", None);
    assert_eq!(
        response,
        Response {
            kind: ResponseKind::NotFound,
            headers: Table::new(),
            body: Some(b"<p>No link for missing.</p>".to_vec()),
        }
    );
}

#[test]
fn route_static_paths_are_exact() {
    for target in [
        &b""[..],
        &b"/index.htm"[..],
        &b"/index.html/"[..],
        &b"/INDEX.HTML"[..],
        &b"index.html"[..],
        &b"/style.css2"[..],
        &b"//"[..],
    ] {
        assert_eq!(route(&site(false, 0), target, None).kind, ResponseKind::NotFound);
    }
}

#[test]
fn route_fills_in_the_token_before_the_link() {
    let link = b"L".to_vec();
    let response = route(&site(false, 0), b"/REDIRECTION_LINK", Some(&link));
    assert_eq!(response.body, Some(b"<a href=\"L\">L</a>".to_vec()));
}

#[test]
fn respond_tells_which_token_was_served() {
    let store = example_store();
    let hit = respond(&store, &site(false, 0), b"GET /abc HTTP/1.1\r\n\r\n");
    assert_eq!(hit.served, Some(b"abc".to_vec()));
    assert_eq!(hit.response.kind, ResponseKind::TemporaryRedirect);
    let miss = respond(&store, &site(false, 0), b"GET /missing HTTP/1.1\r\n\r\n");
    assert_eq!(miss.served, None);
    let bad = respond(&store, &site(false, 0), b"abc\r\n\r\n");
    assert_eq!(bad.served, None);
    assert_eq!(bad.response, Response::bare(ResponseKind::BadRequest));
}

#[test]
fn respond_looks_up_the_empty_token_for_the_root() {
    let mut store = Store::new();
    store.insert(Vec::new(), b"https://root.example".to_vec());
    let answer = respond(&store, &site(false, 0), b"GET / HTTP/1.1\r\n\r\n");
    assert_eq!(answer.response.kind, ResponseKind::TemporaryRedirect);
    assert_eq!(answer.served, Some(Vec::new()));
}

#[test]
fn respond_to_an_empty_target_is_not_found() {
    let answer = respond(&example_store(), &site(false, 0), b"GET  HTTP/1.1\r\n\r\n");
    assert_eq!(answer.response.kind, ResponseKind::NotFound);
    assert_eq!(answer.response.body, Some(b"<p>No link for .</p>".to_vec()));
}

#[test]
fn known_token_is_redirected() {
    let bytes = reply_to(&example_store(), &site(false, 0), b"GET /abc HTTP/1.1\r\n\r\n");
    let text = text_of(&bytes);
    assert!(text.starts_with("HTTP/1.1 307 TEMPORARY REDIRECT\r\n"));
    assert!(text.contains("\r\nLocation: https://example.com\r\n"));
    let body = text.split("\r\n\r\n").nth(1).unwrap();
    assert!(body.contains("abc"));
    assert!(body.contains("https://example.com"));
    assert_eq!(
        bytes,
        b"HTTP/1.1 307 TEMPORARY REDIRECT\r\nLocation: https://example.com\r\nContent-Length: 37\r\n\r\n<a href=\"https://example.com\">abc</a>"
            .to_vec()
    );
}

#[test]
fn known_token_is_redirected_permanently_where_configured() {
    let bytes = reply_to(&example_store(), &site(true, 0), b"GET /abc HTTP/1.1\r\n\r\n");
    let text = text_of(&bytes);
    assert!(text.starts_with("HTTP/1.1 307 PERMANENT REDIRECT\r\n"));
    assert!(text.contains("\r\nLocation: https://example.com\r\n"));
    assert!(text.ends_with("<a href=\"https://example.com\">abc</a>"));
}

#[test]
fn unknown_token_is_not_found() {
    let bytes = reply_to(&example_store(), &site(false, 0), b"GET /missing HTTP/1.1\r\n\r\n");
    let text = text_of(&bytes);
    assert!(text.starts_with("HTTP/1.1 404 NOT FOUND\r\n"));
    let body = text.split("\r\n\r\n").nth(1).unwrap();
    assert!(body.contains("missing"));
    assert_eq!(
        bytes,
        b"HTTP/1.1 404 NOT FOUND\r\nContent-Length: 27\r\n\r\n<p>No link for missing.</p>".to_vec()
    );
}

#[test]
fn one_token_line_is_a_bad_request() {
    let bytes = reply_to(&example_store(), &site(false, 0), b"BADREQUESTLINE\r\n\r\n");
    assert_eq!(
        bytes,
        b"HTTP/1.1 400 BAD REQUEST\r\nContent-Length: 15\r\n\r\n400 BAD REQUEST".to_vec()
    );
}

#[test]
fn other_method_is_not_found_even_for_a_known_token() {
    let bytes = reply_to(&example_store(), &site(false, 0), b"POST /abc HTTP/1.1\r\n\r\n");
    assert_eq!(
        bytes,
        b"HTTP/1.1 404 NOT FOUND\r\nContent-Length: 13\r\n\r\n404 NOT FOUND".to_vec()
    );
    let lower = reply_to(&example_store(), &site(false, 0), b"get /abc HTTP/1.1\r\n\r\n");
    assert_eq!(lower, bytes);
}

#[test]
fn same_request_twice_gives_identical_bytes() {
    let store = example_store();
    let site = site(true, 0);
    let first = reply_to(&store, &site, b"GET /abc HTTP/1.1\r\n\r\n");
    let second = reply_to(&store, &site, b"GET /abc HTTP/1.1\r\n\r\n");
    assert_eq!(first, second);
    assert_eq!(store, example_store());
}

#[test]
fn headers_do_not_change_the_reply() {
    let store = example_store();
    let site = site(false, 0);
    let plain = reply_to(&store, &site, b"GET /abc HTTP/1.1\r\n\r\n");
    let with_headers =
        reply_to(&store, &site, b"GET /abc HTTP/1.1\r\nHost: example.org\r\nAccept: */*\r\n\r\n");
    assert_eq!(plain, with_headers);
}

#[test]
fn reader_without_budget_waits_for_a_line_feed() {
    let mut reader = LineReader::new(0);
    assert!(reader.is_empty());
    assert!(reader.wants_more());
    reader.feed(&[b'a'; 1000]);
    assert!(reader.wants_more());
    assert!(!reader.is_empty());
    reader.feed(b"\n");
    assert!(!reader.wants_more());
    assert_eq!(reader.bytes().len(), 1001);
}

#[test]
fn reader_stops_at_the_budget() {
    let mut reader = LineReader::new(4);
    assert!(reader.wants_more());
    reader.feed(b"abc");
    assert!(reader.wants_more());
    reader.feed(b"d");
    assert!(!reader.wants_more());
    assert_eq!(reader.bytes(), b"abcd");
}

#[test]
fn reader_keeps_what_a_chunk_brought_beyond_the_budget() {
    let mut reader = LineReader::new(4);
    reader.feed(b"abcdefgh");
    assert!(!reader.wants_more());
    assert_eq!(reader.bytes(), b"abcdefgh");
}

#[test]
fn reader_stops_at_a_line_feed_below_the_budget() {
    let mut reader = LineReader::new(100);
    reader.feed(b"GET / HTTP/1.1\r\nHo");
    assert!(!reader.wants_more());
}

#[test]
fn connection_reads_until_the_line_is_complete() {
    let store = example_store();
    let site = site(false, 0);
    let mut connection = Connection::new(0);
    assert!(!connection.is_done());
    assert_eq!(connection.step(&store, &site, Event::Data(b"GET /a".to_vec())), Action::Read);
    assert_eq!(connection.step(&store, &site, Event::Data(b"bc HTTP/1.1\r".to_vec())), Action::Read);
    assert!(!connection.is_done());
    let action = connection.step(&store, &site, Event::Data(b"\nHost: x\r\n".to_vec()));
    assert_eq!(
        action,
        Action::Reply {
            bytes: reply_to(&store, &site, b"GET /abc HTTP/1.1\r\n\r\n"),
            served: Some(b"abc".to_vec()),
        }
    );
    assert!(connection.is_done());
}

#[test]
fn connection_replies_once() {
    let store = example_store();
    let site = site(false, 0);
    let mut connection = Connection::new(0);
    let first = connection.step(&store, &site, Event::Data(b"GET /abc HTTP/1.1\r\n\r\n".to_vec()));
    assert!(matches!(first, Action::Reply { .. }));
    assert_eq!(
        connection.step(&store, &site, Event::Data(b"GET /abc HTTP/1.1\r\n\r\n".to_vec())),
        Action::Close
    );
    assert_eq!(connection.step(&store, &site, Event::Data(Vec::new())), Action::Close);
    assert_eq!(connection.step(&store, &site, Event::Failed), Action::Close);
    assert!(connection.is_done());
}

#[test]
fn peer_that_closes_at_once_gets_no_response() {
    let mut connection = Connection::new(0);
    let action = connection.step(&example_store(), &site(false, 0), Event::Data(Vec::new()));
    assert_eq!(action, Action::Close);
    assert!(connection.is_done());
}

#[test]
fn failed_read_abandons_the_connection() {
    let store = example_store();
    let site = site(false, 0);
    let mut connection = Connection::new(0);
    assert_eq!(connection.step(&store, &site, Event::Failed), Action::Abandon);
    assert!(connection.is_done());
    let mut later = Connection::new(0);
    assert_eq!(later.step(&store, &site, Event::Data(b"GET /ab".to_vec())), Action::Read);
    assert_eq!(later.step(&store, &site, Event::Failed), Action::Abandon);
    assert!(later.is_done());
}

#[test]
fn peer_that_closes_in_the_middle_of_the_line_is_told_too_long() {
    let store = example_store();
    let site = site(false, 0);
    let mut connection = Connection::new(0);
    assert_eq!(connection.step(&store, &site, Event::Data(b"GET /ab".to_vec())), Action::Read);
    let action = connection.step(&store, &site, Event::Data(Vec::new()));
    assert_eq!(
        action,
        Action::Reply {
            bytes: Response::bare(ResponseKind::RequestTargetTooLong).to_bytes(),
            served: None,
        }
    );
}

#[test]
fn line_that_reaches_the_budget_is_too_long() {
    let store = example_store();
    let site = site(false, 16);
    let mut connection = Connection::new(16);
    assert_eq!(connection.step(&store, &site, Event::Data(b"GET /aaaaaaa".to_vec())), Action::Read);
    let action = connection.step(&store, &site, Event::Data(b"aaaa".to_vec()));
    assert_eq!(
        action,
        Action::Reply {
            bytes: b"HTTP/1.1 414 REQUEST-URI TOO LONG\r\nContent-Length: 24\r\n\r\n414 REQUEST-URI TOO LONG"
                .to_vec(),
            served: None,
        }
    );
    assert!(connection.is_done());
    assert_eq!(connection.step(&store, &site, Event::Data(b" HTTP/1.1\r\n".to_vec())), Action::Close);
}

#[test]
fn line_within_the_budget_is_served() {
    let store = example_store();
    let site = site(false, 64);
    let bytes = reply_to(&store, &site, b"GET /abc HTTP/1.1\r\n\r\n");
    assert!(bytes.starts_with(b"HTTP/1.1 307 TEMPORARY REDIRECT\r\n"));
}

#[test]
fn budget_filled_with_bytes_that_are_no_text_is_a_bad_request() {
    let store = example_store();
    let site = site(false, 4);
    let mut connection = Connection::new(4);
    let action = connection.step(&store, &site, Event::Data(vec![0xff; 4]));
    assert_eq!(
        action,
        Action::Reply { bytes: Response::bare(ResponseKind::BadRequest).to_bytes(), served: None }
    );
}

#[test]
fn bare_line_feed_ends_the_reading_and_is_too_long() {
    let bytes = reply_to(&example_store(), &site(false, 0), b"GET /abc HTTP/1.1\n");
    assert_eq!(bytes, Response::bare(ResponseKind::RequestTargetTooLong).to_bytes());
}

#[test]
fn server_checks_the_store_for_every_connection() {
    let mut server = Server::init(example_store(), site(false, 0));
    assert_eq!(
        server.step(LoopEvent::Incoming { accepted: true }),
        Turn { action: LoopAction::CheckStore, reloaded: None }
    );
    assert_eq!(
        server.step(LoopEvent::Checked(StoreCheck::Unchanged)),
        Turn { action: LoopAction::Serve, reloaded: None }
    );
    assert_eq!(
        server.step(LoopEvent::Incoming { accepted: true }),
        Turn { action: LoopAction::CheckStore, reloaded: None }
    );
}

#[test]
fn server_treats_a_failed_check_as_no_change() {
    let mut server = Server::init(example_store(), site(false, 0));
    server.step(LoopEvent::Incoming { accepted: true });
    assert_eq!(
        server.step(LoopEvent::Checked(StoreCheck::Failed)),
        Turn { action: LoopAction::Serve, reloaded: None }
    );
    assert_eq!(server.store().get(b"abc"), Some(&b"https://example.com".to_vec()));
}

#[test]
fn server_reloads_when_the_data_changed() {
    let mut server = Server::init(example_store(), site(false, 0));
    server.step(LoopEvent::Incoming { accepted: true });
    assert_eq!(
        server.step(LoopEvent::Checked(StoreCheck::Changed)),
        Turn { action: LoopAction::LoadStore, reloaded: None }
    );
    let mut fresh = Store::new();
    fresh.insert(b"one".to_vec(), b"https://one.example".to_vec());
    fresh.insert(b"two".to_vec(), b"https://two.example".to_vec());
    assert_eq!(
        server.step(LoopEvent::Loaded(Some(fresh))),
        Turn { action: LoopAction::Serve, reloaded: Some(2) }
    );
    assert_eq!(server.store().get(b"abc"), None);
    assert_eq!(server.store().get(b"two"), Some(&b"https://two.example".to_vec()));
}

#[test]
fn server_keeps_the_links_when_the_reload_fails() {
    let mut server = Server::init(example_store(), site(false, 0));
    server.step(LoopEvent::Incoming { accepted: true });
    server.step(LoopEvent::Checked(StoreCheck::Changed));
    assert_eq!(
        server.step(LoopEvent::Loaded(None)),
        Turn { action: LoopAction::Serve, reloaded: None }
    );
    assert_eq!(server.store().get(b"abc"), Some(&b"https://example.com".to_vec()));
    let mut connection = server.open();
    let action = server.serve(&mut connection, Event::Data(b"GET /abc HTTP/1.1\r\n\r\n".to_vec()));
    match action {
        Action::Reply { bytes, served } => {
            assert!(bytes.starts_with(b"HTTP/1.1 307 TEMPORARY REDIRECT\r\n"));
            assert_eq!(served, Some(b"abc".to_vec()));
        }
        other => panic!("no reply: {:?}", other),
    }
}

#[test]
fn server_skips_a_connection_that_was_not_accepted() {
    let mut server = Server::init(example_store(), site(false, 0));
    assert_eq!(
        server.step(LoopEvent::Incoming { accepted: false }),
        Turn { action: LoopAction::CheckStore, reloaded: None }
    );
    assert_eq!(
        server.step(LoopEvent::Checked(StoreCheck::Unchanged)),
        Turn { action: LoopAction::Accept, reloaded: None }
    );
    server.step(LoopEvent::Incoming { accepted: false });
    server.step(LoopEvent::Checked(StoreCheck::Changed));
    assert_eq!(
        server.step(LoopEvent::Loaded(Some(Store::new()))),
        Turn { action: LoopAction::Accept, reloaded: Some(0) }
    );
}

#[test]
fn server_ignores_a_load_it_did_not_ask_for() {
    let mut server = Server::init(example_store(), site(false, 0));
    assert_eq!(
        server.step(LoopEvent::Loaded(Some(Store::new()))),
        Turn { action: LoopAction::Accept, reloaded: None }
    );
    assert_eq!(server.store().get(b"abc"), Some(&b"https://example.com".to_vec()));
    server.step(LoopEvent::Incoming { accepted: true });
    assert_eq!(
        server.step(LoopEvent::Loaded(Some(Store::new()))),
        Turn { action: LoopAction::CheckStore, reloaded: None }
    );
    assert_eq!(server.store().get(b"abc"), Some(&b"https://example.com".to_vec()));
    server.step(LoopEvent::Checked(StoreCheck::Changed));
    assert_eq!(
        server.step(LoopEvent::Checked(StoreCheck::Changed)),
        Turn { action: LoopAction::LoadStore, reloaded: None }
    );
}

#[test]
fn server_opens_connections_with_the_configured_budget() {
    let server = Server::init(example_store(), site(false, 8));
    let mut connection = server.open();
    let action = server.serve(&mut connection, Event::Data(b"GET /abc".to_vec()));
    assert_eq!(
        action,
        Action::Reply {
            bytes: Response::bare(ResponseKind::RequestTargetTooLong).to_bytes(),
            served: None,
        }
    );
}

#[test]
fn after_store_serves_what_was_accepted() {
    assert_eq!(after_store(true), LoopAction::Serve);
    assert_eq!(after_store(false), LoopAction::Accept);
}
