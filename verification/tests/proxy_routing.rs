use stackmanager::proxy::{
    backend_down_reply, bad_request_body_reply, content_length_of, find_head_end,
    find_header_value, host_key, register_proxy_route, route_request, site_not_found_reply,
    HeaderName, ProxyState, RouteDecision,
};

#[test]
fn host_key_strips_the_port_suffix() {
    assert_eq!(host_key("a.test:80"), "a.test");
    assert_eq!(host_key("a.test"), "a.test");
    assert_eq!(host_key("a.test:8080:9090"), "a.test");
    assert_eq!(host_key(":80"), "");
    assert_eq!(host_key(""), "");
}

#[test]
fn registered_host_is_forwarded_to_its_port() {
    let mut state = ProxyState::new();
    register_proxy_route(&mut state, "a.test".to_string(), 9001);
    // The Host header carries the inbound port; routing uses the bare name.
    assert_eq!(
        route_request(&state, "a.test:80"),
        RouteDecision::Forward { port: 9001 }
    );
    assert_eq!(
        route_request(&state, "a.test"),
        RouteDecision::Forward { port: 9001 }
    );
}

#[test]
fn unregistered_host_is_a_site_not_found() {
    let mut state = ProxyState::new();
    register_proxy_route(&mut state, "a.test".to_string(), 9001);
    assert_eq!(route_request(&state, "b.test:80"), RouteDecision::SiteNotFound);
    let reply = site_not_found_reply();
    assert_eq!(reply.status, 404);
    assert_eq!(reply.body, "StackManager: Site Not Found.");
}

#[test]
fn backend_down_reply_is_a_502_in_the_proxy_name() {
    // A route may point at a port no service owns; connecting fails and the
    // proxy answers for itself.
    let reply = backend_down_reply();
    assert_eq!(reply.status, 502);
    assert_eq!(reply.body, "StackManager: Project server not running.");
}

#[test]
fn unreadable_body_reply_is_a_400() {
    let reply = bad_request_body_reply();
    assert_eq!(reply.status, 400);
    assert_eq!(reply.body, "Bad Request Body");
}

#[test]
fn last_route_registration_wins() {
    let mut state = ProxyState::new();
    register_proxy_route(&mut state, "a.test".to_string(), 9001);
    register_proxy_route(&mut state, "a.test".to_string(), 9002);
    assert_eq!(
        route_request(&state, "a.test"),
        RouteDecision::Forward { port: 9002 }
    );
}

#[test]
fn host_header_is_found_whatever_its_case() {
    let head = "GET / HTTP/1.1\r\nAccept: */*\r\nHost: a.test:80\r\n";
    assert_eq!(
        find_header_value(head, HeaderName::Host),
        Some("a.test:80".to_string())
    );
    let head = "GET / HTTP/1.1\r\nHOST:   b.test  \r\n";
    assert_eq!(
        find_header_value(head, HeaderName::Host),
        Some("b.test".to_string())
    );
    let head = "GET / HTTP/1.1\r\nAccept: */*\r\n";
    assert_eq!(find_header_value(head, HeaderName::Host), None);
}

#[test]
fn request_line_is_never_a_header() {
    // Even a request line that looks like a header is skipped.
    let head = "Host: first\r\nHost: second\r\n";
    assert_eq!(
        find_header_value(head, HeaderName::Host),
        Some("second".to_string())
    );
}

#[test]
fn content_length_is_read_as_a_number() {
    let head = "POST / HTTP/1.1\r\nHost: a.test\r\nContent-Length: 42\r\n";
    assert_eq!(content_length_of(head), Some(42));
    let head = "POST / HTTP/1.1\r\ncontent-length: 0\r\n";
    assert_eq!(content_length_of(head), Some(0));
    let head = "POST / HTTP/1.1\r\nContent-Length: abc\r\n";
    assert_eq!(content_length_of(head), None);
    let head = "POST / HTTP/1.1\r\nContent-Length: 99999999999999999999\r\n";
    assert_eq!(content_length_of(head), None);
    let head = "GET / HTTP/1.1\r\nHost: a.test\r\n";
    assert_eq!(content_length_of(head), None);
}

#[test]
fn head_end_is_the_first_empty_line() {
    let data = b"AB\r\n\r\nCD".to_vec();
    assert_eq!(find_head_end(&data), Some(2));
    let data = b"GET / HTTP/1.1\r\nHost: a\r\n\r\nBODY".to_vec();
    let expected = b"GET / HTTP/1.1\r\nHost: a".len();
    assert_eq!(find_head_end(&data), Some(expected));
    let data = b"no terminator yet\r\n".to_vec();
    assert_eq!(find_head_end(&data), None);
    let data = b"\r\n\r\n".to_vec();
    assert_eq!(find_head_end(&data), Some(0));
}
