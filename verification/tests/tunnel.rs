use locagate::logs::{TunnelRequest, TunnelResponse};
use locagate::tunnel::{
    build_request_details, build_ws_url, cached_body, decode_request_body, error_response,
    forwarded_headers, local_response, local_target_url, log_limit, prepare_local_request,
    public_request_url, Link, LinkAction, LinkEvent, LinkPhase, LinkStatus,
};

fn pairs(p: &[(&str, &str)]) -> Vec<(String, String)> {
    p.iter().map(|(k, v)| (k.to_string(), v.to_string())).collect()
}

#[test]
fn ws_url_schemes() {
    assert_eq!(
        build_ws_url("https://relay.example.dev/", "t1", "tok"),
        "wss://relay.example.dev/connect?id=t1&token=tok"
    );
    assert_eq!(build_ws_url("http://localhost:8787", "x", "y"), "ws://localhost:8787/connect?id=x&token=y");
    assert_eq!(build_ws_url("relay.dev", "x", "y"), "wss://relay.dev/connect?id=x&token=y");
    // every occurrence of the scheme is rewritten, as str::replace does
    assert_eq!(build_ws_url("https://a/https://b", "i", "t"), "wss://a/wss://b/connect?id=i&token=t");
}

#[test]
fn local_urls() {
    assert_eq!(local_target_url("127.0.0.1:3000", "/a?b=1"), "http://127.0.0.1:3000/a?b=1");
    assert_eq!(local_target_url("https://dev.local", "/"), "https://dev.local/");
    assert_eq!(local_target_url("http://x", "/p"), "http://x/p");
}

#[test]
fn public_urls() {
    let h = pairs(&[("Accept", "*/*"), ("HOST", "abc.relay.dev"), ("host", "other")]);
    assert_eq!(public_request_url(&h, "/x"), "https://abc.relay.dev/x");
    assert_eq!(public_request_url(&pairs(&[]), "/x"), "/x");
    assert_eq!(public_request_url(&pairs(&[("host", "")]), "/y"), "/y");
}

#[test]
fn link_happy_path() {
    let (l, st, act) = Link::start();
    assert_eq!(st, vec![LinkStatus::Connecting]);
    assert_eq!(act, LinkAction::Connect);
    let (l, st, act) = l.step(LinkEvent::ConnectSucceeded);
    assert_eq!(l.phase, LinkPhase::Connected);
    assert_eq!(st, vec![LinkStatus::Connected]);
    assert_eq!(act, LinkAction::Serve);
    let (l, st, act) = l.step(LinkEvent::StopRequested);
    assert_eq!(l.phase, LinkPhase::Stopped);
    assert_eq!(st, vec![LinkStatus::Disconnected, LinkStatus::Stopped]);
    assert_eq!(act, LinkAction::Finish);
    let names: Vec<String> = st.iter().map(|s| s.name()).collect();
    assert_eq!(names, vec!["disconnected", "stopped"]);
}

#[test]
fn link_backoff_doubles_and_caps() {
    let (mut l, _, _) = Link::start();
    let mut waits = vec![];
    for _ in 0..7 {
        let (w, st, act) = l.step(LinkEvent::ConnectFailed);
        assert_eq!(st, vec![LinkStatus::ConnectingError]);
        match act {
            LinkAction::Sleep(s) => waits.push(s),
            _ => panic!("a failed attempt waits"),
        }
        let (c, st, act) = w.step(LinkEvent::RetryDue);
        assert!(st.is_empty());
        assert_eq!(act, LinkAction::Connect);
        l = c;
    }
    assert_eq!(waits, vec![1, 2, 4, 8, 16, 30, 30]);
    let (ok, _, _) = l.step(LinkEvent::ConnectSucceeded);
    assert_eq!(ok.backoff_secs, 1);
}

#[test]
fn link_reconnects_after_close_and_stops_while_waiting() {
    let (l, _, _) = Link::start();
    let (l, _, _) = l.step(LinkEvent::ConnectSucceeded);
    let (l, st, act) = l.step(LinkEvent::SessionClosed);
    assert_eq!(l.phase, LinkPhase::Connecting);
    assert_eq!(st, vec![LinkStatus::Disconnected]);
    assert_eq!(act, LinkAction::Connect);
    let (l, _, _) = l.step(LinkEvent::ConnectFailed);
    let (l, st, act) = l.step(LinkEvent::StopRequested);
    assert_eq!(l.phase, LinkPhase::Stopped);
    assert_eq!(st, vec![LinkStatus::Stopped]);
    assert_eq!(act, LinkAction::Finish);
    let (l2, st, act) = l.step(LinkEvent::RetryDue);
    assert_eq!(l2, l);
    assert!(st.is_empty());
    assert_eq!(act, LinkAction::Ignore);
}

#[test]
fn status_names() {
    assert_eq!(LinkStatus::ConnectingError.name(), "connecting_error");
    assert_eq!(LinkStatus::Connecting.name(), "connecting");
    assert_eq!(LinkStatus::Connected.name(), "connected");
}

#[test]
fn log_limits() {
    assert_eq!(log_limit(0), 1);
    assert_eq!(log_limit(500), 500);
}

#[test]
fn hop_headers_are_dropped_and_host_set() {
    let h = pairs(&[("Host", "pub"), ("Accept", "*/*"), ("Connection", "upgrade"), ("Upgrade", "websocket"), ("Sec-WebSocket-Key", "k"), ("X-A", "1")]);
    assert_eq!(forwarded_headers(&h, &None), pairs(&[("Accept", "*/*"), ("X-A", "1")]));
    assert_eq!(
        forwarded_headers(&h, &Some("shop.local".to_string())),
        pairs(&[("Accept", "*/*"), ("X-A", "1"), ("Host", "shop.local")])
    );
}

#[test]
fn request_bodies() {
    assert_eq!(decode_request_body(&None), Ok(None));
    assert_eq!(decode_request_body(&Some("aGk=".to_string())), Ok(Some(b"hi".to_vec())));
    let err = decode_request_body(&Some("!!".to_string())).err().unwrap();
    assert!(err.starts_with("Failed to decode request body: "));
}

fn request(method: &str, body: Option<&str>) -> TunnelRequest {
    TunnelRequest {
        id: "r".to_string(),
        method: method.to_string(),
        path: "/p".to_string(),
        headers: pairs(&[("host", "x.relay"), ("accept", "*/*")]),
        body: body.map(|b| b.to_string()),
    }
}

#[test]
fn preparing_local_requests() {
    let plan = prepare_local_request("127.0.0.1:3000", &Some("vhost".to_string()), &request("PUT", Some("aGk="))).ok().unwrap();
    assert_eq!(plan.method.as_str(), "PUT");
    assert_eq!(plan.url, "http://127.0.0.1:3000/p");
    assert_eq!(plan.headers, pairs(&[("accept", "*/*"), ("Host", "vhost")]));
    assert_eq!(plan.body, Some(b"hi".to_vec()));
    let e = prepare_local_request("a", &None, &request("", Some("!!"))).err().unwrap();
    assert_eq!(e, "Invalid HTTP method: invalid HTTP method");
    let e = prepare_local_request("a", &None, &request("GET", Some("!!"))).err().unwrap();
    assert!(e.starts_with("Failed to decode request body"));
}

#[test]
fn error_responses() {
    let r: TunnelResponse = error_response("req9", "boom");
    assert_eq!(r.msg_type, "response");
    assert_eq!(r.id, "req9");
    assert_eq!(r.status, 502);
    assert_eq!(r.headers, pairs(&[("content-type", "text/plain")]));
    // base64 of "LocaGate client error: boom"
    assert_eq!(r.body.unwrap(), "TG9jYUdhdGUgY2xpZW50IGVycm9yOiBib29t");
}

#[test]
fn local_responses() {
    let r = local_response("id".to_string(), 200, pairs(&[("a", "b")]), b"hello");
    assert_eq!(r.msg_type, "response");
    assert_eq!(r.status, 200);
    assert_eq!(r.body, Some("aGVsbG8=".to_string()));
}

#[test]
fn cached_bodies() {
    assert_eq!(cached_body(&None), None);
    assert_eq!(cached_body(&Some("aGk=".to_string())), Some("aGk=".to_string()));
    assert_eq!(cached_body(&Some("%%".to_string())), None);
    let big = "A".repeat(524288 / 3 * 4 + 8);
    assert_eq!(cached_body(&Some(big)), None);
    let limit = "A".repeat(524288 / 3 * 4);
    assert!(cached_body(&Some(limit)).is_some());
}

#[test]
fn request_details() {
    let req = request("GET", None);
    let resp = local_response("r".to_string(), 200, pairs(&[("x", "y")]), b"ok");
    let d = build_request_details(&req, &resp, "dev.local:80", 42);
    assert_eq!(d.url, "https://x.relay/p");
    assert_eq!(d.local_url, "http://dev.local:80/p");
    assert_eq!(d.request_headers, req.headers);
    assert_eq!(d.response_headers, pairs(&[("x", "y")]));
    assert_eq!(d.response_body, Some("b2s=".to_string()));
    assert_eq!(d.timestamp, 42);
}

#[test]
fn large_request_bodies_are_not_cached() {
    let big = "A".repeat(524288 / 3 * 4 + 8);
    let req = request("POST", Some(&big));
    let resp = local_response("r".to_string(), 200, vec![], b"ok");
    let d = build_request_details(&req, &resp, "dev.local:80", 1);
    assert_eq!(d.request_body, None);
    let small = request("POST", Some("aGk="));
    let d = build_request_details(&small, &resp, "dev.local:80", 1);
    assert_eq!(d.request_body, Some("aGk=".to_string()));
}

#[test]
fn the_relayed_method_is_sent() {
    for m in ["PATCH", "GET", "PROPFIND", "M-SEARCH"] {
        let plan = prepare_local_request("a", &None, &request(m, None)).ok().unwrap();
        assert_eq!(plan.method, m);
    }
    for bad in ["GÉT", "GET POST", "(x)"] {
        let e = prepare_local_request("a", &None, &request(bad, None)).err().unwrap();
        assert_eq!(e, "Invalid HTTP method: invalid HTTP method");
    }
}

#[test]
fn response_bodies_decode_back() {
    let r = error_response("id", "boom");
    let decoded = decode_request_body(&r.body).ok().unwrap().unwrap();
    assert_eq!(decoded, b"LocaGate client error: boom".to_vec());
    let r = local_response("id".to_string(), 200, vec![], b"\x00\xffbytes");
    assert_eq!(decode_request_body(&r.body).ok().unwrap().unwrap(), b"\x00\xffbytes".to_vec());
}

#[test]
fn status_sequence_of_a_long_run() {
    let events = [
        LinkEvent::StopRequested,
        LinkEvent::ConnectFailed,
        LinkEvent::RetryDue,
        LinkEvent::ConnectSucceeded,
        LinkEvent::SessionClosed,
        LinkEvent::ConnectSucceeded,
        LinkEvent::StopRequested,
        LinkEvent::ConnectSucceeded,
    ];
    let (mut l, mut trace, _) = Link::start();
    for e in events {
        let (next, st, _) = l.step(e);
        trace.extend(st);
        l = next;
    }
    let names: Vec<String> = trace.iter().map(|s| s.name()).collect();
    assert_eq!(
        names,
        vec!["connecting", "connecting_error", "connected", "disconnected", "connected", "disconnected", "stopped"]
    );
    assert_eq!(l.phase, LinkPhase::Stopped);
}
