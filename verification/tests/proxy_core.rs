use pinproxy::headers::{filter_inbound, filter_outbound, Header};
use pinproxy::lifecycle::{Phase, RequestLifecycle};
use pinproxy::record::{completion_record, format_log_line, u16_decimal, LogRecord};
use pinproxy::routing::{announce_line, parse_u16, resolve};

fn header(name: &[u8], value: &[u8]) -> Header {
    Header { name: name.to_vec(), value: value.to_vec() }
}

#[test]
fn resolve_host_and_port() {
    let host = b"api.internal:9090".to_vec();
    let t = resolve(Some(&host));
    assert_eq!(t.hostname, b"api.internal".to_vec());
    assert_eq!(t.port, 9090);
    assert!(!t.tls);
    assert_eq!(t.sni, b"api.internal".to_vec());
}

#[test]
fn resolve_host_without_colon() {
    let host = b"svc".to_vec();
    let t = resolve(Some(&host));
    assert_eq!(t.hostname, b"svc".to_vec());
    assert_eq!(t.port, 80);
    assert!(!t.tls);
    assert_eq!(t.sni, b"svc".to_vec());
}

#[test]
fn resolve_unparsable_port_falls_back() {
    let host = b"svc:abc".to_vec();
    let t = resolve(Some(&host));
    assert_eq!(t.hostname, b"svc".to_vec());
    assert_eq!(t.port, 80);
    assert!(!t.tls);
}

#[test]
fn resolve_absent_host_uses_fallback() {
    let t = resolve(None);
    assert_eq!(t.hostname, b"example.com".to_vec());
    assert_eq!(t.port, 80);
    assert!(!t.tls);
    assert_eq!(t.sni, b"example.com".to_vec());
}

#[test]
fn resolve_splits_at_first_colon() {
    // Everything after the first colon is the port text; `90:90` is not a
    // number, so the port falls back to 80.
    let host = b"svc:90:90".to_vec();
    let t = resolve(Some(&host));
    assert_eq!(t.hostname, b"svc".to_vec());
    assert_eq!(t.port, 80);
}

#[test]
fn resolve_port_out_of_range_falls_back() {
    let host = b"svc:70000".to_vec();
    let t = resolve(Some(&host));
    assert_eq!(t.hostname, b"svc".to_vec());
    assert_eq!(t.port, 80);
}

#[test]
fn resolve_empty_port_text_falls_back() {
    let host = b"svc:".to_vec();
    let t = resolve(Some(&host));
    assert_eq!(t.hostname, b"svc".to_vec());
    assert_eq!(t.port, 80);
}

#[test]
fn resolve_empty_host_part() {
    let host = b":8080".to_vec();
    let t = resolve(Some(&host));
    assert_eq!(t.hostname, b"".to_vec());
    assert_eq!(t.port, 8080);
}

#[test]
fn parse_u16_accepts_what_rust_accepts() {
    assert_eq!(parse_u16(&b"0".to_vec()), Some(0));
    assert_eq!(parse_u16(&b"80".to_vec()), Some(80));
    assert_eq!(parse_u16(&b"08".to_vec()), Some(8));
    assert_eq!(parse_u16(&b"65535".to_vec()), Some(65535));
    assert_eq!(parse_u16(&b"+9090".to_vec()), Some(9090));
}

#[test]
fn parse_u16_rejects_what_rust_rejects() {
    assert_eq!(parse_u16(&b"".to_vec()), None);
    assert_eq!(parse_u16(&b"+".to_vec()), None);
    assert_eq!(parse_u16(&b"65536".to_vec()), None);
    assert_eq!(parse_u16(&b"999999".to_vec()), None);
    assert_eq!(parse_u16(&b"-1".to_vec()), None);
    assert_eq!(parse_u16(&b"8a".to_vec()), None);
    assert_eq!(parse_u16(&b" 80".to_vec()), None);
}

// Mirrors of Rust's own `u16` parsing, which the routing policy falls
// back from.
#[test]
fn parse_u16_agrees_with_str_parse() {
    for text in ["0", "80", "08", "+9090", "65535", "65536", "", "+", "abc", "9 0"] {
        let expect = text.parse::<u16>().ok();
        assert_eq!(parse_u16(&text.as_bytes().to_vec()), expect, "input {:?}", text);
    }
}

#[test]
fn outbound_filter_strips_proxy_connection() {
    let mut hs = vec![
        header(b"Proxy-Connection", b"keep-alive"),
        header(b"Accept", b"*/*"),
    ];
    filter_outbound(&mut hs);
    assert_eq!(hs.len(), 1);
    assert_eq!(hs[0].name, b"Accept".to_vec());
    assert_eq!(hs[0].value, b"*/*".to_vec());
}

#[test]
fn outbound_filter_matches_case_insensitively() {
    let mut hs = vec![
        header(b"pRoXy-CoNnEcTiOn", b"close"),
        header(b"Host", b"svc"),
        header(b"PROXY-CONNECTION", b"keep-alive"),
    ];
    filter_outbound(&mut hs);
    assert_eq!(hs.len(), 1);
    assert_eq!(hs[0].name, b"Host".to_vec());
}

#[test]
fn outbound_filter_is_noop_without_the_header() {
    let mut hs = vec![
        header(b"Accept", b"*/*"),
        header(b"Host", b"svc"),
        header(b"Accept", b"text/html"),
    ];
    filter_outbound(&mut hs);
    assert_eq!(hs.len(), 3);
    assert_eq!(hs[0].name, b"Accept".to_vec());
    assert_eq!(hs[0].value, b"*/*".to_vec());
    assert_eq!(hs[1].name, b"Host".to_vec());
    assert_eq!(hs[2].name, b"Accept".to_vec());
    assert_eq!(hs[2].value, b"text/html".to_vec());
}

#[test]
fn inbound_filter_adds_the_header() {
    let mut hs = vec![header(b"Content-Type", b"text/plain")];
    filter_inbound(&mut hs);
    assert_eq!(hs.len(), 2);
    assert_eq!(hs[0].name, b"Content-Type".to_vec());
    assert_eq!(hs[1].name, b"X-Proxy-Server".to_vec());
    assert_eq!(hs[1].value, b"pinproxy".to_vec());
}

#[test]
fn inbound_filter_replaces_an_existing_header() {
    let mut hs = vec![
        header(b"x-proxy-server", b"other"),
        header(b"Content-Length", b"12"),
    ];
    filter_inbound(&mut hs);
    let stamped: Vec<&Header> = hs
        .iter()
        .filter(|h| h.name.eq_ignore_ascii_case(b"x-proxy-server"))
        .collect();
    assert_eq!(stamped.len(), 1);
    assert_eq!(stamped[0].value, b"pinproxy".to_vec());
    assert_eq!(hs.len(), 2);
    assert_eq!(hs[0].name, b"Content-Length".to_vec());
    assert_eq!(hs[1].name, b"X-Proxy-Server".to_vec());
}

#[test]
fn completion_record_keeps_the_status() {
    let r = completion_record(
        b"1.2.3.4:5678".to_vec(),
        b"GET".to_vec(),
        b"/path".to_vec(),
        Some(200),
    );
    assert_eq!(r.client, b"1.2.3.4:5678".to_vec());
    assert_eq!(r.method, b"GET".to_vec());
    assert_eq!(r.uri, b"/path".to_vec());
    assert_eq!(r.status, 200);
}

#[test]
fn completion_record_uses_zero_without_a_response() {
    let r = completion_record(b"c".to_vec(), b"GET".to_vec(), b"/".to_vec(), None);
    assert_eq!(r.status, 0);
}

#[test]
fn decimal_rendering_is_exact() {
    assert_eq!(u16_decimal(0), b"0".to_vec());
    assert_eq!(u16_decimal(7), b"7".to_vec());
    assert_eq!(u16_decimal(80), b"80".to_vec());
    assert_eq!(u16_decimal(200), b"200".to_vec());
    assert_eq!(u16_decimal(65535), b"65535".to_vec());
}

#[test]
fn log_line_is_rendered_exactly() {
    let r = LogRecord {
        client: b"1.2.3.4:5678".to_vec(),
        method: b"GET".to_vec(),
        uri: b"/path".to_vec(),
        status: 200,
    };
    assert_eq!(format_log_line(&r), b"1.2.3.4:5678 GET /path - Status: 200".to_vec());
}

#[test]
fn log_line_with_sentinel_status() {
    let r = LogRecord {
        client: b"unknown".to_vec(),
        method: b"POST".to_vec(),
        uri: b"/submit".to_vec(),
        status: 0,
    };
    assert_eq!(format_log_line(&r), b"unknown POST /submit - Status: 0".to_vec());
}

#[test]
fn announce_line_names_the_host() {
    let host = b"api.internal:9090".to_vec();
    assert_eq!(
        announce_line(Some(&host)),
        b"Proxying request to: api.internal:9090".to_vec()
    );
    assert_eq!(
        announce_line(None),
        b"Proxying request to: example.com:80".to_vec()
    );
}

#[test]
fn lifecycle_full_walk() {
    let mut lc = RequestLifecycle::begin();
    assert!(lc.phase_is(Phase::Init));

    let _ctx = lc.create_context();
    assert!(lc.phase_is(Phase::ContextCreated));

    let host = b"api.internal:9090".to_vec();
    let t = lc.resolve_peer(Some(&host));
    assert!(lc.phase_is(Phase::PeerResolved));
    assert_eq!(t.hostname, b"api.internal".to_vec());
    assert_eq!(t.port, 9090);
    assert!(!t.tls);

    let mut req = vec![
        header(b"Proxy-Connection", b"keep-alive"),
        header(b"Accept", b"*/*"),
    ];
    lc.filter_request(&mut req);
    assert!(lc.phase_is(Phase::RequestFiltered));
    assert_eq!(req.len(), 1);
    assert_eq!(req[0].name, b"Accept".to_vec());

    lc.mark_forwarded();
    assert!(lc.phase_is(Phase::Forwarded));

    let mut resp = vec![header(b"Content-Type", b"text/plain")];
    lc.filter_response(&mut resp);
    assert!(lc.phase_is(Phase::ResponseFiltered));
    assert_eq!(resp.last().unwrap().name, b"X-Proxy-Server".to_vec());
    assert_eq!(resp.last().unwrap().value, b"pinproxy".to_vec());

    let rec = lc.complete(
        b"1.2.3.4:5678".to_vec(),
        b"GET".to_vec(),
        b"/".to_vec(),
        Some(200),
    );
    assert!(lc.phase_is(Phase::Completed));
    assert_eq!(rec.status, 200);
}

#[test]
fn lifecycle_completes_after_transport_failure() {
    // The upstream exchange produced no response: the response filter is
    // skipped and completion still fires, with the sentinel status.
    let mut lc = RequestLifecycle::begin();
    let _ctx = lc.create_context();
    let host = b"svc".to_vec();
    let _t = lc.resolve_peer(Some(&host));
    let mut req: Vec<Header> = vec![header(b"Accept", b"*/*")];
    lc.filter_request(&mut req);
    lc.mark_forwarded();

    let rec = lc.complete(b"c".to_vec(), b"GET".to_vec(), b"/x".to_vec(), None);
    assert!(lc.phase_is(Phase::Completed));
    assert_eq!(rec.status, 0);
    assert_eq!(format_log_line(&rec), b"c GET /x - Status: 0".to_vec());
}
