use utopia_server::fetch::bypass_proxy;
use utopia_server::fetch::{hop_start, hop_step, next_url, HopStep};
use std::time::Duration;
use utopia_server::fetch::{admit_addresses, hop_allowed, is_public_ip, mime_of, over_cap, parse, FetchError, Ip, Limits, Reach};

fn v4_parts(s: &str) -> [u8; 4] {
    let v: Vec<u8> = s.split('.').map(|x| x.parse().unwrap()).collect();
    [v[0], v[1], v[2], v[3]]
}

fn ip(s: &str) -> Ip {
    if !s.contains(':') {
        let [a, b, c, d] = v4_parts(s);
        return Ip::V4(a, b, c, d);
    }
    let mut tail: Vec<u16> = Vec::new();
    let (head_text, tail_text) = match s.split_once("::") {
        Some((h, t)) => (h, Some(t)),
        None => (s, None),
    };
    let mut groups = |text: &str, out: &mut Vec<u16>| {
        for g in text.split(':').filter(|g| !g.is_empty()) {
            if g.contains('.') {
                let [a, b, c, d] = v4_parts(g);
                out.push(u16::from(a) << 8 | u16::from(b));
                out.push(u16::from(c) << 8 | u16::from(d));
            } else {
                out.push(u16::from_str_radix(g, 16).unwrap());
            }
        }
    };
    let mut head: Vec<u16> = Vec::new();
    groups(head_text, &mut head);
    if let Some(t) = tail_text {
        groups(t, &mut tail);
    }
    let mut seg = head.clone();
    while seg.len() + tail.len() < 8 {
        seg.push(0);
    }
    seg.extend(tail);
    Ip::V6(seg[0], seg[1], seg[2], seg[3], seg[4], seg[5], seg[6], seg[7])
}

#[test]
fn the_addresses_a_fetch_must_refuse() {
    for blocked in [
        "127.0.0.1",
        "0.0.0.0",
        "10.1.2.3",
        "172.16.0.1",
        "192.168.1.5",
        "169.254.169.254",
        "100.64.0.1",
        "192.0.0.1",
        "198.18.0.1",
        "224.0.0.1",
        "::1",
        "fc00::1",
        "fe80::1",
        "::ffff:127.0.0.1",
        "64:ff9b::7f00:1",
        "2002:7f00:1::",
    ] {
        assert!(!is_public_ip(&ip(blocked)), "{blocked} 该被拦下");
    }
}

#[test]
fn the_addresses_a_fetch_must_still_allow() {
    for allowed in [
        "1.1.1.1",
        "8.8.8.8",
        "192.0.1.1",
        "192.88.98.1",
        "2606:4700::1111",
        "2002:0808:0808::",
    ] {
        assert!(is_public_ip(&ip(allowed)), "{allowed} 不该被拦");
    }
}

#[test]
fn only_http_and_https_are_fetched() {
    assert!(parse("file:///etc/passwd").is_err());
    assert!(parse("gopher://example.com/").is_err());
    assert!(parse("https://example.com/a").is_ok());
}

#[test]
fn the_scheme_refusal_names_the_scheme_and_the_text_is_trimmed() {
    match parse("  gopher://example.com/  ") {
        Err(FetchError::UnsupportedScheme(s)) => assert_eq!(s, "gopher"),
        other => panic!("{other:?}"),
    }
    match parse("not a url") {
        Err(FetchError::InvalidUrl(_)) => {}
        other => panic!("{other:?}"),
    }
    let ok = parse("  http://example.com/x ").unwrap();
    assert_eq!(ok.scheme, "http");
    assert_eq!(ok.host.as_deref(), Some("example.com"));
}

#[test]
fn documentation_and_broadcast_blocks_are_not_public() {
    for blocked in ["192.0.2.1", "198.51.100.9", "203.0.113.7", "255.255.255.255", "2001:db8::1", "ff02::1", "::"] {
        assert!(!is_public_ip(&ip(blocked)), "{blocked}");
    }
    assert!(is_public_ip(&ip("172.32.0.1")));
    assert!(is_public_ip(&ip("100.128.0.1")));
}

#[test]
fn content_reach_refuses_a_host_with_any_private_address() {
    let mixed = vec![ip("8.8.8.8"), ip("10.0.0.1"), ip("127.0.0.1")];
    match admit_addresses("mixed.example", Reach::Content, &mixed) {
        Err(FetchError::BlockedAddress(a)) => assert_eq!(a, ip("10.0.0.1")),
        other => panic!("{other:?}"),
    }
    let admitted = admit_addresses("mixed.example", Reach::Operator, &mixed).unwrap();
    assert_eq!(admitted, mixed);
}

#[test]
fn an_unresolvable_host_is_a_dns_error_and_duplicates_are_dropped() {
    match admit_addresses("nowhere.example", Reach::Operator, &vec![]) {
        Err(FetchError::Dns(h)) => assert_eq!(h, "nowhere.example"),
        other => panic!("{other:?}"),
    }
    let twice = vec![ip("8.8.8.8"), ip("1.1.1.1"), ip("8.8.8.8")];
    let admitted = admit_addresses("dup.example", Reach::Content, &twice).unwrap();
    assert_eq!(admitted, vec![ip("8.8.8.8"), ip("1.1.1.1")]);
}

#[test]
fn a_redirect_may_not_step_down_or_into_the_private_network() {
    let public = vec![ip("8.8.8.8")];
    let private = vec![ip("10.0.0.1")];
    assert!(!hop_allowed("https", "http", Some(&public), &public));
    assert!(hop_allowed("http", "https", Some(&public), &public));
    assert!(!hop_allowed("https", "https", Some(&public), &private));
    assert!(!hop_allowed("https", "https", None, &private));
    assert!(hop_allowed("http", "http", Some(&private), &private));
}

#[test]
fn limits_default_and_a_new_deadline_keeps_the_rest() {
    let d = Limits::default();
    assert_eq!(d.max_bytes, 16 * 1024 * 1024);
    assert_eq!(d.max_redirects, 5);
    assert_eq!(d.connect_timeout, Duration::from_secs(10));
    assert_eq!(d.overall_timeout, Duration::from_secs(30));
    let e = d.with_overall(Duration::from_secs(3));
    assert_eq!(e.overall_timeout, Duration::from_secs(3));
    assert_eq!(e.max_bytes, d.max_bytes);
    assert_eq!(e.max_redirects, d.max_redirects);
    assert_eq!(e.connect_timeout, d.connect_timeout);
}

#[test]
fn the_media_type_is_read_from_the_header() {
    assert_eq!(mime_of(Some("Text/HTML; charset=UTF-8")), "text/html");
    assert_eq!(mime_of(Some("  application/JSON ")), "application/json");
    assert_eq!(mime_of(None), "application/octet-stream");
    assert_eq!(mime_of(Some("")), "");
}

#[test]
fn a_body_past_the_cap_is_refused() {
    assert!(over_cap(Some(4096), 0, 0, 1024), "an announced length past the cap is refused before reading");
    assert!(!over_cap(Some(1024), 0, 0, 1024));
    assert!(!over_cap(None, 1000, 24, 1024));
    assert!(over_cap(None, 1000, 25, 1024));
    assert!(over_cap(None, 0, usize::MAX, 1024));
}

#[test]
fn the_url_handed_on_is_the_parsed_one() {
    let u = parse("  HTTPS://Example.COM:443/a b?q=1  ").unwrap();
    assert_eq!(u.text, "https://example.com/a%20b?q=1");
    assert_eq!(u.scheme, "https");
    assert_eq!(u.host.as_deref(), Some("example.com"));
}

#[test]
fn a_redirect_chain_ends_instead_of_looping_step_by_step() {
    assert!(hop_start(0, 2, true).is_ok());
    assert!(hop_start(2, 2, true).is_ok());
    assert!(matches!(hop_start(3, 2, true), Err(FetchError::RedirectLimit)));
    assert!(matches!(hop_start(1, 2, false), Err(FetchError::Status(408))));
    assert!(matches!(hop_step(2, 2, 302, Some("/next")), HopStep::Fail(FetchError::RedirectLimit)));
    match hop_step(1, 2, 301, Some("/next")) {
        HopStep::Follow(l) => assert_eq!(l, "/next"),
        other => panic!("{other:?}"),
    }
    match hop_step(0, 2, 307, None) {
        HopStep::Fail(FetchError::BlockedRedirect(s)) => assert_eq!(s, "(no location)"),
        other => panic!("{other:?}"),
    }
    assert!(matches!(hop_step(0, 2, 200, None), HopStep::Read));
    assert!(matches!(hop_step(0, 2, 404, None), HopStep::Fail(FetchError::Status(404))));
    let n = next_url("https://example.com/a/b", "../c?x=1").unwrap();
    assert_eq!(n.text, "https://example.com/c?x=1");
    assert_eq!(n.host.as_deref(), Some("example.com"));
    match next_url("https://example.com/", "http://[::1") {
        Err(FetchError::BlockedRedirect(s)) => assert_eq!(s, "http://[::1"),
        other => panic!("{other:?}"),
    }
}

#[test]
fn a_private_address_skips_the_proxy() {
    assert!(!bypass_proxy(&vec![Ip::V4(93, 184, 216, 34)]));
    assert!(bypass_proxy(&vec![Ip::V4(93, 184, 216, 34), Ip::V4(10, 0, 0, 5)]));
    assert!(bypass_proxy(&vec![Ip::V6(0, 0, 0, 0, 0, 0, 0, 1)]));
    assert!(!bypass_proxy(&vec![]));
}
