use terax::net::{
    ai_http_request, ai_http_stream, build_request, classify_host, enforce_host_policy,
    header_map_to_strings, ip_kind, is_blocked_host_name, lm_ping, redirect_action,
    sanitize_headers, stream_chunk, stream_failure, stream_opened, validate_url, AiStreamEvent,
    ClientPolicy, HostAddress, IpAddress, IpKind, NetStep, RedirectAction, StreamStep, UrlParts,
};

fn v4(a: u8, b: u8, c: u8, d: u8) -> IpAddress {
    IpAddress::V4(a, b, c, d)
}

fn v6(s: [u16; 8]) -> IpAddress {
    IpAddress::V6(s[0], s[1], s[2], s[3], s[4], s[5], s[6], s[7])
}

fn pairs(items: &[(&str, &str)]) -> Vec<(String, String)> {
    items.iter().map(|(k, v)| (k.to_string(), v.to_string())).collect()
}

fn parts(url: &str) -> UrlParts {
    validate_url(url).unwrap().parts
}

#[test]
fn metadata_host_names_are_blocked_in_any_case() {
    assert!(is_blocked_host_name("metadata.google.internal"));
    assert!(is_blocked_host_name("METADATA"));
    assert!(is_blocked_host_name("Metadata.Azure.Com"));
    assert!(!is_blocked_host_name("metadata.example.com"));
}

#[test]
fn ipv4_kinds() {
    assert_eq!(ip_kind(v4(169, 254, 169, 254)), IpKind::BlockedMetadata);
    assert_eq!(ip_kind(v4(127, 0, 0, 1)), IpKind::Loopback);
    assert_eq!(ip_kind(v4(0, 0, 0, 0)), IpKind::Loopback);
    assert_eq!(ip_kind(v4(255, 255, 255, 255)), IpKind::Loopback);
    assert_eq!(ip_kind(v4(224, 0, 0, 1)), IpKind::Loopback);
    assert_eq!(ip_kind(v4(10, 1, 2, 3)), IpKind::Private);
    assert_eq!(ip_kind(v4(172, 16, 0, 1)), IpKind::Private);
    assert_eq!(ip_kind(v4(172, 31, 255, 1)), IpKind::Private);
    assert_eq!(ip_kind(v4(172, 32, 0, 1)), IpKind::Public);
    assert_eq!(ip_kind(v4(192, 168, 1, 1)), IpKind::Private);
    assert_eq!(ip_kind(v4(100, 64, 0, 1)), IpKind::Private);
    assert_eq!(ip_kind(v4(100, 128, 0, 1)), IpKind::Public);
    assert_eq!(ip_kind(v4(198, 18, 0, 1)), IpKind::Private);
    assert_eq!(ip_kind(v4(198, 20, 0, 1)), IpKind::Public);
    assert_eq!(ip_kind(v4(8, 8, 8, 8)), IpKind::Public);
}

#[test]
fn ipv6_kinds() {
    assert_eq!(ip_kind(v6([0, 0, 0, 0, 0, 0, 0, 1])), IpKind::Loopback);
    assert_eq!(ip_kind(v6([0; 8])), IpKind::Loopback);
    assert_eq!(ip_kind(v6([0xff02, 0, 0, 0, 0, 0, 0, 1])), IpKind::Loopback);
    assert_eq!(ip_kind(v6([0xfd00, 0xec2, 0, 0, 0, 0, 0, 0x254])), IpKind::BlockedMetadata);
    assert_eq!(ip_kind(v6([0xfe80, 0, 0, 0, 0, 0, 0, 1])), IpKind::BlockedMetadata);
    assert_eq!(ip_kind(v6([0xfebf, 0, 0, 0, 0, 0, 0, 1])), IpKind::BlockedMetadata);
    assert_eq!(ip_kind(v6([0xfc00, 0, 0, 0, 0, 0, 0, 1])), IpKind::Private);
    assert_eq!(ip_kind(v6([0xfd12, 0, 0, 0, 0, 0, 0, 1])), IpKind::Private);
    assert_eq!(ip_kind(v6([0x2001, 0xdb8, 0, 0, 0, 0, 0, 1])), IpKind::Public);
}

#[test]
fn resolved_hosts_take_the_worst_kind() {
    let r = classify_host(&HostAddress::Resolved(Ok(vec![v4(8, 8, 8, 8), v4(10, 0, 0, 1), v4(127, 0, 0, 1)])));
    assert_eq!(r, Ok(IpKind::Private));
    let r = classify_host(&HostAddress::Resolved(Ok(vec![v4(127, 0, 0, 1), v4(10, 0, 0, 1), v4(169, 254, 169, 254)])));
    assert_eq!(r, Ok(IpKind::BlockedMetadata));
    let r = classify_host(&HostAddress::Resolved(Ok(vec![v4(1, 1, 1, 1), v4(8, 8, 4, 4)])));
    assert_eq!(r, Ok(IpKind::Public));
    assert_eq!(classify_host(&HostAddress::Resolved(Ok(vec![]))), Err("dns: no addresses".to_string()));
    assert_eq!(
        classify_host(&HostAddress::Resolved(Err("failed to lookup address".into()))),
        Err("dns: failed to lookup address".to_string())
    );
    assert_eq!(classify_host(&HostAddress::Literal(v4(192, 168, 0, 2))), Ok(IpKind::Private));
}

#[test]
fn host_policy_messages() {
    assert_eq!(enforce_host_policy("h", Ok(IpKind::Public), false), Ok(()));
    assert_eq!(enforce_host_policy("h", Ok(IpKind::Private), true), Ok(()));
    assert_eq!(
        enforce_host_policy("10.0.0.1", Ok(IpKind::Private), false),
        Err("host 10.0.0.1 resolves to a private/loopback address; this endpoint requires explicit opt-in".to_string())
    );
    assert!(enforce_host_policy("localhost", Ok(IpKind::Loopback), false).is_err());
    assert_eq!(
        enforce_host_policy("169.254.169.254", Ok(IpKind::BlockedMetadata), true),
        Err("host not allowed: 169.254.169.254".to_string())
    );
    assert_eq!(enforce_host_policy("h", Err("dns: x".into()), true), Err("dns: x".to_string()));
}

#[test]
fn urls_are_validated() {
    let ok = validate_url("https://api.example.com/v1/chat").unwrap();
    assert_eq!(ok.host, "api.example.com");
    assert_eq!(ok.parts.href, "https://api.example.com/v1/chat");
    assert_eq!(ok.url.as_str(), "https://api.example.com/v1/chat");
    assert_eq!(validate_url("ftp://example.com/").err().as_deref(), Some("scheme not allowed: ftp"));
    assert_eq!(validate_url("file:///etc/passwd").err().as_deref(), Some("scheme not allowed: file"));
    assert_eq!(
        validate_url("https://user:pw@example.com/").err().as_deref(),
        Some("userinfo in url is not allowed")
    );
    assert_eq!(
        validate_url("http://Metadata.Google.Internal/computeMetadata").err().as_deref(),
        Some("host not allowed: metadata.google.internal")
    );
    assert_eq!(
        validate_url("not a url").err().as_deref(),
        Some("invalid url: relative URL without a base")
    );
}

#[test]
fn headers_are_sanitized() {
    assert_eq!(sanitize_headers(None), Ok(vec![]));
    let out = sanitize_headers(Some(pairs(&[("Content-Type", "application/json"), ("X-Api-Key", "k\tv é")]))).unwrap();
    assert_eq!(out, pairs(&[("content-type", "application/json"), ("x-api-key", "k\tv é")]));
    assert_eq!(
        sanitize_headers(Some(pairs(&[("A", "1"), ("Host", "evil")]))),
        Err("header not allowed: Host".to_string())
    );
    assert_eq!(
        sanitize_headers(Some(pairs(&[("Transfer-Encoding", "chunked")]))),
        Err("header not allowed: Transfer-Encoding".to_string())
    );
    assert_eq!(
        sanitize_headers(Some(pairs(&[("X", "a\r\nInjected: 1")]))),
        Err("header value contains control bytes: X".to_string())
    );
    assert_eq!(
        sanitize_headers(Some(pairs(&[("bad name", "v")]))),
        Err("invalid HTTP header name".to_string())
    );
    assert_eq!(sanitize_headers(Some(pairs(&[("", "v")]))), Err("invalid HTTP header name".to_string()));
    assert_eq!(
        sanitize_headers(Some(pairs(&[("X", "bell\u{7}")]))),
        Err("failed to parse header value".to_string())
    );
}

#[test]
fn requests_check_method_then_headers() {
    let p = build_request("POST", Some(pairs(&[("Accept", "*/*")])), Some(vec![1, 2])).unwrap();
    assert_eq!(p.method, "POST");
    assert_eq!(p.headers, pairs(&[("accept", "*/*")]));
    assert_eq!(p.body, Some(vec![1, 2]));
    assert_eq!(build_request("PROPFIND", None, None).unwrap().method, "PROPFIND");
    assert_eq!(
        build_request("GET /", Some(pairs(&[("Host", "x")])), None).err().as_deref(),
        Some("invalid HTTP method")
    );
    assert_eq!(build_request("", None, None).err().as_deref(), Some("invalid HTTP method"));
    assert_eq!(
        build_request("GET", Some(pairs(&[("Host", "x")])), None).err().as_deref(),
        Some("header not allowed: Host")
    );
}

#[test]
fn response_headers_become_text() {
    let entries = vec![
        ("content-type".to_string(), b"text/plain".to_vec()),
        ("set-cookie".to_string(), b"a=1".to_vec()),
        ("set-cookie".to_string(), b"b=2".to_vec()),
        ("x-binary".to_string(), vec![0xff, 0x41]),
        ("X-Upper".to_string(), b"v".to_vec()),
    ];
    let mut out = header_map_to_strings(&entries);
    out.sort();
    assert_eq!(
        out,
        pairs(&[("content-type", "text/plain"), ("set-cookie", "b=2"), ("x-upper", "v")])
    );
}

#[test]
fn redirects_follow_the_policy() {
    let next = parts("https://example.com/a");
    assert_eq!(redirect_action(0, &next, None, Some(Some("example.com".into())), false), RedirectAction::Follow);
    assert_eq!(redirect_action(11, &next, None, None, true), RedirectAction::TooMany);
    assert_eq!(redirect_action(10, &next, None, None, true), RedirectAction::Follow);
    assert_eq!(
        redirect_action(1, &next, None, Some(Some("other.com".into())), false),
        RedirectAction::Stop
    );
    assert_eq!(
        redirect_action(1, &next, None, Some(Some("other.com".into())), true),
        RedirectAction::Follow
    );
    assert_eq!(redirect_action(1, &next, None, Some(None), false), RedirectAction::Stop);
    let ip = parts("http://10.0.0.5/");
    assert_eq!(redirect_action(1, &ip, Some(v4(10, 0, 0, 5)), None, false), RedirectAction::Stop);
    assert_eq!(redirect_action(1, &ip, Some(v4(10, 0, 0, 5)), None, true), RedirectAction::Follow);
    let meta = parts("http://169.254.169.254/");
    assert_eq!(redirect_action(1, &meta, Some(v4(169, 254, 169, 254)), None, true), RedirectAction::Stop);
    let mut ftp = parts("https://example.com/");
    ftp.scheme = "ftp".into();
    assert_eq!(redirect_action(1, &ftp, None, None, true), RedirectAction::Stop);
    let mut user = parts("https://example.com/");
    user.username = "u".into();
    assert_eq!(redirect_action(1, &user, None, None, true), RedirectAction::Stop);
}

#[test]
fn lm_ping_probes_models_after_lookup() {
    match lm_ping("  http://localhost:1234/v1/// ", None) {
        NetStep::Lookup { host } => assert_eq!(host, "localhost"),
        _ => panic!("expected a lookup"),
    }
    let lookup = HostAddress::Resolved(Ok(vec![v4(127, 0, 0, 1)]));
    match lm_ping("  http://localhost:1234/v1/// ", Some(&lookup)) {
        NetStep::Send(r) => {
            assert_eq!(r.href, "http://localhost:1234/v1/models");
            assert_eq!(r.method, "GET");
            assert!(r.headers.is_empty());
            assert!(r.body.is_none());
            assert_eq!(r.client, ClientPolicy::Probe);
        }
        _ => panic!("expected a send"),
    }
    match lm_ping(" / ", None) {
        NetStep::Fail { message, .. } => assert_eq!(message, "empty base url"),
        _ => panic!("expected a failure"),
    }
    let meta = HostAddress::Literal(v4(169, 254, 169, 254));
    match lm_ping("http://169.254.169.254", Some(&meta)) {
        NetStep::Fail { message, .. } => assert_eq!(message, "host not allowed: 169.254.169.254"),
        _ => panic!("expected a failure"),
    }
}

#[test]
fn proxied_requests_need_opt_in_for_private_hosts() {
    let lookup = HostAddress::Literal(v4(192, 168, 1, 20));
    match ai_http_request("http://192.168.1.20:11434/api", "POST", None, None, None, Some(&lookup)) {
        NetStep::Fail { message, notify } => {
            assert_eq!(
                message,
                "host 192.168.1.20 resolves to a private/loopback address; this endpoint requires explicit opt-in"
            );
            assert!(notify);
        }
        _ => panic!("expected a failure"),
    }
    match ai_http_request(
        "http://192.168.1.20:11434/api",
        "POST",
        Some(pairs(&[("Content-Type", "application/json")])),
        Some(b"{}".to_vec()),
        Some(true),
        Some(&lookup),
    ) {
        NetStep::Send(r) => {
            assert_eq!(r.method, "POST");
            assert_eq!(r.headers, pairs(&[("content-type", "application/json")]));
            assert_eq!(r.body, Some(b"{}".to_vec()));
            assert_eq!(r.client, ClientPolicy::Proxy { allow_private: true });
        }
        _ => panic!("expected a send"),
    }
    match ai_http_stream("https://api.example.com/", "BAD METHOD", None, None, None, Some(&HostAddress::Literal(v4(1, 1, 1, 1)))) {
        NetStep::Fail { message, notify } => {
            assert_eq!(message, "invalid HTTP method");
            assert!(!notify);
        }
        _ => panic!("expected a failure"),
    }
    match ai_http_stream("gopher://x", "GET", None, None, None, None) {
        NetStep::Fail { message, notify } => {
            assert_eq!(message, "scheme not allowed: gopher");
            assert!(notify);
        }
        _ => panic!("expected a failure"),
    }
}

#[test]
fn stream_events_follow_the_response() {
    match stream_opened(Ok((200, pairs(&[("a", "b")])))) {
        StreamStep::Emit { event: AiStreamEvent::Headers { status, headers }, stop_if_undelivered } => {
            assert_eq!(status, 200);
            assert_eq!(headers, pairs(&[("a", "b")]));
            assert!(!stop_if_undelivered);
        }
        _ => panic!("expected headers"),
    }
    match stream_opened(Err("connect refused".into())) {
        StreamStep::EmitAndFail { event: AiStreamEvent::Error { message: m }, message } => {
            assert_eq!(m, "connect refused");
            assert_eq!(message, "connect refused");
        }
        _ => panic!("expected a failure"),
    }
    match stream_chunk(Some(Ok(vec![1, 2, 3]))) {
        StreamStep::Emit { event: AiStreamEvent::Chunk { bytes }, stop_if_undelivered } => {
            assert_eq!(bytes, vec![1, 2, 3]);
            assert!(stop_if_undelivered);
        }
        _ => panic!("expected a chunk"),
    }
    assert!(matches!(stream_chunk(None), StreamStep::EmitAndEnd { event: AiStreamEvent::End }));
    assert!(matches!(
        stream_chunk(Some(Err("reset".into()))),
        StreamStep::EmitAndFail { event: AiStreamEvent::Error { .. }, ref message } if message == "reset"
    ));
    assert!(matches!(stream_failure("x"), AiStreamEvent::Error { ref message } if message == "x"));
}
