use global_proxy::dispatch::{dispatch, is_loop_header, Decision, Reply};
use global_proxy::forward::{
    collect_forward_headers, derive_workspace_scope_from_headers, head_fallback_headers,
    needs_get_fallback, outbound_request_headers, upstream_endpoint, upstream_url,
    websocket_scheme, HttpMethod,
};
use global_proxy::headers::{
    add_cors_headers, cors_response_headers, head_response_headers, is_html_response,
    header_room, sanitize_headers, strip_cors_headers, strip_csp_headers,
    transform_response_headers,
};
use http::{HeaderMap, HeaderName, HeaderValue};
use global_proxy::html::{head_injection, is_csp_meta, HEAD_SCRIPT, SERVICE_WORKER_SCRIPT};
use global_proxy::policy::{
    ProxyBehavior, Target, UpstreamConfig, CSP_FRAME_ANCESTORS_VSCODE,
};

const CORS: [&str; 7] = [
    "access-control-allow-origin",
    "access-control-allow-methods",
    "access-control-allow-headers",
    "access-control-expose-headers",
    "access-control-allow-credentials",
    "access-control-max-age",
    "access-control-allow-private-network",
];

fn list(pairs: &[(&str, &str)]) -> HeaderMap {
    let mut h = HeaderMap::new();
    for (n, v) in pairs {
        h.append(
            HeaderName::from_bytes(n.as_bytes()).unwrap(),
            HeaderValue::from_str(v).unwrap(),
        );
    }
    h
}

fn text(h: &HeaderMap, name: &str) -> Option<String> {
    h.get(name).map(|v| v.to_str().unwrap().to_string())
}

fn sorted(h: &HeaderMap) -> Vec<(String, Vec<u8>)> {
    let mut v: Vec<(String, Vec<u8>)> = h
        .iter()
        .map(|(n, v)| (n.as_str().to_string(), v.as_bytes().to_vec()))
        .collect();
    v.sort();
    v
}

fn config() -> UpstreamConfig {
    UpstreamConfig {
        backend_host: "127.0.0.1".to_string(),
        backend_scheme: "http".to_string(),
        morph_domain_suffix: None,
        workspace_domain_suffix: None,
    }
}

fn request(host: &str, extra: &[(&str, &str)]) -> HeaderMap {
    let mut h = list(extra);
    h.insert("host", HeaderValue::from_str(host).unwrap());
    h
}

fn forward(d: Decision) -> (Target, ProxyBehavior) {
    match d {
        Decision::Forward { target, behavior } => (target, behavior),
        _ => panic!("expected a forward decision"),
    }
}

fn plain_behavior() -> ProxyBehavior {
    ProxyBehavior {
        skip_service_worker: false,
        add_cors: false,
        strip_cors_headers: false,
        workspace_header: None,
        port_header: None,
        frame_ancestors: false,
    }
}

#[test]
fn header_room_counts_names() {
    let h = list(&[("a", "1"), ("a", "2"), ("b", "3")]);
    assert!(header_room(&h));
    let mut big = HeaderMap::new();
    for i in 0..4096 {
        big.insert(
            HeaderName::from_bytes(format!("x-{}", i).as_bytes()).unwrap(),
            HeaderValue::from_static("v"),
        );
    }
    assert!(!header_room(&big));
}

#[test]
fn sanitize_keeps_repeated_values() {
    let h = list(&[("set-cookie", "a=1"), ("set-cookie", "b=2"), ("etag", "x")]);
    let out = sanitize_headers(&h, true);
    let values: Vec<&str> = out
        .get_all("set-cookie")
        .iter()
        .map(|v| v.to_str().unwrap())
        .collect();
    assert_eq!(values, vec!["a=1", "b=2"]);
    assert_eq!(out.get("etag"), None);
}

#[test]
fn sanitize_drops_payload_headers_only_when_asked() {
    let h = list(&[
        ("content-length", "10"),
        ("content-encoding", "gzip"),
        ("transfer-encoding", "chunked"),
        ("content-md5", "x"),
        ("content-digest", "y"),
        ("etag", "\"e\""),
        ("content-type", "text/html"),
    ]);
    let stripped = sanitize_headers(&h, true);
    assert_eq!(stripped.len(), 1);
    assert_eq!(text(&stripped, "content-type").as_deref(), Some("text/html"));
    let kept = sanitize_headers(&h, false);
    assert_eq!(sorted(&kept), sorted(&h));
}

#[test]
fn sanitize_strip_csp_add_cors_is_idempotent() {
    let h = list(&[
        ("content-length", "10"),
        ("content-security-policy", "default-src 'none'"),
        ("x-frame-options", "DENY"),
        ("access-control-allow-origin", "https://a.example"),
        ("server", "up"),
    ]);
    let once = {
        let mut o = sanitize_headers(&h, true);
        strip_csp_headers(&mut o);
        add_cors_headers(&mut o);
        o
    };
    let twice = {
        let mut o = sanitize_headers(&once, true);
        strip_csp_headers(&mut o);
        add_cors_headers(&mut o);
        o
    };
    assert_eq!(sorted(&once), sorted(&twice));
    assert_eq!(text(&once, "access-control-allow-origin").as_deref(), Some("*"));
    assert_eq!(text(&once, "content-security-policy"), None);
    assert_eq!(text(&once, "server").as_deref(), Some("up"));
}

#[test]
fn add_cors_sets_all_six_values() {
    let h = cors_response_headers();
    assert_eq!(h.len(), 6);
    assert_eq!(text(&h, "access-control-allow-origin").as_deref(), Some("*"));
    assert_eq!(
        text(&h, "access-control-allow-methods").as_deref(),
        Some("GET, POST, PUT, DELETE, PATCH, OPTIONS, HEAD")
    );
    assert_eq!(text(&h, "access-control-allow-headers").as_deref(), Some("*"));
    assert_eq!(text(&h, "access-control-expose-headers").as_deref(), Some("*"));
    assert_eq!(text(&h, "access-control-allow-credentials").as_deref(), Some("true"));
    assert_eq!(text(&h, "access-control-max-age").as_deref(), Some("86400"));
}

#[test]
fn strip_cors_removes_all_seven() {
    let pairs: Vec<(&str, &str)> = CORS.iter().map(|n| (*n, "v")).collect();
    let mut h = list(&pairs);
    h.insert("vary", HeaderValue::from_static("origin"));
    strip_cors_headers(&mut h);
    for n in CORS {
        assert_eq!(h.get(n), None);
    }
    assert_eq!(text(&h, "vary").as_deref(), Some("origin"));
}

#[test]
fn html_response_headers_get_rewritten_length() {
    let h = list(&[
        ("content-type", "text/html; charset=utf-8"),
        ("content-length", "13"),
        ("content-security-policy", "default-src 'self'"),
    ]);
    assert!(is_html_response(&h));
    let out = transform_response_headers(&h, &plain_behavior(), Some(301));
    assert_eq!(text(&out, "content-length").as_deref(), Some("301"));
    assert_eq!(text(&out, "content-security-policy"), None);
    assert_eq!(text(&out, "access-control-allow-origin"), None);
}

#[test]
fn non_html_response_keeps_payload_headers() {
    let h = list(&[
        ("content-type", "application/javascript"),
        ("content-length", "1234"),
        ("etag", "\"abc\""),
    ]);
    assert!(!is_html_response(&h));
    assert!(!is_html_response(&HeaderMap::new()));
    let out = transform_response_headers(&h, &plain_behavior(), None);
    assert_eq!(text(&out, "content-length").as_deref(), Some("1234"));
    assert_eq!(text(&out, "etag").as_deref(), Some("\"abc\""));
}

#[test]
fn vscode_responses_carry_only_the_frame_ancestors_csp() {
    let d = dispatch("/", HttpMethod::Get, &request("port-39378-xxx.cmux.sh", &[]), &config());
    let (_, behavior) = forward(d);
    let h = list(&[
        ("content-type", "text/html"),
        ("content-security-policy", "frame-ancestors 'none'"),
        ("access-control-allow-origin", "*"),
    ]);
    let out = transform_response_headers(&h, &behavior, Some(5));
    assert_eq!(text(&out, "content-security-policy").as_deref(), Some(CSP_FRAME_ANCESTORS_VSCODE));
    assert_eq!(text(&out, "access-control-allow-origin"), None);
    let head = head_response_headers(&h, &behavior, Some(5), true);
    assert_eq!(text(&head, "content-security-policy").as_deref(), Some(CSP_FRAME_ANCESTORS_VSCODE));
    assert_eq!(text(&head, "access-control-allow-origin"), None);
}

#[test]
fn head_fallback_reports_get_length() {
    assert!(needs_get_fallback(HttpMethod::Head, 405));
    assert!(needs_get_fallback(HttpMethod::Head, 501));
    assert!(!needs_get_fallback(HttpMethod::Head, 404));
    assert!(!needs_get_fallback(HttpMethod::Get, 405));
    let get_headers = list(&[
        ("content-type", "application/javascript"),
        ("content-length", "1234"),
        ("transfer-encoding", "chunked"),
    ]);
    let head = head_response_headers(&get_headers, &plain_behavior(), Some(1234), true);
    assert_eq!(text(&head, "content-length").as_deref(), Some("1234"));
    assert_eq!(text(&head, "content-type").as_deref(), Some("application/javascript"));
    assert_eq!(text(&head, "transfer-encoding"), None);
    assert_eq!(text(&head, "access-control-allow-origin").as_deref(), Some("*"));
    let retry = head_fallback_headers(&get_headers);
    assert_eq!(retry.get("content-length"), None);
    assert_eq!(text(&retry, "content-type").as_deref(), Some("application/javascript"));
}

#[test]
fn apex_health_and_version() {
    let h = request("cmux.sh", &[]);
    assert!(matches!(dispatch("/health", HttpMethod::Get, &h, &config()), Decision::Health));
    assert!(matches!(
        dispatch("/health", HttpMethod::Get, &HeaderMap::new(), &config()),
        Decision::Health
    ));
    assert!(matches!(dispatch("/version", HttpMethod::Get, &h, &config()), Decision::Version));
    assert!(matches!(
        dispatch("/", HttpMethod::Get, &h, &config()),
        Decision::Text(Reply::Apex)
    ));
    assert_eq!(Reply::Apex.message(), "cmux!");
    assert_eq!(Reply::Apex.status(), 200);
}

#[test]
fn missing_and_foreign_hosts() {
    let d = dispatch("/", HttpMethod::Get, &HeaderMap::new(), &config());
    assert!(matches!(d, Decision::Text(Reply::MissingHost)));
    assert_eq!(Reply::MissingHost.status(), 400);
    assert_eq!(Reply::MissingHost.message(), "Missing host header for proxied request");
    let d = dispatch("/", HttpMethod::Get, &request("example.com", &[]), &config());
    assert!(matches!(d, Decision::Text(Reply::NotCmuxDomain)));
    assert_eq!(Reply::NotCmuxDomain.status(), 502);
    assert_eq!(Reply::NotCmuxDomain.message(), "Not a cmux domain");
    let d = dispatch("/", HttpMethod::Get, &request("x", &[("x-forwarded-host", "CMUX.sh:443")]), &config());
    assert!(matches!(d, Decision::Text(Reply::Apex)));
}

#[test]
fn service_worker_and_invalid_subdomain() {
    let h = request("port-1-a.cmux.sh", &[]);
    assert!(matches!(
        dispatch("/proxy-sw.js", HttpMethod::Get, &h, &config()),
        Decision::ServiceWorker
    ));
    let d = dispatch("/", HttpMethod::Get, &request("port-x.cmux.sh", &[]), &config());
    match d {
        Decision::Text(r) => {
            assert_eq!(r.status(), 400);
            assert_eq!(r.message(), "Invalid cmux proxy subdomain");
        }
        _ => panic!("expected a 400"),
    }
}

#[test]
fn port_route_plain_backend() {
    let h = request("port-5173-abc123.cmux.sh", &[]);
    let (target, behavior) = forward(dispatch("/index.html", HttpMethod::Get, &h, &config()));
    assert!(matches!(target, Target::BackendPort(5173)));
    assert!(!behavior.skip_service_worker);
    let cfg = config();
    let (scheme, authority) = upstream_endpoint(&target, &cfg);
    assert_eq!(upstream_url(&scheme, &authority, Some("/index.html")), "http://127.0.0.1:5173/index.html");
    let mut out = h;
    outbound_request_headers(&mut out, &authority, &behavior);
    assert_eq!(text(&out, "x-cmux-proxied").as_deref(), Some("true"));
    assert_eq!(text(&out, "host").as_deref(), Some("127.0.0.1:5173"));
    assert_eq!(out.get("x-cmux-port-internal"), None);
    let injected = head_injection(behavior.skip_service_worker);
    assert_eq!(injected, format!("{}{}", SERVICE_WORKER_SCRIPT, HEAD_SCRIPT));
}

#[test]
fn port_route_with_morph_suffix() {
    let mut cfg = config();
    cfg.morph_domain_suffix = Some(".vm.example".to_string());
    let h = request("port-5173-abc123.cmux.sh", &[]);
    let (target, _) = forward(dispatch("/", HttpMethod::Get, &h, &cfg));
    let (scheme, authority) = upstream_endpoint(&target, &cfg);
    assert_eq!(scheme, "https");
    assert_eq!(authority, "port-5173-morphvm-abc123.vm.example");
    assert_eq!(upstream_url(&scheme, &authority, None), "https://port-5173-morphvm-abc123.vm.example/");
}

#[test]
fn cmux_route_scope_base() {
    let h = request("cmux-morph9-base-3000.cmux.sh", &[("x-cmux-workspace-internal", "stale")]);
    let (target, behavior) = forward(dispatch("/", HttpMethod::Get, &h, &config()));
    assert!(matches!(target, Target::BackendPort(3000)));
    assert!(behavior.add_cors && !behavior.strip_cors_headers);
    let mut out = h;
    outbound_request_headers(&mut out, "127.0.0.1:3000", &behavior);
    assert_eq!(text(&out, "x-cmux-port-internal").as_deref(), Some("3000"));
    assert_eq!(out.get("x-cmux-workspace-internal"), None);
    let resp = list(&[("content-type", "text/plain"), ("content-security-policy", "x")]);
    let t = transform_response_headers(&resp, &behavior, None);
    assert_eq!(text(&t, "access-control-allow-origin").as_deref(), Some("*"));
    assert_eq!(text(&t, "access-control-max-age").as_deref(), Some("86400"));
    assert_eq!(t.get("content-security-policy"), None);
}

#[test]
fn cmux_route_with_morph_suffix_uses_fixed_port() {
    let mut cfg = config();
    cfg.morph_domain_suffix = Some(".vm.example".to_string());
    let h = request("cmux-morph9-team-3000.cmux.sh", &[]);
    let (target, behavior) = forward(dispatch("/", HttpMethod::Get, &h, &cfg));
    let (_, authority) = upstream_endpoint(&target, &cfg);
    assert_eq!(authority, "port-39379-morphvm-morph9.vm.example");
    assert_eq!(behavior.port_header, Some(3000));
    assert_eq!(behavior.workspace_header.as_deref(), Some("team"));
}

#[test]
fn workspace_route_targets() {
    let mut cfg = config();
    let h = request("proj-a-8080-vm1.cmux.sh", &[]);
    let (target, behavior) = forward(dispatch("/", HttpMethod::Get, &h, &cfg));
    assert!(matches!(target, Target::BackendPort(8080)));
    assert_eq!(behavior.workspace_header.as_deref(), Some("proj-a"));
    assert_eq!(behavior.port_header, Some(8080));
    cfg.workspace_domain_suffix = Some(".ws.example".to_string());
    let (target, _) = forward(dispatch("/", HttpMethod::Get, &h, &cfg));
    let (_, authority) = upstream_endpoint(&target, &cfg);
    assert_eq!(authority, "vm1.ws.example");
}

#[test]
fn vscode_preflight() {
    let h = request("port-39378-xxx.cmux.sh", &[]);
    assert!(matches!(
        dispatch("/", HttpMethod::Options, &h, &config()),
        Decision::Preflight { cors: false }
    ));
    let h = request("cmux-m-39378.cmux.sh", &[]);
    assert!(matches!(
        dispatch("/", HttpMethod::Options, &h, &config()),
        Decision::Preflight { cors: false }
    ));
    let h = request("cmux-m-3000.cmux.sh", &[]);
    assert!(matches!(
        dispatch("/", HttpMethod::Options, &h, &config()),
        Decision::Preflight { cors: true }
    ));
    let h = request("port-3000-m.cmux.sh", &[]);
    assert!(matches!(
        dispatch("/", HttpMethod::Options, &h, &config()),
        Decision::Forward { .. }
    ));
}

#[test]
fn loop_detection_any_route() {
    for host in ["port-3000-m.cmux.sh", "cmux-m-team-3000.cmux.sh", "a-80-vm.cmux.app"] {
        let h = request(host, &[("x-cmux-proxied", "TRUE")]);
        assert!(is_loop_header(&h));
        for method in [HttpMethod::Get, HttpMethod::Options, HttpMethod::Head] {
            assert!(matches!(
                dispatch("/", method, &h, &config()),
                Decision::Text(Reply::LoopDetected)
            ));
        }
    }
    assert_eq!(Reply::LoopDetected.status(), 508);
    assert_eq!(Reply::LoopDetected.message(), "Loop detected in proxy");
    assert!(!is_loop_header(&list(&[("x-cmux-proxied", "false")])));
}

#[test]
fn websocket_forward_headers() {
    let h = request(
        "cmux-morphA-team-4000.cmux.sh",
        &[("user-agent", "ua/1"), ("cookie", "c=1")],
    );
    let (target, behavior) = forward(dispatch("/ws", HttpMethod::Get, &h, &config()));
    let cfg = config();
    let (scheme, authority) = upstream_endpoint(&target, &cfg);
    let url = upstream_url(&websocket_scheme(&scheme), &authority, Some("/ws"));
    assert_eq!(url, "ws://127.0.0.1:4000/ws");
    let fwd = collect_forward_headers(&h, &behavior);
    assert_eq!(text(&fwd, "x-cmux-workspace-internal").as_deref(), Some("team"));
    assert_eq!(text(&fwd, "x-cmux-port-internal").as_deref(), Some("4000"));
    assert_eq!(text(&fwd, "x-cmux-proxied").as_deref(), Some("true"));
    assert_eq!(text(&fwd, "user-agent").as_deref(), Some("ua/1"));
    assert_eq!(fwd.get("cookie"), None);
    assert_eq!(websocket_scheme("https"), "wss");
    assert_eq!(websocket_scheme("wss"), "wss");
    assert_eq!(websocket_scheme("http"), "ws");
}

#[test]
fn websocket_scope_derived_from_host() {
    let h = request("cmux-morphA-team-4000.cmux.sh:443", &[]);
    assert_eq!(derive_workspace_scope_from_headers(&h).as_deref(), Some("team"));
    let fwd = collect_forward_headers(&h, &plain_behavior());
    assert_eq!(text(&fwd, "x-cmux-workspace-internal").as_deref(), Some("team"));
    assert_eq!(fwd.get("x-cmux-port-internal"), None);
    let h = request("cmux-morphA-base-4000.cmux.sh", &[]);
    let fwd = collect_forward_headers(&h, &plain_behavior());
    assert_eq!(fwd.get("x-cmux-workspace-internal"), None);
}

#[test]
fn html_injection_and_meta() {
    assert_eq!(head_injection(true), HEAD_SCRIPT);
    assert!(head_injection(false).starts_with(SERVICE_WORKER_SCRIPT));
    assert!(head_injection(false).contains("data-cmux-injected=\"true\""));
    assert!(is_csp_meta("Content-Security-Policy"));
    assert!(!is_csp_meta("refresh"));
}
