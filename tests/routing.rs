use global_proxy::host::{normalize_host, parse_cmux_host};
use global_proxy::route::{parse_route, scope_from_cmux_subdomain, InvalidRoute, Route};
use global_proxy::text::{parse_u16, decimal_string};

fn route(s: &str) -> Route {
    parse_route(s.to_string())
}

fn invalid(s: &str) -> InvalidRoute {
    match route(s) {
        Route::Invalid(e) => e,
        _ => panic!("expected an invalid route for {}", s),
    }
}

#[test]
fn port_route_keeps_dashes_in_morph_id() {
    match route("port-8080-morph-abc-def") {
        Route::Port(p) => {
            assert_eq!(p.port, 8080);
            assert_eq!(p.morph_id, "morph-abc-def");
            assert!(!p.skip_service_worker);
        }
        _ => panic!("expected a port route"),
    }
}

#[test]
fn port_route_on_vscode_port_skips_service_worker() {
    match route("port-39378-xxx") {
        Route::Port(p) => {
            assert_eq!(p.port, 39378);
            assert_eq!(p.morph_id, "xxx");
            assert!(p.skip_service_worker);
        }
        _ => panic!("expected a port route"),
    }
}

#[test]
fn port_route_errors() {
    assert_eq!(invalid("port-8080"), InvalidRoute::MalformedProxySubdomain);
    assert_eq!(invalid("port-abc-x"), InvalidRoute::MalformedProxySubdomain);
    assert_eq!(invalid("port-70000-x"), InvalidRoute::MalformedProxySubdomain);
    assert_eq!(invalid("port-80-"), InvalidRoute::MalformedProxySubdomain);
    assert_eq!(
        InvalidRoute::MalformedProxySubdomain.message(),
        "Invalid cmux proxy subdomain"
    );
}

#[test]
fn cmux_route_base_scope_is_absent() {
    match route("cmux-morph9-base-3000") {
        Route::Cmux(c) => {
            assert_eq!(c.port, 3000);
            assert_eq!(c.morph_id, "morph9");
            assert_eq!(c.workspace_header, None);
        }
        _ => panic!("expected a cmux route"),
    }
    match route("cmux-morph9-BaSe-3000") {
        Route::Cmux(c) => assert_eq!(c.workspace_header, None),
        _ => panic!("expected a cmux route"),
    }
}

#[test]
fn cmux_route_without_scope() {
    match route("cmux-m1-4000") {
        Route::Cmux(c) => {
            assert_eq!(c.port, 4000);
            assert_eq!(c.morph_id, "m1");
            assert_eq!(c.workspace_header, None);
        }
        _ => panic!("expected a cmux route"),
    }
}

#[test]
fn cmux_route_scope_is_rejoined() {
    match route("cmux-morphA-team-4000") {
        Route::Cmux(c) => {
            assert_eq!(c.workspace_header.as_deref(), Some("team"));
            assert_eq!(c.morph_id, "morphA");
        }
        _ => panic!("expected a cmux route"),
    }
    match route("cmux-m-my-team-x-8080") {
        Route::Cmux(c) => assert_eq!(c.workspace_header.as_deref(), Some("my-team-x")),
        _ => panic!("expected a cmux route"),
    }
    match route("cmux-m-base-base-8080") {
        Route::Cmux(c) => assert_eq!(c.workspace_header.as_deref(), Some("base-base")),
        _ => panic!("expected a cmux route"),
    }
}

#[test]
fn cmux_route_errors() {
    assert_eq!(invalid("cmux-abc"), InvalidRoute::MalformedProxySubdomain);
    assert_eq!(invalid("cmux--3000"), InvalidRoute::MissingMorphId);
    assert_eq!(invalid("cmux-m-team-http"), InvalidRoute::InvalidCmuxPort);
    assert_eq!(
        InvalidRoute::MissingMorphId.message(),
        "Missing morph id in cmux proxy subdomain"
    );
    assert_eq!(
        InvalidRoute::InvalidCmuxPort.message(),
        "Invalid port in cmux proxy subdomain"
    );
}

#[test]
fn workspace_route() {
    match route("my-work-space-8080-vm7") {
        Route::Workspace(w) => {
            assert_eq!(w.workspace, "my-work-space");
            assert_eq!(w.port, 8080);
            assert_eq!(w.vm_slug, "vm7");
        }
        _ => panic!("expected a workspace route"),
    }
}

#[test]
fn workspace_route_errors() {
    assert_eq!(invalid("abc"), InvalidRoute::MalformedSubdomain);
    assert_eq!(invalid("a-80"), InvalidRoute::MalformedSubdomain);
    assert_eq!(invalid("-80-vm"), InvalidRoute::MalformedSubdomain);
    assert_eq!(invalid("ws-http-vm"), InvalidRoute::InvalidPort);
    assert_eq!(invalid("ws-80-"), InvalidRoute::MalformedSubdomain);
    assert_eq!(InvalidRoute::InvalidPort.message(), "Invalid port in subdomain");
    assert_eq!(InvalidRoute::MalformedSubdomain.message(), "Invalid cmux subdomain");
}

#[test]
fn scope_from_cmux_subdomain_follows_the_route_rule() {
    assert_eq!(scope_from_cmux_subdomain("cmux-morphA-team-4000").as_deref(), Some("team"));
    assert_eq!(scope_from_cmux_subdomain("cmux-morphA-base-4000"), None);
    assert_eq!(scope_from_cmux_subdomain("cmux-morphA-4000"), None);
    assert_eq!(scope_from_cmux_subdomain("cmux-morphA-team-x"), None);
    assert_eq!(scope_from_cmux_subdomain("port-80-abc"), None);
}

#[test]
fn normalize_host_lowercases_and_drops_port() {
    assert_eq!(normalize_host("Port-5173-ABC.CMUX.sh:443"), "port-5173-abc.cmux.sh");
    assert_eq!(normalize_host("cmux.sh"), "cmux.sh");
    assert_eq!(normalize_host("cmux.sh:"), "cmux.sh");
    assert_eq!(normalize_host("[::1]:8080"), "[::1]");
    assert_eq!(normalize_host("host:abc"), "host:abc");
}

#[test]
fn parse_cmux_host_recognises_apexes() {
    assert_eq!(parse_cmux_host("cmux.sh"), Some((None, "cmux.sh".to_string())));
    assert_eq!(parse_cmux_host("cmux.local"), Some((None, "cmux.sh".to_string())));
    assert_eq!(
        parse_cmux_host("port-1-a.cmux.sh"),
        Some((Some("port-1-a".to_string()), "cmux.sh".to_string()))
    );
    assert_eq!(parse_cmux_host("cmux.localhost"), Some((None, "cmux.localhost".to_string())));
    assert_eq!(
        parse_cmux_host("a.cmux.localhost"),
        Some((Some("a".to_string()), "cmux.localhost".to_string()))
    );
    assert_eq!(parse_cmux_host("cmux.app"), Some((None, "cmux.app".to_string())));
    assert_eq!(
        parse_cmux_host("x-1-y.cmux.app"),
        Some((Some("x-1-y".to_string()), "cmux.app".to_string()))
    );
    assert_eq!(parse_cmux_host("example.com"), None);
    assert_eq!(parse_cmux_host("evilcmux.sh"), None);
}

#[test]
fn parse_u16_matches_std() {
    for s in ["0", "80", "+80", "0080", "65535", "65536", "", "+", "-1", "8a", "99999999999"] {
        assert_eq!(parse_u16(s), s.parse::<u16>().ok(), "input {:?}", s);
    }
}

#[test]
fn decimal_string_renders_numbers() {
    assert_eq!(decimal_string(0), "0");
    assert_eq!(decimal_string(1234), "1234");
    assert_eq!(decimal_string(u64::MAX), u64::MAX.to_string());
}
