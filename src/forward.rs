//! The request side of forwarding: where the upstream is, the URL to ask for,
//! and the headers sent with an HTTP request or a WebSocket handshake.
use vstd::prelude::*;
use vstd::utf8::encode_utf8;
use http::HeaderMap;
use crate::headers::{
    clone_map, first_value, header_fields, new_map, plain_bytes, remove_field, set_field, Fields,
    FIELD_LIMIT,
};
use crate::host::{host_parts, opt_view, parse_cmux_host, request_host, extract_host};
use crate::policy::{port_text, BehaviorView, ProxyBehavior, Target, TargetView, UpstreamConfig};
use crate::route::{scope_from_cmux_subdomain, subdomain_scope};
use crate::text::{
    bytes_of, decimal, decimal_bytes, decimal_string, is_value_bytes, lemma_decimal_ascii, text_eq,
};

verus! {

/// The request methods that the proxy tells apart.
#[derive(Clone, Copy, Debug, PartialEq, Eq, Structural)]
pub enum HttpMethod {
    Get,
    Head,
    Options,
    Other,
}

/// `host:port`, or the host alone.
pub open spec fn authority_of(host: Seq<char>, port: Option<u16>) -> Seq<char> {
    match port {
        Some(p) => host + ":"@ + port_text(p),
        None => host,
    }
}

/// The scheme and authority a target is reached at.
pub open spec fn endpoint_of(t: TargetView, backend_scheme: Seq<char>, backend_host: Seq<char>) -> (
    Seq<char>,
    Seq<char>,
) {
    match t {
        TargetView::BackendPort(p) => (backend_scheme, authority_of(backend_host, Some(p))),
        TargetView::Absolute { scheme, host, port } => (scheme, authority_of(host, port)),
    }
}

fn authority_exec(host: &str, port: Option<u16>) -> (r: String)
    ensures
        r@ == authority_of(host@, port),
{
    match port {
        Some(p) => {
            let digits = decimal_string(p as u64);
            host.to_owned().concat(":").concat(digits.as_str())
        },
        None => host.to_owned(),
    }
}

/// The scheme and authority that a target is reached at.
pub fn upstream_endpoint(target: &Target, config: &UpstreamConfig) -> (r: (String, String))
    ensures
        (r.0@, r.1@) == endpoint_of(target@, config.backend_scheme@, config.backend_host@),
{
    match target {
        Target::BackendPort(p) => (
            config.backend_scheme.clone(),
            authority_exec(config.backend_host.as_str(), Some(*p)),
        ),
        Target::Absolute { scheme, host, port } => (
            scheme.clone(),
            authority_exec(host.as_str(), *port),
        ),
    }
}

/// `scheme://authority` followed by the request's path and query, `/` when
/// it has none.
pub open spec fn url_of(scheme: Seq<char>, authority: Seq<char>, path_and_query: Option<Seq<char>>) -> Seq<
    char,
> {
    scheme + "://"@ + authority + match path_and_query {
        Some(pq) => pq,
        None => "/"@,
    }
}

/// Builds the upstream URL of a request.
pub fn upstream_url(scheme: &str, authority: &str, path_and_query: Option<&str>) -> (r: String)
    ensures
        r@ == url_of(
            scheme@,
            authority@,
            match path_and_query {
                Some(pq) => Some(pq@),
                None => None,
            },
        ),
{
    let pq = match path_and_query {
        Some(pq) => pq,
        None => "/",
    };
    scheme.to_owned().concat("://").concat(authority).concat(pq)
}

/// The WebSocket scheme for an upstream scheme: secure for `https` and `wss`.
pub open spec fn ws_scheme_of(scheme: Seq<char>) -> Seq<char> {
    if scheme == "https"@ || scheme == "wss"@ {
        "wss"@
    } else {
        "ws"@
    }
}

/// Maps an upstream scheme to the WebSocket scheme to dial.
pub fn websocket_scheme(scheme: &str) -> (r: String)
    ensures
        r@ == ws_scheme_of(scheme@),
{
    if text_eq(scheme, "https") || text_eq(scheme, "wss") {
        "wss".to_owned()
    } else {
        "ws".to_owned()
    }
}

/// The headers of the request sent upstream: the authority as `Host`, the
/// loop marker, and the internal port and workspace headers set or cleared
/// as the policy says. A value that is no valid header value is not set.
pub open spec fn outbound_fields(m: Fields, authority: Seq<char>, b: BehaviorView) -> Fields {
    let with_host = if is_value_bytes(encode_utf8(authority)) {
        m.insert("host"@, seq![encode_utf8(authority)])
    } else {
        m
    };
    let marked = with_host.insert("x-cmux-proxied"@, seq![bytes_of("true"@)]);
    let with_port = match b.port_header {
        Some(p) => marked.insert("x-cmux-port-internal"@, seq![decimal(p as nat)]),
        None => marked.remove("x-cmux-port-internal"@),
    };
    match b.workspace_header {
        Some(w) => if is_value_bytes(encode_utf8(w)) {
            with_port.insert("x-cmux-workspace-internal"@, seq![encode_utf8(w)])
        } else {
            with_port
        },
        None => with_port.remove("x-cmux-workspace-internal"@),
    }
}

/// Rewrites a request's headers for the upstream at `authority`.
pub fn outbound_request_headers(headers: &mut HeaderMap, authority: &str, behavior: &ProxyBehavior)
    requires
        header_fields(*old(headers)).dom().finite(),
        header_fields(*old(headers)).len() + 4 < FIELD_LIMIT,
    ensures
        header_fields(*final(headers)) == outbound_fields(
            header_fields(*old(headers)),
            authority@,
            behavior@,
        ),
{
    proof {
        reveal_strlit("host");
        reveal_strlit("x-cmux-proxied");
        reveal_strlit("x-cmux-port-internal");
        reveal_strlit("x-cmux-workspace-internal");
        reveal_strlit("true");
    }
    let host = authority.as_bytes_vec();
    set_field(headers, "host", host.as_slice());
    let yes = plain_bytes("true");
    set_field(headers, "x-cmux-proxied", yes.as_slice());
    match behavior.port_header {
        Some(p) => {
            proof {
                lemma_decimal_ascii(p as nat);
            }
            let digits = decimal_bytes(p as u64);
            set_field(headers, "x-cmux-port-internal", digits.as_slice());
        },
        None => remove_field(headers, "x-cmux-port-internal"),
    }
    match &behavior.workspace_header {
        Some(w) => {
            let value = w.as_str().as_bytes_vec();
            set_field(headers, "x-cmux-workspace-internal", value.as_slice());
        },
        None => remove_field(headers, "x-cmux-workspace-internal"),
    }
}

/// An upstream that refuses HEAD with 405 or 501 is asked again with GET.
pub open spec fn wants_get_fallback(method: HttpMethod, status: u16) -> bool {
    method == HttpMethod::Head && (status == 405 || status == 501)
}

/// Whether a HEAD request is to be retried as GET after this status.
pub fn needs_get_fallback(method: HttpMethod, status: u16) -> (r: bool)
    ensures
        r == wants_get_fallback(method, status),
{
    method == HttpMethod::Head && (status == 405 || status == 501)
}

/// The headers of the GET that stands in for a refused HEAD: the HEAD's
/// upstream headers without a length.
pub fn head_fallback_headers(headers: &HeaderMap) -> (r: HeaderMap)
    ensures
        header_fields(r) == header_fields(*headers).remove("content-length"@),
{
    proof {
        reveal_strlit("content-length");
    }
    let mut out = clone_map(headers);
    remove_field(&mut out, "content-length");
    out
}

/// The workspace scope that the request's own host carries, by the cmux
/// route's scope rule.
pub open spec fn host_scope(m: Fields) -> Option<Seq<char>> {
    match request_host(m) {
        Some(h) => match host_parts(h) {
            Some((Some(sub), _)) => subdomain_scope(sub),
            _ => None,
        },
        None => None,
    }
}

/// Derives the workspace scope from the request's host.
pub fn derive_workspace_scope_from_headers(headers: &HeaderMap) -> (r: Option<String>)
    ensures
        opt_view(r) == host_scope(header_fields(*headers)),
{
    let host = match extract_host(headers) {
        Some(h) => h,
        None => return None,
    };
    match parse_cmux_host(host.as_str()) {
        Some((Some(sub), _)) => scope_from_cmux_subdomain(sub.as_str()),
        _ => None,
    }
}

/// The headers of the upstream WebSocket handshake: the internal port when
/// the policy has one, the workspace scope from the policy or else from the
/// request's host, the loop marker, and the client's user agent.
pub open spec fn forward_fields(orig: Fields, b: BehaviorView) -> Fields {
    let base = match b.port_header {
        Some(p) => Map::empty().insert("x-cmux-port-internal"@, seq![decimal(p as nat)]),
        None => Map::empty(),
    };
    let scope = match b.workspace_header {
        Some(w) => Some(w),
        None => host_scope(orig),
    };
    let scoped = match scope {
        Some(w) => if is_value_bytes(encode_utf8(w)) {
            base.insert("x-cmux-workspace-internal"@, seq![encode_utf8(w)])
        } else {
            base
        },
        None => base,
    };
    let marked = scoped.insert("x-cmux-proxied"@, seq![bytes_of("true"@)]);
    if orig.contains_key("user-agent"@) && is_value_bytes(orig["user-agent"@][0]) {
        marked.insert("user-agent"@, seq![orig["user-agent"@][0]])
    } else {
        marked
    }
}

fn set_workspace(headers: &mut HeaderMap, w: &String)
    requires
        header_fields(*old(headers)).dom().finite(),
        header_fields(*old(headers)).len() < 2,
    ensures
        header_fields(*final(headers)) == (if is_value_bytes(encode_utf8(w@)) {
            header_fields(*old(headers)).insert("x-cmux-workspace-internal"@, seq![encode_utf8(w@)])
        } else {
            header_fields(*old(headers))
        }),
{
    proof {
        reveal_strlit("x-cmux-workspace-internal");
    }
    let value = w.as_str().as_bytes_vec();
    set_field(headers, "x-cmux-workspace-internal", value.as_slice());
}

/// Collects the headers for the upstream WebSocket handshake.
pub fn collect_forward_headers(request_headers: &HeaderMap, behavior: &ProxyBehavior) -> (r: HeaderMap)
    ensures
        header_fields(r) == forward_fields(header_fields(*request_headers), behavior@),
{
    proof {
        reveal_strlit("x-cmux-port-internal");
        reveal_strlit("x-cmux-proxied");
        reveal_strlit("user-agent");
        reveal_strlit("true");
    }
    let mut headers = new_map();
    if let Some(p) = behavior.port_header {
        proof {
            lemma_decimal_ascii(p as nat);
        }
        let digits = decimal_bytes(p as u64);
        set_field(&mut headers, "x-cmux-port-internal", digits.as_slice());
    }
    proof {
        assert(header_fields(headers).dom().len() <= 1);
    }
    match &behavior.workspace_header {
        Some(w) => set_workspace(&mut headers, w),
        None => {
            if let Some(w) = derive_workspace_scope_from_headers(request_headers) {
                set_workspace(&mut headers, &w);
            }
        },
    }
    let yes = plain_bytes("true");
    set_field(&mut headers, "x-cmux-proxied", yes.as_slice());
    if let Some(ua) = first_value(request_headers, "user-agent") {
        set_field(&mut headers, "user-agent", ua.as_slice());
    }
    headers
}

} // verus!
