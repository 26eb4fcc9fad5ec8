//! The request dispatcher: decides from a request's path, method and headers
//! what the proxy answers, or where and how it forwards.
use vstd::prelude::*;
use crate::forward::HttpMethod;
use crate::headers::{field_text, get_text, header_fields, Fields};
use http::HeaderMap;
use crate::host::{extract_host, host_parts, opt_view, parse_cmux_host, request_host};
use crate::policy::{
    behavior_for_route, behavior_of, cmux_target, port_target, resolve_target, workspace_target,
    BehaviorView, ProxyBehavior, Target, TargetView, UpstreamConfig,
};
use crate::route::{parse_route, route_of, InvalidRoute, Route, RouteView, VSCODE_PORT};
use crate::text::{eq_ignore_ascii_case, eq_ignore_case, text_eq};

verus! {

/// A plain-text answer of the proxy itself.
#[derive(Clone, Copy, Debug, PartialEq, Eq, Structural)]
pub enum Reply {
    MissingHost,
    NotCmuxDomain,
    Apex,
    LoopDetected,
    Invalid(InvalidRoute),
}

pub open spec fn reply_status(r: Reply) -> u16 {
    match r {
        Reply::MissingHost => 400,
        Reply::NotCmuxDomain => 502,
        Reply::Apex => 200,
        Reply::LoopDetected => 508,
        Reply::Invalid(_) => 400,
    }
}

pub open spec fn reply_message(r: Reply) -> Seq<char> {
    match r {
        Reply::MissingHost => "Missing host header for proxied request"@,
        Reply::NotCmuxDomain => "Not a cmux domain"@,
        Reply::Apex => "cmux!"@,
        Reply::LoopDetected => "Loop detected in proxy"@,
        Reply::Invalid(e) => crate::route::invalid_message(e),
    }
}

impl Reply {
    /// The status code of the answer.
    pub fn status(&self) -> (r: u16)
        ensures
            r == reply_status(*self),
    {
        match self {
            Reply::MissingHost => 400,
            Reply::NotCmuxDomain => 502,
            Reply::Apex => 200,
            Reply::LoopDetected => 508,
            Reply::Invalid(_) => 400,
        }
    }

    /// The body of the answer.
    pub fn message(&self) -> (r: String)
        ensures
            r@ == reply_message(*self),
    {
        match self {
            Reply::MissingHost => "Missing host header for proxied request".to_owned(),
            Reply::NotCmuxDomain => "Not a cmux domain".to_owned(),
            Reply::Apex => "cmux!".to_owned(),
            Reply::LoopDetected => "Loop detected in proxy".to_owned(),
            Reply::Invalid(e) => e.message(),
        }
    }
}

/// What the proxy does with a request.
pub enum Decision {
    /// The health document.
    Health,
    /// The version document.
    Version,
    /// The service-worker script.
    ServiceWorker,
    /// A plain-text answer.
    Text(Reply),
    /// A 204 to a CORS preflight, with or without the CORS headers.
    Preflight { cors: bool },
    /// Forward to the target under the policy.
    Forward { target: Target, behavior: ProxyBehavior },
}

pub enum DecisionView {
    Health,
    Version,
    ServiceWorker,
    Text(Reply),
    Preflight { cors: bool },
    Forward { target: TargetView, behavior: BehaviorView },
}

impl View for Decision {
    type V = DecisionView;

    open spec fn view(&self) -> DecisionView {
        match self {
            Decision::Health => DecisionView::Health,
            Decision::Version => DecisionView::Version,
            Decision::ServiceWorker => DecisionView::ServiceWorker,
            Decision::Text(r) => DecisionView::Text(*r),
            Decision::Preflight { cors } => DecisionView::Preflight { cors: *cors },
            Decision::Forward { target, behavior } => DecisionView::Forward {
                target: target@,
                behavior: behavior@,
            },
        }
    }
}

/// The request has already passed through this proxy.
pub open spec fn loop_flag(m: Fields) -> bool {
    match field_text(m, "x-cmux-proxied"@) {
        Some(t) => eq_ignore_case(t, "true"@),
        None => false,
    }
}

/// Whether the request carries the proxy's own loop marker.
pub fn is_loop_header(headers: &HeaderMap) -> (r: bool)
    ensures
        r == loop_flag(header_fields(*headers)),
{
    proof {
        reveal_strlit("x-cmux-proxied");
    }
    match get_text(headers, "x-cmux-proxied") {
        Some(t) => eq_ignore_ascii_case(t.as_str(), "true"),
        None => false,
    }
}

/// The target of a valid route.
pub open spec fn route_target(
    route: RouteView,
    morph_suffix: Option<Seq<char>>,
    workspace_suffix: Option<Seq<char>>,
) -> TargetView {
    match route {
        RouteView::Port { port, morph_id, .. } => port_target(port, morph_id, morph_suffix),
        RouteView::Cmux { port, morph_id, .. } => cmux_target(port, morph_id, morph_suffix),
        RouteView::Workspace { port, vm_slug, .. } => workspace_target(port, vm_slug, workspace_suffix),
        RouteView::Invalid(_) => TargetView::BackendPort(0),
    }
}

/// The answer to a CORS preflight that the proxy gives itself: on the editor
/// port without CORS headers, on other cmux routes with them; `None` where
/// the preflight goes upstream.
pub open spec fn preflight_of(route: RouteView) -> Option<bool> {
    match route {
        RouteView::Port { port, .. } => if port == VSCODE_PORT {
            Some(false)
        } else {
            None
        },
        RouteView::Cmux { port, .. } => Some(port != VSCODE_PORT),
        _ => None,
    }
}

/// The decision for a request on a subdomain of the platform.
pub open spec fn subdomain_decision(
    path: Seq<char>,
    method: HttpMethod,
    m: Fields,
    sub: Seq<char>,
    morph_suffix: Option<Seq<char>>,
    workspace_suffix: Option<Seq<char>>,
) -> DecisionView {
    let route = route_of(sub);
    if path == "/proxy-sw.js"@ {
        DecisionView::ServiceWorker
    } else if route is Invalid {
        DecisionView::Text(Reply::Invalid(route->Invalid_0))
    } else if loop_flag(m) {
        DecisionView::Text(Reply::LoopDetected)
    } else if method == HttpMethod::Options && preflight_of(route).is_some() {
        DecisionView::Preflight { cors: preflight_of(route).unwrap() }
    } else {
        DecisionView::Forward {
            target: route_target(route, morph_suffix, workspace_suffix),
            behavior: behavior_of(route).unwrap(),
        }
    }
}

/// What the proxy does with a request.
pub open spec fn decision_of(
    path: Seq<char>,
    method: HttpMethod,
    m: Fields,
    morph_suffix: Option<Seq<char>>,
    workspace_suffix: Option<Seq<char>>,
) -> DecisionView {
    if path == "/health"@ {
        DecisionView::Health
    } else {
        match request_host(m) {
            None => DecisionView::Text(Reply::MissingHost),
            Some(h) => match host_parts(h) {
                None => DecisionView::Text(Reply::NotCmuxDomain),
                Some((None, _)) => if path == "/version"@ {
                    DecisionView::Version
                } else {
                    DecisionView::Text(Reply::Apex)
                },
                Some((Some(sub), _)) => subdomain_decision(
                    path,
                    method,
                    m,
                    sub,
                    morph_suffix,
                    workspace_suffix,
                ),
            },
        }
    }
}

fn decide_subdomain(
    path: &str,
    method: HttpMethod,
    headers: &HeaderMap,
    sub: String,
    config: &UpstreamConfig,
) -> (r: Decision)
    ensures
        r@ == subdomain_decision(
            path@,
            method,
            header_fields(*headers),
            sub@,
            opt_view(config.morph_domain_suffix),
            opt_view(config.workspace_domain_suffix),
        ),
{
    if text_eq(path, "/proxy-sw.js") {
        return Decision::ServiceWorker;
    }
    let route = parse_route(sub);
    if let Route::Invalid(e) = route {
        return Decision::Text(Reply::Invalid(e));
    }
    if is_loop_header(headers) {
        return Decision::Text(Reply::LoopDetected);
    }
    if method == HttpMethod::Options {
        match &route {
            Route::Port(p) => {
                if p.port == VSCODE_PORT {
                    return Decision::Preflight { cors: false };
                }
            },
            Route::Cmux(c) => {
                return Decision::Preflight { cors: c.port != VSCODE_PORT };
            },
            _ => {},
        }
    }
    let target = resolve_target(&route, config);
    let behavior = behavior_for_route(&route);
    match (target, behavior) {
        (Some(target), Some(behavior)) => Decision::Forward { target, behavior },
        _ => Decision::Text(Reply::NotCmuxDomain),
    }
}

/// Decides what the proxy does with a request.
pub fn dispatch(path: &str, method: HttpMethod, headers: &HeaderMap, config: &UpstreamConfig) -> (r:
    Decision)
    ensures
        r@ == decision_of(
            path@,
            method,
            header_fields(*headers),
            opt_view(config.morph_domain_suffix),
            opt_view(config.workspace_domain_suffix),
        ),
{
    if text_eq(path, "/health") {
        return Decision::Health;
    }
    let host = match extract_host(headers) {
        Some(h) => h,
        None => return Decision::Text(Reply::MissingHost),
    };
    match parse_cmux_host(host.as_str()) {
        None => Decision::Text(Reply::NotCmuxDomain),
        Some((None, _)) => if text_eq(path, "/version") {
            Decision::Version
        } else {
            Decision::Text(Reply::Apex)
        },
        Some((Some(sub), _)) => decide_subdomain(path, method, headers, sub, config),
    }
}

/// A request on a valid route of a platform subdomain that carries the loop
/// marker is answered with 508, whatever the route's kind and the method.
pub proof fn lemma_loop_guard(
    path: Seq<char>,
    method: HttpMethod,
    m: Fields,
    sub: Seq<char>,
    morph_suffix: Option<Seq<char>>,
    workspace_suffix: Option<Seq<char>>,
)
    requires
        path != "/health"@,
        path != "/proxy-sw.js"@,
        request_host(m) is Some,
        host_parts(request_host(m).unwrap()) is Some,
        host_parts(request_host(m).unwrap()).unwrap().0 == Some(sub),
        !(route_of(sub) is Invalid),
        loop_flag(m),
    ensures
        decision_of(path, method, m, morph_suffix, workspace_suffix) == DecisionView::Text(
            Reply::LoopDetected,
        ),
        reply_status(Reply::LoopDetected) == 508,
{
}

} // verus!
