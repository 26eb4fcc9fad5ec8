//! Per-route policy: where a route's traffic goes and how the request and
//! response are rewritten on the way.
use vstd::prelude::*;
use crate::host::opt_view;
use crate::route::{CmuxRoute, PortRoute, Route, WorkspaceRoute, VSCODE_PORT};
use crate::text::{chars_of, decimal, decimal_string};

verus! {

/// The frame-ancestors policy served on editor routes.
pub const CSP_FRAME_ANCESTORS_VSCODE: &'static str = "frame-ancestors 'self' https://cmux.local http://cmux.local https://www.cmux.sh https://cmux.sh https://www.cmux.dev https://cmux.dev http://localhost:5173;";

/// The upstream port of a morph VM's own proxy, used for every cmux route.
pub const MORPH_PROXY_PORT: u16 = 39379;

/// The process-wide settings that target resolution reads.
pub struct UpstreamConfig {
    pub backend_host: String,
    pub backend_scheme: String,
    pub morph_domain_suffix: Option<String>,
    pub workspace_domain_suffix: Option<String>,
}

/// Where a request is sent.
pub enum Target {
    /// A port on the configured backend host.
    BackendPort(u16),
    /// A host given in full.
    Absolute { scheme: String, host: String, port: Option<u16> },
}

pub enum TargetView {
    BackendPort(u16),
    Absolute { scheme: Seq<char>, host: Seq<char>, port: Option<u16> },
}

impl View for Target {
    type V = TargetView;

    open spec fn view(&self) -> TargetView {
        match self {
            Target::BackendPort(p) => TargetView::BackendPort(*p),
            Target::Absolute { scheme, host, port } => TargetView::Absolute {
                scheme: scheme@,
                host: host@,
                port: *port,
            },
        }
    }
}

/// How the pipeline treats one route's traffic.
pub struct ProxyBehavior {
    pub skip_service_worker: bool,
    pub add_cors: bool,
    pub strip_cors_headers: bool,
    pub workspace_header: Option<String>,
    pub port_header: Option<u16>,
    /// Serve the editor's frame-ancestors policy as the only CSP.
    pub frame_ancestors: bool,
}

pub struct BehaviorView {
    pub skip_service_worker: bool,
    pub add_cors: bool,
    pub strip_cors_headers: bool,
    pub workspace_header: Option<Seq<char>>,
    pub port_header: Option<u16>,
    pub frame_ancestors: bool,
}

impl View for ProxyBehavior {
    type V = BehaviorView;

    open spec fn view(&self) -> BehaviorView {
        BehaviorView {
            skip_service_worker: self.skip_service_worker,
            add_cors: self.add_cors,
            strip_cors_headers: self.strip_cors_headers,
            workspace_header: opt_view(self.workspace_header),
            port_header: self.port_header,
            frame_ancestors: self.frame_ancestors,
        }
    }
}

impl ProxyBehavior {
    /// CORS headers are never both added and stripped.
    pub open spec fn wf(&self) -> bool {
        !(self.add_cors && self.strip_cors_headers)
    }
}

/// The text of a port number.
pub open spec fn port_text(p: u16) -> Seq<char> {
    chars_of(decimal(p as nat))
}

/// `port-<P>-morphvm-<ID><SUFFIX>`.
pub open spec fn morph_host(port: u16, id: Seq<char>, suffix: Seq<char>) -> Seq<char> {
    "port-"@ + port_text(port) + "-morphvm-"@ + id + suffix
}

fn morph_host_exec(port: u16, id: &str, suffix: &str) -> (r: String)
    ensures
        r@ == morph_host(port, id@, suffix@),
{
    let p = decimal_string(port as u64);
    let r = "port-".to_owned().concat(p.as_str()).concat("-morphvm-").concat(id).concat(suffix);
    r
}

pub open spec fn absolute_https(host: Seq<char>) -> TargetView {
    TargetView::Absolute { scheme: "https"@, host, port: None }
}

/// The target of a port route.
pub open spec fn port_target(port: u16, id: Seq<char>, morph_suffix: Option<Seq<char>>) -> TargetView {
    match morph_suffix {
        Some(suffix) => absolute_https(morph_host(port, id, suffix)),
        None => TargetView::BackendPort(port),
    }
}

/// The target of a cmux route: the morph VM's own proxy port when a morph
/// suffix is set, whatever the route's port.
pub open spec fn cmux_target(port: u16, id: Seq<char>, morph_suffix: Option<Seq<char>>) -> TargetView {
    match morph_suffix {
        Some(suffix) => absolute_https(morph_host(MORPH_PROXY_PORT, id, suffix)),
        None => TargetView::BackendPort(port),
    }
}

/// The target of a workspace route.
pub open spec fn workspace_target(port: u16, slug: Seq<char>, ws_suffix: Option<Seq<char>>) -> TargetView {
    match ws_suffix {
        Some(suffix) => absolute_https(slug + suffix),
        None => TargetView::BackendPort(port),
    }
}

fn https_target(host: String) -> (r: Target)
    ensures
        r@ == absolute_https(host@),
{
    Target::Absolute { scheme: "https".to_owned(), host, port: None }
}

/// Resolves a port route against the configuration.
pub fn resolve_port_target(route: &PortRoute, config: &UpstreamConfig) -> (r: Target)
    ensures
        r@ == port_target(route.port, route.morph_id@, opt_view(config.morph_domain_suffix)),
{
    match &config.morph_domain_suffix {
        Some(suffix) => https_target(
            morph_host_exec(route.port, route.morph_id.as_str(), suffix.as_str()),
        ),
        None => Target::BackendPort(route.port),
    }
}

/// Resolves a cmux route against the configuration.
pub fn resolve_cmux_target(route: &CmuxRoute, config: &UpstreamConfig) -> (r: Target)
    ensures
        r@ == cmux_target(route.port, route.morph_id@, opt_view(config.morph_domain_suffix)),
{
    match &config.morph_domain_suffix {
        Some(suffix) => https_target(
            morph_host_exec(MORPH_PROXY_PORT, route.morph_id.as_str(), suffix.as_str()),
        ),
        None => Target::BackendPort(route.port),
    }
}

/// Resolves a workspace route against the configuration.
pub fn resolve_workspace_target(route: &WorkspaceRoute, config: &UpstreamConfig) -> (r: Target)
    ensures
        r@ == workspace_target(route.port, route.vm_slug@, opt_view(config.workspace_domain_suffix)),
{
    match &config.workspace_domain_suffix {
        Some(suffix) => https_target(route.vm_slug.clone().concat(suffix.as_str())),
        None => Target::BackendPort(route.port),
    }
}

/// The policy of a port route.
pub open spec fn port_behavior(port: u16) -> BehaviorView {
    let vscode = port == VSCODE_PORT;
    BehaviorView {
        skip_service_worker: vscode,
        add_cors: false,
        strip_cors_headers: vscode,
        workspace_header: None,
        port_header: None,
        frame_ancestors: vscode,
    }
}

/// The policy of a cmux route.
pub open spec fn cmux_behavior(port: u16, scope: Option<Seq<char>>) -> BehaviorView {
    let vscode = port == VSCODE_PORT;
    BehaviorView {
        skip_service_worker: true,
        add_cors: !vscode,
        strip_cors_headers: vscode,
        workspace_header: scope,
        port_header: Some(port),
        frame_ancestors: false,
    }
}

/// The policy of a workspace route.
pub open spec fn workspace_behavior(port: u16, workspace: Seq<char>) -> BehaviorView {
    BehaviorView {
        skip_service_worker: false,
        add_cors: false,
        strip_cors_headers: false,
        workspace_header: Some(workspace),
        port_header: Some(port),
        frame_ancestors: false,
    }
}

/// The policy of a decoded route; `None` for an invalid one.
pub open spec fn behavior_of(route: crate::route::RouteView) -> Option<BehaviorView> {
    match route {
        crate::route::RouteView::Port { port, .. } => Some(port_behavior(port)),
        crate::route::RouteView::Cmux { port, workspace_header, .. } => Some(
            cmux_behavior(port, workspace_header),
        ),
        crate::route::RouteView::Workspace { workspace, port, .. } => Some(
            workspace_behavior(port, workspace),
        ),
        crate::route::RouteView::Invalid(_) => None,
    }
}

/// Derives the policy of a route from the behaviour matrix.
pub fn behavior_for_route(route: &Route) -> (r: Option<ProxyBehavior>)
    ensures
        match r {
            Some(b) => behavior_of(route@) == Some(b@) && b.wf(),
            None => behavior_of(route@).is_none(),
        },
{
    match route {
        Route::Port(p) => {
            let vscode = p.port == VSCODE_PORT;
            Some(
                ProxyBehavior {
                    skip_service_worker: vscode,
                    add_cors: false,
                    strip_cors_headers: vscode,
                    workspace_header: None,
                    port_header: None,
                    frame_ancestors: vscode,
                },
            )
        },
        Route::Cmux(c) => {
            let vscode = c.port == VSCODE_PORT;
            Some(
                ProxyBehavior {
                    skip_service_worker: true,
                    add_cors: !vscode,
                    strip_cors_headers: vscode,
                    workspace_header: c.workspace_header.clone(),
                    port_header: Some(c.port),
                    frame_ancestors: false,
                },
            )
        },
        Route::Workspace(w) => Some(
            ProxyBehavior {
                skip_service_worker: false,
                add_cors: false,
                strip_cors_headers: false,
                workspace_header: Some(w.workspace.clone()),
                port_header: Some(w.port),
                frame_ancestors: false,
            },
        ),
        Route::Invalid(_) => None,
    }
}

/// Resolves the target of a decoded route; `None` for an invalid one.
pub fn resolve_target(route: &Route, config: &UpstreamConfig) -> (r: Option<Target>)
    ensures
        match r {
            Some(t) => match route@ {
                crate::route::RouteView::Port { port, morph_id, .. } => t@ == port_target(
                    port,
                    morph_id,
                    opt_view(config.morph_domain_suffix),
                ),
                crate::route::RouteView::Cmux { port, morph_id, .. } => t@ == cmux_target(
                    port,
                    morph_id,
                    opt_view(config.morph_domain_suffix),
                ),
                crate::route::RouteView::Workspace { port, vm_slug, .. } => t@ == workspace_target(
                    port,
                    vm_slug,
                    opt_view(config.workspace_domain_suffix),
                ),
                crate::route::RouteView::Invalid(_) => false,
            },
            None => route@ is Invalid,
        },
{
    match route {
        Route::Port(p) => Some(resolve_port_target(p, config)),
        Route::Cmux(c) => Some(resolve_cmux_target(c, config)),
        Route::Workspace(w) => Some(resolve_workspace_target(w, config)),
        Route::Invalid(_) => None,
    }
}

} // verus!
