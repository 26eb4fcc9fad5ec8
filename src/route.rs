//! The subdomain grammar: a subdomain decodes to a port route, a cmux route,
//! a workspace route, or a reason why it is invalid.
use vstd::prelude::*;
use crate::host::opt_view;
use crate::text::{
    eq_ignore_ascii_case, eq_ignore_case, find_first, find_last, first_index, has_char,
    is_first, is_last, last_index, lemma_first_index, lemma_last_index, lemma_u16_text_no_dash, parse_u16, starts_with, strip_prefix, u16_text,
};

verus! {

/// The port that serves the editor; routes to it get their own policy.
pub const VSCODE_PORT: u16 = 39378;

/// Why a subdomain does not decode to a route. Each is answered with a 400.
#[derive(Clone, Copy, Debug, PartialEq, Eq, Structural)]
pub enum InvalidRoute {
    MalformedProxySubdomain,
    MissingMorphId,
    InvalidCmuxPort,
    MalformedSubdomain,
    InvalidPort,
}

impl InvalidRoute {
    /// The text of the 400 response.
    pub fn message(&self) -> (r: String)
        ensures
            r@ == invalid_message(*self),
    {
        match self {
            InvalidRoute::MalformedProxySubdomain => "Invalid cmux proxy subdomain".to_owned(),
            InvalidRoute::MissingMorphId => "Missing morph id in cmux proxy subdomain".to_owned(),
            InvalidRoute::InvalidCmuxPort => "Invalid port in cmux proxy subdomain".to_owned(),
            InvalidRoute::MalformedSubdomain => "Invalid cmux subdomain".to_owned(),
            InvalidRoute::InvalidPort => "Invalid port in subdomain".to_owned(),
        }
    }
}

pub open spec fn invalid_message(e: InvalidRoute) -> Seq<char> {
    match e {
        InvalidRoute::MalformedProxySubdomain => "Invalid cmux proxy subdomain"@,
        InvalidRoute::MissingMorphId => "Missing morph id in cmux proxy subdomain"@,
        InvalidRoute::InvalidCmuxPort => "Invalid port in cmux proxy subdomain"@,
        InvalidRoute::MalformedSubdomain => "Invalid cmux subdomain"@,
        InvalidRoute::InvalidPort => "Invalid port in subdomain"@,
    }
}

/// `port-<P>-<MORPH_ID>`: a port on a morph VM.
pub struct PortRoute {
    pub port: u16,
    pub morph_id: String,
    pub skip_service_worker: bool,
}

/// `cmux-<MORPH_ID>-<SCOPE...>-<P>`: a port on a morph VM, with an optional
/// workspace scope.
pub struct CmuxRoute {
    pub port: u16,
    pub workspace_header: Option<String>,
    pub morph_id: String,
}

/// `<WORKSPACE...>-<P>-<VM_SLUG>`: a port on a workspace VM.
pub struct WorkspaceRoute {
    pub workspace: String,
    pub port: u16,
    pub vm_slug: String,
}

pub enum Route {
    Port(PortRoute),
    Cmux(CmuxRoute),
    Workspace(WorkspaceRoute),
    Invalid(InvalidRoute),
}

pub enum RouteView {
    Port { port: u16, morph_id: Seq<char>, skip_service_worker: bool },
    Cmux { port: u16, workspace_header: Option<Seq<char>>, morph_id: Seq<char> },
    Workspace { workspace: Seq<char>, port: u16, vm_slug: Seq<char> },
    Invalid(InvalidRoute),
}

impl View for Route {
    type V = RouteView;

    open spec fn view(&self) -> RouteView {
        match self {
            Route::Port(r) => RouteView::Port {
                port: r.port,
                morph_id: r.morph_id@,
                skip_service_worker: r.skip_service_worker,
            },
            Route::Cmux(r) => RouteView::Cmux {
                port: r.port,
                workspace_header: opt_view(r.workspace_header),
                morph_id: r.morph_id@,
            },
            Route::Workspace(r) => RouteView::Workspace {
                workspace: r.workspace@,
                port: r.port,
                vm_slug: r.vm_slug@,
            },
            Route::Invalid(e) => RouteView::Invalid(*e),
        }
    }
}

/// The scope of the dash-separated remainder of a cmux subdomain: the text
/// between its first and last dash, unless there is none or it is `base` in
/// any case.
pub open spec fn cmux_scope(rest: Seq<char>) -> Option<Seq<char>> {
    let i = first_index(rest, '-');
    let j = last_index(rest, '-');
    if i == j {
        None
    } else if eq_ignore_case(rest.subrange(i + 1, j), "base"@) {
        None
    } else {
        Some(rest.subrange(i + 1, j))
    }
}

/// The route that the text after `port-` decodes to.
pub open spec fn port_route_of(rest: Seq<char>) -> RouteView {
    if !has_char(rest, '-') {
        RouteView::Invalid(InvalidRoute::MalformedProxySubdomain)
    } else {
        let i = first_index(rest, '-');
        match u16_text(rest.take(i)) {
            None => RouteView::Invalid(InvalidRoute::MalformedProxySubdomain),
            Some(port) => if i + 1 == rest.len() {
                RouteView::Invalid(InvalidRoute::MalformedProxySubdomain)
            } else {
                RouteView::Port {
                    port,
                    morph_id: rest.skip(i + 1),
                    skip_service_worker: port == VSCODE_PORT,
                }
            },
        }
    }
}

/// The route that the text after `cmux-` decodes to.
pub open spec fn cmux_route_of(rest: Seq<char>) -> RouteView {
    if !has_char(rest, '-') {
        RouteView::Invalid(InvalidRoute::MalformedProxySubdomain)
    } else if first_index(rest, '-') == 0 {
        RouteView::Invalid(InvalidRoute::MissingMorphId)
    } else {
        match u16_text(rest.skip(last_index(rest, '-') + 1)) {
            None => RouteView::Invalid(InvalidRoute::InvalidCmuxPort),
            Some(port) => RouteView::Cmux {
                port,
                workspace_header: cmux_scope(rest),
                morph_id: rest.take(first_index(rest, '-')),
            },
        }
    }
}

/// The route that any other subdomain decodes to: at least three
/// dash-separated parts, the last two being the port and the VM slug.
pub open spec fn workspace_route_of(s: Seq<char>) -> RouteView {
    if !has_char(s, '-') {
        RouteView::Invalid(InvalidRoute::MalformedSubdomain)
    } else {
        let j = last_index(s, '-');
        if !has_char(s.take(j), '-') {
            RouteView::Invalid(InvalidRoute::MalformedSubdomain)
        } else {
            let k = last_index(s.take(j), '-');
            if k == 0 {
                RouteView::Invalid(InvalidRoute::MalformedSubdomain)
            } else {
                match u16_text(s.subrange(k + 1, j)) {
                    None => RouteView::Invalid(InvalidRoute::InvalidPort),
                    Some(port) => if j + 1 == s.len() {
                        RouteView::Invalid(InvalidRoute::MalformedSubdomain)
                    } else {
                        RouteView::Workspace {
                            workspace: s.take(k),
                            port,
                            vm_slug: s.skip(j + 1),
                        }
                    },
                }
            }
        }
    }
}

/// The route that a subdomain decodes to.
pub open spec fn route_of(s: Seq<char>) -> RouteView {
    if starts_with(s, "port-"@) {
        port_route_of(s.skip("port-"@.len() as int))
    } else if starts_with(s, "cmux-"@) {
        cmux_route_of(s.skip("cmux-"@.len() as int))
    } else {
        workspace_route_of(s)
    }
}

/// The scope between the first dash `i` and the last dash `j` of `rest`.
fn scope_between(rest: &str, i: usize, j: usize) -> (r: Option<String>)
    requires
        is_first(rest@, '-', i as int),
        is_last(rest@, '-', j as int),
        first_index(rest@, '-') == i,
        last_index(rest@, '-') == j,
    ensures
        opt_view(r) == cmux_scope(rest@),
{
    if i >= j {
        if j < i {
            assert(rest@[j as int] != '-');
        }
        return None;
    }
    let scope = rest.substring_char(i + 1, j);
    if eq_ignore_ascii_case(scope, "base") {
        None
    } else {
        Some(scope.to_owned())
    }
}

fn parse_port_route(rest: &str) -> (r: Route)
    ensures
        r@ == port_route_of(rest@),
{
    let i = match find_first(rest, '-') {
        Some(i) => i,
        None => return Route::Invalid(InvalidRoute::MalformedProxySubdomain),
    };
    let port = match parse_u16(rest.substring_char(0, i)) {
        Some(p) => p,
        None => return Route::Invalid(InvalidRoute::MalformedProxySubdomain),
    };
    let n = rest.unicode_len();
    if i + 1 == n {
        return Route::Invalid(InvalidRoute::MalformedProxySubdomain);
    }
    Route::Port(
        PortRoute {
            port,
            morph_id: rest.substring_char(i + 1, n).to_owned(),
            skip_service_worker: port == VSCODE_PORT,
        },
    )
}

fn parse_cmux_route(rest: &str) -> (r: Route)
    ensures
        r@ == cmux_route_of(rest@),
{
    let i = match find_first(rest, '-') {
        Some(i) => i,
        None => return Route::Invalid(InvalidRoute::MalformedProxySubdomain),
    };
    if i == 0 {
        return Route::Invalid(InvalidRoute::MissingMorphId);
    }
    let j = match find_last(rest, '-') {
        Some(j) => j,
        None => return Route::Invalid(InvalidRoute::MalformedProxySubdomain),
    };
    let n = rest.unicode_len();
    let port = match parse_u16(rest.substring_char(j + 1, n)) {
        Some(p) => p,
        None => return Route::Invalid(InvalidRoute::InvalidCmuxPort),
    };
    Route::Cmux(
        CmuxRoute {
            port,
            workspace_header: scope_between(rest, i, j),
            morph_id: rest.substring_char(0, i).to_owned(),
        },
    )
}

fn parse_workspace_route(s: &str) -> (r: Route)
    ensures
        r@ == workspace_route_of(s@),
{
    let j = match find_last(s, '-') {
        Some(j) => j,
        None => return Route::Invalid(InvalidRoute::MalformedSubdomain),
    };
    let head = s.substring_char(0, j);
    let k = match find_last(head, '-') {
        Some(k) => k,
        None => return Route::Invalid(InvalidRoute::MalformedSubdomain),
    };
    if k == 0 {
        return Route::Invalid(InvalidRoute::MalformedSubdomain);
    }
    let port = match parse_u16(s.substring_char(k + 1, j)) {
        Some(p) => p,
        None => return Route::Invalid(InvalidRoute::InvalidPort),
    };
    let n = s.unicode_len();
    if j + 1 == n {
        return Route::Invalid(InvalidRoute::MalformedSubdomain);
    }
    Route::Workspace(
        WorkspaceRoute {
            workspace: s.substring_char(0, k).to_owned(),
            port,
            vm_slug: s.substring_char(j + 1, n).to_owned(),
        },
    )
}

/// Decodes a subdomain into a route.
pub fn parse_route(subdomain: String) -> (r: Route)
    ensures
        r@ == route_of(subdomain@),
{
    let s = subdomain.as_str();
    if let Some(rest) = strip_prefix(s, "port-") {
        return parse_port_route(rest);
    }
    if let Some(rest) = strip_prefix(s, "cmux-") {
        return parse_cmux_route(rest);
    }
    parse_workspace_route(s)
}

/// The workspace scope carried by a cmux subdomain whose port parses.
pub open spec fn subdomain_scope(s: Seq<char>) -> Option<Seq<char>> {
    let rest = s.skip("cmux-"@.len() as int);
    if starts_with(s, "cmux-"@) && has_char(rest, '-') && u16_text(
        rest.skip(last_index(rest, '-') + 1),
    ).is_some() {
        cmux_scope(rest)
    } else {
        None
    }
}

/// The workspace scope of a cmux subdomain, by the same rule as the route
/// decoder's; `None` for any other subdomain.
pub fn scope_from_cmux_subdomain(subdomain: &str) -> (r: Option<String>)
    ensures
        opt_view(r) == subdomain_scope(subdomain@),
{
    let rest = match strip_prefix(subdomain, "cmux-") {
        Some(rest) => rest,
        None => return None,
    };
    let j = match find_last(rest, '-') {
        Some(j) => j,
        None => return None,
    };
    let i = match find_first(rest, '-') {
        Some(i) => i,
        None => return None,
    };
    let n = rest.unicode_len();
    if parse_u16(rest.substring_char(j + 1, n)).is_none() {
        return None;
    }
    scope_between(rest, i, j)
}

/// Dash-separated parts joined back with dashes.
pub open spec fn join_dash(parts: Seq<Seq<char>>) -> Seq<char>
    decreases parts.len(),
{
    if parts.len() == 0 {
        Seq::empty()
    } else if parts.len() == 1 {
        parts[0]
    } else {
        join_dash(parts.drop_last()) + seq!['-'] + parts.last()
    }
}

/// The subdomain `port-<P>-<ID>`.
pub open spec fn port_subdomain(port_text: Seq<char>, id: Seq<char>) -> Seq<char> {
    "port-"@ + port_text + seq!['-'] + id
}

/// The subdomain `cmux-<ID>-<SCOPE...>-<P>`; with no scope parts, `cmux-<ID>-<P>`.
pub open spec fn cmux_subdomain(id: Seq<char>, scope: Seq<Seq<char>>, port_text: Seq<char>) -> Seq<
    char,
> {
    if scope.len() == 0 {
        "cmux-"@ + id + seq!['-'] + port_text
    } else {
        "cmux-"@ + id + seq!['-'] + join_dash(scope) + seq!['-'] + port_text
    }
}

/// Every `port-<P>-<ID>` whose `P` parses as a port and whose `ID` is not
/// empty decodes to a port route on that port with the whole `ID`, dashes
/// included; the service worker is skipped exactly on the editor port.
pub proof fn lemma_port_route(port_text: Seq<char>, id: Seq<char>)
    requires
        u16_text(port_text).is_some(),
        id.len() > 0,
    ensures
        route_of(port_subdomain(port_text, id)) == (RouteView::Port {
            port: u16_text(port_text).unwrap(),
            morph_id: id,
            skip_service_worker: u16_text(port_text).unwrap() == VSCODE_PORT,
        }),
{
    reveal_strlit("port-");
    let s = port_subdomain(port_text, id);
    let rest = s.skip(5);
    assert(s.take(5) =~= "port-"@);
    assert(rest =~= port_text + seq!['-'] + id);
    lemma_u16_text_no_dash(port_text);
    let i = port_text.len() as int;
    assert(is_first(rest, '-', i)) by {
        assert forall|j: int| 0 <= j < i implies rest[j] != '-' by {
            assert(rest[j] == port_text[j]);
        }
    }
    lemma_first_index(rest, '-', i);
    assert(rest.take(i) =~= port_text);
    assert(rest.skip(i + 1) =~= id);
}

proof fn lemma_join_dash_has_dash(parts: Seq<Seq<char>>)
    requires
        parts.len() >= 2,
    ensures
        join_dash(parts)[join_dash(parts.drop_last()).len() as int] == '-',
        join_dash(parts.drop_last()).len() < join_dash(parts).len(),
{
}

/// Every `cmux-<ID>-<SCOPE...>-<P>` with a dash-free, non-empty `ID`,
/// dash-free scope parts and a port text `P` decodes to a cmux route whose
/// workspace header is absent when the scope is empty or just `base` in any
/// case, and otherwise is the scope parts joined back with dashes.
pub proof fn lemma_cmux_route_scope(id: Seq<char>, scope: Seq<Seq<char>>, port_text: Seq<char>)
    requires
        id.len() > 0,
        !has_char(id, '-'),
        forall|k: int| 0 <= k < scope.len() ==> !has_char(#[trigger] scope[k], '-'),
        u16_text(port_text).is_some(),
    ensures
        route_of(cmux_subdomain(id, scope, port_text)) == (RouteView::Cmux {
            port: u16_text(port_text).unwrap(),
            workspace_header: if scope.len() == 0 || (scope.len() == 1 && eq_ignore_case(
                scope[0],
                "base"@,
            )) {
                None
            } else {
                Some(join_dash(scope))
            },
            morph_id: id,
        }),
{
    reveal_strlit("cmux-");
    reveal_strlit("port-");
    reveal_strlit("base");
    let s = cmux_subdomain(id, scope, port_text);
    let rest = s.skip(5);
    let joined = join_dash(scope);
    assert(s.take(5) =~= "cmux-"@);
    assert(s[0] == 'c');
    assert(!starts_with(s, "port-"@)) by {
        assert(s.take(5)[0] != "port-"@[0]);
    }
    let mid: Seq<char> = if scope.len() == 0 {
        Seq::empty()
    } else {
        joined + seq!['-']
    };
    assert(rest =~= id + seq!['-'] + mid + port_text);
    lemma_u16_text_no_dash(port_text);
    let i = id.len() as int;
    let j = rest.len() - port_text.len() - 1;
    assert(rest[i] == '-');
    assert(rest[j] == '-');
    assert(is_first(rest, '-', i)) by {
        assert forall|k: int| 0 <= k < i implies rest[k] != '-' by {
            assert(rest[k] == id[k]);
        }
    }
    assert(is_last(rest, '-', j)) by {
        assert forall|k: int| j < k < rest.len() implies rest[k] != '-' by {
            assert(rest[k] == port_text[k - j - 1]);
        }
    }
    lemma_first_index(rest, '-', i);
    lemma_last_index(rest, '-', j);
    assert(rest.take(i) =~= id);
    assert(rest.skip(j + 1) =~= port_text);
    if scope.len() > 0 {
        assert(rest.subrange(i + 1, j) =~= joined);
        if scope.len() >= 2 {
            lemma_join_dash_has_dash(scope);
            let p = join_dash(scope.drop_last()).len() as int;
            if eq_ignore_case(joined, "base"@) {
                assert(crate::text::lower_text(joined)[p] == '-');
                assert(joined.len() == crate::text::lower_text(joined).len());
                assert(0 <= p < 4);
                assert(crate::text::lower_text("base"@)[p] == crate::text::lower_char(
                    "base"@[p],
                ));
                assert(crate::text::lower_text("base"@)[p] != '-');
            }
        }
    }
}

} // verus!
