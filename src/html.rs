//! What the HTML rewriter injects into `<head>` and which `<meta>` elements
//! it drops.
use vstd::prelude::*;
use crate::text::{eq_ignore_ascii_case, eq_ignore_case};

verus! {

/// Keeps the page's own location reachable after the service worker rewrites
/// requests.
pub const HEAD_SCRIPT: &'static str = "<script data-cmux-injected=\"true\">
window.__cmuxLocation = window.location;
</script>";

/// Registers the proxy's service worker for the whole origin.
pub const SERVICE_WORKER_SCRIPT: &'static str = "<script data-cmux-injected=\"true\">
// __CMUX_NO_REWRITE__
if ('serviceWorker' in navigator) {
  navigator.serviceWorker.register('/proxy-sw.js', { scope: '/' }).catch(console.error);
}
</script>";

/// The service worker served at `/proxy-sw.js`. It sends requests for
/// loopback hosts with a port to the matching `port-<P>-<MORPH_ID>` host of
/// the current domain.
pub const SERVICE_WORKER_JS: &'static str = r#"self.addEventListener('install', (event) => {
  self.skipWaiting();
});

self.addEventListener('activate', (event) => {
  event.waitUntil(clients.claim());
});

function isLoopbackHostname(hostname) {
  if (!hostname) {
    return false;
  }
  if (hostname === 'localhost' || hostname === '0.0.0.0') {
    return true;
  }
  if (hostname === '::1' || hostname === '[::1]' || hostname === '::') {
    return true;
  }
  return /^127(?:\.\d{1,3}){3}$/.test(hostname);
}

self.addEventListener('fetch', (event) => {
  const url = new URL(event.request.url);
  if (isLoopbackHostname(url.hostname) && url.port) {
    const currentHost = self.location.hostname;
    const firstDot = currentHost.indexOf('.');
    if (firstDot === -1) {
      return;
    }
    const firstLabel = currentHost.slice(0, firstDot);
    const morphIdMatch = firstLabel.match(/^port-\d+-(.*)$/);
    if (!morphIdMatch) {
      return;
    }
    const domain = currentHost.slice(firstDot + 1);
    if (!domain) {
      return;
    }
    const morphId = morphIdMatch[1];
    const redirectUrl = `https://port-${url.port}-${morphId}.${domain}${url.pathname}${url.search}`;
    event.respondWith(fetch(redirectUrl, { redirect: 'follow' }));
    return;
  }
});
"#;

/// What is put at the start of every `<head>`: the service-worker script
/// before the location script, or the location script alone when the
/// service worker is skipped.
pub open spec fn head_prefix(skip_service_worker: bool) -> Seq<char> {
    if skip_service_worker {
        HEAD_SCRIPT@
    } else {
        SERVICE_WORKER_SCRIPT@ + HEAD_SCRIPT@
    }
}

/// Builds what is put at the start of every `<head>`.
pub fn head_injection(skip_service_worker: bool) -> (r: String)
    ensures
        r@ == head_prefix(skip_service_worker),
{
    if skip_service_worker {
        HEAD_SCRIPT.to_owned()
    } else {
        SERVICE_WORKER_SCRIPT.to_owned().concat(HEAD_SCRIPT)
    }
}

/// A `<meta>` whose `http-equiv` is this value carries a CSP and is dropped.
pub fn is_csp_meta(http_equiv: &str) -> (r: bool)
    ensures
        r == eq_ignore_case(http_equiv@, "content-security-policy"@),
{
    eq_ignore_ascii_case(http_equiv, "content-security-policy")
}

} // verus!
