//! A front-door reverse proxy's decision logic: host and subdomain routing,
//! per-route policy, and the header rewrites applied on the way upstream and
//! back.
pub mod dispatch;
pub mod forward;
pub mod headers;
pub mod host;
pub mod html;
pub mod policy;
pub mod route;
pub mod text;
