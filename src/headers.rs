//! Header maps and the rewrites applied to them: payload, CSP and CORS
//! stripping, CORS addition, and the frame-ancestors policy.
use vstd::prelude::*;
use http::{HeaderMap, HeaderName, HeaderValue};
use crate::host::opt_view;
use crate::policy::{port_behavior, BehaviorView, ProxyBehavior, CSP_FRAME_ANCESTORS_VSCODE};
use crate::route::VSCODE_PORT;
use crate::text::{
    ascii_text, bytes_of, chars_of, contains, contains_text, decimal, decimal_bytes,
    is_value_bytes, is_visible_byte, is_visible_bytes, lemma_decimal_ascii,
};

verus! {

#[verifier::external_type_specification]
#[verifier::external_body]
#[verifier::reject_recursive_types(T)]
pub struct ExHeaderMap<T>(http::HeaderMap<T>);

#[verifier::external_type_specification]
#[verifier::external_body]
pub struct ExHeaderValue(http::HeaderValue);

/// What a header map holds: each field name with its values, in order.
pub uninterp spec fn header_fields(h: http::HeaderMap) -> Map<Seq<char>, Seq<Seq<u8>>>;

/// A name that `HeaderName::from_bytes` accepts and keeps as it is: lower-case
/// letters, digits and dashes.
pub open spec fn is_field_name(s: Seq<char>) -> bool {
    &&& 0 < s.len() < 65536
    &&& forall|i: int|
        0 <= i < s.len() ==> ('a' <= #[trigger] s[i] && s[i] <= 'z') || ('0' <= s[i] && s[i]
            <= '9') || s[i] == '-'
}

/// Below this many names an insertion never takes a `HeaderMap` past its
/// largest capacity, whatever its hashing state.
pub const FIELD_LIMIT: usize = 4096;

/// Few enough names that the rewrites here, which add at most a dozen, stay
/// under the map's limit.
pub open spec fn has_room(h: HeaderMap) -> bool {
    header_fields(h).dom().finite() && header_fields(h).len() + 16 < FIELD_LIMIT
}

pub open spec fn no_fields() -> Fields {
    Map::empty()
}

/// Relies on `HeaderMap::new`: a map without fields.
#[verifier::external_body]
pub(crate) fn new_map() -> (r: HeaderMap)
    ensures
        header_fields(r) == no_fields(),
{
    HeaderMap::new()
}

/// Relies on `HeaderMap::clone`: the same names with the same values.
#[verifier::external_body]
pub(crate) fn clone_map(h: &HeaderMap) -> (r: HeaderMap)
    ensures
        header_fields(r) == header_fields(*h),
{
    h.clone()
}

/// Finitely many names, `n` of them.
pub open spec fn has_count(m: Fields, n: nat) -> bool {
    m.dom().finite() && m.len() == n
}

/// Relies on `HeaderMap::keys_len`: the number of distinct names.
#[verifier::external_body]
pub(crate) fn name_count(h: &HeaderMap) -> (r: usize)
    ensures
        has_count(header_fields(*h), r as nat),
{
    h.keys_len()
}

/// Relies on `HeaderMap::get` and `HeaderValue::as_bytes`: the bytes of the
/// first value of a name; a name in the map has at least one value.
#[verifier::external_body]
pub(crate) fn first_value(h: &HeaderMap, name: &str) -> (r: Option<Vec<u8>>)
    requires
        is_field_name(name@),
    ensures
        match r {
            Some(v) => header_fields(*h).contains_key(name@) && header_fields(*h)[name@].len() > 0
                && v@ == header_fields(*h)[name@][0],
            None => !header_fields(*h).contains_key(name@),
        },
{
    h.get(name).map(|v| v.as_bytes().to_vec())
}

/// Relies on `HeaderName::from_bytes`, `HeaderValue::from_bytes` and
/// `HeaderMap::insert`: when the bytes form a header value, it becomes the
/// name's only value; otherwise the map is left as it was.
#[verifier::external_body]
pub(crate) fn set_field(h: &mut HeaderMap, name: &str, value: &[u8])
    requires
        is_field_name(name@),
        header_fields(*old(h)).dom().finite(),
        header_fields(*old(h)).len() < FIELD_LIMIT,
    ensures
        is_value_bytes(value@) ==> header_fields(*final(h)) == header_fields(*old(h)).insert(
            name@,
            seq![value@],
        ),
        !is_value_bytes(value@) ==> header_fields(*final(h)) == header_fields(*old(h)),
{
    if let (Ok(n), Ok(v)) = (HeaderName::from_bytes(name.as_bytes()), HeaderValue::from_bytes(value)) {
        h.insert(n, v);
    }
}

/// Relies on `HeaderMap::remove`: the name and all its values are gone.
#[verifier::external_body]
pub(crate) fn remove_field(h: &mut HeaderMap, name: &str)
    requires
        is_field_name(name@),
    ensures
        header_fields(*final(h)) == header_fields(*old(h)).remove(name@),
{
    h.remove(name);
}

/// Whether a map has room for the rewrites of this module.
pub fn header_room(h: &HeaderMap) -> (r: bool)
    ensures
        r == has_room(*h),
{
    let n = name_count(h);
    n < FIELD_LIMIT - 16
}

/// Printable ASCII, which every header value may hold.
pub open spec fn is_plain_text(s: Seq<char>) -> bool {
    forall|i: int| 0 <= i < s.len() ==> ' ' <= #[trigger] s[i] && s[i] <= '~'
}

/// The bytes of a printable text.
pub fn plain_bytes(s: &str) -> (r: Vec<u8>)
    requires
        is_plain_text(s@),
    ensures
        r@ == bytes_of(s@),
        is_value_bytes(r@),
{
    proof {
        vstd::string::is_ascii_spec_bytes(s);
    }
    let r = s.as_bytes_vec();
    assert(r@ =~= bytes_of(s@));
    r
}

/// A header value read as text, as `HeaderValue::to_str` does: only visible
/// ASCII and tabs are accepted.
pub open spec fn value_text(v: Seq<u8>) -> Option<Seq<char>> {
    if is_visible_bytes(v) {
        Some(chars_of(v))
    } else {
        None
    }
}

/// The text of a field's first value, if the field is present and the value
/// reads as text.
pub open spec fn field_text(m: Map<Seq<char>, Seq<Seq<u8>>>, name: Seq<char>) -> Option<Seq<char>> {
    if m.contains_key(name) && m[name].len() > 0 {
        value_text(m[name][0])
    } else {
        None
    }
}

/// Reads a header value as text.
pub fn header_text(v: &Vec<u8>) -> (r: Option<String>)
    ensures
        opt_view(r) == value_text(v@),
{
    let mut i: usize = 0;
    while i < v.len()
        invariant
            i <= v@.len(),
            forall|j: int| 0 <= j < i ==> is_visible_byte(#[trigger] v@[j]),
        decreases v@.len() - i,
    {
        let b = v[i];
        if !((32 <= b && b < 127) || b == 9) {
            assert(!is_visible_byte(v@[i as int]));
            return None;
        }
        i += 1;
    }
    Some(ascii_text(v.as_slice()).to_owned())
}

/// The text of a field's first value.
pub fn get_text(h: &HeaderMap, name: &str) -> (r: Option<String>)
    requires
        is_field_name(name@),
    ensures
        opt_view(r) == field_text(header_fields(*h), name@),
{
    match first_value(h, name) {
        Some(v) => header_text(&v),
        None => None,
    }
}

/// A response whose content type names HTML; its body is rewritten.
pub open spec fn is_html_fields(m: Map<Seq<char>, Seq<Seq<u8>>>) -> bool {
    match field_text(m, "content-type"@) {
        Some(t) => contains_text(t, "text/html"@),
        None => false,
    }
}

/// Whether a response's content type names HTML.
pub fn is_html_response(headers: &HeaderMap) -> (r: bool)
    ensures
        r == is_html_fields(header_fields(*headers)),
{
    proof {
        reveal_strlit("content-type");
    }
    match get_text(headers, "content-type") {
        Some(t) => contains(t.as_str(), "text/html"),
        None => false,
    }
}

/// Header fields: each name with its values.
pub type Fields = Map<Seq<char>, Seq<Seq<u8>>>;

/// Payload metadata that no longer holds once a body is rewritten.
pub open spec fn payload_names() -> Set<Seq<char>> {
    set![
        "content-length"@,
        "content-encoding"@,
        "transfer-encoding"@,
        "content-md5"@,
        "content-digest"@,
        "etag"@,
    ]
}

/// Framing and content-security policies of the upstream.
pub open spec fn csp_names() -> Set<Seq<char>> {
    set![
        "content-security-policy"@,
        "content-security-policy-report-only"@,
        "x-frame-options"@,
        "frame-options"@,
    ]
}

/// Every CORS response header.
pub open spec fn cors_names() -> Set<Seq<char>> {
    set![
        "access-control-allow-origin"@,
        "access-control-allow-methods"@,
        "access-control-allow-headers"@,
        "access-control-expose-headers"@,
        "access-control-allow-credentials"@,
        "access-control-max-age"@,
        "access-control-allow-private-network"@,
    ]
}

/// The permissive CORS headers that the proxy adds.
pub open spec fn cors_fields() -> Fields {
    map![
        "access-control-allow-origin"@ => seq![bytes_of("*"@)],
        "access-control-allow-methods"@ => seq![bytes_of("GET, POST, PUT, DELETE, PATCH, OPTIONS, HEAD"@)],
        "access-control-allow-headers"@ => seq![bytes_of("*"@)],
        "access-control-expose-headers"@ => seq![bytes_of("*"@)],
        "access-control-allow-credentials"@ => seq![bytes_of("true"@)],
        "access-control-max-age"@ => seq![bytes_of("86400"@)],
    ]
}

pub open spec fn sanitized(m: Fields, strip_payload: bool) -> Fields {
    if strip_payload {
        m.remove_keys(payload_names())
    } else {
        m
    }
}

pub open spec fn csp_stripped(m: Fields) -> Fields {
    m.remove_keys(csp_names())
}

pub open spec fn cors_added(m: Fields) -> Fields {
    m.union_prefer_right(cors_fields())
}

pub open spec fn cors_stripped(m: Fields) -> Fields {
    m.remove_keys(cors_names())
}

/// Copies a header map, dropping the payload metadata when asked to.
pub fn sanitize_headers(headers: &HeaderMap, strip_payload_headers: bool) -> (r: HeaderMap)
    ensures
        header_fields(r) == sanitized(header_fields(*headers), strip_payload_headers),
{
    let mut out = clone_map(headers);
    if strip_payload_headers {
        proof {
            reveal_strlit("content-length");
            reveal_strlit("content-encoding");
            reveal_strlit("transfer-encoding");
            reveal_strlit("content-md5");
            reveal_strlit("content-digest");
            reveal_strlit("etag");
        }
        remove_field(&mut out, "content-length");
        remove_field(&mut out, "content-encoding");
        remove_field(&mut out, "transfer-encoding");
        remove_field(&mut out, "content-md5");
        remove_field(&mut out, "content-digest");
        remove_field(&mut out, "etag");
        assert(header_fields(out) =~= sanitized(header_fields(*headers), true));
    }
    out
}

/// Drops the upstream's framing and content-security policies.
pub fn strip_csp_headers(headers: &mut HeaderMap)
    ensures
        header_fields(*final(headers)) == csp_stripped(header_fields(*old(headers))),
{
    proof {
        reveal_strlit("content-security-policy");
        reveal_strlit("content-security-policy-report-only");
        reveal_strlit("x-frame-options");
        reveal_strlit("frame-options");
    }
    remove_field(headers, "content-security-policy");
    remove_field(headers, "content-security-policy-report-only");
    remove_field(headers, "x-frame-options");
    remove_field(headers, "frame-options");
    assert(header_fields(*headers) =~= csp_stripped(header_fields(*old(headers))));
}

/// Sets the permissive CORS headers, replacing any upstream values.
pub fn add_cors_headers(headers: &mut HeaderMap)
    requires
        header_fields(*old(headers)).dom().finite(),
        header_fields(*old(headers)).len() + 6 < FIELD_LIMIT,
    ensures
        header_fields(*final(headers)) == cors_added(header_fields(*old(headers))),
        header_fields(*final(headers)).dom().finite(),
        header_fields(*final(headers)).len() <= header_fields(*old(headers)).len() + 6,
{
    proof {
        reveal_strlit("access-control-allow-origin");
        reveal_strlit("access-control-allow-methods");
        reveal_strlit("access-control-allow-headers");
        reveal_strlit("access-control-expose-headers");
        reveal_strlit("access-control-allow-credentials");
        reveal_strlit("access-control-max-age");
        reveal_strlit("*");
        reveal_strlit("GET, POST, PUT, DELETE, PATCH, OPTIONS, HEAD");
        reveal_strlit("true");
        reveal_strlit("86400");
    }
    let star = plain_bytes("*");
    set_field(headers, "access-control-allow-origin", star.as_slice());
    let methods = plain_bytes("GET, POST, PUT, DELETE, PATCH, OPTIONS, HEAD");
    set_field(headers, "access-control-allow-methods", methods.as_slice());
    set_field(headers, "access-control-allow-headers", star.as_slice());
    set_field(headers, "access-control-expose-headers", star.as_slice());
    let yes = plain_bytes("true");
    set_field(headers, "access-control-allow-credentials", yes.as_slice());
    let age = plain_bytes("86400");
    set_field(headers, "access-control-max-age", age.as_slice());
    assert(header_fields(*headers) =~= cors_added(header_fields(*old(headers))));
}

/// The headers of a preflight answer that grants CORS.
pub fn cors_response_headers() -> (r: HeaderMap)
    ensures
        header_fields(r) == cors_added(Map::empty()),
{
    let mut h = new_map();
    add_cors_headers(&mut h);
    h
}

/// Removes every CORS header.
pub fn strip_cors_headers(headers: &mut HeaderMap)
    ensures
        header_fields(*final(headers)) == cors_stripped(header_fields(*old(headers))),
        forall|n: Seq<char>|
            cors_names().contains(n) ==> !header_fields(*final(headers)).contains_key(n),
{
    proof {
        reveal_strlit("access-control-allow-origin");
        reveal_strlit("access-control-allow-methods");
        reveal_strlit("access-control-allow-headers");
        reveal_strlit("access-control-expose-headers");
        reveal_strlit("access-control-allow-credentials");
        reveal_strlit("access-control-max-age");
        reveal_strlit("access-control-allow-private-network");
    }
    remove_field(headers, "access-control-allow-origin");
    remove_field(headers, "access-control-allow-methods");
    remove_field(headers, "access-control-allow-headers");
    remove_field(headers, "access-control-expose-headers");
    remove_field(headers, "access-control-allow-credentials");
    remove_field(headers, "access-control-max-age");
    remove_field(headers, "access-control-allow-private-network");
    assert(header_fields(*headers) =~= cors_stripped(header_fields(*old(headers))));
}

/// CORS headers stripped or added as the policy says.
pub open spec fn cors_policy(m: Fields, b: BehaviorView) -> Fields {
    if b.strip_cors_headers {
        cors_stripped(m)
    } else if b.add_cors {
        cors_added(m)
    } else {
        m
    }
}

/// The editor's frame-ancestors value as the only CSP, when the policy asks
/// for it.
pub open spec fn frame_policy(m: Fields, b: BehaviorView) -> Fields {
    if b.frame_ancestors {
        m.insert("content-security-policy"@, seq![bytes_of(CSP_FRAME_ANCESTORS_VSCODE@)])
    } else {
        m
    }
}

/// The headers of a transformed response. `html_len` is the length of the
/// rewritten body of an HTML response, `None` for a body passed through.
pub open spec fn response_fields(m: Fields, b: BehaviorView, html_len: Option<nat>) -> Fields {
    match html_len {
        Some(len) => frame_policy(cors_policy(csp_stripped(sanitized(m, true)), b), b).insert(
            "content-length"@,
            seq![decimal(len)],
        ),
        None => frame_policy(cors_policy(csp_stripped(sanitized(m, false)), b), b),
    }
}

/// The headers of a response to HEAD built from a GET response's headers.
pub open spec fn head_fields(m: Fields, b: BehaviorView, body_len: Option<nat>, force_cors: bool) -> Fields {
    let base = cors_policy(
        csp_stripped(m.remove("content-length"@).remove("transfer-encoding"@)),
        b,
    );
    let with_cors = if force_cors && !b.strip_cors_headers {
        cors_added(base)
    } else {
        base
    };
    let framed = frame_policy(with_cors, b);
    match body_len {
        Some(len) => framed.insert("content-length"@, seq![decimal(len)]),
        None => framed,
    }
}

proof fn lemma_len_removed(m: Fields, k: Set<Seq<char>>)
    requires
        m.dom().finite(),
    ensures
        m.remove_keys(k).dom().finite(),
        m.remove_keys(k).len() <= m.len(),
{
    assert(m.remove_keys(k).dom() =~= m.dom().difference(k));
    vstd::set_lib::lemma_len_subset(m.dom().difference(k), m.dom());
}

fn apply_cors_policy(headers: &mut HeaderMap, behavior: &ProxyBehavior)
    requires
        header_fields(*old(headers)).dom().finite(),
        header_fields(*old(headers)).len() + 6 < FIELD_LIMIT,
    ensures
        header_fields(*final(headers)) == cors_policy(header_fields(*old(headers)), behavior@),
        header_fields(*final(headers)).dom().finite(),
        header_fields(*final(headers)).len() <= header_fields(*old(headers)).len() + 6,
{
    if behavior.strip_cors_headers {
        strip_cors_headers(headers);
        proof {
            lemma_len_removed(header_fields(*old(headers)), cors_names());
        }
    } else if behavior.add_cors {
        add_cors_headers(headers);
    }
}

fn apply_frame_ancestors(headers: &mut HeaderMap, behavior: &ProxyBehavior)
    requires
        header_fields(*old(headers)).dom().finite(),
        header_fields(*old(headers)).len() + 1 < FIELD_LIMIT,
    ensures
        header_fields(*final(headers)) == frame_policy(header_fields(*old(headers)), behavior@),
        header_fields(*final(headers)).dom().finite(),
        header_fields(*final(headers)).len() <= header_fields(*old(headers)).len() + 1,
{
    if behavior.frame_ancestors {
        proof {
            reveal_strlit("content-security-policy");
            reveal_strlit("frame-ancestors 'self' https://cmux.local http://cmux.local https://www.cmux.sh https://cmux.sh https://www.cmux.dev https://cmux.dev http://localhost:5173;");
        }
        let value = plain_bytes(CSP_FRAME_ANCESTORS_VSCODE);
        set_field(headers, "content-security-policy", value.as_slice());
    }
}

fn set_length(headers: &mut HeaderMap, len: u64)
    requires
        header_fields(*old(headers)).dom().finite(),
        header_fields(*old(headers)).len() + 1 < FIELD_LIMIT,
    ensures
        header_fields(*final(headers)) == header_fields(*old(headers)).insert(
            "content-length"@,
            seq![decimal(len as nat)],
        ),
{
    proof {
        reveal_strlit("content-length");
        lemma_decimal_ascii(len as nat);
    }
    let digits = decimal_bytes(len);
    set_field(headers, "content-length", digits.as_slice());
}

/// The headers of a transformed response: payload metadata dropped and the
/// length set for a rewritten HTML body of `html_body_len` bytes, kept for a
/// body passed through; then CSP dropped, CORS and frame-ancestors applied.
pub fn transform_response_headers(
    headers: &HeaderMap,
    behavior: &ProxyBehavior,
    html_body_len: Option<u64>,
) -> (r: HeaderMap)
    requires
        has_room(*headers),
    ensures
        header_fields(r) == response_fields(
            header_fields(*headers),
            behavior@,
            match html_body_len {
                Some(l) => Some(l as nat),
                None => None,
            },
        ),
{
    let mut out = sanitize_headers(headers, html_body_len.is_some());
    proof {
        lemma_len_removed(header_fields(*headers), payload_names());
        lemma_len_removed(header_fields(*headers), Set::empty());
        assert(header_fields(*headers).remove_keys(Set::empty()) =~= header_fields(*headers));
    }
    let ghost copied = header_fields(out);
    strip_csp_headers(&mut out);
    proof {
        lemma_len_removed(copied, csp_names());
    }
    apply_cors_policy(&mut out, behavior);
    apply_frame_ancestors(&mut out, behavior);
    if let Some(len) = html_body_len {
        set_length(&mut out, len);
    }
    out
}

/// The headers of a HEAD response built from those of a GET response: length
/// and transfer coding dropped, CSP dropped, CORS per policy, CORS added when
/// forced unless the policy strips it, frame-ancestors per policy, and the
/// length of the GET body when known.
pub fn head_response_headers(
    headers: &HeaderMap,
    behavior: &ProxyBehavior,
    body_len: Option<u64>,
    force_cors_headers: bool,
) -> (r: HeaderMap)
    requires
        has_room(*headers),
    ensures
        header_fields(r) == head_fields(
            header_fields(*headers),
            behavior@,
            match body_len {
                Some(l) => Some(l as nat),
                None => None,
            },
            force_cors_headers,
        ),
{
    proof {
        reveal_strlit("content-length");
        reveal_strlit("transfer-encoding");
    }
    let mut out = clone_map(headers);
    remove_field(&mut out, "content-length");
    remove_field(&mut out, "transfer-encoding");
    let ghost trimmed = header_fields(out);
    proof {
        let k = set!["content-length"@, "transfer-encoding"@];
        assert(trimmed =~= header_fields(*headers).remove_keys(k));
        lemma_len_removed(header_fields(*headers), k);
    }
    strip_csp_headers(&mut out);
    proof {
        lemma_len_removed(trimmed, csp_names());
    }
    apply_cors_policy(&mut out, behavior);
    if force_cors_headers && !behavior.strip_cors_headers {
        add_cors_headers(&mut out);
    }
    apply_frame_ancestors(&mut out, behavior);
    if let Some(len) = body_len {
        set_length(&mut out, len);
    }
    out
}

/// Copying with payload stripping, dropping the CSP headers and adding CORS
/// headers, done twice, leave the same fields as done once.
pub proof fn lemma_sanitize_idempotent(m: Fields, strip_payload: bool)
    ensures
        cors_added(csp_stripped(sanitized(cors_added(csp_stripped(sanitized(m, strip_payload))), strip_payload)))
            == cors_added(csp_stripped(sanitized(m, strip_payload))),
{
    reveal_strlit("content-length");
    reveal_strlit("content-encoding");
    reveal_strlit("transfer-encoding");
    reveal_strlit("content-md5");
    reveal_strlit("content-digest");
    reveal_strlit("etag");
    reveal_strlit("content-security-policy");
    reveal_strlit("content-security-policy-report-only");
    reveal_strlit("x-frame-options");
    reveal_strlit("frame-options");
    reveal_strlit("access-control-allow-origin");
    reveal_strlit("access-control-allow-methods");
    reveal_strlit("access-control-allow-headers");
    reveal_strlit("access-control-expose-headers");
    reveal_strlit("access-control-allow-credentials");
    reveal_strlit("access-control-max-age");
    let once = cors_added(csp_stripped(sanitized(m, strip_payload)));
    assert forall|k: Seq<char>| #[trigger] cors_fields().contains_key(k) implies !payload_names().contains(k)
        && !csp_names().contains(k) by {
        assert(k[0] == 'a');
    }
    assert(cors_added(csp_stripped(sanitized(once, strip_payload))) =~= once);
}

/// On an editor port route, every response, HEAD responses included, carries
/// exactly the editor's frame-ancestors policy as its CSP.
pub proof fn lemma_vscode_frame_ancestors(
    m: Fields,
    html_len: Option<nat>,
    body_len: Option<nat>,
    force_cors: bool,
)
    ensures
        response_fields(m, port_behavior(VSCODE_PORT), html_len).contains_key(
            "content-security-policy"@,
        ),
        response_fields(m, port_behavior(VSCODE_PORT), html_len)["content-security-policy"@]
            == seq![bytes_of(CSP_FRAME_ANCESTORS_VSCODE@)],
        head_fields(m, port_behavior(VSCODE_PORT), body_len, force_cors).contains_key(
            "content-security-policy"@,
        ),
        head_fields(m, port_behavior(VSCODE_PORT), body_len, force_cors)["content-security-policy"@]
            == seq![bytes_of(CSP_FRAME_ANCESTORS_VSCODE@)],
{
    reveal_strlit("content-length");
    reveal_strlit("content-security-policy");
    assert("content-length"@.len() != "content-security-policy"@.len());
    let b = port_behavior(VSCODE_PORT);
    assert(b.frame_ancestors);
    let csp = "content-security-policy"@;
    let v = seq![bytes_of(CSP_FRAME_ANCESTORS_VSCODE@)];
    let r = frame_policy(cors_policy(csp_stripped(sanitized(m, html_len.is_some())), b), b);
    assert(r.contains_key(csp) && r[csp] == v);
    match html_len {
        Some(len) => {
            assert(response_fields(m, b, html_len) == r.insert("content-length"@, seq![decimal(len)]));
        },
        None => {},
    }
}

} // verus!
