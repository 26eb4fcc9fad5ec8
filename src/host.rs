//! Host parsing: normalising the requested host and recognising the
//! platform's apex domains.
use vstd::prelude::*;
use crate::headers::{field_text, get_text, header_fields, Fields};
use http::HeaderMap;
use crate::text::{
    all_digits, ascii_lowercase, ends_with, find_last, has_char, is_digit, is_last, last_index,
    lower_text, strip_suffix, text_eq,
};

verus! {

/// The host with ASCII letters lower-cased and a trailing `:<digits>` removed.
pub open spec fn normalized(v: Seq<char>) -> Seq<char> {
    let l = lower_text(v);
    if has_char(l, ':') && all_digits(l.skip(last_index(l, ':') + 1)) {
        l.take(last_index(l, ':'))
    } else {
        l
    }
}

/// Lower-cases a host and removes a trailing port.
pub fn normalize_host(value: &str) -> (r: String)
    ensures
        r@ == normalized(value@),
{
    let host = ascii_lowercase(value);
    let h = host.as_str();
    match find_last(h, ':') {
        Some(idx) => {
            let n = h.unicode_len();
            let mut j: usize = idx + 1;
            while j < n
                invariant
                    n == h@.len(),
                    h@ == lower_text(value@),
                    host@ == h@,
                    is_last(h@, ':', idx as int),
                    last_index(h@, ':') == idx,
                    idx < j <= n,
                    forall|k: int| idx < k < j ==> is_digit(#[trigger] h@[k]),
                decreases n - j,
            {
                let c = h.get_char(j);
                if !('0' <= c && c <= '9') {
                    assert(h@.skip(idx + 1)[j - idx - 1] == c);
                    assert(!is_digit(h@.skip(idx + 1)[j - idx - 1]));
                    assert(!all_digits(h@.skip(idx + 1)));
                    return host;
                }
                j += 1;
            }
            assert(all_digits(h@.skip(idx + 1))) by {
                assert forall|k: int| 0 <= k < h@.skip(idx + 1).len() implies is_digit(
                    #[trigger] h@.skip(idx + 1)[k],
                ) by {
                    assert(h@.skip(idx + 1)[k] == h@[idx + 1 + k]);
                }
            }
            h.substring_char(0, idx).to_owned()
        },
        None => host,
    }
}

/// The host a request is addressed to: the forwarded host when it reads as
/// text, else the `Host` header, normalised.
pub open spec fn request_host(m: Fields) -> Option<Seq<char>> {
    match field_text(m, "x-forwarded-host"@) {
        Some(t) => Some(normalized(t)),
        None => match field_text(m, "host"@) {
            Some(t) => Some(normalized(t)),
            None => None,
        },
    }
}

/// Finds the host a request is addressed to.
pub fn extract_host(headers: &HeaderMap) -> (r: Option<String>)
    ensures
        opt_view(r) == request_host(header_fields(*headers)),
{
    proof {
        reveal_strlit("x-forwarded-host");
        reveal_strlit("host");
    }
    if let Some(forwarded) = get_text(headers, "x-forwarded-host") {
        return Some(normalize_host(forwarded.as_str()));
    }
    match get_text(headers, "host") {
        Some(h) => Some(normalize_host(h.as_str())),
        None => None,
    }
}

/// The subdomain and apex that a subdomain-bearing host splits into.
pub open spec fn split_apex(h: Seq<char>, apex: Seq<char>) -> (Option<Seq<char>>, Seq<char>) {
    let prefix = h.take(h.len() - apex.len() - 1);
    (if prefix.len() == 0 { None } else { Some(prefix) }, apex)
}

/// What a normalised host means to the proxy: `None` for a host outside the
/// platform, else the subdomain (absent for the apex itself) and the apex.
pub open spec fn host_parts(h: Seq<char>) -> Option<(Option<Seq<char>>, Seq<char>)> {
    if h == "cmux.sh"@ || h == "cmux.local"@ {
        Some((None, "cmux.sh"@))
    } else if ends_with(h, ".cmux.sh"@) {
        Some(split_apex(h, "cmux.sh"@))
    } else if h == "cmux.localhost"@ {
        Some((None, "cmux.localhost"@))
    } else if ends_with(h, ".cmux.localhost"@) {
        Some(split_apex(h, "cmux.localhost"@))
    } else if h == "cmux.app"@ {
        Some((None, "cmux.app"@))
    } else if ends_with(h, ".cmux.app"@) {
        Some(split_apex(h, "cmux.app"@))
    } else {
        None
    }
}

pub open spec fn opt_view(o: Option<String>) -> Option<Seq<char>> {
    match o {
        Some(s) => Some(s@),
        None => None,
    }
}

pub open spec fn host_parts_view(r: Option<(Option<String>, String)>) -> Option<
    (Option<Seq<char>>, Seq<char>),
> {
    match r {
        Some((sub, apex)) => Some((opt_view(sub), apex@)),
        None => None,
    }
}

fn split_after_strip(prefix: &str, apex: &str) -> (r: (Option<String>, String))
    ensures
        opt_view(r.0) == (if prefix@.len() == 0 { None } else { Some(prefix@) }),
        r.1@ == apex@,
{
    let sub = if prefix.unicode_len() == 0 {
        None
    } else {
        Some(prefix.to_owned())
    };
    (sub, apex.to_owned())
}

/// Recognises the platform's apex domains and splits off the subdomain.
pub fn parse_cmux_host(host: &str) -> (r: Option<(Option<String>, String)>)
    ensures
        host_parts_view(r) == host_parts(host@),
{
    proof {
        reveal_strlit("cmux.sh");
        reveal_strlit(".cmux.sh");
        reveal_strlit("cmux.localhost");
        reveal_strlit(".cmux.localhost");
        reveal_strlit("cmux.app");
        reveal_strlit(".cmux.app");
    }
    if text_eq(host, "cmux.sh") || text_eq(host, "cmux.local") {
        return Some((None, "cmux.sh".to_owned()));
    }
    if let Some(prefix) = strip_suffix(host, ".cmux.sh") {
        return Some(split_after_strip(prefix, "cmux.sh"));
    }
    if text_eq(host, "cmux.localhost") {
        return Some((None, "cmux.localhost".to_owned()));
    }
    if let Some(prefix) = strip_suffix(host, ".cmux.localhost") {
        return Some(split_after_strip(prefix, "cmux.localhost"));
    }
    if text_eq(host, "cmux.app") {
        return Some((None, "cmux.app".to_owned()));
    }
    if let Some(prefix) = strip_suffix(host, ".cmux.app") {
        return Some(split_after_strip(prefix, "cmux.app"));
    }
    None
}

} // verus!
