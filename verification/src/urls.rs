//! URL handling: parsing through the `url` crate, normalisation of allowed
//! embed locations, and the Origin/Referer check against cross-site requests.
use vstd::prelude::*;
use crate::rejection::{Rejection, reject, outcome, opt_text};
use crate::text::{Strip, strip_end, trailing_count, decimal, trim_end_slashes, str_eq, starts_with, decimal_string};

verus! {

/// The parts of a parsed URL that the server reads.
#[derive(Debug)]
pub struct UrlParts {
    pub scheme: String,
    pub host: Option<String>,
    pub port: Option<u16>,
    pub path: String,
    pub segments: Option<Vec<String>>,
}

/// The mathematical value of a parsed URL.
pub struct SpecUrl {
    pub scheme: Seq<char>,
    pub host: Option<Seq<char>>,
    pub port: Option<u16>,
    pub path: Seq<char>,
    pub segments: Option<Seq<Seq<char>>>,
}

impl View for UrlParts {
    type V = SpecUrl;

    open spec fn view(&self) -> SpecUrl {
        SpecUrl {
            scheme: self.scheme@,
            host: opt_text(self.host),
            port: self.port,
            path: self.path@,
            segments: match self.segments {
                Some(v) => Some(v@.map_values(|s: String| s@)),
                None => None,
            },
        }
    }
}

/// What `url::Url::parse` makes of a text: its scheme, host, explicit
/// non-default port, path and path segments, or nothing when it refuses the text.
pub uninterp spec fn parsed_url(input: Seq<char>) -> Option<SpecUrl>;

/// `url::Url::parse`, with `scheme`, `host_str`, `port`, `path` and
/// `path_segments` read off the result. The WHATWG parsing rules are not
/// restated: the result is only claimed to be a function of the input text.
#[verifier::external_body]
pub fn parse_url(input: &str) -> (r: Option<UrlParts>)
    ensures
        match r {
            Some(p) => parsed_url(input@) == Some(p@),
            None => parsed_url(input@) is None,
        },
{
    url::Url::parse(input).ok().map(|u| UrlParts {
        scheme: u.scheme().to_string(),
        host: u.host_str().map(|h| h.to_string()),
        port: u.port(),
        path: u.path().to_string(),
        segments: u.path_segments().map(|s| s.map(|x| x.to_string()).collect()),
    })
}

/// The `:port` suffix of an authority, empty when the port is the scheme's default.
pub open spec fn port_suffix(port: Option<u16>) -> Seq<char> {
    match port {
        Some(p) => ":"@ + decimal(p as nat),
        None => Seq::empty(),
    }
}

/// A path with its trailing slashes removed; the root stays `/`.
pub open spec fn normalized_path(path: Seq<char>) -> Seq<char> {
    if path == "/"@ || path.len() == 0 {
        "/"@
    } else {
        strip_end(path, Strip::Slash)
    }
}

/// `scheme://host[:port]`, or nothing when the URL has no host.
pub open spec fn origin_of(u: SpecUrl) -> Option<Seq<char>> {
    match u.host {
        Some(h) => Some(u.scheme + "://"@ + h + port_suffix(u.port)),
        None => None,
    }
}

/// The normal form of an allowed embed location: `scheme://host[:port]path`
/// with the query and fragment dropped and trailing slashes removed; only
/// `http` and `https` URLs with a host have one.
pub open spec fn normalized_url(u: SpecUrl) -> Option<Seq<char>> {
    if u.scheme != "http"@ && u.scheme != "https"@ {
        None
    } else {
        match origin_of(u) {
            Some(o) => Some(o + normalized_path(u.path)),
            None => None,
        }
    }
}

/// The normal form of the URL written as `s`, when it parses and qualifies.
pub open spec fn normalized_text(s: Seq<char>) -> Option<Seq<char>> {
    match parsed_url(s) {
        Some(u) => normalized_url(u),
        None => None,
    }
}

/// The origin that requests must come from, given the configured frontend URL.
pub open spec fn expected_origin(frontend: Seq<char>) -> Option<Seq<char>> {
    match parsed_url(frontend) {
        Some(u) => origin_of(u),
        None => None,
    }
}

/// The normal form of an allowed location keeps the whole path but its
/// trailing slashes: for an `http`/`https` URL with a host and a path other
/// than the root, it is the origin followed by the path without trailing
/// slashes; the root path gives the origin and `/`. It never depends on how
/// the path splits into segments, nor on anything beyond scheme, host, port
/// and path.
pub proof fn law_normal_form_keeps_path(u: SpecUrl, other_segments: Option<Seq<Seq<char>>>)
    requires
        u.scheme == "http"@ || u.scheme == "https"@,
        u.host is Some,
    ensures
        u.path.len() > 0 && u.path != "/"@ ==> normalized_url(u) == Some(
            origin_of(u).unwrap() + strip_end(u.path, Strip::Slash),
        ),
        (u.path.len() == 0 || u.path == "/"@) ==> normalized_url(u) == Some(origin_of(u).unwrap() + "/"@),
        origin_of(u) == Some(u.scheme + "://"@ + u.host.unwrap() + port_suffix(u.port)),
        normalized_url(SpecUrl { segments: other_segments, ..u }) == normalized_url(u),
{
}

/// `n` slashes.
pub open spec fn slashes(n: nat) -> Seq<char> {
    Seq::new(n, |i: int| '/')
}

proof fn lemma_trailing_slashes(p: Seq<char>, n: nat)
    requires
        p.len() > 0,
        p.last() != '/',
    ensures
        trailing_count(p + slashes(n), Strip::Slash) == n,
    decreases n,
{
    let q = p + slashes(n);
    if n == 0 {
        assert(q =~= p);
    } else {
        lemma_trailing_slashes(p, (n - 1) as nat);
        assert(q.drop_last() =~= p + slashes((n - 1) as nat));
        assert(q.last() == '/');
    }
}

/// Trailing slashes never make a different allowed location: a URL whose
/// path ends in any number of extra slashes has the normal form of the URL
/// without them (for a path that does not itself end in a slash).
pub proof fn law_trailing_slashes_ignored(u: SpecUrl, n: nat)
    requires
        u.path.len() > 0,
        u.path.last() != '/',
    ensures
        normalized_url(SpecUrl { path: u.path + slashes(n), ..u }) == normalized_url(u),
{
    let v = SpecUrl { path: u.path + slashes(n), ..u };
    reveal_strlit("/");
    lemma_trailing_slashes(u.path, n);
    lemma_trailing_slashes(u.path, 0);
    assert(u.path + slashes(0) =~= u.path);
    assert(strip_end(v.path, Strip::Slash) =~= u.path);
    assert(strip_end(u.path, Strip::Slash) =~= u.path);
    if v.path == "/"@ {
        assert(v.path[v.path.len() - 1] == '/');
        assert(n == 0);
        assert(v.path[0] == u.path[0]);
    }
    if u.path == "/"@ {
        assert(u.path[0] == '/');
    }
    assert(normalized_path(v.path) == normalized_path(u.path));
}

/// Builds `scheme://host[:port]` for a parsed URL.
pub fn origin_string(u: &UrlParts) -> (r: Option<String>)
    ensures
        opt_text(r) == origin_of(u@),
{
    match &u.host {
        Some(h) => {
            let mut o = u.scheme.clone();
            o.append("://");
            o.append(h.as_str());
            match u.port {
                Some(p) => {
                    o.append(":");
                    let digits = decimal_string(p as u64);
                    o.append(digits.as_str());
                },
                None => {},
            }
            assert(o@ =~= u@.scheme + "://"@ + h@ + port_suffix(u.port));
            Some(o)
        },
        None => None,
    }
}

/// Normalises a parsed URL (see `normalized_url`).
pub fn normalize_parts(u: &UrlParts) -> (r: Option<String>)
    ensures
        opt_text(r) == normalized_url(u@),
{
    if !str_eq(u.scheme.as_str(), "http") && !str_eq(u.scheme.as_str(), "https") {
        return None;
    }
    match origin_string(u) {
        Some(mut o) => {
            let path = u.path.as_str();
            if str_eq(path, "/") || path.is_empty() {
                o.append("/");
            } else {
                let trimmed = trim_end_slashes(path);
                o.append(trimmed);
            }
            Some(o)
        },
        None => None,
    }
}

/// Normalises a URL so that query strings, fragments and trailing slashes
/// cannot be used to slip past the list of allowed embed locations.
/// Only `http`/`https` URLs with a host are accepted.
pub fn normalize_url(url_str: &str) -> (r: Option<String>)
    ensures
        opt_text(r) == normalized_text(url_str@),
{
    match parse_url(url_str) {
        Some(u) => normalize_parts(&u),
        None => None,
    }
}

/// Whether a header byte is visible ASCII (or a tab).
pub open spec fn visible_ascii(b: u8) -> bool {
    (32 <= b && b < 127) || b == 9
}

/// The text of a header value whose bytes are all visible ASCII.
pub open spec fn header_chars(b: Seq<u8>) -> Seq<char> {
    b.map_values(|x: u8| x as char)
}

/// What `HeaderValue::to_str` gives: the text when every byte is visible ASCII.
pub open spec fn header_text(b: Seq<u8>) -> Option<Seq<char>> {
    if forall|i: int| 0 <= i < b.len() ==> visible_ascii(#[trigger] b[i]) {
        Some(header_chars(b))
    } else {
        None
    }
}

/// `http::HeaderValue::from_bytes` followed by `to_str`: the bytes read as
/// text when they are all visible ASCII (space to `~`, or tab), and nothing otherwise.
#[verifier::external_body]
pub fn header_value_text(bytes: &[u8]) -> (r: Option<String>)
    ensures
        opt_text(r) == header_text(bytes@),
{
    match axum::http::HeaderValue::from_bytes(bytes) {
        Ok(v) => v.to_str().ok().map(|s| s.to_string()),
        Err(_) => None,
    }
}

/// Whether a Referer names a page of the site at `origin`: the origin itself,
/// or the origin followed by `/` and a path. A look-alike host that merely
/// begins with the origin's text (`http://localhost:8080.evil.com/`) is not.
pub open spec fn referer_from(referer: Seq<char>, origin: Seq<char>) -> bool {
    referer == origin || (origin + "/"@).is_prefix_of(referer)
}

/// The answer of the Origin/Referer check for a state-changing request.
pub open spec fn csrf_verdict(
    frontend: Seq<char>,
    origin: Option<Seq<u8>>,
    referer: Option<Seq<u8>>,
) -> Result<(), (u16, Seq<char>)> {
    match expected_origin(frontend) {
        None => Err((500, "Invalid FRONTEND_URL configuration"@)),
        Some(expected) => match origin {
            Some(o) => match header_text(o) {
                None => Err((400, "Invalid Origin header"@)),
                Some(t) => if t == expected {
                    Ok(())
                } else {
                    Err((403, "CSRF validation failed: Origin mismatch"@))
                },
            },
            None => match referer {
                Some(r) => match header_text(r) {
                    None => Err((400, "Invalid Referer header"@)),
                    Some(t) => if referer_from(t, expected) {
                        Ok(())
                    } else {
                        Err((403, "CSRF validation failed: Referer mismatch"@))
                    },
                },
                None => Err((403, "CSRF validation failed: Missing Origin or Referer header"@)),
            },
        },
    }
}

/// A state-changing request is let through only when the frontend's origin
/// is known and the request shows it: by an Origin header whose text is that
/// origin, or, without an Origin header, by a Referer on a page of that
/// origin. A request with neither header is always refused.
pub proof fn law_csrf_only_from_frontend(frontend: Seq<char>, origin: Option<Seq<u8>>, referer: Option<Seq<u8>>)
    ensures
        csrf_verdict(frontend, origin, referer) is Ok ==> expected_origin(frontend) is Some && match origin {
            Some(o) => header_text(o) == Some(expected_origin(frontend).unwrap()),
            None => referer is Some && header_text(referer.unwrap()) is Some && referer_from(
                header_text(referer.unwrap()).unwrap(),
                expected_origin(frontend).unwrap(),
            ),
        },
        origin is None && referer is None ==> csrf_verdict(frontend, origin, referer) is Err,
        expected_origin(frontend) is None ==> csrf_verdict(frontend, origin, referer) == Err::<(), (u16, Seq<char>)>(
            (500u16, "Invalid FRONTEND_URL configuration"@),
        ),
{
}

/// Checks that a request comes from the configured frontend: the Origin header
/// must equal its origin, or, without an Origin header, the Referer must be a
/// page of that origin (see `referer_from`).
pub fn validate_csrf_protection(
    frontend_url: &str,
    origin: Option<&[u8]>,
    referer: Option<&[u8]>,
) -> (r: Result<(), Rejection>)
    ensures
        outcome(r) == csrf_verdict(
            frontend_url@,
            match origin {
                Some(o) => Some(o@),
                None => None,
            },
            match referer {
                Some(x) => Some(x@),
                None => None,
            },
        ),
{
    let expected = match parse_url(frontend_url) {
        Some(u) => origin_string(&u),
        None => None,
    };
    let expected = match expected {
        Some(e) => e,
        None => {
            return Err(reject(500, "Invalid FRONTEND_URL configuration"));
        },
    };
    match origin {
        Some(o) => {
            match header_value_text(o) {
                None => Err(reject(400, "Invalid Origin header")),
                Some(t) => {
                    if str_eq(t.as_str(), expected.as_str()) {
                        Ok(())
                    } else {
                        Err(reject(403, "CSRF validation failed: Origin mismatch"))
                    }
                },
            }
        },
        None => match referer {
            Some(x) => {
                match header_value_text(x) {
                    None => Err(reject(400, "Invalid Referer header")),
                    Some(t) => {
                        let mut site = expected.clone();
                        site.append("/");
                        if str_eq(t.as_str(), expected.as_str()) || starts_with(t.as_str(), site.as_str()) {
                            Ok(())
                        } else {
                            Err(reject(403, "CSRF validation failed: Referer mismatch"))
                        }
                    },
                }
            },
            None => Err(reject(403, "CSRF validation failed: Missing Origin or Referer header")),
        },
    }
}

} // verus!
