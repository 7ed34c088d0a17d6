//! URL handling: the management API path join and the inference socket
//! rewrite.
//!
//! URLs live in the library as [`UrlParts`], a plain decomposition into
//! scheme, host, port, path and query. Parsing a URL string into that form
//! is delegated to the `url` crate through a trusted wrapper; everything
//! that reads or rewrites the parts is verified.

use vstd::prelude::*;

use crate::error::Error;
use crate::text::chars_of;
use crate::text::string_of;

verus! {

/// A parsed URL, reduced to the components this library reads.
#[derive(Clone, Debug, PartialEq, Eq)]
pub struct UrlParts {
    pub scheme: String,
    pub host: Option<String>,
    pub port: Option<u16>,
    pub path: String,
    pub query: Option<String>,
}

/// What `url::Url::parse` makes of a URL string: its components, or
/// nothing when the string is not a valid absolute URL. The result is a
/// function of the string alone.
pub uninterp spec fn spec_url_parse(s: Seq<char>) -> Option<UrlParts>;

/// Relies on `url::Url::parse` and the component accessors `scheme`,
/// `host_str`, `port`, `path` and `query`: parsing is deterministic in
/// the input and either fails or yields the URL's components, named
/// `spec_url_parse`, with the scheme non-empty (the parser lowercases it
/// and requires it to start with an ASCII letter).
#[verifier::external_body]
fn parse_url_via_crate(input: &str) -> (r: Result<UrlParts, ()>)
    ensures
        r is Ok <==> spec_url_parse(input@) is Some,
        r matches Ok(p) ==> spec_url_parse(input@) == Some(p),
        r matches Ok(p) ==> p.scheme@.len() > 0,
{
    match url::Url::parse(input) {
        Ok(u) => Ok(UrlParts {
            scheme: u.scheme().to_string(),
            host: u.host_str().map(|h| h.to_string()),
            port: u.port(),
            path: u.path().to_string(),
            query: u.query().map(|q| q.to_string()),
        }),
        Err(_) => Err(()),
    }
}

/// Parse a URL string into its components. Succeeds exactly when the
/// `url` crate parses the string, and then returns what it parsed.
pub fn parse_url(input: &str) -> (r: Result<UrlParts, Error>)
    ensures
        r is Ok <==> spec_url_parse(input@) is Some,
        r matches Ok(p) ==> spec_url_parse(input@) == Some(p) && p.scheme@.len() > 0,
        r is Err ==> (r matches Err(e) && e matches Error::Url(_)),
{
    match parse_url_via_crate(input) {
        Ok(p) => Ok(p),
        Err(()) => Err(Error::Url(input.to_owned())),
    }
}

/// `base` with its trailing `/` characters removed.
pub open spec fn spec_trim_trailing_slashes(s: Seq<char>) -> Seq<char>
    decreases s.len(),
{
    if s.len() > 0 && s[s.len() - 1] == '/' {
        spec_trim_trailing_slashes(s.drop_last())
    } else {
        s
    }
}

fn trim_trailing_slashes(s: &str) -> (r: Vec<char>)
    ensures
        r@ == spec_trim_trailing_slashes(s@),
{
    let mut v = chars_of(s);
    loop
        invariant
            spec_trim_trailing_slashes(v@) == spec_trim_trailing_slashes(s@),
        decreases v.len(),
    {
        let n = v.len();
        if n > 0 && v[n - 1] == '/' {
            proof {
                assert(v@.drop_last() =~= v@.take(n - 1));
            }
            v.pop();
        } else {
            return v;
        }
    }
}

/// Join an API path onto a base URL string.
///
/// Fails exactly when `path` does not start with `/`; otherwise the result
/// is the base without its trailing slashes, followed by `path`.
pub fn format_api_url(base_url: &str, path: &str) -> (r: Result<String, Error>)
    ensures
        r matches Ok(s) ==> s@ == spec_trim_trailing_slashes(base_url@) + path@,
        r is Ok <==> path@.len() > 0 && path@[0] == '/',
        r is Err ==> (r matches Err(e) && e matches Error::Other(_)),
{
    let path_chars = chars_of(path);
    if path_chars.len() == 0 || path_chars[0] != '/' {
        return Err(Error::Other(path.to_owned()));
    }
    let mut out = trim_trailing_slashes(base_url);
    let mut i: usize = 0;
    while i < path_chars.len()
        invariant
            i <= path_chars.len(),
            out@ == spec_trim_trailing_slashes(base_url@) + path_chars@.take(i as int),
            path_chars@ == path@,
        decreases path_chars.len() - i,
    {
        out.push(path_chars[i]);
        i = i + 1;
    }
    proof {
        assert(out@ =~= spec_trim_trailing_slashes(base_url@) + path@);
    }
    Ok(string_of(&out))
}

/// The scheme that the inference socket uses in place of `scheme`:
/// `http` maps to `ws`, `https` to `wss`, anything else stays.
pub open spec fn spec_socket_scheme(scheme: Seq<char>) -> Seq<char> {
    if scheme == "http"@ {
        "ws"@
    } else if scheme == "https"@ {
        "wss"@
    } else {
        scheme
    }
}

fn str_eq_chars(v: &Vec<char>, s: &str) -> (r: bool)
    ensures
        r <==> v@ == s@,
{
    let sc = chars_of(s);
    if v.len() != sc.len() {
        proof {
            assert(v@.len() != s@.len());
        }
        return false;
    }
    let mut i: usize = 0;
    while i < v.len()
        invariant
            i <= v.len(),
            v@.len() == sc@.len(),
            sc@ == s@,
            forall|j: int| 0 <= j < i ==> v@[j] == sc@[j],
        decreases v.len() - i,
    {
        if v[i] != sc[i] {
            return false;
        }
        i = i + 1;
    }
    proof {
        assert(v@ =~= s@);
    }
    true
}

/// Rewrite parsed URL components for the inference socket endpoint:
/// the scheme maps `http` to `ws` and `https` to `wss` (others are kept),
/// the path is forced to `/api/v1/inference_socket`, and host, port and
/// query are preserved.
pub fn inference_socket_parts(parts: UrlParts) -> (r: UrlParts)
    ensures
        r.scheme@ == spec_socket_scheme(parts.scheme@),
        r.path@ == "/api/v1/inference_socket"@,
        r.host == parts.host,
        r.port == parts.port,
        r.query == parts.query,
{
    let scheme_chars = chars_of(parts.scheme.as_str());
    let scheme: String = if str_eq_chars(&scheme_chars, "http") {
        "ws".to_owned()
    } else if str_eq_chars(&scheme_chars, "https") {
        "wss".to_owned()
    } else {
        parts.scheme
    };
    UrlParts {
        scheme,
        host: parts.host,
        port: parts.port,
        path: "/api/v1/inference_socket".to_owned(),
        query: parts.query,
    }
}

/// Parse a URL string and rewrite it for the inference socket endpoint.
/// Succeeds exactly when the `url` crate parses the string; the result is
/// the parsed URL with its scheme mapped for the socket, its path forced
/// to the endpoint, and its host, port and query preserved.
pub fn inference_socket_url(input: &str) -> (r: Result<UrlParts, Error>)
    ensures
        r is Ok <==> spec_url_parse(input@) is Some,
        r matches Ok(p) ==> (spec_url_parse(input@) matches Some(q) && {
            &&& p.scheme@ == spec_socket_scheme(q.scheme@)
            &&& p.path@ == "/api/v1/inference_socket"@
            &&& p.host == q.host
            &&& p.port == q.port
            &&& p.query == q.query
        }),
        r is Err ==> (r matches Err(e) && e matches Error::Url(_)),
{
    let parts = parse_url(input)?;
    Ok(inference_socket_parts(parts))
}

} // verus!
