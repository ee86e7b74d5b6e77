//! The chat completions endpoint of a provider's base URL.
use vstd::prelude::*;

use crate::provider::{ProviderError, ProviderErrorView};
use crate::script_http::{parse_ip, parsed_ip, IpAddress};
use crate::text::{ascii_lower, concat, ends_with, str_eq, to_ascii_lower};

verus! {

/// The model of the parts of a parsed URL that the endpoint rules read.
pub struct UrlPartsView {
    pub scheme: Seq<char>,
    pub username: Seq<char>,
    pub has_password: bool,
    pub has_fragment: bool,
    pub host: Option<Seq<char>>,
    pub port: Option<u16>,
    pub path: Seq<char>,
}

/// The parts of a parsed URL that the endpoint rules read.
pub struct UrlParts {
    pub scheme: String,
    pub username: String,
    pub has_password: bool,
    pub has_fragment: bool,
    pub host: Option<String>,
    pub port: Option<u16>,
    pub path: String,
}

impl View for UrlParts {
    type V = UrlPartsView;

    open spec fn view(&self) -> UrlPartsView {
        UrlPartsView {
            scheme: self.scheme@,
            username: self.username@,
            has_password: self.has_password,
            has_fragment: self.has_fragment,
            host: crate::provider::opt_view(self.host),
            port: self.port,
            path: self.path@,
        }
    }
}

/// What the `url` crate makes of `text`: the parts of the parsed URL, or
/// the text of the parse error.
pub uninterp spec fn url_parts(text: Seq<char>) -> Result<UrlPartsView, Seq<char>>;

/// Parses `text` with `url::Url::parse` and reads its scheme, username,
/// password, fragment, host, port (`port_or_known_default`) and path. The contract names the outcome and
/// claims no more of it.
#[verifier::external_body]
pub(crate) fn parse_url_parts(text: &str) -> (r: Result<UrlParts, String>)
    ensures
        match r {
            Ok(p) => url_parts(text@) == Ok::<UrlPartsView, Seq<char>>(p@),
            Err(e) => url_parts(text@) == Err::<UrlPartsView, Seq<char>>(e@),
        },
{
    match url::Url::parse(text) {
        Ok(u) => Ok(UrlParts {
            scheme: u.scheme().to_string(),
            username: u.username().to_string(),
            has_password: u.password().is_some(),
            has_fragment: u.fragment().is_some(),
            host: u.host_str().map(|h| h.to_string()),
            port: u.port_or_known_default(),
            path: u.path().to_string(),
        }),
        Err(error) => Err(error.to_string()),
    }
}

/// What the `url` crate makes of `base` once its query is removed and its
/// path set to `path`: the serialized URL.
pub uninterp spec fn url_with_path(base: Seq<char>, path: Seq<char>) -> Seq<char>;

/// Parses `base` with `url::Url::parse`, removes its query with
/// `set_query(None)`, sets its path with `set_path` and serializes it. The
/// contract names the outcome and claims no more of it; `base` must be a
/// URL the crate parses.
#[verifier::external_body]
fn with_endpoint_path(base: &str, path: &str) -> (r: String)
    requires
        url_parts(base@) is Ok,
    ensures
        r@ == url_with_path(base@, path@),
{
    let mut url = url::Url::parse(base).unwrap();
    url.set_query(None);
    url.set_path(path);
    url.as_str().to_string()
}

/// Whether `ip` is a loopback address as `IpAddr::is_loopback` documents
/// it: in 127.0.0.0/8, or `::1`.
pub open spec fn loopback_address(ip: IpAddress) -> bool {
    match ip {
        IpAddress::V4(o) => o@[0] == 127,
        IpAddress::V6(s) => s@ == seq![0u16, 0u16, 0u16, 0u16, 0u16, 0u16, 0u16, 1u16],
    }
}

/// Whether `host` is an IP address that `core::net::IpAddr` parses to a
/// loopback address.
pub open spec fn loopback_ip(host: Seq<char>) -> bool {
    match parsed_ip(host) {
        Some(ip) => loopback_address(ip),
        None => false,
    }
}

/// Whether `host` parses as a loopback IP address.
fn is_loopback_ip(host: &str) -> (r: bool)
    ensures
        r == loopback_ip(host@),
{
    match parse_ip(host) {
        Some(IpAddress::V4(o)) => o[0] == 127,
        Some(IpAddress::V6(s)) => {
            let r = s[0] == 0 && s[1] == 0 && s[2] == 0 && s[3] == 0 && s[4] == 0 && s[5] == 0 && s[6] == 0
                && s[7] == 1;
            if r {
                assert(s@ =~= seq![0u16, 0u16, 0u16, 0u16, 0u16, 0u16, 0u16, 1u16]);
            } else {
                assert(s@ != seq![0u16, 0u16, 0u16, 0u16, 0u16, 0u16, 0u16, 1u16]) by {
                    if s@ == seq![0u16, 0u16, 0u16, 0u16, 0u16, 0u16, 0u16, 1u16] {
                        assert(s@[0] == 0 && s@[7] == 1);
                    }
                }
            }
            r
        },
        None => false,
    }
}

/// `s` without its trailing `c` characters.
pub open spec fn trim_end_char(s: Seq<char>, c: char) -> Seq<char>
    decreases s.len(),
{
    if s.len() > 0 && s.last() == c {
        trim_end_char(s.drop_last(), c)
    } else {
        s
    }
}

/// Whether a host is a loopback host: `localhost` in any case, or a
/// loopback IP address.
pub open spec fn loopback_host(host: Option<Seq<char>>) -> bool {
    match host {
        Some(h) => ascii_lower(h) == "localhost"@ || loopback_ip(h),
        None => false,
    }
}

/// The endpoint rules: no credentials or fragment; HTTPS, or HTTP to a
/// loopback host; a base path rather than the full endpoint. The endpoint
/// is the base URL without its query and with `/chat/completions` after
/// its path (trailing slashes dropped).
pub open spec fn endpoint_for(base: Seq<char>, parts: UrlPartsView) -> Result<Seq<char>, ProviderErrorView> {
    if parts.username.len() > 0 || parts.has_password || parts.has_fragment {
        Err(
            ProviderErrorView::InvalidConfiguration(
                "Base URL cannot contain credentials or a fragment"@,
            ),
        )
    } else if parts.scheme != "https"@ && !(parts.scheme == "http"@ && loopback_host(parts.host)) {
        if parts.scheme == "http"@ {
            Err(
                ProviderErrorView::InvalidConfiguration(
                    "plain HTTP is allowed only for loopback providers"@,
                ),
            )
        } else {
            Err(ProviderErrorView::InvalidConfiguration("Base URL must use HTTPS or loopback HTTP"@))
        }
    } else if ends_with(parts.path, "/chat/completions"@) {
        Err(
            ProviderErrorView::InvalidConfiguration(
                "enter the API base path, not the full /chat/completions endpoint"@,
            ),
        )
    } else {
        Ok(url_with_path(base, trim_end_char(parts.path, '/') + "/chat/completions"@))
    }
}

/// What the endpoint of `base` is, through what the `url` crate reads.
pub open spec fn endpoint_outcome(base: Seq<char>) -> Result<Seq<char>, ProviderErrorView> {
    match url_parts(base) {
        Err(e) => Err(ProviderErrorView::InvalidConfiguration(e)),
        Ok(parts) => endpoint_for(base, parts),
    }
}

/// `s` without its trailing `c` characters.
fn trim_end_matches(s: &str, c: char) -> (r: String)
    ensures
        r@ == trim_end_char(s@, c),
{
    let v = crate::text::chars_of(s);
    let mut n = v.len();
    assert(v@.take(n as int) =~= v@);
    while n > 0 && v[n - 1] == c
        invariant
            n <= v.len(),
            trim_end_char(v@, c) == trim_end_char(v@.take(n as int), c),
        decreases n,
    {
        assert(v@.take(n as int).drop_last() =~= v@.take(n - 1));
        n -= 1;
    }
    let r = crate::text::string_from_range(&v, 0, n);
    assert(v@.subrange(0, n as int) =~= v@.take(n as int));
    r
}

/// Whether a host is a loopback host.
fn host_is_loopback(host: &Option<String>) -> (r: bool)
    ensures
        r == loopback_host(crate::provider::opt_view(*host)),
{
    match host {
        Some(h) => {
            let lower = to_ascii_lower(h.as_str());
            str_eq(lower.as_str(), "localhost") || is_loopback_ip(h.as_str())
        },
        None => false,
    }
}

/// Applies the endpoint rules to a parsed base URL.
pub fn endpoint_from_parts(base: &str, parts: &UrlParts) -> (r: Result<String, ProviderError>)
    requires
        url_parts(base@) == Ok::<UrlPartsView, Seq<char>>(parts@),
    ensures
        match endpoint_for(base@, parts@) {
            Ok(u) => r matches Ok(x) && x@ == u,
            Err(e) => r matches Err(x) && x@ == e,
        },
{
    if parts.username.as_str().unicode_len() > 0 || parts.has_password || parts.has_fragment {
        return Err(
            ProviderError::InvalidConfiguration(
                "Base URL cannot contain credentials or a fragment".to_string(),
            ),
        );
    }
    let https = str_eq(parts.scheme.as_str(), "https");
    let http = str_eq(parts.scheme.as_str(), "http");
    if !https && !(http && host_is_loopback(&parts.host)) {
        if http {
            return Err(
                ProviderError::InvalidConfiguration(
                    "plain HTTP is allowed only for loopback providers".to_string(),
                ),
            );
        } else {
            return Err(
                ProviderError::InvalidConfiguration(
                    "Base URL must use HTTPS or loopback HTTP".to_string(),
                ),
            );
        }
    }
    let path_chars = crate::text::chars_of(parts.path.as_str());
    let suffix = crate::text::chars_of("/chat/completions");
    if crate::text::chars_end_with(&path_chars, &suffix) {
        return Err(
            ProviderError::InvalidConfiguration(
                "enter the API base path, not the full /chat/completions endpoint".to_string(),
            ),
        );
    }
    let trimmed = trim_end_matches(parts.path.as_str(), '/');
    let path = concat(trimmed.as_str(), "/chat/completions");
    Ok(with_endpoint_path(base, path.as_str()))
}

/// The chat completions endpoint of a provider's base URL.
pub fn completion_endpoint(base_url: &str) -> (r: Result<String, ProviderError>)
    ensures
        match endpoint_outcome(base_url@) {
            Ok(u) => r matches Ok(x) && x@ == u,
            Err(e) => r matches Err(x) && x@ == e,
        },
{
    match parse_url_parts(base_url) {
        Err(e) => Err(ProviderError::InvalidConfiguration(e)),
        Ok(parts) => endpoint_from_parts(base_url, &parts),
    }
}

} // verus!
