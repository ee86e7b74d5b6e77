//! What a script may reach through the host: the capability each host call
//! needs, the approved network rules of its package, no local or private
//! address, no credential headers, and at most 2 MiB of body each way and of
//! output in all.
use vstd::prelude::*;

use crate::endpoint::{parse_url_parts, url_parts, UrlParts, UrlPartsView};
use crate::actions::ActionDescriptor;
use crate::plugin::{capability_name, Capability, PluginId};
use crate::registry::{action_ids, CapabilityAuthority, PluginRegistry};
use crate::provider::strings_view;
use crate::script::{rules_view, RuleSpec, ScriptHostCall, ScriptHttpRequest, ScriptNetworkRule};
use crate::sse::decode_utf8_bytes;
use crate::text::{
    ascii_lower, ascii_upper, chars_of, chars_start_with, concat, copy_string, str_eq,
    to_ascii_lower, to_ascii_upper,
};
use vstd::utf8::{decode_utf8, valid_utf8};

verus! {

/// The largest request or response body a script may send or receive.
pub const HTTP_BODY_LIMIT: usize = 2097152;

/// The most output a script invocation may produce.
pub const OUTPUT_LIMIT: usize = 2097152;

/// The capability a host call needs.
pub open spec fn capability_for(call: ScriptHostCall) -> Capability {
    match call {
        ScriptHostCall::Ai { .. } => Capability::AiInvoke,
        ScriptHostCall::Http(..) => Capability::NetworkRequest,
        ScriptHostCall::StorageGet { .. } => Capability::StorageRead,
        ScriptHostCall::StorageSet { .. } => Capability::StorageWrite,
        ScriptHostCall::StorageDelete { .. } => Capability::StorageWrite,
    }
}

/// The capability a host call needs.
pub fn required_capability(call: &ScriptHostCall) -> (r: Capability)
    ensures
        r == capability_for(*call),
{
    match call {
        ScriptHostCall::Ai { .. } => Capability::AiInvoke,
        ScriptHostCall::Http(..) => Capability::NetworkRequest,
        ScriptHostCall::StorageGet { .. } => Capability::StorageRead,
        ScriptHostCall::StorageSet { .. } => Capability::StorageWrite,
        ScriptHostCall::StorageDelete { .. } => Capability::StorageWrite,
    }
}

/// An IP address, by its octets or its segments.
#[derive(Clone, Copy, Debug)]
pub enum IpAddress {
    V4([u8; 4]),
    V6([u16; 8]),
}

/// A local or private IPv4 address: private (10/8, 172.16/12,
/// 192.168/16), loopback (127/8), link-local (169.254/16), broadcast,
/// multicast (224/4), or in 0/8 (which holds the unspecified address).
pub open spec fn private_v4(o: Seq<u8>) -> bool {
    ||| o[0] == 10
    ||| o[0] == 172 && 16 <= o[1] <= 31
    ||| o[0] == 192 && o[1] == 168
    ||| o[0] == 127
    ||| o[0] == 169 && o[1] == 254
    ||| o[0] == 255 && o[1] == 255 && o[2] == 255 && o[3] == 255
    ||| 224 <= o[0] <= 239
    ||| o[0] == 0
}

/// A local or private IPv6 address: loopback (`::1`), unspecified (`::`),
/// multicast (`ff00::/8`), unique local (`fc00::/7`) or link-local
/// (`fe80::/10`).
pub open spec fn private_v6(s: Seq<u16>) -> bool {
    let head_zero = s[0] == 0 && s[1] == 0 && s[2] == 0 && s[3] == 0 && s[4] == 0 && s[5] == 0
        && s[6] == 0;
    ||| head_zero && (s[7] == 1 || s[7] == 0)
    ||| s[0] & 0xff00u16 == 0xff00u16
    ||| s[0] & 0xfe00u16 == 0xfc00u16
    ||| s[0] & 0xffc0u16 == 0xfe80u16
}

/// A local or private address, which scripts may not reach.
pub open spec fn private_ip(ip: IpAddress) -> bool {
    match ip {
        IpAddress::V4(o) => private_v4(o@),
        IpAddress::V6(s) => private_v6(s@),
    }
}

/// Whether `ip` is local or private.
pub fn is_private_ip(ip: &IpAddress) -> (r: bool)
    ensures
        r == private_ip(*ip),
{
    match ip {
        IpAddress::V4(o) => {
            let a = o[0];
            let b = o[1];
            a == 10 || (a == 172 && 16 <= b && b <= 31) || (a == 192 && b == 168) || a == 127 || (a
                == 169 && b == 254) || (a == 255 && b == 255 && o[2] == 255 && o[3] == 255) || (224
                <= a && a <= 239) || a == 0
        },
        IpAddress::V6(s) => {
            let head_zero = s[0] == 0 && s[1] == 0 && s[2] == 0 && s[3] == 0 && s[4] == 0 && s[5]
                == 0 && s[6] == 0;
            (head_zero && (s[7] == 1 || s[7] == 0)) || s[0] & 0xff00u16 == 0xff00u16 || s[0]
                & 0xfe00u16 == 0xfc00u16 || s[0] & 0xffc0u16 == 0xfe80u16
        },
    }
}

/// What `core::net::IpAddr` makes of `text`: the address, or `None` when
/// it does not parse.
pub uninterp spec fn parsed_ip(text: Seq<char>) -> Option<IpAddress>;

/// Parses `text` as a `core::net::IpAddr` and reads its octets or
/// segments. The contract names the outcome and claims no more of it.
#[verifier::external_body]
pub(crate) fn parse_ip(text: &str) -> (r: Option<IpAddress>)
    ensures
        r == parsed_ip(text@),
{
    match text.parse::<core::net::IpAddr>() {
        Ok(core::net::IpAddr::V4(ip)) => Some(IpAddress::V4(ip.octets())),
        Ok(core::net::IpAddr::V6(ip)) => Some(IpAddress::V6(ip.segments())),
        Err(_) => None,
    }
}

/// The port a rule reaches: its own, or its scheme's default.
pub open spec fn allowed_port(rule: RuleSpec) -> Option<u16> {
    match rule.port {
        Some(p) => Some(p),
        None => if rule.scheme == "https"@ {
            Some(443u16)
        } else if rule.scheme == "http"@ {
            Some(80u16)
        } else {
            None
        },
    }
}

/// Whether `path` lies under one of `prefixes`; any path does when there
/// are none.
pub open spec fn path_within(prefixes: Seq<Seq<char>>, path: Seq<char>) -> bool {
    prefixes.len() == 0 || exists|k: int|
        0 <= k < prefixes.len() && #[trigger] prefixes[k].is_prefix_of(path)
}

/// Whether `rule` lets `method` reach `path` on `scheme://host:port`. Hosts
/// compare without regard to ASCII case.
pub open spec fn rule_allows(
    rule: RuleSpec,
    scheme: Seq<char>,
    host: Seq<char>,
    port: Option<u16>,
    path: Seq<char>,
    method: Seq<char>,
) -> bool {
    &&& rule.scheme == scheme
    &&& ascii_lower(rule.host) == ascii_lower(host)
    &&& allowed_port(rule) == port
    &&& rule.methods.contains(method)
    &&& path_within(rule.path_prefixes, path)
}

/// Whether one of `rules` lets `method` reach the target.
pub open spec fn rules_allow(
    rules: Seq<RuleSpec>,
    scheme: Seq<char>,
    host: Seq<char>,
    port: Option<u16>,
    path: Seq<char>,
    method: Seq<char>,
) -> bool {
    exists|k: int| 0 <= k < rules.len() && #[trigger] rule_allows(rules[k], scheme, host, port, path, method)
}

/// Whether one of `items` equals `s`.
fn contains_str(items: &Vec<String>, s: &str) -> (r: bool)
    ensures
        r == strings_view(items@).contains(s@),
{
    let ghost v = strings_view(items@);
    let mut i: usize = 0;
    while i < items.len()
        invariant
            i <= items.len(),
            v == strings_view(items@),
            forall|j: int| 0 <= j < i ==> v[j] != s@,
        decreases items.len() - i,
    {
        if str_eq(items[i].as_str(), s) {
            assert(v[i as int] == s@);
            return true;
        }
        i += 1;
    }
    false
}

/// Whether `path` lies under one of `prefixes`.
fn within_prefixes(prefixes: &Vec<String>, path: &str) -> (r: bool)
    ensures
        r == path_within(strings_view(prefixes@), path@),
{
    let ghost v = strings_view(prefixes@);
    if prefixes.len() == 0 {
        return true;
    }
    let pv = chars_of(path);
    let mut i: usize = 0;
    while i < prefixes.len()
        invariant
            i <= prefixes.len(),
            v == strings_view(prefixes@),
            pv@ == path@,
            forall|j: int| 0 <= j < i ==> !(#[trigger] v[j]).is_prefix_of(path@),
        decreases prefixes.len() - i,
    {
        let prefix = chars_of(prefixes[i].as_str());
        if chars_start_with(&pv, &prefix) {
            assert(v[i as int].is_prefix_of(path@));
            return true;
        }
        i += 1;
    }
    false
}

/// Whether `rule` lets `method` reach `path` on `scheme://host:port`.
fn rule_lets(
    rule: &ScriptNetworkRule,
    scheme: &str,
    host: &str,
    port: Option<u16>,
    path: &str,
    method: &str,
) -> (r: bool)
    ensures
        r == rule_allows(rule@, scheme@, host@, port, path@, method@),
{
    if !str_eq(rule.scheme.as_str(), scheme) {
        return false;
    }
    let rule_host = to_ascii_lower(rule.host.as_str());
    let target_host = to_ascii_lower(host);
    if !str_eq(rule_host.as_str(), target_host.as_str()) {
        return false;
    }
    let reach: Option<u16> = match rule.port {
        Some(p) => Some(p),
        None => if str_eq(rule.scheme.as_str(), "https") {
            Some(443)
        } else if str_eq(rule.scheme.as_str(), "http") {
            Some(80)
        } else {
            None
        },
    };
    if reach != port {
        return false;
    }
    contains_str(&rule.methods, method) && within_prefixes(&rule.path_prefixes, path)
}

/// Whether one of `rules` lets `method` reach the target.
fn rules_let(
    rules: &Vec<ScriptNetworkRule>,
    scheme: &str,
    host: &str,
    port: Option<u16>,
    path: &str,
    method: &str,
) -> (r: bool)
    ensures
        r == rules_allow(rules_view(rules@), scheme@, host@, port, path@, method@),
{
    let ghost v = rules_view(rules@);
    let mut i: usize = 0;
    while i < rules.len()
        invariant
            i <= rules.len(),
            v == rules_view(rules@),
            v.len() == rules@.len(),
            forall|j: int|
                0 <= j < i ==> !#[trigger] rule_allows(v[j], scheme@, host@, port, path@, method@),
        decreases rules.len() - i,
    {
        assert(v[i as int] == rules@[i as int]@);
        if rule_lets(&rules[i], scheme, host, port, path, method) {
            return true;
        }
        i += 1;
    }
    false
}

/// The model of an approved HTTP target.
pub struct TargetView {
    pub method: Seq<char>,
    pub host: Seq<char>,
    pub port: u16,
}

/// An approved HTTP target: the method in upper case, and the host and
/// port to resolve.
pub struct HttpTarget {
    pub method: String,
    pub host: String,
    pub port: u16,
}

impl View for HttpTarget {
    type V = TargetView;

    open spec fn view(&self) -> TargetView {
        TargetView { method: self.method@, host: self.host@, port: self.port }
    }
}

/// What a parsed URL allows `method` to reach under `rules`, given what its
/// host parses to as an IP address.
pub open spec fn target_from(
    rules: Seq<RuleSpec>,
    parts: UrlPartsView,
    method: Seq<char>,
    literal: Option<IpAddress>,
) -> Result<TargetView, Seq<char>> {
    match parts.host {
        None => Err("HTTP URL has no host"@),
        Some(host) => if !rules_allow(rules, parts.scheme, host, parts.port, parts.path, method) {
            Err("HTTP target is outside the approved network rules"@)
        } else if literal matches Some(ip) && private_ip(ip) {
            Err("local and private network addresses are not allowed"@)
        } else {
            match parts.port {
                None => Err("HTTP URL has no known port"@),
                Some(port) => Ok(TargetView { method, host, port }),
            }
        },
    }
}

/// The target a parsed URL lets `method` reach under `rules`, given what
/// its host parses to as an IP address; or why it may not.
pub fn target_from_parts(
    rules: &Vec<ScriptNetworkRule>,
    parts: &UrlParts,
    method: &str,
    literal: Option<IpAddress>,
) -> (r: Result<HttpTarget, String>)
    ensures
        match target_from(rules_view(rules@), parts@, method@, literal) {
            Ok(t) => r matches Ok(x) && x@ == t,
            Err(m) => r matches Err(e) && e@ == m,
        },
{
    let host = match &parts.host {
        Some(h) => h,
        None => {
            return Err("HTTP URL has no host".to_owned());
        },
    };
    if !rules_let(rules, parts.scheme.as_str(), host.as_str(), parts.port, parts.path.as_str(), method) {
        return Err("HTTP target is outside the approved network rules".to_owned());
    }
    if let Some(ip) = literal {
        if is_private_ip(&ip) {
            return Err("local and private network addresses are not allowed".to_owned());
        }
    }
    match parts.port {
        Some(port) => Ok(HttpTarget { method: method.to_owned(), host: copy_string(host), port }),
        None => Err("HTTP URL has no known port".to_owned()),
    }
}

/// What a URL's host parses to as an IP address.
pub open spec fn host_ip(host: Option<Seq<char>>) -> Option<IpAddress> {
    match host {
        Some(h) => parsed_ip(h),
        None => None,
    }
}

/// The target a script's request may reach under `rules`: its URL parsed
/// by the `url` crate, its method in upper case; or why it may not.
pub fn http_target(rules: &Vec<ScriptNetworkRule>, request: &ScriptHttpRequest) -> (r: Result<
    HttpTarget,
    String,
>)
    ensures
        match url_parts(request.url@) {
            Err(e) => r matches Err(m) && m@ == "invalid HTTP URL: "@ + e,
            Ok(p) => match target_from(
                rules_view(rules@),
                p,
                ascii_upper(request.method@),
                host_ip(p.host),
            ) {
                Ok(t) => r matches Ok(x) && x@ == t,
                Err(m) => r matches Err(e) && e@ == m,
            },
        },
{
    let parts = match parse_url_parts(request.url.as_str()) {
        Ok(p) => p,
        Err(e) => {
            return Err(concat("invalid HTTP URL: ", e.as_str()));
        },
    };
    let method = to_ascii_upper(request.method.as_str());
    let literal = match &parts.host {
        Some(h) => parse_ip(h.as_str()),
        None => None,
    };
    target_from_parts(rules, &parts, method.as_str(), literal)
}

/// Whether the addresses a host resolved to may be reached: there is one at
/// least, and none is local or private.
pub fn resolved_addresses_ok(addresses: &Vec<IpAddress>) -> (r: Result<(), String>)
    ensures
        r is Ok <==> (addresses@.len() > 0 && forall|k: int|
            0 <= k < addresses@.len() ==> !private_ip(#[trigger] addresses@[k])),
        r matches Err(m) ==> m@ == "resolved HTTP address is local, private, or unavailable"@,
{
    if addresses.len() == 0 {
        return Err("resolved HTTP address is local, private, or unavailable".to_owned());
    }
    let mut i: usize = 0;
    while i < addresses.len()
        invariant
            i <= addresses.len(),
            forall|k: int| 0 <= k < i ==> !private_ip(#[trigger] addresses@[k]),
        decreases addresses.len() - i,
    {
        if is_private_ip(&addresses[i]) {
            return Err("resolved HTTP address is local, private, or unavailable".to_owned());
        }
        i += 1;
    }
    Ok(())
}

/// The headers scripts may not send, in lower case.
pub open spec fn forbidden_header(name: Seq<char>) -> bool {
    let n = ascii_lower(name);
    n == "authorization"@ || n == "proxy-authorization"@ || n == "cookie"@
}

/// The names of a list of headers.
pub open spec fn header_names(headers: Seq<(String, String)>) -> Seq<Seq<char>> {
    headers.map_values(|h: (String, String)| h.0@)
}

/// Refuses credential and cookie headers.
pub fn headers_ok(headers: &Vec<(String, String)>) -> (r: Result<(), String>)
    ensures
        r is Ok <==> forall|k: int|
            0 <= k < headers@.len() ==> !forbidden_header(#[trigger] header_names(headers@)[k]),
        r matches Err(m) ==> m@ == "authentication and cookie headers are not available to scripts"@,
{
    let ghost names = header_names(headers@);
    let mut i: usize = 0;
    while i < headers.len()
        invariant
            i <= headers.len(),
            names == header_names(headers@),
            forall|k: int| 0 <= k < i ==> !forbidden_header(#[trigger] names[k]),
        decreases headers.len() - i,
    {
        let name = to_ascii_lower(headers[i].0.as_str());
        assert(names[i as int] == headers@[i as int].0@);
        if str_eq(name.as_str(), "authorization") || str_eq(name.as_str(), "proxy-authorization")
            || str_eq(name.as_str(), "cookie") {
            return Err(
                "authentication and cookie headers are not available to scripts".to_owned(),
            );
        }
        i += 1;
    }
    Ok(())
}

/// Refuses a request body over the limit.
pub fn request_body_ok(body: &Option<Vec<u8>>) -> (r: Result<(), String>)
    ensures
        r is Ok <==> (body matches Some(b) ==> b@.len() <= HTTP_BODY_LIMIT),
        r matches Err(m) ==> m@ == "HTTP request body exceeds 2 MiB"@,
{
    match body {
        Some(b) => if b.len() > HTTP_BODY_LIMIT {
            Err("HTTP request body exceeds 2 MiB".to_owned())
        } else {
            Ok(())
        },
        None => Ok(()),
    }
}

/// Refuses a redirect, and a reply from a local or private address.
pub fn response_ok(redirect: bool, remote: Option<IpAddress>) -> (r: Result<(), String>)
    ensures
        redirect ==> (r matches Err(m) && m@ == "script HTTP redirects are disabled"@),
        !redirect ==> match remote {
            Some(ip) if private_ip(ip) => r matches Err(m) && m@
                == "resolved HTTP address is local or private"@,
            _ => r is Ok,
        },
{
    if redirect {
        return Err("script HTTP redirects are disabled".to_owned());
    }
    if let Some(ip) = remote {
        if is_private_ip(&ip) {
            return Err("resolved HTTP address is local or private".to_owned());
        }
    }
    Ok(())
}

/// Whether `received` bytes of response body may grow by `chunk` bytes.
pub fn response_chunk_fits(received: usize, chunk: usize) -> (r: Result<(), String>)
    ensures
        r is Ok <==> received + chunk <= HTTP_BODY_LIMIT,
        r matches Err(m) ==> m@ == "HTTP response exceeds 2 MiB"@,
{
    if received > HTTP_BODY_LIMIT || chunk > HTTP_BODY_LIMIT - received {
        Err("HTTP response exceeds 2 MiB".to_owned())
    } else {
        Ok(())
    }
}

/// The text of a response body, which must be UTF-8.
pub fn response_text(body: &[u8]) -> (r: Result<String, String>)
    ensures
        valid_utf8(body@) ==> (r matches Ok(t) && t@ == decode_utf8(body@)),
        !valid_utf8(body@) ==> (r matches Err(m) && m@ == "HTTP response is not UTF-8 text"@),
{
    match decode_utf8_bytes(body) {
        Ok(t) => Ok(t),
        Err(_) => Err("HTTP response is not UTF-8 text".to_owned()),
    }
}

/// Whether `existing` bytes of output may grow by `added` bytes.
pub fn output_fits(existing: usize, added: usize) -> (r: Result<(), String>)
    ensures
        r is Ok <==> existing + added <= OUTPUT_LIMIT,
        r matches Err(m) ==> m@ == "script output exceeds 2 MiB"@,
{
    if existing > OUTPUT_LIMIT || added > OUTPUT_LIMIT - existing {
        Err("script output exceeds 2 MiB".to_owned())
    } else {
        Ok(())
    }
}

/// The log levels a script may name.
pub open spec fn known_level(level: Seq<char>) -> bool {
    level == "debug"@ || level == "info"@ || level == "warn"@ || level == "error"@
}

/// The characters a log category keeps.
pub open spec fn category_char(c: char) -> bool {
    ('a' <= c <= 'z') || ('A' <= c <= 'Z') || ('0' <= c <= '9') || c == '.' || c == '_' || c == '-'
}

/// A script's log category as logged: its kept characters, at most 64.
pub open spec fn safe_category(category: Seq<char>) -> Seq<char> {
    let kept = category.filter(|c: char| category_char(c));
    if kept.len() <= 64 {
        kept
    } else {
        kept.take(64)
    }
}

/// A script's log level and category as logged: an unknown level reads as
/// `info`.
pub fn log_fields(level: &str, category: &str) -> (r: (String, String))
    ensures
        r.0@ == (if known_level(level@) {
            level@
        } else {
            "info"@
        }),
        r.1@ == safe_category(category@),
{
    let safe_level = if str_eq(level, "debug") || str_eq(level, "info") || str_eq(level, "warn")
        || str_eq(level, "error") {
        level.to_owned()
    } else {
        "info".to_owned()
    };
    let cv = chars_of(category);
    let ghost p = |c: char| category_char(c);
    let mut kept: Vec<char> = Vec::new();
    let mut i: usize = 0;
    assert(cv@.take(0).filter(p) =~= Seq::<char>::empty()) by {
        reveal(Seq::filter);
    }
    while i < cv.len() && kept.len() < 64
        invariant
            i <= cv.len(),
            p == (|c: char| category_char(c)),
            kept@ == cv@.take(i as int).filter(p),
            kept.len() <= 64,
        decreases cv.len() - i,
    {
        let c = cv[i];
        proof {
            assert(cv@.take(i + 1) =~= cv@.take(i as int).push(c));
            cv@.take(i as int).lemma_filter_push(c, p);
        }
        if ('a' <= c && c <= 'z') || ('A' <= c && c <= 'Z') || ('0' <= c && c <= '9') || c == '.'
            || c == '_' || c == '-' {
            kept.push(c);
        }
        i += 1;
    }
    proof {
        lemma_filter_prefix(cv@, p, i as int);
        let full = cv@.filter(p);
        if i == cv.len() {
            assert(cv@.take(i as int) =~= cv@);
        } else {
            assert(kept@.len() == 64);
            assert(full.take(64) =~= kept@);
            if full.len() <= 64 {
                assert(full =~= kept@);
            }
        }
    }
    (safe_level, crate::text::string_from_chars(&kept))
}

/// Filtering a prefix gives a prefix of the filtered whole: once the
/// filtered prefix is 64 long, the rest adds nothing to its first 64.
proof fn lemma_filter_prefix(s: Seq<char>, p: spec_fn(char) -> bool, i: int)
    requires
        0 <= i <= s.len(),
    ensures
        s.take(i).filter(p).is_prefix_of(s.filter(p)),
{
    s.take(i).lemma_filter_monotone(s, p);
}


/// Whether a host call of a plugin may go ahead: refused once the
/// invocation is cancelled, and unless the plugin holds the capability the
/// call needs.
pub fn authorize_call(
    cancelled: bool,
    authority: &CapabilityAuthority,
    plugin: &PluginId,
    call: &ScriptHostCall,
) -> (r: Result<(), String>)
    ensures
        cancelled ==> (r matches Err(e) && e@ == "script invocation was cancelled"@),
        !cancelled && authority@.contains_key(plugin@) && authority@[plugin@].contains(capability_for(*call))
            ==> r is Ok,
        !cancelled && !(authority@.contains_key(plugin@) && authority@[plugin@].contains(
            capability_for(*call),
        )) ==> (r matches Err(e) && e@ == "capability '"@ + capability_name(capability_for(*call))
            + "' is not granted for this plugin generation"@),
{
    if cancelled {
        return Err("script invocation was cancelled".to_string());
    }
    let capability = required_capability(call);
    if authority.is_granted(plugin, capability) {
        Ok(())
    } else {
        let head = concat("capability '", capability.manifest_name());
        Err(concat(head.as_str(), "' is not granted for this plugin generation"))
    }
}

/// Whether a running invocation may still write output or show its
/// result: not once cancelled, nor once its plugin's binding (`bound`) is
/// gone.
pub fn authorize_live(cancelled: bool, bound: bool) -> (r: Result<(), String>)
    ensures
        cancelled ==> (r matches Err(e) && e@ == "script invocation was cancelled"@),
        !cancelled && bound ==> r is Ok,
        !cancelled && !bound ==> (r matches Err(e) && e@ == "script plugin generation is no longer authorized"@),
{
    if cancelled {
        Err("script invocation was cancelled".to_string())
    } else if bound {
        Ok(())
    } else {
        Err("script plugin generation is no longer authorized".to_string())
    }
}

/// Whether the script action `action` of `plugin_id`, bound at
/// `generation`, may start: it must belong to the plugin, be registered,
/// and the registry must still be at that generation.
pub fn begin_check<H>(
    registry: &PluginRegistry<H>,
    plugin_id: &PluginId,
    action: &ActionDescriptor,
    generation: u64,
) -> (r: Result<(), String>)
    ensures
        r is Ok <==> (action@.plugin_id == plugin_id@ && action_ids(registry@.actions).contains(action@.id)
            && registry@.generation == generation),
        r matches Err(e) ==> e@ == "script action identity or generation is stale"@,
{
    let registered = registry.handler(action.id()).is_some();
    proof {
        if registered {
            let i = choose|i: int| 0 <= i < registry@.actions.len() && registry@.actions[i].id == action@.id;
            assert(action_ids(registry@.actions)[i] == action@.id);
        }
    }
    if !action.plugin_id().same(plugin_id) || !registered || registry.generation() != generation {
        Err("script action identity or generation is stale".to_string())
    } else {
        Ok(())
    }
}

} // verus!
