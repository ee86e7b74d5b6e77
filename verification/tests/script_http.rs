use lexwisp::actions::{ActionDescriptor, PluginDescriptor};
use lexwisp::plugin::{ActionId, Capability, PluginId};
use lexwisp::registry::{CapabilityAuthority, PluginRegistry};
use lexwisp::script::{ScriptHostCall, ScriptHttpRequest, ScriptNetworkRule};
use lexwisp::script_http::{
    authorize_call, authorize_live, begin_check, headers_ok, http_target, is_private_ip, log_fields, output_fits, request_body_ok,
    required_capability, resolved_addresses_ok, response_chunk_fits, response_ok, response_text,
    IpAddress, HTTP_BODY_LIMIT, OUTPUT_LIMIT,
};

fn v4(a: u8, b: u8, c: u8, d: u8) -> IpAddress {
    IpAddress::V4([a, b, c, d])
}

fn v6(segments: [u16; 8]) -> IpAddress {
    IpAddress::V6(segments)
}

fn rule(scheme: &str, host: &str, port: Option<u16>, methods: &[&str], prefixes: &[&str]) -> ScriptNetworkRule {
    ScriptNetworkRule {
        scheme: scheme.into(),
        host: host.into(),
        port,
        methods: methods.iter().map(|m| m.to_string()).collect(),
        path_prefixes: prefixes.iter().map(|p| p.to_string()).collect(),
    }
}

fn request(method: &str, url: &str) -> ScriptHttpRequest {
    ScriptHttpRequest { method: method.into(), url: url.into(), headers: Vec::new(), body: None }
}

#[test]
fn each_host_call_needs_its_capability() {
    assert_eq!(
        required_capability(&ScriptHostCall::Ai { system: None, input: "hi".into() }),
        Capability::AiInvoke
    );
    assert_eq!(
        required_capability(&ScriptHostCall::Http(request("GET", "https://example.com/"))),
        Capability::NetworkRequest
    );
    assert_eq!(required_capability(&ScriptHostCall::StorageGet { key: "k".into() }), Capability::StorageRead);
    assert_eq!(
        required_capability(&ScriptHostCall::StorageSet { key: "k".into(), value: "v".into() }),
        Capability::StorageWrite
    );
    assert_eq!(required_capability(&ScriptHostCall::StorageDelete { key: "k".into() }), Capability::StorageWrite);
}

#[test]
fn local_and_private_addresses_are_recognized() {
    for private in [
        v4(10, 0, 0, 1),
        v4(172, 16, 0, 1),
        v4(172, 31, 255, 255),
        v4(192, 168, 1, 1),
        v4(127, 0, 0, 1),
        v4(169, 254, 1, 1),
        v4(255, 255, 255, 255),
        v4(224, 0, 0, 1),
        v4(239, 255, 255, 250),
        v4(0, 1, 2, 3),
        v6([0, 0, 0, 0, 0, 0, 0, 1]),
        v6([0; 8]),
        v6([0xff02, 0, 0, 0, 0, 0, 0, 1]),
        v6([0xfc00, 0, 0, 0, 0, 0, 0, 1]),
        v6([0xfd12, 0x3456, 0, 0, 0, 0, 0, 1]),
        v6([0xfe80, 0, 0, 0, 0, 0, 0, 1]),
    ] {
        assert!(is_private_ip(&private), "{private:?}");
    }
    for public in [
        v4(8, 8, 8, 8),
        v4(172, 32, 0, 1),
        v4(192, 169, 0, 1),
        v4(240, 0, 0, 1),
        v6([0x2001, 0x0db8, 0, 0, 0, 0, 0, 1]),
        v6([0, 0, 0, 0, 0, 0, 0, 2]),
    ] {
        assert!(!is_private_ip(&public), "{public:?}");
    }
}

#[test]
fn requests_must_match_an_approved_rule() {
    let rules = vec![rule("https", "api.example.com", None, &["GET", "POST"], &["/v1/"])];
    let target = http_target(&rules, &request("get", "https://API.example.com/v1/items?x=1"))
        .unwrap_or_else(|error| panic!("{error}"));
    assert_eq!(target.method, "GET");
    assert_eq!(target.host, "api.example.com");
    assert_eq!(target.port, 443);
    let outside = "HTTP target is outside the approved network rules";
    assert_eq!(http_target(&rules, &request("GET", "https://api.example.com/v2/")).err().unwrap(), outside);
    assert_eq!(http_target(&rules, &request("DELETE", "https://api.example.com/v1/")).err().unwrap(), outside);
    assert_eq!(http_target(&rules, &request("GET", "http://api.example.com/v1/")).err().unwrap(), outside);
    assert_eq!(http_target(&rules, &request("GET", "https://api.example.com:8443/v1/")).err().unwrap(), outside);
    assert!(http_target(&rules, &request("GET", "not a url")).err().unwrap().starts_with("invalid HTTP URL: "));
}

#[test]
fn rules_with_ports_and_without_prefixes() {
    let rules = vec![rule("https", "example.com", Some(8443), &["PUT"], &[])];
    let target = http_target(&rules, &request("put", "https://example.com:8443/anything"))
        .unwrap_or_else(|error| panic!("{error}"));
    assert_eq!(target.port, 8443);
    assert!(http_target(&rules, &request("PUT", "https://example.com/anything")).is_err());
}

#[test]
fn literal_private_hosts_are_refused_even_when_approved() {
    let rules = vec![rule("http", "10.0.0.1", None, &["GET"], &[])];
    assert_eq!(
        http_target(&rules, &request("GET", "http://10.0.0.1/")).err().unwrap(),
        "local and private network addresses are not allowed"
    );
    let public = vec![rule("http", "93.184.216.34", None, &["GET"], &[])];
    assert_eq!(http_target(&public, &request("GET", "http://93.184.216.34/")).unwrap().port, 80);
}

#[test]
fn resolved_addresses_must_all_be_public() {
    let error = "resolved HTTP address is local, private, or unavailable";
    assert_eq!(resolved_addresses_ok(&Vec::new()).unwrap_err(), error);
    assert_eq!(resolved_addresses_ok(&vec![v4(8, 8, 8, 8), v4(127, 0, 0, 1)]).unwrap_err(), error);
    assert!(resolved_addresses_ok(&vec![v4(8, 8, 8, 8), v4(1, 1, 1, 1)]).is_ok());
}

#[test]
fn credential_headers_and_large_bodies_are_refused() {
    let error = "authentication and cookie headers are not available to scripts";
    assert_eq!(headers_ok(&vec![("Cookie".into(), "a=b".into())]).unwrap_err(), error);
    assert_eq!(headers_ok(&vec![("Proxy-Authorization".into(), "x".into())]).unwrap_err(), error);
    assert!(headers_ok(&vec![("Accept".into(), "text/plain".into())]).is_ok());
    assert_eq!(
        request_body_ok(&Some(vec![0; HTTP_BODY_LIMIT + 1])).unwrap_err(),
        "HTTP request body exceeds 2 MiB"
    );
    assert!(request_body_ok(&Some(vec![0; HTTP_BODY_LIMIT])).is_ok());
    assert!(request_body_ok(&None).is_ok());
}

#[test]
fn responses_are_checked_as_they_arrive() {
    assert_eq!(response_ok(true, None).unwrap_err(), "script HTTP redirects are disabled");
    assert_eq!(
        response_ok(false, Some(v4(192, 168, 0, 2))).unwrap_err(),
        "resolved HTTP address is local or private"
    );
    assert!(response_ok(false, Some(v4(8, 8, 4, 4))).is_ok());
    assert!(response_chunk_fits(HTTP_BODY_LIMIT - 10, 10).is_ok());
    assert_eq!(response_chunk_fits(HTTP_BODY_LIMIT - 10, 11).unwrap_err(), "HTTP response exceeds 2 MiB");
    assert_eq!(response_text("héllo".as_bytes()).unwrap(), "héllo");
    assert_eq!(response_text(&[0xff, 0xfe]).unwrap_err(), "HTTP response is not UTF-8 text");
}

#[test]
fn script_output_is_bounded() {
    assert!(output_fits(OUTPUT_LIMIT - 1, 1).is_ok());
    assert_eq!(output_fits(OUTPUT_LIMIT, 1).unwrap_err(), "script output exceeds 2 MiB");
    assert_eq!(output_fits(usize::MAX, usize::MAX).unwrap_err(), "script output exceeds 2 MiB");
}

#[test]
fn log_fields_are_sanitized() {
    assert_eq!(log_fields("warn", "net.fetch"), ("warn".to_string(), "net.fetch".to_string()));
    assert_eq!(log_fields("trace", "a b/c.d_e-f!é"), ("info".to_string(), "abc.d_e-f".to_string()));
    let (_, long) = log_fields("info", &"x".repeat(100));
    assert_eq!(long.len(), 64);
}

#[test]
fn host_calls_need_a_live_invocation_and_the_capability() {
    let plugin = PluginId::parse("org.example.script").expect("plugin ID");
    let mut authority = CapabilityAuthority::new();
    authority.replace_grants(plugin.clone(), vec![Capability::AiInvoke]);
    let ai = ScriptHostCall::Ai { system: None, input: "hi".into() };
    let get = ScriptHostCall::StorageGet { key: "k".into() };
    assert_eq!(authorize_call(false, &authority, &plugin, &ai), Ok(()));
    assert_eq!(
        authorize_call(false, &authority, &plugin, &get),
        Err("capability 'storage.read' is not granted for this plugin generation".to_string())
    );
    assert_eq!(authorize_call(true, &authority, &plugin, &ai), Err("script invocation was cancelled".to_string()));
    assert_eq!(authorize_live(false, true), Ok(()));
    assert_eq!(authorize_live(true, true), Err("script invocation was cancelled".to_string()));
    assert_eq!(authorize_live(false, false), Err("script plugin generation is no longer authorized".to_string()));
}

#[test]
fn a_script_action_starts_only_at_its_generation() {
    let plugin = PluginId::parse("org.example.script").expect("plugin ID");
    let action = ActionDescriptor::new(plugin.clone(), ActionId::parse("run").expect("action ID"), "Run".into());
    let mut registry: PluginRegistry<()> = PluginRegistry::new();
    let stale = "script action identity or generation is stale".to_string();
    assert_eq!(begin_check(&registry, &plugin, &action, 0), Err(stale.clone()));
    let generation = registry
        .register_package(PluginDescriptor::new(plugin.clone(), "Script".into(), Vec::new()), vec![(
            ActionDescriptor::new(plugin.clone(), ActionId::parse("run").expect("action ID"), "Run".into()),
            (),
        )])
        .expect("registers");
    assert_eq!(begin_check(&registry, &plugin, &action, generation), Ok(()));
    assert_eq!(begin_check(&registry, &plugin, &action, generation + 1), Err(stale.clone()));
    let other = PluginId::parse("org.example.other").expect("plugin ID");
    assert_eq!(begin_check(&registry, &other, &action, generation), Err(stale));
}
