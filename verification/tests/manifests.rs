use lexwisp::actions::{ActionInputSource, ActionKind, ParameterKind, PluginKind};
use lexwisp::packages::manifest_kind;
use lexwisp::declarative::DeclarativePackage;
use lexwisp::paths::{validate_file_limit, validate_relative_js_path, validate_relative_path};
use lexwisp::plugin::Capability;
use lexwisp::script::{validate_network_rule, ManifestNetworkRule, ScriptManifest};
use lexwisp::settings::DismissPolicy;

const MANIFEST: &str = r#"
schema_version = 1
[plugin]
id = "org.lexwisp.fixture"
name = "Fixture"
version = "0.1.0"
kind = "declarative"
host_api = "^1.0"
[capabilities]
required = ["ai.invoke"]
optional = []
[[actions]]
id = "run"
name = "Run"
input_kind = "text"
allowed_sources = ["manual"]
prompt = "prompt.md"
model_profile = "Fast"
dismiss_policy = "cancel"
[actions.output]
format = "text"
allow_copy = true
allow_favorite = true
allow_replace = false
"#;

const ACADEMIC_POLISH: &str = r#"schema_version = 1

[plugin]
id = "org.example.academic-polish"
name = "Academic Polish"
version = "1.0.0"
kind = "declarative"
host_api = "^1.0"

[capabilities]
required = ["ai.invoke"]

[[actions]]
id = "polish"
name = "Academic Polish"
input_kind = "text"
allowed_sources = ["selection", "manual", "clipboard"]
prompt = "prompt.md"
model_profile = "Fast"
dismiss_policy = "continue"

[[actions.parameters]]
key = "tone"
label = "Tone"
kind = "enum"
required = false
default = "formal"
choices = ["formal", "neutral"]

[actions.output]
format = "text"
allow_copy = true
allow_favorite = true
allow_replace = true
"#;

const SCRIPT_MANIFEST: &str = r#"schema_version = 1

[plugin]
id = "org.example.script-text"
name = "Script Text"
version = "1.2.3"
kind = "script"
host_api = "^1.0"
entry = "main.js"

[capabilities]
required = ["ai.invoke", "network.request"]
optional = ["ai.invoke"]

[[capabilities.network]]
scheme = "HTTPS"
host = "API.Example.com"
methods = ["get", "post"]

[[actions]]
id = "upper"
name = "Upper"
handler = "run_upper"
input_kind = "text"
allowed_sources = ["manual"]
dismiss_policy = "cancel"

[[actions.parameters]]
key = "count"
label = "Count"
kind = "number"
required = true
default = 3

[actions.output]
format = "text"
allow_copy = true
allow_favorite = false
allow_replace = false
"#;

#[test]
fn manifest_is_the_source_of_action_behavior() {
    let package =
        DeclarativePackage::parse(MANIFEST, "prompt.md", "Do it.").expect("manifest parses");
    assert_eq!(package.plugin.display_name(), "Fixture");
    assert_eq!(package.actions.len(), 1);
    assert!(matches!(package.actions[0].kind(), ActionKind::Declarative(_)));
}

#[test]
fn damaged_manifest_and_unknown_fields_are_rejected() {
    assert!(DeclarativePackage::parse("not = [toml", "prompt.md", "prompt").is_err());
    let manifest = ACADEMIC_POLISH.replace(
        "name = \"Academic Polish\"",
        "name = \"Academic Polish\"\nunsafe_field = true",
    );
    assert!(DeclarativePackage::parse(&manifest, "prompt.md", "prompt").is_err());
}

#[test]
fn rejects_escape_ads_and_reserved_paths() {
    for value in ["../manifest.toml", "C:/manifest.toml", "manifest.toml:evil", "CON/file"] {
        assert!(validate_relative_path(value).is_err(), "{value}");
    }
}

#[test]
fn rejects_localhost_network_rule() {
    let rule = ManifestNetworkRule {
        scheme: "http".into(),
        host: "localhost".into(),
        port: Some(80),
        methods: vec!["GET".into()],
        path_prefixes: vec!["/".into()],
    };
    assert!(validate_network_rule(rule).is_err());
}

#[test]
fn example_declarative_package_parses_with_its_parameters() {
    let package = DeclarativePackage::parse(ACADEMIC_POLISH, "prompt.md", "Polish it.")
        .expect("documented example parses");
    assert_eq!(package.plugin.id().as_str(), "org.example.academic-polish");
    assert_eq!(package.plugin.requested_capabilities(), &[Capability::AiInvoke]);
    let action = &package.actions[0];
    assert_eq!(action.qualified_id().to_string(), "org.example.academic-polish/polish");
    assert_eq!(
        action.text_sources().unwrap(),
        &[ActionInputSource::Selection, ActionInputSource::Manual, ActionInputSource::Clipboard]
    );
    assert_eq!(action.text_dismiss_policy(), Some(DismissPolicy::Continue));
    let parameters = action.text_parameters().unwrap();
    assert_eq!(parameters.len(), 1);
    assert_eq!(parameters[0].kind, ParameterKind::Enum);
    assert_eq!(parameters[0].default_value.as_deref(), Some("formal"));
    assert!(action.text_output().unwrap().allow_replace);
}

#[test]
fn declarative_rules_give_their_messages() {
    let wrong_kind = MANIFEST.replace("kind = \"declarative\"", "kind = \"script\"");
    assert_eq!(
        DeclarativePackage::parse(&wrong_kind, "prompt.md", "p").err().unwrap(),
        "unsupported declarative package schema, kind, version, or Host API"
    );
    let more_caps = MANIFEST.replace("required = [\"ai.invoke\"]", "required = [\"ai.invoke\", \"storage.read\"]");
    assert_eq!(
        DeclarativePackage::parse(&more_caps, "prompt.md", "p").err().unwrap(),
        "built-in declarative actions may request only ai.invoke"
    );
    assert_eq!(
        DeclarativePackage::parse(MANIFEST, "other.md", "p").err().unwrap(),
        "unsupported declarative action input, prompt, profile, or output"
    );
    let bad_source = MANIFEST.replace("[\"manual\"]", "[\"manual\", \"camera\"]");
    assert_eq!(
        DeclarativePackage::parse(&bad_source, "prompt.md", "p").err().unwrap(),
        "unknown action source 'camera'"
    );
    let bad_dismiss = MANIFEST.replace("\"cancel\"", "\"later\"");
    assert_eq!(
        DeclarativePackage::parse(&bad_dismiss, "prompt.md", "p").err().unwrap(),
        "unknown dismiss policy 'later'"
    );
    let bad_id = MANIFEST.replace("id = \"run\"", "id = \"Run Now\"");
    assert_eq!(
        DeclarativePackage::parse(&bad_id, "prompt.md", "p").err().unwrap(),
        "'Run Now' is not a valid action ID"
    );
    let bad_plugin = MANIFEST.replace("org.lexwisp.fixture", "fixture");
    assert_eq!(
        DeclarativePackage::parse(&bad_plugin, "prompt.md", "p").err().unwrap(),
        "'fixture' is not a valid reverse-DNS plugin ID"
    );
    let blank_version = MANIFEST.replace("version = \"0.1.0\"", "version = \"  \"");
    assert!(DeclarativePackage::parse(&blank_version, "prompt.md", "p").is_err());
}

#[test]
fn declarative_structure_errors_name_the_field() {
    let missing = MANIFEST.replace("name = \"Run\"\n", "");
    assert_eq!(
        DeclarativePackage::parse(&missing, "prompt.md", "p").err().unwrap(),
        "missing field `name`"
    );
    let wrong_type = MANIFEST.replace("allow_copy = true", "allow_copy = \"yes\"");
    assert_eq!(
        DeclarativePackage::parse(&wrong_type, "prompt.md", "p").err().unwrap(),
        "invalid type for field `allow_copy`"
    );
    let unknown = MANIFEST.replace("[capabilities]", "extra = 1\n[capabilities]");
    assert!(DeclarativePackage::parse(&unknown, "prompt.md", "p").is_err());
    let no_actions = format!("actions = []\n{}", MANIFEST.split("[[actions]]").next().unwrap());
    assert_eq!(
        DeclarativePackage::parse(&no_actions, "prompt.md", "p").err().unwrap(),
        "declarative package has no actions"
    );
}

#[test]
fn script_manifest_is_checked_and_normalised() {
    let manifest = ScriptManifest::parse(SCRIPT_MANIFEST).expect("script manifest parses");
    assert_eq!(manifest.entry(), "main.js");
    assert_eq!(manifest.version, "1.2.3");
    let definition = manifest.into_definition().expect("definition");
    assert_eq!(definition.plugin.id().as_str(), "org.example.script-text");
    assert_eq!(
        definition.plugin.requested_capabilities(),
        &[Capability::AiInvoke, Capability::NetworkRequest]
    );
    assert_eq!(definition.network_rules.len(), 1);
    assert_eq!(definition.network_rules[0].scheme, "https");
    assert_eq!(definition.network_rules[0].host, "api.example.com");
    assert_eq!(definition.network_rules[0].methods, vec!["GET", "POST"]);
    let parameters = definition.actions[0].text_parameters().unwrap();
    assert_eq!(parameters[0].default_value.as_deref(), Some("3"));
    assert!(matches!(definition.actions[0].kind(), ActionKind::Script(_)));
}

#[test]
fn script_manifest_rules_give_their_messages() {
    let bad_api = SCRIPT_MANIFEST.replace("^1.0", "^2.0");
    assert_eq!(
        ScriptManifest::parse(&bad_api).err().unwrap(),
        "script package Host API must include 1.0"
    );
    let bad_req = SCRIPT_MANIFEST.replace("^1.0", "not a requirement");
    assert!(ScriptManifest::parse(&bad_req)
        .err()
        .unwrap()
        .starts_with("invalid Host API requirement: "));
    let bad_version = SCRIPT_MANIFEST.replace("1.2.3", "one");
    assert!(ScriptManifest::parse(&bad_version)
        .err()
        .unwrap()
        .starts_with("invalid plugin version: "));
    let bad_entry = SCRIPT_MANIFEST.replace("main.js", "../main.js");
    assert_eq!(
        ScriptManifest::parse(&bad_entry).err().unwrap(),
        "script entry must be a package-relative .js path"
    );
    let no_network = SCRIPT_MANIFEST.replace("\"ai.invoke\", \"network.request\"", "\"ai.invoke\"");
    assert_eq!(
        ScriptManifest::parse(&no_network).unwrap().into_definition().err().unwrap(),
        "network rules require the network.request capability"
    );
    let bad_handler = SCRIPT_MANIFEST.replace("run_upper", "9run");
    assert_eq!(
        ScriptManifest::parse(&bad_handler).unwrap().into_definition().err().unwrap(),
        "invalid exported handler '9run'"
    );
    let bad_default = SCRIPT_MANIFEST.replace("default = 3", "default = [1]");
    assert_eq!(
        ScriptManifest::parse(&bad_default).unwrap().into_definition().err().unwrap(),
        "parameter defaults must be scalar values"
    );
    let damaged = SCRIPT_MANIFEST.replace("kind = \"script\"", "kind = \"script\"\nunknown = 1");
    assert!(ScriptManifest::parse(&damaged)
        .err()
        .unwrap()
        .starts_with("invalid script manifest: "));
}

#[test]
fn network_rules_refuse_bad_schemes_methods_and_prefixes() {
    let rule = |scheme: &str, host: &str, methods: Vec<&str>, prefixes: Vec<&str>| ManifestNetworkRule {
        scheme: scheme.into(),
        host: host.into(),
        port: None,
        methods: methods.into_iter().map(String::from).collect(),
        path_prefixes: prefixes.into_iter().map(String::from).collect(),
    };
    assert_eq!(
        validate_network_rule(rule("ftp", "example.com", vec!["GET"], vec![])).unwrap_err(),
        "network rules support only http and https"
    );
    assert_eq!(
        validate_network_rule(rule("https", "user@example.com", vec!["GET"], vec![])).unwrap_err(),
        "network rule host is invalid"
    );
    assert_eq!(
        validate_network_rule(rule("https", "example.com", vec![], vec![])).unwrap_err(),
        "network rule contains an unsupported method"
    );
    assert_eq!(
        validate_network_rule(rule("https", "example.com", vec!["TRACE"], vec![])).unwrap_err(),
        "network rule contains an unsupported method"
    );
    assert_eq!(
        validate_network_rule(rule("https", "example.com", vec!["get"], vec!["v1"])).unwrap_err(),
        "network path prefixes must start with '/'"
    );
    let ok = validate_network_rule(rule("HTTP", "Example.COM", vec!["delete"], vec!["/v1"])).unwrap();
    assert_eq!((ok.scheme.as_str(), ok.host.as_str()), ("http", "example.com"));
    assert_eq!(ok.methods, vec!["DELETE"]);
}

#[test]
fn relative_paths_accept_plain_names_and_refuse_windows_traps() {
    assert_eq!(validate_relative_path("prompts/main.md").unwrap(), "prompts/main.md");
    assert_eq!(
        validate_relative_path("../manifest.toml").unwrap_err(),
        "unsafe plugin path '../manifest.toml'"
    );
    assert_eq!(
        validate_relative_path("CON/file").unwrap_err(),
        "unsafe Windows plugin path 'CON/file'"
    );
    assert!(validate_relative_path("notes.").is_err());
    assert!(validate_relative_path("./a.md").is_err());
    assert!(validate_relative_path("").is_err());
}

#[test]
fn script_entries_must_be_relative_js_files() {
    assert_eq!(validate_relative_js_path("lib/main.js").unwrap(), "lib/main.js");
    for bad in ["main.ts", ".js", "/main.js", "./main.js", "a/../main.js", "C:main.js", "a\\b.js"] {
        assert!(validate_relative_js_path(bad).is_err(), "{bad}");
    }
}

#[test]
fn file_limits_depend_on_the_file_name() {
    assert!(validate_file_limit("manifest.toml", 262_144).is_ok());
    assert_eq!(
        validate_file_limit("manifest.toml", 262_145).unwrap_err(),
        "plugin file 'manifest.toml' exceeds its size limit"
    );
    assert!(validate_file_limit("icon.svg", 1_048_577).is_err());
    assert!(validate_file_limit("prompts/a.md", 2_097_152).is_ok());
    assert!(validate_file_limit("prompts/a.md", 2_097_153).is_err());
    assert!(validate_file_limit("data.bin", 33_554_432).is_ok());
    assert!(validate_file_limit("data.bin", 33_554_433).is_err());
}

#[test]
fn the_manifest_kind_decides_how_a_package_is_read() {
    assert_eq!(
        manifest_kind("[plugin]\nid = \"org.example.a\"\nkind = \"declarative\"\n").expect("kind"),
        PluginKind::Declarative
    );
    assert_eq!(manifest_kind("[plugin]\nkind = \"script\"\n").expect("kind"), PluginKind::Script);
    assert_eq!(manifest_kind("[plugin]\nkind = \"wasm\"\n").unwrap_err(), "unsupported plugin kind 'wasm'");
    assert_eq!(manifest_kind("[plugin]\nid = \"x\"\n").unwrap_err(), "plugin manifest is missing plugin.kind");
    assert_eq!(manifest_kind("plugin = 3\n").unwrap_err(), "plugin manifest is missing plugin.kind");
    assert!(manifest_kind("[plugin\n").unwrap_err().starts_with("invalid plugin manifest: "));
}
