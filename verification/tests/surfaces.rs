use std::sync::Arc;

use lexwisp::actions::{ActionDescriptor, PluginDescriptor};
use lexwisp::attachments::{fenced_code_blocks, image_media_type, is_text_extension};
use lexwisp::builtin::{chat_action, chat_plugin};
use lexwisp::plugin::{ActionId, Capability, PluginId};
use lexwisp::registry::{CapabilityAuthority, PluginRegistry, RegistryError};
use lexwisp::endpoint::completion_endpoint;
use lexwisp::provider::ProviderError;
use lexwisp::sse::SseDecoder;

#[test]
fn fenced_code_blocks_are_independently_copyable() {
    assert_eq!(
        fenced_code_blocks("Before\n```rust\nlet answer = 42;\n```\nAfter"),
        vec!["let answer = 42;"]
    );
    assert!(fenced_code_blocks("```unterminated").is_empty());
}

#[test]
fn attachment_types_are_explicitly_bounded() {
    assert_eq!(image_media_type("png"), Some("image/png"));
    assert!(is_text_extension("rs"));
    assert!(!is_text_extension("pdf"));
}

#[test]
fn sse_decoder_handles_fragmented_utf8_json_and_multiline_data() {
    let source = "data: {\"choices\":[{\"delta\":{\"content\":\"中\"}}]}\r\n\r\ndata: [DONE]\n\n";
    let bytes = source.as_bytes();
    let split = source.find('中').expect("fixture contains unicode") + 1;
    let mut decoder = SseDecoder::default();
    assert!(decoder.push(&bytes[..split]).expect("first fragment").is_empty());
    let events = decoder.push(&bytes[split..]).expect("second fragment");
    assert_eq!(events.len(), 2);
    assert!(events[0].contains('中'));
    assert_eq!(events[1], "[DONE]");
    decoder.finish().expect("decoder is complete");
}

#[test]
fn truncated_sse_event_is_rejected() {
    let mut decoder = SseDecoder::default();
    decoder.push(b"data: {\"choices\":[").expect("buffering succeeds");
    assert!(decoder.finish().is_err());
}

#[test]
fn multiline_sse_data_is_joined_with_newlines() {
    let mut decoder = SseDecoder::default();
    let events = decoder.push(b": comment\ndata: one\ndata: two\n\n").unwrap();
    assert_eq!(events, vec!["one\ntwo"]);
}

struct FixtureHandler;

fn fixture() -> (PluginDescriptor, ActionDescriptor) {
    let plugin = PluginId::parse("org.lexwisp.fixture").expect("fixture ID is valid");
    (
        PluginDescriptor::new(plugin.clone(), "Fixture".into(), vec![Capability::StorageRead]),
        ActionDescriptor::new(
            plugin,
            ActionId::parse("echo").expect("fixture action ID is valid"),
            "Echo".into(),
        ),
    )
}

#[test]
fn package_registration_is_atomic_on_conflict() {
    let mut registry = PluginRegistry::default();
    let (plugin, action) = fixture();
    registry
        .register_package(plugin.clone(), vec![(action.clone(), Arc::new(FixtureHandler))])
        .expect("first registration succeeds");

    let result = registry.register_package(plugin, vec![(action, Arc::new(FixtureHandler))]);
    assert!(matches!(result, Err(RegistryError::DuplicatePlugin(_))));
    assert_eq!(registry.descriptors().len(), 1);
    assert_eq!(registry.action_descriptors().len(), 1);
}

#[test]
fn action_owner_must_match_package() {
    let mut registry = PluginRegistry::default();
    let (plugin, _) = fixture();
    let other = PluginId::parse("org.lexwisp.other").expect("fixture ID is valid");
    let action = ActionDescriptor::new(
        other,
        ActionId::parse("echo").expect("fixture action ID is valid"),
        "Echo".into(),
    );
    assert!(matches!(
        registry.register_package(plugin, vec![(action, Arc::new(FixtureHandler))]),
        Err(RegistryError::ActionOwnership { .. })
    ));
    assert!(registry.descriptors().is_empty());
}

#[test]
fn removing_a_package_removes_only_its_actions() {
    let mut registry = PluginRegistry::default();
    let (plugin, action) = fixture();
    let plugin_id = plugin.id().clone();
    registry
        .register_package(plugin, vec![(action, Arc::new(FixtureHandler))])
        .expect("fixture should register");

    assert!(registry.remove_package(&plugin_id));
    assert!(registry.descriptors().is_empty());
    assert!(registry.action_descriptors().is_empty());
    assert_eq!(registry.generation(), 2);
}

#[test]
fn registry_errors_name_the_conflict() {
    let mut registry: PluginRegistry<()> = PluginRegistry::default();
    let (plugin, action) = fixture();
    let echo = ActionId::parse("echo").unwrap();
    let twice = vec![(action.clone(), ()), (action.clone(), ())];
    let error = registry.register_package(plugin.clone(), twice).unwrap_err();
    assert_eq!(error.to_string(), "action 'echo' is already registered");
    let unnamed = PluginDescriptor::new(plugin.id().clone(), "  ".into(), Vec::new());
    assert_eq!(
        registry.register_package(unnamed, Vec::new()).unwrap_err().to_string(),
        "plugin display name cannot be empty"
    );
    assert_eq!(registry.register_package(plugin, vec![(action, ())]).unwrap(), 1);
    assert!(registry.handler(&echo).is_some());
    assert_eq!(registry.drain_events().len(), 1);
    assert!(!registry.remove_package(&PluginId::parse("org.lexwisp.absent").unwrap()));
    assert_eq!(registry.generation(), 1);
}

#[test]
fn capability_grants_replace_and_revoke() {
    let mut authority = CapabilityAuthority::default();
    let plugin = PluginId::parse("org.lexwisp.fixture").unwrap();
    let other = PluginId::parse("org.lexwisp.other").unwrap();
    authority.replace_grants(plugin.clone(), vec![Capability::AiInvoke]);
    authority.replace_grants(other.clone(), vec![Capability::StorageRead]);
    assert!(authority.is_granted(&plugin, Capability::AiInvoke));
    assert!(!authority.is_granted(&plugin, Capability::StorageRead));
    authority.replace_grants(plugin.clone(), vec![Capability::StorageRead]);
    assert!(!authority.is_granted(&plugin, Capability::AiInvoke));
    assert!(authority.is_granted(&plugin, Capability::StorageRead));
    authority.revoke(&plugin);
    assert!(!authority.is_granted(&plugin, Capability::StorageRead));
    assert!(authority.is_granted(&other, Capability::StorageRead));
}

#[test]
fn built_in_chat_plugin_and_action() {
    let plugin = chat_plugin();
    assert_eq!(plugin.id().as_str(), "org.lexwisp.chat");
    assert_eq!(plugin.display_name(), "Chat");
    assert_eq!(
        plugin.requested_capabilities(),
        &[Capability::AiInvoke, Capability::StorageWrite]
    );
    let action = chat_action();
    assert_eq!(action.qualified_id().to_string(), "org.lexwisp.chat/ask");
    assert_eq!(action.display_name(), "Ask");
    assert!(action.text_parameters().is_none());
}

#[test]
fn endpoint_preserves_a_base_path_prefix() {
    assert_eq!(
        completion_endpoint("https://example.com/custom/v1")
            .expect("valid endpoint")
            .as_str(),
        "https://example.com/custom/v1/chat/completions"
    );
}

#[test]
fn endpoint_rules_refuse_credentials_plain_http_and_full_paths() {
    assert_eq!(
        completion_endpoint("https://example.com/v1/?x=1").unwrap(),
        "https://example.com/v1/chat/completions"
    );
    assert_eq!(
        completion_endpoint("http://127.0.0.1:8080/v1").unwrap(),
        "http://127.0.0.1:8080/v1/chat/completions"
    );
    assert!(completion_endpoint("http://LocalHost/v1").is_ok());
    let message = |base: &str| match completion_endpoint(base) {
        Err(ProviderError::InvalidConfiguration(m)) => m,
        other => panic!("unexpected {other:?}"),
    };
    assert_eq!(
        message("https://user:pw@example.com/v1"),
        "Base URL cannot contain credentials or a fragment"
    );
    assert_eq!(
        message("http://example.com/v1"),
        "plain HTTP is allowed only for loopback providers"
    );
    assert_eq!(message("ftp://example.com/v1"), "Base URL must use HTTPS or loopback HTTP");
    assert_eq!(
        message("https://example.com/v1/chat/completions"),
        "enter the API base path, not the full /chat/completions endpoint"
    );
    assert!(!message("not a url").is_empty());
}
