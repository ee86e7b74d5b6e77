use lexwisp::provider::{ProviderDraft, ProviderError};
use lexwisp::provider_service::{
    build_config, plan_provider_save, plan_provider_save_with, provider_ui_snapshot,
    reference_to_delete, response_preview, test_credential, TestCredential,
};
use lexwisp::settings::{AppSettings, SettingsSnapshot};

fn draft(id: &str, key: Option<&str>, use_authentication: bool) -> ProviderDraft {
    ProviderDraft {
        id: id.into(),
        display_name: " OpenAI ".into(),
        base_url: " https://api.openai.com/v1 ".into(),
        model_id: " gpt-4o-mini ".into(),
        stream: true,
        use_authentication,
        api_key: key.map(str::to_string),
        context_budget: String::new(),
        proxy_url: String::new(),
        connect_timeout_seconds: String::new(),
        total_timeout_seconds: String::new(),
        event_timeout_seconds: String::new(),
        temperature: String::new(),
        max_output_tokens: String::new(),
    }
}

#[test]
fn an_empty_configuration_offers_an_openai_compatible_form() {
    let page = provider_ui_snapshot(&SettingsSnapshot::new(AppSettings::default(), 4));
    assert!(!page.configured);
    assert_eq!(page.id, "default");
    assert_eq!(page.display_name, "OpenAI compatible");
    assert_eq!(page.base_url, "https://api.openai.com/v1");
    assert_eq!(page.model_id, "");
    assert!(page.stream && page.use_authentication && !page.has_saved_credential);
    assert_eq!(page.generation, 4);
    assert_eq!(page.context_budget, 8192);
    assert_eq!((page.connect_timeout_seconds, page.total_timeout_seconds, page.event_timeout_seconds), (10, 180, 60));
}

#[test]
fn a_form_becomes_a_trimmed_provider() {
    let (config, model) = build_config(&draft(" openai ", None, true), Some("ref".into())).expect("valid form");
    assert_eq!(config.id().as_str(), "openai");
    assert_eq!(config.display_name(), "OpenAI");
    assert_eq!(config.base_url(), "https://api.openai.com/v1");
    assert_eq!(config.credential_ref(), Some("ref"));
    assert_eq!(config.model_ids(), ["gpt-4o-mini".to_string()]);
    assert_eq!(model, "gpt-4o-mini");
}

#[test]
fn invalid_forms_name_their_problem() {
    assert!(matches!(
        build_config(&draft("Open AI", None, false), None),
        Err(ProviderError::InvalidId(id)) if id == "Open AI"
    ));
    let mut no_model = draft("openai", None, false);
    no_model.model_id = "   ".into();
    assert!(matches!(
        build_config(&no_model, None),
        Err(ProviderError::InvalidConfiguration(m)) if m == "name, Base URL, and model are required"
    ));
    let mut bad_url = draft("openai", None, false);
    bad_url.base_url = "not a url".into();
    assert!(matches!(build_config(&bad_url, None), Err(ProviderError::InvalidConfiguration(_))));
}

#[test]
fn test_requests_use_the_typed_or_saved_key() {
    let settings = AppSettings::default();
    assert!(matches!(test_credential(&draft("openai", Some("sk"), false), &settings), Ok(TestCredential::Anonymous)));
    assert!(matches!(
        test_credential(&draft("openai", Some("  sk-1 "), true), &settings),
        Ok(TestCredential::Typed(k)) if k == "sk-1"
    ));
    assert!(matches!(
        test_credential(&draft("openai", Some("   "), true), &settings),
        Err(ProviderError::Credential(m)) if m == "enter an API key or disable authentication"
    ));
    let plan = plan_provider_save_with(&draft("openai", Some("sk-1"), true), &settings, "u1").expect("saves");
    assert!(matches!(
        test_credential(&draft("openai", None, true), &plan.settings),
        Ok(TestCredential::Stored(r)) if r == "LexWisp/provider/openai/u1"
    ));
}

#[test]
fn saving_with_a_key_writes_it_under_a_new_reference() {
    let plan = plan_provider_save_with(&draft("openai", Some(" sk-1 "), true), &AppSettings::default(), "u1")
        .expect("saves");
    assert_eq!(plan.new_reference.as_deref(), Some("LexWisp/provider/openai/u1"));
    assert_eq!(plan.old_reference, None);
    assert_eq!(plan.key_write, Some(("LexWisp/provider/openai/u1".to_string(), "sk-1".to_string())));
    let page = provider_ui_snapshot(&SettingsSnapshot::new(plan.settings, 1));
    assert!(page.configured && page.has_saved_credential);
    assert_eq!(page.id, "openai");
    assert_eq!(page.model_id, "gpt-4o-mini");

    let again = plan_provider_save_with(&draft("openai", None, true), &page_settings(), "u2").expect("keeps the key");
    assert_eq!(again.new_reference.as_deref(), Some("LexWisp/provider/openai/u1"));
    assert_eq!(again.old_reference.as_deref(), Some("LexWisp/provider/openai/u1"));
    assert!(again.key_write.is_none());
}

fn page_settings() -> AppSettings {
    plan_provider_save_with(&draft("openai", Some("sk-1"), true), &AppSettings::default(), "u1")
        .expect("saves")
        .settings
}

#[test]
fn saving_without_any_key_is_refused() {
    assert!(matches!(
        plan_provider_save_with(&draft("openai", None, true), &AppSettings::default(), "u1"),
        Err(ProviderError::Credential(m)) if m == "enter an API key before saving"
    ));
    let plan = plan_provider_save_with(&draft("openai", Some("sk"), false), &AppSettings::default(), "u1")
        .expect("no authentication");
    assert!(plan.new_reference.is_none() && plan.key_write.is_none());
}

#[test]
fn fresh_references_end_in_a_uuid() {
    let plan = plan_provider_save(&draft("openai", Some("sk"), true), &AppSettings::default()).expect("saves");
    let reference = plan.new_reference.expect("a new reference");
    let suffix = reference.strip_prefix("LexWisp/provider/openai/").expect("prefix");
    assert_eq!(suffix.len(), 36);
}

#[test]
fn stale_references_are_deleted_after_the_save() {
    let old = Some("a".to_string());
    let new = Some("b".to_string());
    assert_eq!(reference_to_delete(true, &old, &new), old);
    assert_eq!(reference_to_delete(false, &old, &new), new);
    assert_eq!(reference_to_delete(true, &old, &old), None);
    assert_eq!(reference_to_delete(true, &None, &new), None);
}

#[test]
fn test_replies_are_previewed_by_their_first_characters() {
    assert_eq!(response_preview("OK"), "OK");
    let long = "é".repeat(200);
    assert_eq!(response_preview(&long).chars().count(), 160);
}
