use lexwisp::chat::ChatModelPreference;
use lexwisp::execution::ExecutionStatus;
use lexwisp::ids::{ConversationId, InvocationId};
use lexwisp::provider::{ModelProfile, ProviderConfig, ProviderError, ProviderId};
use lexwisp::provider_registry::ProviderRegistry;
use lexwisp::records::ChatRunError;
use lexwisp::runs::{cancel_check, context_budget, terminal_outcome, ActiveRuns};
use lexwisp::settings::AppSettings;

#[test]
fn one_run_per_conversation_and_none_after_shutdown() {
    let mut runs = ActiveRuns::new();
    assert!(runs.is_idle());
    let first = ConversationId::new();
    let second = ConversationId::new();
    let a = InvocationId::new();
    let b = InvocationId::new();
    assert!(runs.begin_run(a.clone(), first.clone()).is_ok());
    assert!(matches!(runs.begin_run(InvocationId::new(), first.clone()), Err(ChatRunError::ConversationBusy)));
    assert!(runs.begin_run(b.clone(), second.clone()).is_ok());
    assert!(runs.is_running(&a) && runs.is_running(&b));

    runs.finish(&a);
    assert!(!runs.is_running(&a));
    assert!(runs.begin_run(InvocationId::new(), first.clone()).is_ok());

    let cancelled = runs.shut_down();
    assert_eq!(cancelled.len(), 2);
    assert_eq!(cancelled[0].as_str(), b.as_str());
    assert!(matches!(runs.begin_run(InvocationId::new(), ConversationId::new()), Err(ChatRunError::ShuttingDown)));
    assert_eq!(ChatRunError::ShuttingDown.to_string(), "host is shutting down");
}

#[test]
fn only_a_running_invocation_can_be_cancelled() {
    let mut runs = ActiveRuns::new();
    let id = InvocationId::new();
    assert!(matches!(
        cancel_check(&runs, &id),
        Err(ChatRunError::Failed(m)) if m == "run is not active"
    ));
    runs.begin_run(id.clone(), ConversationId::new()).expect("starts");
    assert!(cancel_check(&runs, &id).is_ok());
}

#[test]
fn replies_end_executions() {
    assert_eq!(terminal_outcome(&Ok("answer".to_string())), (ExecutionStatus::Completed, None));
    assert_eq!(
        terminal_outcome(&Err(ProviderError::Cancelled)),
        (ExecutionStatus::Cancelled, Some("request was cancelled".to_string()))
    );
    assert_eq!(
        terminal_outcome(&Err(ProviderError::Http("429 Too Many Requests".into()))),
        (ExecutionStatus::Failed, Some("provider request was rejected: 429 Too Many Requests".to_string()))
    );
}

#[test]
fn the_context_budget_comes_from_the_resolved_provider() {
    let registry = ProviderRegistry::new(&AppSettings::default());
    assert_eq!(context_budget(&registry, &ChatModelPreference::Fast), 8192);

    let provider = ProviderConfig::new(
        ProviderId::parse("openai").expect("provider ID"),
        "OpenAI",
        "https://api.openai.com/v1",
        None,
        vec!["gpt-4o-mini".to_string()],
        true,
    )
    .with_context_budget(4096);
    let profile = ModelProfile::new("Fast", ProviderId::parse("openai").expect("provider ID"), "gpt-4o-mini");
    let settings = AppSettings::default().with_provider(provider, profile);
    let registry = ProviderRegistry::new(&settings);
    assert_eq!(context_budget(&registry, &ChatModelPreference::Smart), 4096);
    assert_eq!(context_budget(&registry, &ChatModelPreference::Model("gpt-4o-mini".into())), 4096);
    assert_eq!(context_budget(&registry, &ChatModelPreference::Model("other".into())), 8192);
}
