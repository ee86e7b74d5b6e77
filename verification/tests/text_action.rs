use lexwisp::actions::{ActionError, ActionInputSource};
use lexwisp::context::InputSource;
use lexwisp::execution::{ExecutionSnapshot, ExecutionStatus, StorageState};
use lexwisp::ids::{ConversationId, InvocationId, MessageId};
use lexwisp::plugin::{ActionId, PluginId, QualifiedActionId};
use lexwisp::provider::ProviderId;
use lexwisp::records::TextActionError;
use lexwisp::settings::DismissPolicy;
use lexwisp::text_action::{action_source, resolved_dismiss_policy, run_outcome, TextActionState};

fn action() -> QualifiedActionId {
    QualifiedActionId::new(
        PluginId::parse("org.lexwisp.fixture").expect("plugin ID"),
        ActionId::parse("run").expect("action ID"),
    )
}

fn run(plugin: &str, id: &InvocationId, sequence: u64, status: ExecutionStatus, output: &str) -> ExecutionSnapshot {
    ExecutionSnapshot {
        invocation_id: id.clone(),
        plugin_id: PluginId::parse(plugin).expect("plugin ID"),
        plugin_generation: 1,
        conversation_id: ConversationId::new(),
        user_message_id: MessageId::new(),
        assistant_message_id: MessageId::new(),
        provider_id: ProviderId::parse("fixture").expect("provider ID"),
        model_id: "fixture".into(),
        sequence,
        text_version: sequence,
        status,
        output: output.into(),
        error: None,
        storage: StorageState::Pending,
        retention_generation: 0,
    }
}

#[test]
fn a_new_action_is_ready() {
    let state = TextActionState::new(action(), false);
    let shown = state.snapshot();
    assert_eq!(shown.status_text, "Ready");
    assert_eq!(shown.status, ExecutionStatus::Completed);
    assert_eq!(shown.storage, StorageState::Saved);
    assert!(!shown.can_stop());
    assert!(matches!(state.stop(), Err(TextActionError::NotRunning)));
}

#[test]
fn starting_a_run_checks_input_source_and_business() {
    let mut state = TextActionState::new(action(), false);
    let manual = vec![ActionInputSource::Manual];
    assert!(matches!(
        state.begin("   ", InputSource::Manual, &manual),
        Err(ActionError::Failed(m)) if m == "input is empty"
    ));
    assert!(matches!(
        state.begin("text", InputSource::Clipboard, &manual),
        Err(ActionError::Failed(m)) if m == "this action does not allow the selected input source"
    ));
    let (input, sent) = state.begin("  text  ", InputSource::Manual, &manual).expect("starts");
    assert_eq!(input, "text");
    assert!(sent.is_none());
    let shown = state.snapshot();
    assert_eq!(shown.status, ExecutionStatus::Queued);
    assert_eq!(shown.status_text, "Starting…");
    assert_eq!(shown.generation, 1);
    assert!(matches!(
        state.begin("again", InputSource::Manual, &manual),
        Err(ActionError::Failed(m)) if m == "the action is already running"
    ));
}

#[test]
fn run_snapshots_drive_the_status_line_in_order() {
    let mut state = TextActionState::new(action(), false);
    state.set_visible(true, DismissPolicy::Continue);
    state.begin("text", InputSource::Selection, &vec![ActionInputSource::Selection]).expect("starts");
    let id = InvocationId::new();
    let running = state
        .observe(&run("org.lexwisp.fixture", &id, 2, ExecutionStatus::Running, "par"))
        .expect("visible surfaces get snapshots");
    assert_eq!(running.status_text, "Generating…");
    assert!(running.can_stop());
    assert!(state.observe(&run("org.lexwisp.fixture", &id, 2, ExecutionStatus::Running, "stale")).is_none());
    assert!(state.observe(&run("org.lexwisp.other", &id, 9, ExecutionStatus::Running, "other")).is_none());
    assert_eq!(state.snapshot().output, "par");
    assert_eq!(state.stop().expect("running").as_str(), id.as_str());
    let done = state
        .observe(&run("org.lexwisp.fixture", &id, 3, ExecutionStatus::Completed, "partial"))
        .expect("sent");
    assert_eq!(done.status_text, "Complete · saving…");
    assert!(!done.can_stop());
    let mut failed = run("org.lexwisp.fixture", &id, 4, ExecutionStatus::Failed, "partial");
    failed.error = Some("quota exceeded".into());
    assert_eq!(state.observe(&failed).expect("sent").status_text, "quota exceeded");
    failed.sequence = 5;
    failed.error = None;
    assert_eq!(state.observe(&failed).expect("sent").status_text, "Failed · partial result kept");
    failed.sequence = 6;
    failed.status = ExecutionStatus::Cancelled;
    assert_eq!(state.observe(&failed).expect("sent").status_text, "Stopped · partial result kept");
}

#[test]
fn hiding_a_cancelling_action_cancels_its_run() {
    let mut state = TextActionState::new(action(), false);
    state.begin("text", InputSource::Manual, &vec![ActionInputSource::Manual]).expect("starts");
    let id = InvocationId::new();
    state.observe(&run("org.lexwisp.fixture", &id, 1, ExecutionStatus::Running, ""));
    let (sent, cancel) = state.set_visible(false, DismissPolicy::Continue);
    assert!(sent.is_none() && cancel.is_none());
    let (_, cancel) = state.set_visible(false, DismissPolicy::Cancel);
    assert_eq!(cancel.expect("cancelled").as_str(), id.as_str());
    let (sent, cancel) = state.set_visible(true, DismissPolicy::Cancel);
    assert!(sent.is_some() && cancel.is_none());
}

#[test]
fn a_failed_start_is_shown() {
    let mut state = TextActionState::new(action(), false);
    state.begin("text", InputSource::Manual, &vec![ActionInputSource::Manual]).expect("starts");
    state.start_failed("no provider");
    let shown = state.snapshot();
    assert_eq!(shown.status, ExecutionStatus::Failed);
    assert_eq!(shown.status_text, "no provider");
    assert!(state.begin("text", InputSource::Manual, &vec![ActionInputSource::Manual]).is_ok());
}

#[test]
fn finished_runs_become_results() {
    let id = InvocationId::new();
    let done = run("org.lexwisp.fixture", &id, 3, ExecutionStatus::Completed, "answer");
    assert_eq!(run_outcome(&done).expect("completed").output, "answer");
    let cancelled = run("org.lexwisp.fixture", &id, 3, ExecutionStatus::Cancelled, "");
    assert!(matches!(run_outcome(&cancelled), Err(ActionError::Cancelled)));
    let failed = run("org.lexwisp.fixture", &id, 3, ExecutionStatus::Interrupted, "");
    assert!(matches!(run_outcome(&failed), Err(ActionError::Failed(m)) if m == "request failed"));
}

#[test]
fn sources_and_dismiss_policies_resolve() {
    assert_eq!(action_source(InputSource::Candidate), ActionInputSource::Selection);
    assert_eq!(action_source(InputSource::Clipboard), ActionInputSource::Clipboard);
    assert_eq!(resolved_dismiss_policy(Some(DismissPolicy::Continue), DismissPolicy::Cancel), DismissPolicy::Continue);
    assert_eq!(resolved_dismiss_policy(None, DismissPolicy::Cancel), DismissPolicy::Cancel);
}

#[test]
fn a_running_script_says_so() {
    let mut state = TextActionState::new(action(), true);
    state.set_visible(true, DismissPolicy::Continue);
    state.begin("text", InputSource::Manual, &vec![ActionInputSource::Manual]).expect("starts");
    let id = InvocationId::new();
    let running = state
        .observe(&run("org.lexwisp.fixture", &id, 1, ExecutionStatus::Running, ""))
        .expect("visible surfaces get snapshots");
    assert_eq!(running.status_text, "Running script…");
}
