use lexwisp::execution::{ExecutionStatus, StorageState};
use lexwisp::executions::{
    missing_favorite, ExecutionStart, ExecutionTable, FavoriteStart, TerminalStart, WriteOutcome,
    CHECKPOINT_BYTES, RECENT_TERMINAL_LIMIT, RECENT_TERMINAL_TTL_MS,
};
use lexwisp::ids::{ConversationId, InvocationId, MessageId};
use lexwisp::plugin::PluginId;
use lexwisp::provider::ProviderId;

const T0: u64 = 1_000_000;

fn start_info(invocation_id: InvocationId) -> ExecutionStart {
    ExecutionStart {
        invocation_id,
        plugin_id: PluginId::parse("org.lexwisp.chat").expect("plugin ID"),
        plugin_generation: 1,
        conversation_id: ConversationId::new(),
        user_message_id: MessageId::new(),
        assistant_message_id: MessageId::new(),
        provider_id: ProviderId::parse("fixture").expect("provider ID"),
        model_id: "fixture".into(),
        input: "hello".into(),
        conversation_title: "hello".into(),
        user_ordinal: 0,
        assistant_ordinal: 1,
    }
}

fn fixture(recording: bool) -> (ExecutionTable, InvocationId, usize) {
    let mut table = ExecutionTable::new(recording, 0);
    let invocation_id = InvocationId::new();
    let (_, checkpoint) = table.start(start_info(invocation_id.clone()), T0);
    (table, invocation_id, usize::from(checkpoint.is_some()))
}

fn finish(table: &mut ExecutionTable, id: &InvocationId, now: u64) {
    match table.begin_terminal(id, ExecutionStatus::Completed, None) {
        Ok(TerminalStart::Pending { checkpoint, .. }) => {
            let outcome = if checkpoint.is_some() { WriteOutcome::Written } else { WriteOutcome::Skipped };
            table.finish_terminal(id, outcome, now).expect("terminal state commits");
        }
        Ok(TerminalStart::Finished(_)) => panic!("the execution had not finished"),
        Err(error) => panic!("{error}"),
    }
}

#[test]
fn many_small_deltas_are_coalesced_for_storage() {
    let (mut table, invocation_id, mut stored) = fixture(true);
    for _ in 0..1_000 {
        let progress = table.append_text(&invocation_id, "x", T0).expect("delta applies");
        stored += usize::from(progress.store.is_some());
    }
    assert!(stored < 20);
}

#[test]
fn disabling_recording_revokes_running_checkpoint_writes() {
    let (mut table, invocation_id, before) = fixture(true);
    assert_eq!(before, 1);
    let (generation, revoked) = table.set_recording_enabled(false).expect("generation advances");
    assert_eq!(generation, 1);
    assert_eq!(table.retention_generation(), 1);
    assert_eq!(revoked.len(), 1);
    let progress = table
        .append_text(&invocation_id, &"x".repeat(CHECKPOINT_BYTES + 1), T0)
        .expect("the in-memory result remains usable");
    assert!(progress.store.is_none());
    assert_eq!(table.snapshot(&invocation_id).expect("snapshot").storage, StorageState::NotRecorded);
}

#[test]
fn explicit_favorite_can_preserve_a_terminal_unrecorded_result() {
    let (mut table, invocation_id, _) = fixture(true);
    table.set_recording_enabled(false);
    table.append_text(&invocation_id, "answer", T0).expect("answer remains in memory");
    finish(&mut table, &invocation_id, T0);
    assert_eq!(table.snapshot(&invocation_id).expect("snapshot").storage, StorageState::NotRecorded);
    match table.begin_favorite(&invocation_id, T0).expect("terminal result can be preserved") {
        FavoriteStart::Persist { checkpoint, snapshot } => {
            assert_eq!(checkpoint.snapshot.output, "answer");
            assert_eq!(snapshot.storage, StorageState::Pending);
            assert_eq!(checkpoint.snapshot.retention_generation, 1);
        }
        _ => panic!("the unrecorded result must be written"),
    }
    let shown = table.finish_favorite(&invocation_id, true, T0).expect("still kept");
    assert_eq!(shown.storage, StorageState::Saved);
    assert!(matches!(table.begin_favorite(&invocation_id, T0), Ok(FavoriteStart::AlreadySaved)));
}

#[test]
fn execution_waiting_for_a_concurrency_permit_stays_queued() {
    let (mut table, invocation_id, _) = fixture(false);
    assert_eq!(table.snapshot(&invocation_id).expect("queued").status, ExecutionStatus::Queued);
    let running = table.mark_running(&invocation_id).expect("permit transition succeeds");
    assert_eq!(running.status, ExecutionStatus::Running);
    assert_eq!(running.sequence, 2);
    finish(&mut table, &invocation_id, T0);
    assert_eq!(table.snapshot(&invocation_id).expect("terminal").status, ExecutionStatus::Completed);
}

#[test]
fn terminal_retention_is_bounded_without_pruning_active_entries() {
    let mut table = ExecutionTable::new(false, 0);
    let active = InvocationId::new();
    table.start(start_info(active.clone()), T0);
    let mut finished = Vec::new();
    for step in 0..500u64 {
        let invocation_id = InvocationId::new();
        table.start(start_info(invocation_id.clone()), T0 + step);
        table.mark_running(&invocation_id).expect("starts running");
        finish(&mut table, &invocation_id, T0 + step);
        finished.push(invocation_id);
    }
    assert!(table.snapshot(&active).is_some());
    assert_eq!(table.active_count(), 1);
    let kept = finished.iter().filter(|id| table.snapshot(id).is_some()).count();
    assert!(kept <= RECENT_TERMINAL_LIMIT);
    assert!(table.snapshot(finished.last().expect("ran")).is_some());
    assert!(table.snapshot(&finished[0]).is_none());
}

#[test]
fn persisted_pruned_execution_can_still_be_favorited() {
    let (mut table, invocation_id, _) = fixture(true);
    table.mark_running(&invocation_id).expect("starts running");
    match table.begin_terminal(&invocation_id, ExecutionStatus::Completed, None) {
        Ok(TerminalStart::Pending { checkpoint, snapshot }) => {
            assert!(checkpoint.is_some());
            assert_eq!(snapshot.storage, StorageState::Pending);
        }
        _ => panic!("terminal commit begins"),
    }
    let last = table.finish_terminal(&invocation_id, WriteOutcome::Written, T0).expect("commits");
    assert_eq!(last.storage, StorageState::Saved);
    table.start(start_info(InvocationId::new()), T0 + 2 * RECENT_TERMINAL_TTL_MS);
    assert!(table.snapshot(&invocation_id).is_none());
    assert!(matches!(
        table.begin_favorite(&invocation_id, T0 + 2 * RECENT_TERMINAL_TTL_MS),
        Ok(FavoriteStart::Missing)
    ));
    assert!(missing_favorite(true).is_ok());
}

#[test]
fn unrecorded_pruned_execution_reports_a_clear_error() {
    let (mut table, invocation_id, _) = fixture(false);
    table.mark_running(&invocation_id).expect("starts running");
    finish(&mut table, &invocation_id, T0);
    table.start(start_info(InvocationId::new()), T0 + 2 * RECENT_TERMINAL_TTL_MS);
    assert!(matches!(
        table.begin_favorite(&invocation_id, T0 + 2 * RECENT_TERMINAL_TTL_MS),
        Ok(FavoriteStart::Missing)
    ));
    let error = missing_favorite(false).expect_err("unrecorded pruned output cannot be recovered");
    assert_eq!(error, "result is no longer retained and was not persisted");
}

#[test]
fn first_snapshot_is_queued_and_stored_only_while_recording() {
    let mut table = ExecutionTable::new(true, 7);
    let id = InvocationId::new();
    let (snapshot, checkpoint) = table.start(start_info(id.clone()), T0);
    assert_eq!(snapshot.sequence, 1);
    assert_eq!(snapshot.text_version, 0);
    assert_eq!(snapshot.status, ExecutionStatus::Queued);
    assert_eq!(snapshot.storage, StorageState::Pending);
    assert_eq!(snapshot.retention_generation, 7);
    assert_eq!(snapshot.output, "");
    let checkpoint = checkpoint.expect("recording stores the start");
    assert_eq!(checkpoint.input, "hello");
    assert_eq!(checkpoint.assistant_ordinal, 1);

    let mut quiet = ExecutionTable::new(false, 0);
    let (snapshot, checkpoint) = quiet.start(start_info(InvocationId::new()), T0);
    assert_eq!(snapshot.storage, StorageState::NotRecorded);
    assert!(checkpoint.is_none());
}

#[test]
fn streamed_text_is_shown_and_stored_on_schedule() {
    let (mut table, id, _) = fixture(true);
    let first = table.append_text(&id, "a", T0).expect("applies");
    assert!(first.show.is_some());
    assert!(first.store.is_none());
    let soon = table.append_text(&id, "b", T0 + 10).expect("applies");
    assert!(soon.show.is_none());
    let later = table.append_text(&id, "c", T0 + 43).expect("applies");
    let shown = later.show.expect("due after the flush interval");
    assert_eq!(shown.output, "abc");
    assert_eq!(shown.text_version, 3);
    assert_eq!(shown.sequence, 4);
    let stored = table.append_text(&id, "d", T0 + 500).expect("applies");
    assert_eq!(stored.store.expect("due after the checkpoint interval").snapshot.output, "abcd");
    let empty = table.append_text(&id, "", T0 + 5000).expect("nothing to do");
    assert!(empty.show.is_none() && empty.store.is_none());
    assert_eq!(table.snapshot(&id).expect("kept").text_version, 4);
}

#[test]
fn a_large_delta_is_stored_at_once() {
    let (mut table, id, _) = fixture(true);
    let progress = table.append_text(&id, &"é".repeat(CHECKPOINT_BYTES / 2), T0).expect("applies");
    assert!(progress.store.is_some());
}

#[test]
fn lifecycle_errors_name_their_cause() {
    let (mut table, id, _) = fixture(false);
    let unknown = InvocationId::new();
    assert_eq!(table.mark_running(&unknown).unwrap_err(), "execution is no longer active");
    assert_eq!(table.append_text(&unknown, "x", T0).err().expect("error"), "execution is no longer active");
    assert_eq!(
        table.begin_terminal(&id, ExecutionStatus::Running, None).err().expect("error"),
        "terminal commit requires a terminal status"
    );
    assert_eq!(
        table.finish_terminal(&unknown, WriteOutcome::Skipped, T0).unwrap_err(),
        "execution disappeared during terminal persistence"
    );
    table.mark_running(&id).expect("starts");
    assert_eq!(table.mark_running(&id).unwrap_err(), "execution is not queued");
    assert_eq!(
        table.begin_favorite(&id, T0).err().expect("error"),
        "wait for the execution to finish before preserving it"
    );
    finish(&mut table, &id, T0);
    assert_eq!(table.mark_running(&id).unwrap_err(), "execution already reached a terminal state");
    assert_eq!(
        table.append_text(&id, "x", T0).err().expect("error"),
        "execution already reached a terminal state"
    );
    assert!(table.mark_cancelling(&id).is_none());
    match table.begin_terminal(&id, ExecutionStatus::Failed, Some("late".into())) {
        Ok(TerminalStart::Finished(snapshot)) => {
            assert_eq!(snapshot.status, ExecutionStatus::Completed);
            assert!(snapshot.error.is_none());
        }
        _ => panic!("a finished execution stays finished"),
    }
}

#[test]
fn cancelling_revoking_and_failed_writes_show_new_snapshots() {
    let (mut table, id, _) = fixture(true);
    let cancelling = table.mark_cancelling(&id).expect("unfinished");
    assert_eq!(cancelling.status, ExecutionStatus::Cancelling);
    assert_eq!(cancelling.sequence, 2);
    let unsaved = table.mark_unsaved(&id).expect("kept");
    assert_eq!(unsaved.storage, StorageState::Unsaved);
    let revoked = table.revoke_persistence(&id).expect("kept");
    assert_eq!(revoked.storage, StorageState::NotRecorded);
    assert_eq!(revoked.sequence, 4);
    let progress = table.append_text(&id, &"x".repeat(CHECKPOINT_BYTES), T0).expect("applies");
    assert!(progress.store.is_none());
    match table.begin_terminal(&id, ExecutionStatus::Cancelled, Some("stopped".into())) {
        Ok(TerminalStart::Pending { snapshot, checkpoint }) => {
            assert!(checkpoint.is_none());
            assert_eq!(snapshot.error.as_deref(), Some("stopped"));
            assert_eq!(snapshot.storage, StorageState::Pending);
        }
        _ => panic!("terminal commit begins"),
    }
    let last = table.finish_terminal(&id, WriteOutcome::Failed, T0).expect("commits");
    assert_eq!(last.storage, StorageState::Unsaved);
    assert_eq!(last.status, ExecutionStatus::Cancelled);
}

#[test]
fn recording_back_on_does_not_advance_the_generation() {
    let (mut table, _, _) = fixture(true);
    assert!(table.set_recording_enabled(true).is_none());
    assert_eq!(table.retention_generation(), 0);
    let mut saturated = ExecutionTable::new(true, u64::MAX);
    let (reported, _) = saturated.advance_retention_generation();
    assert_eq!(reported, u64::MAX);
    assert_eq!(saturated.retention_generation(), 0);
}

#[test]
fn expired_results_are_dropped_but_the_kept_one_stays() {
    let (mut table, id, _) = fixture(false);
    finish(&mut table, &id, T0);
    let other = InvocationId::new();
    table.start(start_info(other.clone()), T0);
    finish(&mut table, &other, T0);
    let later = T0 + RECENT_TERMINAL_TTL_MS + 1;
    assert!(table.finish_favorite(&id, false, later).is_some());
    assert!(table.snapshot(&id).is_some());
    assert!(table.snapshot(&other).is_none());
}
