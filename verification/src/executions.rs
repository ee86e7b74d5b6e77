//! The table of executions the host keeps in memory: their latest
//! snapshots, when to show and store progress, and how long finished ones
//! are kept. Times are milliseconds of a monotonic clock that the caller
//! reads; storing checkpoints and telling observers is the caller's work,
//! done with what each operation returns.
use vstd::prelude::*;

use crate::execution::{
    ExecutionCheckpoint, ExecutionSnapshot, ExecutionStatus, SnapshotView, StorageState, terminal,
};
use crate::ids::{ConversationId, InvocationId, MessageId};
use crate::plugin::PluginId;
use crate::provider::ProviderId;
use crate::text::{concat, copy_string, str_eq};
use vstd::seq_lib::group_seq_properties;

verus! {

/// How often streamed text is shown, at most.
pub const UI_FLUSH_MS: u64 = 33;

/// How often streamed text is stored, at most, by time.
pub const CHECKPOINT_MS: u64 = 500;

/// How much streamed text makes a checkpoint due regardless of time.
pub const CHECKPOINT_BYTES: usize = 16384;

/// How many finished executions are kept in memory.
pub const RECENT_TERMINAL_LIMIT: usize = 128;

/// How long a finished execution is kept in memory.
pub const RECENT_TERMINAL_TTL_MS: u64 = 3600000;

/// One more, saturating.
pub open spec fn sat_inc(n: u64) -> u64 {
    if n == u64::MAX {
        u64::MAX
    } else {
        (n + 1) as u64
    }
}

/// How long after `from` the time `now` is, zero if earlier.
pub open spec fn elapsed(now: u64, from: u64) -> u64 {
    if now >= from {
        (now - from) as u64
    } else {
        0
    }
}

/// What starts an execution.
#[derive(Debug)]
pub struct ExecutionStart {
    pub invocation_id: InvocationId,
    pub plugin_id: PluginId,
    pub plugin_generation: u64,
    pub conversation_id: ConversationId,
    pub user_message_id: MessageId,
    pub assistant_message_id: MessageId,
    pub provider_id: ProviderId,
    pub model_id: String,
    pub input: String,
    pub conversation_title: String,
    pub user_ordinal: u64,
    pub assistant_ordinal: u64,
}

/// The model of an execution entry.
pub struct EntryView {
    pub snapshot: SnapshotView,
    pub input: Seq<char>,
    pub conversation_title: Seq<char>,
    pub user_ordinal: u64,
    pub assistant_ordinal: u64,
    pub dirty_bytes: usize,
    pub last_ui_flush_ms: u64,
    pub last_checkpoint_ms: u64,
    pub finished_at_ms: Option<u64>,
    pub persist: bool,
}

/// One execution the table keeps.
#[derive(Debug)]
struct ExecutionEntry {
    snapshot: ExecutionSnapshot,
    input: String,
    conversation_title: String,
    user_ordinal: u64,
    assistant_ordinal: u64,
    dirty_bytes: usize,
    last_ui_flush_ms: u64,
    last_checkpoint_ms: u64,
    finished_at_ms: Option<u64>,
    persist: bool,
}

impl View for ExecutionEntry {
    type V = EntryView;

    closed spec fn view(&self) -> EntryView {
        EntryView {
            snapshot: self.snapshot@,
            input: self.input@,
            conversation_title: self.conversation_title@,
            user_ordinal: self.user_ordinal,
            assistant_ordinal: self.assistant_ordinal,
            dirty_bytes: self.dirty_bytes,
            last_ui_flush_ms: self.last_ui_flush_ms,
            last_checkpoint_ms: self.last_checkpoint_ms,
            finished_at_ms: self.finished_at_ms,
            persist: self.persist,
        }
    }
}

/// The model of a checkpoint: what storage records of an entry.
pub struct CheckpointView {
    pub snapshot: SnapshotView,
    pub input: Seq<char>,
    pub conversation_title: Seq<char>,
    pub user_ordinal: u64,
    pub assistant_ordinal: u64,
}

/// The checkpoint of an entry.
pub open spec fn checkpoint_of(e: EntryView) -> CheckpointView {
    CheckpointView {
        snapshot: e.snapshot,
        input: e.input,
        conversation_title: e.conversation_title,
        user_ordinal: e.user_ordinal,
        assistant_ordinal: e.assistant_ordinal,
    }
}

/// The model of a checkpoint value.
pub open spec fn checkpoint_view(c: ExecutionCheckpoint) -> CheckpointView {
    CheckpointView {
        snapshot: c.snapshot@,
        input: c.input@,
        conversation_title: c.conversation_title@,
        user_ordinal: c.user_ordinal,
        assistant_ordinal: c.assistant_ordinal,
    }
}

/// Whether `keep` names `id`.
fn is_kept(keep: Option<&InvocationId>, id: &InvocationId) -> (r: bool)
    ensures
        r == (kept_id(keep) == Some(id@)),
{
    match keep {
        Some(k) => str_eq(k.as_str(), id.as_str()),
        None => false,
    }
}

/// How long after `from` the time `now` is, zero if earlier.
fn elapsed_ms(now: u64, from: u64) -> (r: u64)
    ensures
        r == elapsed(now, from),
{
    if now >= from {
        now - from
    } else {
        0
    }
}

/// One more, saturating.
fn sat_inc_u64(n: u64) -> (r: u64)
    ensures
        r == sat_inc(n),
{
    if n == u64::MAX {
        n
    } else {
        n + 1
    }
}

impl ExecutionEntry {
    /// Whether the execution has finished.
    fn is_finished(&self) -> (r: bool)
        ensures
            r == finished(self@),
    {
        self.snapshot.status.is_terminal() && self.finished_at_ms.is_some()
    }

    /// Whether a prune that keeps `keep` may drop this execution.
    fn is_prunable(&self, keep: Option<&InvocationId>) -> (r: bool)
        ensures
            r == prunable(self@, kept_id(keep)),
    {
        self.is_finished() && !is_kept(keep, &self.snapshot.invocation_id)
    }

    /// Whether a prune at `now` that keeps `keep` drops this execution for
    /// its age.
    fn is_expired(&self, now: u64, keep: Option<&InvocationId>) -> (r: bool)
        ensures
            r == expired(self@, now, kept_id(keep)),
    {
        if !self.is_prunable(keep) {
            return false;
        }
        match self.finished_at_ms {
            Some(at) => elapsed_ms(now, at) > RECENT_TERMINAL_TTL_MS,
            None => false,
        }
    }

    /// When the execution finished.
    fn finished_at(&self) -> (r: u64)
        requires
            self@.finished_at_ms is Some,
        ensures
            self@.finished_at_ms == Some(r),
    {
        match self.finished_at_ms {
            Some(at) => at,
            None => 0,
        }
    }

    /// What storage records of this entry.
    fn checkpoint(&self) -> (r: ExecutionCheckpoint)
        ensures
            checkpoint_view(r) == checkpoint_of(self@),
    {
        ExecutionCheckpoint {
            snapshot: self.snapshot.clone(),
            input: copy_string(&self.input),
            conversation_title: copy_string(&self.conversation_title),
            user_ordinal: self.user_ordinal,
            assistant_ordinal: self.assistant_ordinal,
        }
    }
}

/// The model of the table: its entries, whether recording is on, and the
/// retention generation.
pub struct TableView {
    pub entries: Seq<EntryView>,
    pub recording_enabled: bool,
    pub retention_generation: u64,
}

/// The index of the entry of `id`.
pub open spec fn index_of(es: Seq<EntryView>, id: Seq<char>) -> Option<int>
    decreases es.len(),
{
    if es.len() == 0 {
        None
    } else {
        match index_of(es.drop_last(), id) {
            Some(i) => Some(i),
            None => if es.last().snapshot.invocation_id == id {
                Some(es.len() - 1)
            } else {
                None
            },
        }
    }
}

/// The entry of `id` is found where `index_of` says, and nowhere before.
proof fn lemma_index_of(es: Seq<EntryView>, id: Seq<char>)
    ensures
        match index_of(es, id) {
            Some(i) => 0 <= i < es.len() && es[i].snapshot.invocation_id == id && forall|j: int|
                0 <= j < i ==> es[j].snapshot.invocation_id != id,
            None => forall|j: int| 0 <= j < es.len() ==> es[j].snapshot.invocation_id != id,
        },
    decreases es.len(),
{
    if es.len() > 0 {
        lemma_index_of(es.drop_last(), id);
        assert(forall|j: int| 0 <= j < es.len() - 1 ==> es.drop_last()[j] == es[j]);
    }
}

/// Invocation IDs are unique.
pub open spec fn ids_unique(es: Seq<EntryView>) -> bool {
    forall|i: int, j: int|
        0 <= i < es.len() && 0 <= j < es.len() && i != j ==> es[i].snapshot.invocation_id
            != es[j].snapshot.invocation_id
}

/// The models of a list of entries.
spec fn entries_view(es: Seq<ExecutionEntry>) -> Seq<EntryView> {
    es.map_values(|e: ExecutionEntry| e@)
}

/// The executions the host keeps in memory.
pub struct ExecutionTable {
    entries: Vec<ExecutionEntry>,
    recording_enabled: bool,
    retention_generation: u64,
}

impl View for ExecutionTable {
    type V = TableView;

    closed spec fn view(&self) -> TableView {
        TableView {
            entries: entries_view(self.entries@),
            recording_enabled: self.recording_enabled,
            retention_generation: self.retention_generation,
        }
    }
}

/// The storage state of a new or finishing run.
pub open spec fn storage_for(recording: bool) -> StorageState {
    if recording {
        StorageState::Pending
    } else {
        StorageState::NotRecorded
    }
}

/// `e` with its snapshot changed by `s`.
pub open spec fn with_snapshot(e: EntryView, s: SnapshotView) -> EntryView {
    EntryView { snapshot: s, ..e }
}

/// An entry whose persistence is revoked: not persisted, not recorded, one
/// sequence on.
pub open spec fn revoked(e: EntryView) -> EntryView {
    EntryView {
        persist: false,
        snapshot: SnapshotView {
            storage: StorageState::NotRecorded,
            sequence: sat_inc(e.snapshot.sequence),
            ..e.snapshot
        },
        ..e
    }
}

/// An entry marked as not saved, one sequence on.
pub open spec fn unsaved(e: EntryView) -> EntryView {
    with_snapshot(
        e,
        SnapshotView {
            storage: StorageState::Unsaved,
            sequence: sat_inc(e.snapshot.sequence),
            ..e.snapshot
        },
    )
}

/// The invocation a prune keeps whatever its age, as a model.
pub open spec fn kept_id(keep: Option<&InvocationId>) -> Option<Seq<char>> {
    match keep {
        Some(id) => Some(id@),
        None => None,
    }
}

/// A finished execution: terminal, with the time it finished.
pub open spec fn finished(e: EntryView) -> bool {
    terminal(e.snapshot.status) && e.finished_at_ms is Some
}

/// A finished execution that a prune may drop: not the one it keeps.
pub open spec fn prunable(e: EntryView, keep: Option<Seq<char>>) -> bool {
    finished(e) && keep != Some(e.snapshot.invocation_id)
}

/// A prunable execution that finished more than the retention time ago.
pub open spec fn expired(e: EntryView, now: u64, keep: Option<Seq<char>>) -> bool {
    prunable(e, keep) && elapsed(now, e.finished_at_ms->0) > RECENT_TERMINAL_TTL_MS
}

/// How many finished executions `es` holds.
pub open spec fn finished_count(es: Seq<EntryView>) -> nat {
    es.filter(|e: EntryView| finished(e)).len()
}

/// How many executions of `es` a prune may drop.
pub open spec fn prunable_count(es: Seq<EntryView>, keep: Option<Seq<char>>) -> nat {
    es.filter(|e: EntryView| prunable(e, keep)).len()
}

/// The prunable execution that finished first; of several, the first in
/// the table.
pub open spec fn oldest_index(es: Seq<EntryView>, keep: Option<Seq<char>>) -> Option<int>
    decreases es.len(),
{
    if es.len() == 0 {
        None
    } else {
        let last = es.last();
        match oldest_index(es.drop_last(), keep) {
            None => if prunable(last, keep) {
                Some(es.len() - 1)
            } else {
                None
            },
            Some(i) => if prunable(last, keep) && last.finished_at_ms->0 < es[i].finished_at_ms->0 {
                Some(es.len() - 1)
            } else {
                Some(i)
            },
        }
    }
}

/// `es` without its `k` oldest prunable executions.
pub open spec fn drop_oldest(es: Seq<EntryView>, keep: Option<Seq<char>>, k: nat) -> Seq<EntryView>
    decreases k,
{
    if k == 0 {
        es
    } else {
        match oldest_index(es, keep) {
            None => es,
            Some(i) => drop_oldest(es.remove(i), keep, (k - 1) as nat),
        }
    }
}

/// How many finished executions are over the limit.
pub open spec fn excess(n: nat) -> nat {
    if n > RECENT_TERMINAL_LIMIT {
        (n - RECENT_TERMINAL_LIMIT) as nat
    } else {
        0
    }
}

/// The table after a prune at `now` that keeps `keep`: expired executions
/// go, then the oldest finished ones until at most the limit are left.
pub open spec fn pruned(es: Seq<EntryView>, now: u64, keep: Option<Seq<char>>) -> Seq<EntryView> {
    let kept = es.filter(|e: EntryView| !expired(e, now, keep));
    drop_oldest(kept, keep, excess(finished_count(kept)))
}

proof fn lemma_oldest_index(es: Seq<EntryView>, keep: Option<Seq<char>>)
    ensures
        match oldest_index(es, keep) {
            Some(i) => 0 <= i < es.len() && prunable(es[i], keep) && forall|j: int|
                0 <= j < es.len() && prunable(es[j], keep) ==> es[i].finished_at_ms->0
                    <= es[j].finished_at_ms->0,
            None => forall|j: int| 0 <= j < es.len() ==> !prunable(es[j], keep),
        },
    decreases es.len(),
{
    if es.len() > 0 {
        lemma_oldest_index(es.drop_last(), keep);
        assert(forall|j: int| 0 <= j < es.len() - 1 ==> es.drop_last()[j] == es[j]);
    }
}

proof fn lemma_unique_remove(es: Seq<EntryView>, i: int)
    requires
        ids_unique(es),
        0 <= i < es.len(),
    ensures
        ids_unique(es.remove(i)),
{
    es.remove_ensures(i);
    let r = es.remove(i);
    assert forall|a: int, b: int|
        0 <= a < r.len() && 0 <= b < r.len() && a != b implies r[a].snapshot.invocation_id
        != r[b].snapshot.invocation_id by {
        let a2 = if a < i {
            a
        } else {
            a + 1
        };
        let b2 = if b < i {
            b
        } else {
            b + 1
        };
        assert(r[a] == es[a2]);
        assert(r[b] == es[b2]);
    }
}

proof fn lemma_filter_remove_len(es: Seq<EntryView>, pred: spec_fn(EntryView) -> bool, i: int)
    requires
        0 <= i < es.len(),
    ensures
        es.remove(i).filter(pred).len() == es.filter(pred).len() - (if pred(es[i]) {
            1int
        } else {
            0int
        }),
{
    broadcast use Seq::filter_distributes_over_add;

    let a = es.take(i);
    let b = es.skip(i + 1);
    assert(es =~= a + seq![es[i]] + b);
    assert(es.remove(i) =~= a + b);
    assert(seq![es[i]] =~= Seq::<EntryView>::empty().push(es[i]));
    Seq::<EntryView>::empty().lemma_filter_push(es[i], pred);
    assert(Seq::<EntryView>::empty().filter(pred) =~= Seq::<EntryView>::empty()) by {
        reveal(Seq::filter);
    }
}

proof fn lemma_filter_len_weaker(
    es: Seq<EntryView>,
    p: spec_fn(EntryView) -> bool,
    q: spec_fn(EntryView) -> bool,
)
    requires
        forall|e: EntryView| #[trigger] p(e) ==> q(e),
    ensures
        es.filter(p).len() <= es.filter(q).len(),
    decreases es.len(),
{
    if es.len() > 0 {
        lemma_filter_len_weaker(es.drop_last(), p, q);
        assert(es =~= es.drop_last().push(es.last()));
        es.drop_last().lemma_filter_len_push(p, es.last());
        es.drop_last().lemma_filter_len_push(q, es.last());
    } else {
        assert(es.filter(p) =~= Seq::<EntryView>::empty()) by {
            reveal(Seq::filter);
        }
    }
}

proof fn lemma_drop_oldest_keeps(es: Seq<EntryView>, keep: Option<Seq<char>>, k: nat, m: int)
    requires
        0 <= m < es.len(),
        !prunable(es[m], keep),
    ensures
        drop_oldest(es, keep, k).contains(es[m]),
    decreases k,
{
    if k > 0 {
        lemma_oldest_index(es, keep);
        match oldest_index(es, keep) {
            None => {
                assert(es[m] == es[m]);
            },
            Some(i) => {
                es.remove_ensures(i);
                let m2 = if m < i {
                    m
                } else {
                    m - 1
                };
                assert(m != i);
                assert(es.remove(i)[m2] == es[m]);
                lemma_drop_oldest_keeps(es.remove(i), keep, (k - 1) as nat, m2);
            },
        }
    } else {
        assert(es[m] == es[m]);
    }
}

proof fn lemma_drop_oldest_count(es: Seq<EntryView>, keep: Option<Seq<char>>, k: nat)
    ensures
        prunable_count(drop_oldest(es, keep, k), keep) == (if prunable_count(es, keep) >= k {
            prunable_count(es, keep) - k
        } else {
            0
        }),
    decreases k,
{
    let pred = |e: EntryView| prunable(e, keep);
    if k > 0 {
        lemma_oldest_index(es, keep);
        match oldest_index(es, keep) {
            None => {
                assert(es.all(|x: EntryView| !pred(x)));
                es.lemma_all_neg_filter_empty(pred);
            },
            Some(i) => {
                lemma_filter_remove_len(es, pred, i);
                lemma_drop_oldest_count(es.remove(i), keep, (k - 1) as nat);
            },
        }
    }
}

/// Pruning never drops an execution that has not finished, nor the one it
/// is asked to keep.
pub proof fn pruning_keeps_unfinished(
    es: Seq<EntryView>,
    now: u64,
    keep: Option<Seq<char>>,
    j: int,
)
    requires
        0 <= j < es.len(),
        !prunable(es[j], keep),
    ensures
        pruned(es, now, keep).contains(es[j]),
{
    let pred = |e: EntryView| !expired(e, now, keep);
    let kept = es.filter(pred);
    es.lemma_filter_contains(pred, j);
    let m = choose|m: int| 0 <= m < kept.len() && kept[m] == es[j];
    lemma_drop_oldest_keeps(kept, keep, excess(finished_count(kept)), m);
}

/// After a prune, at most `RECENT_TERMINAL_LIMIT` finished executions are
/// left besides the one it keeps; with none kept, at most that many in all.
pub proof fn pruning_bounds_finished(es: Seq<EntryView>, now: u64, keep: Option<Seq<char>>)
    ensures
        prunable_count(pruned(es, now, keep), keep) <= RECENT_TERMINAL_LIMIT,
        keep is None ==> finished_count(pruned(es, now, keep)) <= RECENT_TERMINAL_LIMIT,
{
    let kept = es.filter(|e: EntryView| !expired(e, now, keep));
    let k = excess(finished_count(kept));
    lemma_filter_len_weaker(kept, |e: EntryView| prunable(e, keep), |e: EntryView| finished(e));
    lemma_drop_oldest_count(kept, keep, k);
    if keep is None {
        let r = pruned(es, now, keep);
        assert((|e: EntryView| prunable(e, keep)) =~= (|e: EntryView| finished(e)));
    }
}

/// Whether two tables agree on recording and retention generation.
pub open spec fn same_flags(a: TableView, b: TableView) -> bool {
    a.recording_enabled == b.recording_enabled && a.retention_generation == b.retention_generation
}

/// `e` moved to `status`, one sequence on.
pub open spec fn with_status(e: EntryView, status: ExecutionStatus) -> EntryView {
    with_snapshot(
        e,
        SnapshotView { status, sequence: sat_inc(e.snapshot.sequence), ..e.snapshot },
    )
}

/// `a + b`, saturating at `usize::MAX`.
pub open spec fn sat_add(a: usize, b: usize) -> usize {
    if a + b > usize::MAX {
        usize::MAX
    } else {
        (a + b) as usize
    }
}

/// Whether streamed text is due to be shown at `now`.
pub open spec fn show_due(e: EntryView, now: u64) -> bool {
    elapsed(now, e.last_ui_flush_ms) >= UI_FLUSH_MS
}

/// Whether streamed text is due to be stored at `now` once `bytes` more
/// bytes are added.
pub open spec fn store_due(e: EntryView, bytes: usize, now: u64) -> bool {
    elapsed(now, e.last_checkpoint_ms) >= CHECKPOINT_MS || sat_add(e.dirty_bytes, bytes)
        >= CHECKPOINT_BYTES
}

/// `e` once `delta`, of `bytes` bytes, is streamed in at `now`.
pub open spec fn appended(e: EntryView, delta: Seq<char>, bytes: usize, now: u64) -> EntryView {
    let due = store_due(e, bytes, now);
    EntryView {
        snapshot: SnapshotView {
            output: e.snapshot.output + delta,
            sequence: sat_inc(e.snapshot.sequence),
            text_version: sat_inc(e.snapshot.text_version),
            ..e.snapshot
        },
        dirty_bytes: if due {
            0
        } else {
            sat_add(e.dirty_bytes, bytes)
        },
        last_ui_flush_ms: if show_due(e, now) {
            now
        } else {
            e.last_ui_flush_ms
        },
        last_checkpoint_ms: if due {
            now
        } else {
            e.last_checkpoint_ms
        },
        ..e
    }
}

proof fn lemma_restore(es: Seq<EntryView>, i: int, x: EntryView)
    requires
        ids_unique(es),
        0 <= i < es.len(),
        x.snapshot.invocation_id == es[i].snapshot.invocation_id,
    ensures
        es.remove(i).insert(i, x) == es.update(i, x),
        ids_unique(es.update(i, x)),
{
    assert(es.remove(i).insert(i, x) =~= es.update(i, x));
}

/// What streaming text reports: the snapshot to show, and the checkpoint to
/// store, when either is due.
pub struct TextProgress {
    pub show: Option<ExecutionSnapshot>,
    pub store: Option<ExecutionCheckpoint>,
}

/// What the write of a terminal checkpoint came to.
#[derive(Clone, Copy, Debug, PartialEq, Eq, Structural)]
pub enum WriteOutcome {
    /// No write was made: the execution is not recorded.
    Skipped,
    /// The checkpoint was written.
    Written,
    /// The write failed.
    Failed,
}

/// The storage state a finished execution ends in after `o`.
pub open spec fn storage_after(o: WriteOutcome) -> StorageState {
    match o {
        WriteOutcome::Skipped => StorageState::NotRecorded,
        WriteOutcome::Written => StorageState::Saved,
        WriteOutcome::Failed => StorageState::Unsaved,
    }
}

/// How a terminal commit begins.
pub enum TerminalStart {
    /// The execution had already finished: its snapshot, unchanged.
    Finished(ExecutionSnapshot),
    /// The execution now has its terminal status; the snapshot to show,
    /// and the checkpoint to write when it is persisted.
    Pending { snapshot: ExecutionSnapshot, checkpoint: Option<ExecutionCheckpoint> },
}

/// `e` with the terminal `status` and `error`, its storage pending when
/// recording is on.
pub open spec fn terminated(
    e: EntryView,
    status: ExecutionStatus,
    error: Option<Seq<char>>,
    recording: bool,
) -> EntryView {
    with_snapshot(
        e,
        SnapshotView {
            status,
            error,
            sequence: sat_inc(e.snapshot.sequence),
            storage: storage_for(recording),
            ..e.snapshot
        },
    )
}

/// `e` finished at `now` after the write came to `o`.
pub open spec fn settled(e: EntryView, o: WriteOutcome, now: u64) -> EntryView {
    EntryView {
        snapshot: SnapshotView {
            storage: storage_after(o),
            sequence: sat_inc(e.snapshot.sequence),
            ..e.snapshot
        },
        finished_at_ms: Some(now),
        ..e
    }
}

/// How preserving a result begins.
pub enum FavoriteStart {
    /// The execution is not kept in memory: whether storage holds it decides.
    Missing,
    /// Its output is already saved.
    AlreadySaved,
    /// The checkpoint to write, and the snapshot to show meanwhile.
    Persist { checkpoint: ExecutionCheckpoint, snapshot: ExecutionSnapshot },
}

/// `e` being written for a favorite under `generation`.
pub open spec fn favored(e: EntryView, generation: u64) -> EntryView {
    with_snapshot(
        e,
        SnapshotView {
            retention_generation: generation,
            storage: StorageState::Pending,
            sequence: sat_inc(e.snapshot.sequence),
            ..e.snapshot
        },
    )
}

/// `e` after its favorite write was made or failed.
pub open spec fn favorite_written(e: EntryView, written: bool) -> EntryView {
    with_snapshot(
        e,
        SnapshotView {
            storage: if written {
                StorageState::Saved
            } else {
                StorageState::Unsaved
            },
            sequence: sat_inc(e.snapshot.sequence),
            ..e.snapshot
        },
    )
}

/// What preserving a result comes to when it is no longer in memory:
/// success when storage holds it.
pub fn missing_favorite(stored: bool) -> (r: Result<(), String>)
    ensures
        stored ==> r is Ok,
        !stored ==> (r matches Err(m) && m@ == "result is no longer retained and was not persisted"@),
{
    if stored {
        Ok(())
    } else {
        Err("result is no longer retained and was not persisted".to_owned())
    }
}

/// The entry a start at `now` makes, under the table's recording switch
/// and retention generation.
pub open spec fn started(st: ExecutionStart, recording: bool, generation: u64, now: u64) -> EntryView {
    EntryView {
        snapshot: SnapshotView {
            invocation_id: st.invocation_id@,
            plugin_id: st.plugin_id@,
            plugin_generation: st.plugin_generation,
            conversation_id: st.conversation_id@,
            user_message_id: st.user_message_id@,
            assistant_message_id: st.assistant_message_id@,
            provider_id: st.provider_id@,
            model_id: st.model_id@,
            sequence: 1,
            text_version: 0,
            status: ExecutionStatus::Queued,
            output: Seq::empty(),
            error: None,
            storage: storage_for(recording),
            retention_generation: generation,
        },
        input: st.input@,
        conversation_title: st.conversation_title@,
        user_ordinal: st.user_ordinal,
        assistant_ordinal: st.assistant_ordinal,
        dirty_bytes: 0,
        last_ui_flush_ms: if now >= UI_FLUSH_MS {
            (now - UI_FLUSH_MS) as u64
        } else {
            now
        },
        last_checkpoint_ms: now,
        finished_at_ms: None,
        persist: recording,
    }
}

/// `es` with `e` in place of the entry of its invocation, or added last.
pub open spec fn placed(es: Seq<EntryView>, e: EntryView) -> Seq<EntryView> {
    match index_of(es, e.snapshot.invocation_id) {
        Some(i) => es.update(i, e),
        None => es.push(e),
    }
}

/// An entry whose persistence is revoked when the retention generation
/// advances: each unfinished one.
pub open spec fn advanced(e: EntryView) -> EntryView {
    if terminal(e.snapshot.status) {
        e
    } else {
        revoked(e)
    }
}

/// The snapshots that advancing the retention generation reports: those of
/// the revoked entries, in table order.
pub open spec fn revocations(es: Seq<EntryView>) -> Seq<SnapshotView>
    decreases es.len(),
{
    if es.len() == 0 {
        Seq::empty()
    } else if terminal(es.last().snapshot.status) {
        revocations(es.drop_last())
    } else {
        revocations(es.drop_last()).push(revoked(es.last()).snapshot)
    }
}

/// The models of a list of snapshots.
pub open spec fn snapshots_view(v: Seq<ExecutionSnapshot>) -> Seq<SnapshotView> {
    v.map_values(|s: ExecutionSnapshot| s@)
}

/// The generation after `g`, as stored: wrapping.
pub open spec fn next_generation(g: u64) -> u64 {
    if g == u64::MAX {
        0
    } else {
        (g + 1) as u64
    }
}

/// The generation after `g`, as reported: saturating.
pub open spec fn reported_generation(g: u64) -> u64 {
    sat_inc(g)
}

/// Turning recording off leaves no execution that was unfinished then
/// persisted: streaming stores none of them again, and each reads as not
/// recorded.
pub proof fn recording_off_revokes_unfinished(es: Seq<EntryView>, j: int)
    requires
        0 <= j < es.len(),
        !terminal(es[j].snapshot.status),
    ensures
        !es.map_values(|e: EntryView| advanced(e))[j].persist,
        es.map_values(|e: EntryView| advanced(e))[j].snapshot.storage == StorageState::NotRecorded,
        es.map_values(|e: EntryView| advanced(e))[j].snapshot.invocation_id
            == es[j].snapshot.invocation_id,
{
}

/// A finished execution keeps its status and output through every change
/// the table makes to a finished entry: settling its write, a favorite
/// write, a failed write, revocation and a new retention generation.
pub proof fn finished_status_is_final(
    e: EntryView,
    o: WriteOutcome,
    now: u64,
    generation: u64,
    written: bool,
)
    requires
        terminal(e.snapshot.status),
    ensures
        settled(e, o, now).snapshot.status == e.snapshot.status,
        settled(e, o, now).snapshot.output == e.snapshot.output,
        favored(e, generation).snapshot.status == e.snapshot.status,
        favored(e, generation).snapshot.output == e.snapshot.output,
        favorite_written(e, written).snapshot.status == e.snapshot.status,
        favorite_written(e, written).snapshot.output == e.snapshot.output,
        unsaved(e).snapshot.status == e.snapshot.status,
        revoked(e).snapshot.status == e.snapshot.status,
        advanced(e) == e,
{
}

impl ExecutionTable {
    /// The table's invariant: one entry per invocation.
    pub closed spec fn well_formed(&self) -> bool {
        ids_unique(self@.entries)
    }

    /// An empty table.
    pub fn new(recording_enabled: bool, retention_generation: u64) -> (r: Self)
        ensures
            r@ == (TableView {
                entries: Seq::empty(),
                recording_enabled,
                retention_generation,
            }),
            r.well_formed(),
    {
        let r = ExecutionTable { entries: Vec::new(), recording_enabled, retention_generation };
        assert(r@.entries =~= Seq::<EntryView>::empty());
        r
    }

    /// Whether new runs are recorded.
    pub fn recording_enabled(&self) -> (r: bool)
        ensures
            r == self@.recording_enabled,
    {
        self.recording_enabled
    }

    /// The current retention generation.
    pub fn retention_generation(&self) -> (r: u64)
        ensures
            r == self@.retention_generation,
    {
        self.retention_generation
    }

    /// Where the entry of `id` is.
    fn find(&self, id: &InvocationId) -> (r: Option<usize>)
        ensures
            match index_of(self@.entries, id@) {
                Some(i) => r == Some(i as usize),
                None => r is None,
            },
            r matches Some(i) ==> i < self@.entries.len() && self@.entries[i as int].snapshot.invocation_id == id@,
    {
        let ghost es = self@.entries;
        proof {
            lemma_index_of(es, id@);
        }
        let mut i: usize = 0;
        while i < self.entries.len()
            invariant
                i <= self.entries.len(),
                es == self@.entries,
                es.len() == self.entries@.len(),
                match index_of(es, id@) {
                    Some(k) => 0 <= k < es.len() && es[k].snapshot.invocation_id == id@ && forall|
                        j: int,
                    |
                        0 <= j < k ==> es[j].snapshot.invocation_id != id@,
                    None => forall|j: int| 0 <= j < es.len() ==> es[j].snapshot.invocation_id != id@,
                },
                forall|j: int| 0 <= j < i ==> es[j].snapshot.invocation_id != id@,
            decreases self.entries.len() - i,
        {
            assert(es[i as int] == self.entries@[i as int]@);
            if str_eq(self.entries[i].snapshot.invocation_id.as_str(), id.as_str()) {
                return Some(i);
            }
            i += 1;
        }
        None
    }

    /// Takes entry `i` out.
    fn take(&mut self, i: usize) -> (r: ExecutionEntry)
        requires
            i < old(self)@.entries.len(),
        ensures
            r@ == old(self)@.entries[i as int],
            final(self)@.entries == old(self)@.entries.remove(i as int),
            final(self)@.recording_enabled == old(self)@.recording_enabled,
            final(self)@.retention_generation == old(self)@.retention_generation,
    {
        let ghost before = self.entries@;
        let r = self.entries.remove(i);
        assert(entries_view(self.entries@) =~= entries_view(before).remove(i as int));
        r
    }

    /// Puts `e` back at `i`.
    fn put(&mut self, i: usize, e: ExecutionEntry)
        requires
            i <= old(self)@.entries.len(),
        ensures
            final(self)@.entries == old(self)@.entries.insert(i as int, e@),
            final(self)@.recording_enabled == old(self)@.recording_enabled,
            final(self)@.retention_generation == old(self)@.retention_generation,
    {
        let ghost before = self.entries@;
        let ghost ev = e@;
        self.entries.insert(i, e);
        assert(entries_view(self.entries@) =~= entries_view(before).insert(i as int, ev));
    }

    /// Drops the executions that a prune at `now` drops for their age.
    fn drop_expired(&mut self, now: u64, keep: Option<&InvocationId>)
        requires
            old(self).well_formed(),
        ensures
            final(self)@.entries == old(self)@.entries.filter(
                |e: EntryView| !expired(e, now, kept_id(keep)),
            ),
            final(self)@.recording_enabled == old(self)@.recording_enabled,
            final(self)@.retention_generation == old(self)@.retention_generation,
            final(self).well_formed(),
    {
        let ghost orig = self@.entries;
        let ghost pred = |e: EntryView| !expired(e, now, kept_id(keep));
        let ghost flags = (self@.recording_enabled, self@.retention_generation);
        let mut i: usize = 0;
        let ghost mut j: int = 0;
        assert(orig.take(0).filter(pred) =~= Seq::<EntryView>::empty()) by {
            reveal(Seq::filter);
        }
        assert(self@.entries =~= orig.take(0).filter(pred) + orig.skip(0));
        while i < self.entries.len()
            invariant
                0 <= j <= orig.len(),
                pred == (|e: EntryView| !expired(e, now, kept_id(keep))),
                self@.entries =~= orig.take(j).filter(pred) + orig.skip(j),
                i == orig.take(j).filter(pred).len(),
                self.well_formed(),
                (self@.recording_enabled, self@.retention_generation) == flags,
            decreases orig.len() - j,
        {
            proof {
                assert(orig.take(j + 1) =~= orig.take(j).push(orig[j]));
                orig.take(j).lemma_filter_push(orig[j], pred);
                assert(self@.entries[i as int] == orig[j]);
                assert(self@.entries[i as int] == self.entries@[i as int]@);
            }
            if self.entries[i].is_expired(now, keep) {
                proof {
                    lemma_unique_remove(self@.entries, i as int);
                }
                let _ = self.take(i);
                proof {
                    assert(self@.entries =~= orig.take(j + 1).filter(pred) + orig.skip(j + 1));
                }
            } else {
                i += 1;
                proof {
                    assert(self@.entries =~= orig.take(j + 1).filter(pred) + orig.skip(j + 1));
                }
            }
            proof {
                j = j + 1;
            }
        }
        assert(orig.take(j) =~= orig);
    }

    /// How many executions have finished.
    fn finished_entries(&self) -> (r: usize)
        ensures
            r == finished_count(self@.entries),
    {
        let ghost es = self@.entries;
        let ghost p = |e: EntryView| finished(e);
        let mut n: usize = 0;
        let mut i: usize = 0;
        assert(es.take(0) =~= Seq::<EntryView>::empty());
        while i < self.entries.len()
            invariant
                i <= self.entries.len(),
                es == self@.entries,
                es.len() == self.entries@.len(),
                p == (|e: EntryView| finished(e)),
                n == es.take(i as int).filter(p).len(),
                n <= i,
            decreases self.entries.len() - i,
        {
            proof {
                assert(es.take(i + 1) =~= es.take(i as int).push(es[i as int]));
                es.take(i as int).lemma_filter_push(es[i as int], p);
                assert(es[i as int] == self.entries@[i as int]@);
            }
            if self.entries[i].is_finished() {
                n += 1;
            }
            i += 1;
        }
        assert(es.take(i as int) =~= es);
        n
    }

    /// Where the prunable execution that finished first is.
    fn oldest(&self, keep: Option<&InvocationId>) -> (r: Option<usize>)
        ensures
            match oldest_index(self@.entries, kept_id(keep)) {
                Some(k) => r == Some(k as usize),
                None => r is None,
            },
    {
        let ghost es = self@.entries;
        let ghost kp = kept_id(keep);
        let mut best: Option<usize> = None;
        let mut i: usize = 0;
        assert(es.take(0) =~= Seq::<EntryView>::empty());
        while i < self.entries.len()
            invariant
                i <= self.entries.len(),
                es == self@.entries,
                kp == kept_id(keep),
                es.len() == self.entries@.len(),
                match oldest_index(es.take(i as int), kp) {
                    Some(k) => best == Some(k as usize) && 0 <= k < i,
                    None => best is None,
                },
            decreases self.entries.len() - i,
        {
            let ghost t = es.take(i + 1);
            proof {
                assert(t.drop_last() =~= es.take(i as int));
                assert(t.last() == es[i as int]);
                lemma_oldest_index(es.take(i as int), kp);
                assert(forall|k: int| 0 <= k < i ==> t[k] == es[k]);
                assert(es[i as int] == self.entries@[i as int]@);
            }
            if self.entries[i].is_prunable(keep) {
                match best {
                    None => {
                        best = Some(i);
                    },
                    Some(b) => {
                        proof {
                            assert(es[b as int] == self.entries@[b as int]@);
                            assert(es.take(i as int)[b as int] == es[b as int]);
                        }
                        if self.entries[i].finished_at() < self.entries[b].finished_at() {
                            best = Some(i);
                        }
                    },
                }
            }
            i += 1;
        }
        assert(es.take(i as int) =~= es);
        best
    }

    /// Drops expired executions, then the oldest finished ones over the
    /// limit, never `keep`.
    fn prune(&mut self, now: u64, keep: Option<&InvocationId>)
        requires
            old(self).well_formed(),
        ensures
            final(self)@.entries == pruned(old(self)@.entries, now, kept_id(keep)),
            final(self)@.recording_enabled == old(self)@.recording_enabled,
            final(self)@.retention_generation == old(self)@.retention_generation,
            final(self).well_formed(),
    {
        let ghost kp = kept_id(keep);
        let ghost flags = (self@.recording_enabled, self@.retention_generation);
        self.drop_expired(now, keep);
        let ghost kept = self@.entries;
        let count = self.finished_entries();
        let mut rem: usize = if count > RECENT_TERMINAL_LIMIT {
            count - RECENT_TERMINAL_LIMIT
        } else {
            0
        };
        let ghost target = drop_oldest(kept, kp, rem as nat);
        let mut stop = false;
        while rem > 0 && !stop
            invariant
                kp == kept_id(keep),
                drop_oldest(self@.entries, kp, rem as nat) == target,
                stop ==> self@.entries == target,
                self.well_formed(),
                (self@.recording_enabled, self@.retention_generation) == flags,
            decreases rem + (if stop {
                0int
            } else {
                1int
            }),
        {
            let n = self.entries.len();
            proof {
                lemma_oldest_index(self@.entries, kp);
                assert(self@.entries.len() == n);
            }
            match self.oldest(keep) {
                None => {
                    stop = true;
                },
                Some(i) => {
                    let ghost cur = self@.entries;
                    proof {
                        lemma_unique_remove(cur, i as int);
                        assert(drop_oldest(cur, kp, rem as nat) == drop_oldest(
                            cur.remove(i as int),
                            kp,
                            (rem - 1) as nat,
                        ));
                    }
                    let _ = self.take(i);
                    rem -= 1;
                },
            }
        }
    }

    /// Moves a queued execution to running.
    pub fn mark_running(&mut self, id: &InvocationId) -> (r: Result<ExecutionSnapshot, String>)
        requires
            old(self).well_formed(),
        ensures
            final(self).well_formed(),
            same_flags(final(self)@, old(self)@),
            match index_of(old(self)@.entries, id@) {
                None => r matches Err(m) && m@ == "execution is no longer active"@ && final(self)@.entries == old(self)@.entries,
                Some(i) => {
                    let e = old(self)@.entries[i];
                    if terminal(e.snapshot.status) {
                        r matches Err(m) && m@ == "execution already reached a terminal state"@
                            && final(self)@.entries == old(self)@.entries
                    } else if e.snapshot.status != ExecutionStatus::Queued {
                        r matches Err(m) && m@ == "execution is not queued"@ && final(self)@.entries == old(self)@.entries
                    } else {
                        let e2 = with_status(e, ExecutionStatus::Running);
                        r matches Ok(s) && s@ == e2.snapshot && final(self)@.entries == old(self)@.entries.update(i, e2)
                    }
                },
            },
    {
        proof {
            lemma_index_of(self@.entries, id@);
        }
        let i = match self.find(id) {
            Some(i) => i,
            None => {
                return Err("execution is no longer active".to_owned());
            },
        };
        let ghost es = self@.entries;
        assert(es[i as int] == self.entries@[i as int]@);
        let status = self.entries[i].snapshot.status;
        if status.is_terminal() {
            return Err("execution already reached a terminal state".to_owned());
        }
        if status != ExecutionStatus::Queued {
            return Err("execution is not queued".to_owned());
        }
        let mut e = self.take(i);
        e.snapshot.status = ExecutionStatus::Running;
        e.snapshot.sequence = sat_inc_u64(e.snapshot.sequence);
        let shown = e.snapshot.clone();
        proof {
            lemma_restore(es, i as int, e@);
        }
        self.put(i, e);
        Ok(shown)
    }

    /// Moves an unfinished execution to cancelling; the new snapshot, or
    /// `None` when there is no such execution.
    pub fn mark_cancelling(&mut self, id: &InvocationId) -> (r: Option<ExecutionSnapshot>)
        requires
            old(self).well_formed(),
        ensures
            final(self).well_formed(),
            same_flags(final(self)@, old(self)@),
            match index_of(old(self)@.entries, id@) {
                Some(i) if !terminal(old(self)@.entries[i].snapshot.status) => {
                    let e2 = with_status(old(self)@.entries[i], ExecutionStatus::Cancelling);
                    r matches Some(s) && s@ == e2.snapshot && final(self)@.entries == old(self)@.entries.update(i, e2)
                },
                _ => r is None && final(self)@.entries == old(self)@.entries,
            },
    {
        proof {
            lemma_index_of(self@.entries, id@);
        }
        let i = match self.find(id) {
            Some(i) => i,
            None => {
                return None;
            },
        };
        let ghost es = self@.entries;
        assert(es[i as int] == self.entries@[i as int]@);
        if self.entries[i].snapshot.status.is_terminal() {
            return None;
        }
        let mut e = self.take(i);
        e.snapshot.status = ExecutionStatus::Cancelling;
        e.snapshot.sequence = sat_inc_u64(e.snapshot.sequence);
        let shown = e.snapshot.clone();
        proof {
            lemma_restore(es, i as int, e@);
        }
        self.put(i, e);
        Some(shown)
    }

    /// Stops storing the execution of `id`: it is no longer persisted and
    /// reads as not recorded. The new snapshot, or `None` when it is not kept.
    pub fn revoke_persistence(&mut self, id: &InvocationId) -> (r: Option<ExecutionSnapshot>)
        requires
            old(self).well_formed(),
        ensures
            final(self).well_formed(),
            same_flags(final(self)@, old(self)@),
            match index_of(old(self)@.entries, id@) {
                Some(i) => {
                    let e2 = revoked(old(self)@.entries[i]);
                    r matches Some(s) && s@ == e2.snapshot && final(self)@.entries == old(self)@.entries.update(i, e2)
                },
                None => r is None && final(self)@.entries == old(self)@.entries,
            },
    {
        proof {
            lemma_index_of(self@.entries, id@);
        }
        let i = match self.find(id) {
            Some(i) => i,
            None => {
                return None;
            },
        };
        let ghost es = self@.entries;
        let mut e = self.take(i);
        e.persist = false;
        e.snapshot.storage = StorageState::NotRecorded;
        e.snapshot.sequence = sat_inc_u64(e.snapshot.sequence);
        let shown = e.snapshot.clone();
        proof {
            lemma_restore(es, i as int, e@);
        }
        self.put(i, e);
        Some(shown)
    }

    /// Marks the output of `id` as not saved, after a failed write. The new
    /// snapshot, or `None` when it is not kept.
    pub fn mark_unsaved(&mut self, id: &InvocationId) -> (r: Option<ExecutionSnapshot>)
        requires
            old(self).well_formed(),
        ensures
            final(self).well_formed(),
            same_flags(final(self)@, old(self)@),
            match index_of(old(self)@.entries, id@) {
                Some(i) => {
                    let e2 = unsaved(old(self)@.entries[i]);
                    r matches Some(s) && s@ == e2.snapshot && final(self)@.entries == old(self)@.entries.update(i, e2)
                },
                None => r is None && final(self)@.entries == old(self)@.entries,
            },
    {
        proof {
            lemma_index_of(self@.entries, id@);
        }
        let i = match self.find(id) {
            Some(i) => i,
            None => {
                return None;
            },
        };
        let ghost es = self@.entries;
        let mut e = self.take(i);
        e.snapshot.storage = StorageState::Unsaved;
        e.snapshot.sequence = sat_inc_u64(e.snapshot.sequence);
        let shown = e.snapshot.clone();
        proof {
            lemma_restore(es, i as int, e@);
        }
        self.put(i, e);
        Some(shown)
    }

    /// Streams `delta` into the output of `id` at `now`. Says what is due:
    /// the snapshot to show, at most every `UI_FLUSH_MS`; the checkpoint to
    /// store, every `CHECKPOINT_MS` or `CHECKPOINT_BYTES`, and only while the
    /// execution is persisted and recording is on.
    pub fn append_text(&mut self, id: &InvocationId, delta: &str, now: u64) -> (r: Result<
        TextProgress,
        String,
    >)
        requires
            old(self).well_formed(),
        ensures
            final(self).well_formed(),
            same_flags(final(self)@, old(self)@),
            delta.len() == 0 ==> (r matches Ok(p) && p.show is None && p.store is None && final(self)@.entries == old(self)@.entries),
            delta.len() > 0 ==> (match index_of(old(self)@.entries, id@) {
                None => r matches Err(m) && m@ == "execution is no longer active"@ && final(self)@.entries == old(self)@.entries,
                Some(i) => {
                    let e = old(self)@.entries[i];
                    let e2 = appended(e, delta@, delta.len(), now);
                    if terminal(e.snapshot.status) {
                        r matches Err(m) && m@ == "execution already reached a terminal state"@
                            && final(self)@.entries == old(self)@.entries
                    } else {
                        &&& final(self)@.entries == old(self)@.entries.update(i, e2)
                        &&& r matches Ok(p)
                        &&& (if show_due(e, now) {
                            p.show matches Some(s) && s@ == e2.snapshot
                        } else {
                            p.show is None
                        })
                        &&& (if store_due(e, delta.len(), now) && e.persist && old(self)@.recording_enabled {
                            p.store matches Some(c) && checkpoint_view(c) == checkpoint_of(e2)
                        } else {
                            p.store is None
                        })
                    }
                },
            }),
    {
        if delta.len() == 0 {
            return Ok(TextProgress { show: None, store: None });
        }
        proof {
            lemma_index_of(self@.entries, id@);
        }
        let i = match self.find(id) {
            Some(i) => i,
            None => {
                return Err("execution is no longer active".to_owned());
            },
        };
        let ghost es = self@.entries;
        assert(es[i as int] == self.entries@[i as int]@);
        if self.entries[i].snapshot.status.is_terminal() {
            return Err("execution already reached a terminal state".to_owned());
        }
        let mut e = self.take(i);
        let ghost e0 = e@;
        e.snapshot.output = concat(e.snapshot.output.as_str(), delta);
        e.snapshot.sequence = sat_inc_u64(e.snapshot.sequence);
        e.snapshot.text_version = sat_inc_u64(e.snapshot.text_version);
        let n = delta.len();
        e.dirty_bytes = if e.dirty_bytes > usize::MAX - n {
            usize::MAX
        } else {
            e.dirty_bytes + n
        };
        let mut show = None;
        if elapsed_ms(now, e.last_ui_flush_ms) >= UI_FLUSH_MS {
            e.last_ui_flush_ms = now;
            show = Some(e.snapshot.clone());
        }
        let mut store = None;
        if elapsed_ms(now, e.last_checkpoint_ms) >= CHECKPOINT_MS || e.dirty_bytes
            >= CHECKPOINT_BYTES {
            e.last_checkpoint_ms = now;
            e.dirty_bytes = 0;
            if e.persist && self.recording_enabled {
                store = Some(e.checkpoint());
            }
        }
        proof {
            assert(e@ == appended(e0, delta@, n, now));
            lemma_restore(es, i as int, e@);
        }
        self.put(i, e);
        Ok(TextProgress { show, store })
    }

    /// Begins a terminal commit of `id` with `status` and `error`.
    pub fn begin_terminal(
        &mut self,
        id: &InvocationId,
        status: ExecutionStatus,
        error: Option<String>,
    ) -> (r: Result<TerminalStart, String>)
        requires
            old(self).well_formed(),
        ensures
            final(self).well_formed(),
            same_flags(final(self)@, old(self)@),
            !terminal(status) ==> (r matches Err(m) && m@
                == "terminal commit requires a terminal status"@ && final(self)@.entries == old(self)@.entries),
            terminal(status) ==> (match index_of(old(self)@.entries, id@) {
                None => r matches Err(m) && m@ == "execution is no longer active"@ && final(self)@.entries == old(self)@.entries,
                Some(i) => {
                    let t = old(self)@;
                    let e = t.entries[i];
                    let e2 = terminated(
                        e,
                        status,
                        crate::provider::opt_view(error),
                        t.recording_enabled,
                    );
                    if terminal(e.snapshot.status) {
                        r matches Ok(TerminalStart::Finished(s)) && s@ == e.snapshot && final(self)@.entries == t.entries
                    } else {
                        &&& final(self)@.entries == t.entries.update(i, e2)
                        &&& r matches Ok(TerminalStart::Pending { snapshot, checkpoint })
                        &&& snapshot@ == e2.snapshot
                        &&& (if e.persist && t.recording_enabled && e.snapshot.retention_generation
                            == t.retention_generation {
                            checkpoint matches Some(c) && checkpoint_view(c) == checkpoint_of(e2)
                        } else {
                            checkpoint is None
                        })
                    }
                },
            }),
    {
        if !status.is_terminal() {
            return Err("terminal commit requires a terminal status".to_owned());
        }
        proof {
            lemma_index_of(self@.entries, id@);
        }
        let i = match self.find(id) {
            Some(i) => i,
            None => {
                return Err("execution is no longer active".to_owned());
            },
        };
        let ghost es = self@.entries;
        assert(es[i as int] == self.entries@[i as int]@);
        if self.entries[i].snapshot.status.is_terminal() {
            let s = self.entries[i].snapshot.clone();
            return Ok(TerminalStart::Finished(s));
        }
        let mut e = self.take(i);
        e.snapshot.status = status;
        e.snapshot.error = error;
        e.snapshot.sequence = sat_inc_u64(e.snapshot.sequence);
        e.snapshot.storage = if self.recording_enabled {
            StorageState::Pending
        } else {
            StorageState::NotRecorded
        };
        let snapshot = e.snapshot.clone();
        let checkpoint = if e.persist && self.recording_enabled && e.snapshot.retention_generation
            == self.retention_generation {
            Some(e.checkpoint())
        } else {
            None
        };
        proof {
            lemma_restore(es, i as int, e@);
        }
        self.put(i, e);
        Ok(TerminalStart::Pending { snapshot, checkpoint })
    }

    /// Ends a terminal commit of `id` at `now` once its write came to
    /// `outcome`, then prunes, keeping `id`. The final snapshot.
    pub fn finish_terminal(&mut self, id: &InvocationId, outcome: WriteOutcome, now: u64) -> (r:
        Result<ExecutionSnapshot, String>)
        requires
            old(self).well_formed(),
        ensures
            final(self).well_formed(),
            same_flags(final(self)@, old(self)@),
            match index_of(old(self)@.entries, id@) {
                None => r matches Err(m) && m@
                    == "execution disappeared during terminal persistence"@ && final(self)@.entries == old(self)@.entries,
                Some(i) => {
                    let e2 = settled(old(self)@.entries[i], outcome, now);
                    r matches Ok(s) && s@ == e2.snapshot && final(self)@.entries == pruned(
                        old(self)@.entries.update(i, e2),
                        now,
                        Some(id@),
                    )
                },
            },
    {
        proof {
            lemma_index_of(self@.entries, id@);
        }
        let i = match self.find(id) {
            Some(i) => i,
            None => {
                return Err("execution disappeared during terminal persistence".to_owned());
            },
        };
        let ghost es = self@.entries;
        let mut e = self.take(i);
        e.snapshot.storage = match outcome {
            WriteOutcome::Skipped => StorageState::NotRecorded,
            WriteOutcome::Written => StorageState::Saved,
            WriteOutcome::Failed => StorageState::Unsaved,
        };
        e.snapshot.sequence = sat_inc_u64(e.snapshot.sequence);
        e.finished_at_ms = Some(now);
        let shown = e.snapshot.clone();
        proof {
            lemma_restore(es, i as int, e@);
        }
        self.put(i, e);
        self.prune(now, Some(id));
        Ok(shown)
    }

    /// Begins preserving the result of `id` at `now`, after a prune that
    /// keeps it.
    pub fn begin_favorite(&mut self, id: &InvocationId, now: u64) -> (r: Result<
        FavoriteStart,
        String,
    >)
        requires
            old(self).well_formed(),
        ensures
            final(self).well_formed(),
            same_flags(final(self)@, old(self)@),
            ({
                let t = old(self)@;
                let es = pruned(t.entries, now, Some(id@));
                match index_of(es, id@) {
                    None => r matches Ok(FavoriteStart::Missing) && final(self)@.entries == es,
                    Some(i) => {
                        let e = es[i];
                        if !terminal(e.snapshot.status) {
                            r matches Err(m) && m@
                                == "wait for the execution to finish before preserving it"@
                                && final(self)@.entries == es
                        } else if e.snapshot.storage == StorageState::Saved {
                            r matches Ok(FavoriteStart::AlreadySaved) && final(self)@.entries == es
                        } else {
                            let e2 = favored(e, t.retention_generation);
                            &&& final(self)@.entries == es.update(i, e2)
                            &&& r matches Ok(FavoriteStart::Persist { checkpoint, snapshot })
                            &&& checkpoint_view(checkpoint) == checkpoint_of(e2)
                            &&& snapshot@ == e2.snapshot
                        }
                    },
                }
            }),
    {
        self.prune(now, Some(id));
        proof {
            lemma_index_of(self@.entries, id@);
        }
        let i = match self.find(id) {
            Some(i) => i,
            None => {
                return Ok(FavoriteStart::Missing);
            },
        };
        let ghost es = self@.entries;
        assert(es[i as int] == self.entries@[i as int]@);
        if !self.entries[i].snapshot.status.is_terminal() {
            return Err("wait for the execution to finish before preserving it".to_owned());
        }
        if self.entries[i].snapshot.storage == StorageState::Saved {
            return Ok(FavoriteStart::AlreadySaved);
        }
        let mut e = self.take(i);
        e.snapshot.retention_generation = self.retention_generation;
        e.snapshot.storage = StorageState::Pending;
        e.snapshot.sequence = sat_inc_u64(e.snapshot.sequence);
        let checkpoint = e.checkpoint();
        let snapshot = e.snapshot.clone();
        proof {
            lemma_restore(es, i as int, e@);
        }
        self.put(i, e);
        Ok(FavoriteStart::Persist { checkpoint, snapshot })
    }

    /// Ends preserving the result of `id` at `now`, once its write was made
    /// or failed, then prunes, keeping `id`. The snapshot to show, when it
    /// is kept.
    pub fn finish_favorite(&mut self, id: &InvocationId, written: bool, now: u64) -> (r: Option<
        ExecutionSnapshot,
    >)
        requires
            old(self).well_formed(),
        ensures
            final(self).well_formed(),
            same_flags(final(self)@, old(self)@),
            match index_of(old(self)@.entries, id@) {
                None => r is None && final(self)@.entries == pruned(
                    old(self)@.entries,
                    now,
                    Some(id@),
                ),
                Some(i) => {
                    let e2 = favorite_written(old(self)@.entries[i], written);
                    r matches Some(s) && s@ == e2.snapshot && final(self)@.entries == pruned(
                        old(self)@.entries.update(i, e2),
                        now,
                        Some(id@),
                    )
                },
            },
    {
        proof {
            lemma_index_of(self@.entries, id@);
        }
        let i = match self.find(id) {
            Some(i) => i,
            None => {
                self.prune(now, Some(id));
                return None;
            },
        };
        let ghost es = self@.entries;
        let mut e = self.take(i);
        e.snapshot.storage = if written {
            StorageState::Saved
        } else {
            StorageState::Unsaved
        };
        e.snapshot.sequence = sat_inc_u64(e.snapshot.sequence);
        let shown = e.snapshot.clone();
        proof {
            lemma_restore(es, i as int, e@);
        }
        self.put(i, e);
        self.prune(now, Some(id));
        Some(shown)
    }

    /// Starts an execution at `now`, after a prune: queued, one sequence
    /// in, stored while recording is on. Its first snapshot, and the
    /// checkpoint to write when recording is on.
    pub fn start(&mut self, start: ExecutionStart, now: u64) -> (r: (
        ExecutionSnapshot,
        Option<ExecutionCheckpoint>,
    ))
        requires
            old(self).well_formed(),
        ensures
            final(self).well_formed(),
            same_flags(final(self)@, old(self)@),
            ({
                let t = old(self)@;
                let e = started(start, t.recording_enabled, t.retention_generation, now);
                &&& final(self)@.entries == placed(pruned(t.entries, now, None), e)
                &&& r.0@ == e.snapshot
                &&& if t.recording_enabled {
                    r.1 matches Some(c) && checkpoint_view(c) == checkpoint_of(e)
                } else {
                    r.1 is None
                }
            }),
    {
        let ghost st = start;
        self.prune(now, None);
        let recording = self.recording_enabled;
        let snapshot = ExecutionSnapshot {
            invocation_id: start.invocation_id,
            plugin_id: start.plugin_id,
            plugin_generation: start.plugin_generation,
            conversation_id: start.conversation_id,
            user_message_id: start.user_message_id,
            assistant_message_id: start.assistant_message_id,
            provider_id: start.provider_id,
            model_id: start.model_id,
            sequence: 1,
            text_version: 0,
            status: ExecutionStatus::Queued,
            output: String::new(),
            error: None,
            storage: if recording {
                StorageState::Pending
            } else {
                StorageState::NotRecorded
            },
            retention_generation: self.retention_generation,
        };
        let e = ExecutionEntry {
            snapshot: snapshot.clone(),
            input: start.input,
            conversation_title: start.conversation_title,
            user_ordinal: start.user_ordinal,
            assistant_ordinal: start.assistant_ordinal,
            dirty_bytes: 0,
            last_ui_flush_ms: if now >= UI_FLUSH_MS {
                now - UI_FLUSH_MS
            } else {
                now
            },
            last_checkpoint_ms: now,
            finished_at_ms: None,
            persist: recording,
        };
        assert(e@ == started(st, recording, self@.retention_generation, now));
        let checkpoint = if recording {
            Some(e.checkpoint())
        } else {
            None
        };
        let ghost es = self@.entries;
        proof {
            lemma_index_of(es, e@.snapshot.invocation_id);
        }
        match self.find(&e.snapshot.invocation_id) {
            Some(i) => {
                let _ = self.take(i);
                proof {
                    lemma_restore(es, i as int, e@);
                }
                self.put(i, e);
            },
            None => {
                let ghost ev = e@;
                let n = self.entries.len();
                self.put(n, e);
                proof {
                    assert(es.insert(n as int, ev) =~= es.push(ev));
                    assert forall|a: int, b: int|
                        0 <= a < self@.entries.len() && 0 <= b < self@.entries.len() && a
                            != b implies self@.entries[a].snapshot.invocation_id
                        != self@.entries[b].snapshot.invocation_id by {
                        if a < es.len() && b < es.len() {
                            assert(self@.entries[a] == es[a]);
                            assert(self@.entries[b] == es[b]);
                        }
                    }
                }
            },
        }
        (snapshot, checkpoint)
    }

    /// Advances the retention generation: unfinished executions are no
    /// longer persisted and read as not recorded. The new generation,
    /// saturating, and the snapshots to show.
    pub fn advance_retention_generation(&mut self) -> (r: (u64, Vec<ExecutionSnapshot>))
        requires
            old(self).well_formed(),
        ensures
            final(self).well_formed(),
            final(self)@.recording_enabled == old(self)@.recording_enabled,
            final(self)@.retention_generation == next_generation(old(self)@.retention_generation),
            r.0 == reported_generation(old(self)@.retention_generation),
            final(self)@.entries == old(self)@.entries.map_values(|e: EntryView| advanced(e)),
            snapshots_view(r.1@) == revocations(old(self)@.entries),
    {
        let ghost es = self@.entries;
        let ghost f = |e: EntryView| advanced(e);
        let g = self.retention_generation;
        self.retention_generation = if g == u64::MAX {
            0
        } else {
            g + 1
        };
        let reported = sat_inc_u64(g);
        let mut notes: Vec<ExecutionSnapshot> = Vec::new();
        let mut i: usize = 0;
        assert(es.take(0) =~= Seq::<EntryView>::empty());
        assert(snapshots_view(notes@) =~= Seq::<SnapshotView>::empty());
        while i < self.entries.len()
            invariant
                i <= self.entries.len(),
                es.len() == self.entries@.len(),
                f == (|e: EntryView| advanced(e)),
                self@.entries =~= es.take(i as int).map_values(f) + es.skip(i as int),
                snapshots_view(notes@) == revocations(es.take(i as int)),
                forall|k: int| 0 <= k < es.len() ==> #[trigger] self@.entries[k].snapshot.invocation_id == es[k].snapshot.invocation_id,
                ids_unique(es),
                self@.recording_enabled == old(self)@.recording_enabled,
                self@.retention_generation == next_generation(old(self)@.retention_generation),
            decreases self.entries.len() - i,
        {
            let ghost before = self@.entries;
            proof {
                assert(es.take(i + 1) =~= es.take(i as int).push(es[i as int]));
                assert(es.take(i + 1).drop_last() =~= es.take(i as int));
                assert(before[i as int] == es[i as int]);
                assert(before[i as int] == self.entries@[i as int]@);
            }
            if !self.entries[i].snapshot.status.is_terminal() {
                let mut e = self.take(i);
                e.persist = false;
                e.snapshot.storage = StorageState::NotRecorded;
                e.snapshot.sequence = sat_inc_u64(e.snapshot.sequence);
                let shown = e.snapshot.clone();
                assert(before.remove(i as int).insert(i as int, e@) =~= before.update(i as int, e@));
                self.put(i, e);
                let ghost nv = notes@;
                notes.push(shown);
                proof {
                    assert(snapshots_view(notes@) =~= snapshots_view(nv).push(shown@));
                }
            }
            proof {
                assert(self@.entries =~= es.take(i + 1).map_values(f) + es.skip(i + 1));
            }
            i += 1;
        }
        proof {
            assert(es.take(i as int) =~= es);
            assert(es.skip(i as int) =~= Seq::<EntryView>::empty());
            assert forall|a: int, b: int|
                0 <= a < self@.entries.len() && 0 <= b < self@.entries.len() && a
                    != b implies self@.entries[a].snapshot.invocation_id
                != self@.entries[b].snapshot.invocation_id by {
                assert(self@.entries[a].snapshot.invocation_id == es[a].snapshot.invocation_id);
                assert(self@.entries[b].snapshot.invocation_id == es[b].snapshot.invocation_id);
            }
        }
        (reported, notes)
    }

    /// Turns recording on or off; turning it off advances the retention
    /// generation, whose result it returns.
    pub fn set_recording_enabled(&mut self, enabled: bool) -> (r: Option<(u64, Vec<ExecutionSnapshot>)>)
        requires
            old(self).well_formed(),
        ensures
            final(self).well_formed(),
            final(self)@.recording_enabled == enabled,
            enabled ==> r is None && final(self)@.entries == old(self)@.entries
                && final(self)@.retention_generation == old(self)@.retention_generation,
            !enabled ==> (r matches Some((g, notes)) && g == reported_generation(
                old(self)@.retention_generation,
            ) && snapshots_view(notes@) == revocations(old(self)@.entries)
                && final(self)@.retention_generation == next_generation(
                old(self)@.retention_generation,
            ) && final(self)@.entries == old(self)@.entries.map_values(
                |e: EntryView| advanced(e),
            )),
    {
        self.recording_enabled = enabled;
        if enabled {
            None
        } else {
            Some(self.advance_retention_generation())
        }
    }

    /// The latest snapshot of `id`, if it is kept.
    pub fn snapshot(&self, id: &InvocationId) -> (r: Option<ExecutionSnapshot>)
        ensures
            match index_of(self@.entries, id@) {
                Some(i) => r matches Some(s) && s@ == self@.entries[i].snapshot,
                None => r is None,
            },
    {
        proof {
            lemma_index_of(self@.entries, id@);
        }
        match self.find(id) {
            Some(i) => {
                assert(self@.entries[i as int] == self.entries@[i as int]@);
                let s = self.entries[i].snapshot.clone();
                assert(s@ == self@.entries[i as int].snapshot);
                Some(s)
            },
            None => None,
        }
    }

    /// How many executions have not finished.
    pub fn active_count(&self) -> (r: usize)
        ensures
            r == self@.entries.filter(|e: EntryView| !terminal(e.snapshot.status)).len(),
    {
        let ghost es = self@.entries;
        let ghost p = |e: EntryView| !terminal(e.snapshot.status);
        let mut n: usize = 0;
        let mut i: usize = 0;
        assert(es.take(0) =~= Seq::<EntryView>::empty());
        while i < self.entries.len()
            invariant
                i <= self.entries.len(),
                es == self@.entries,
                es.len() == self.entries@.len(),
                p == (|e: EntryView| !terminal(e.snapshot.status)),
                n == es.take(i as int).filter(p).len(),
                n <= i,
            decreases self.entries.len() - i,
        {
            proof {
                assert(es.take(i + 1) =~= es.take(i as int).push(es[i as int]));
                es.take(i as int).lemma_filter_push(es[i as int], p);
                assert(es[i as int] == self.entries@[i as int]@);
            }
            let done = self.entries[i].snapshot.status.is_terminal();
            assert(es[i as int].snapshot.status == self.entries@[i as int].snapshot.status);
            if !done {
                n += 1;
            }
            i += 1;
        }
        assert(es.take(i as int) =~= es);
        n
    }
}

} // verus!
