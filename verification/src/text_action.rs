//! The state a text action's surface shows: its input, the streamed output,
//! the run's status line, and whether it can be stopped. Runs, observers and
//! subscribers are the caller's; each operation here says what to publish
//! and what to cancel.
use vstd::prelude::*;

use crate::actions::{ActionError, ActionInputSource, ActionResult};
use crate::context::InputSource;
use crate::execution::{terminal, ExecutionSnapshot, ExecutionStatus, StorageState};
use crate::ids::InvocationId;
use crate::plugin::QualifiedActionId;
use crate::records::{TextActionError, TextActionSnapshot};
use crate::settings::DismissPolicy;
use crate::text::{copy_string, str_eq, trim, trim_str};

verus! {

/// The text of an optional invocation ID.
pub open spec fn id_text(id: Option<InvocationId>) -> Option<Seq<char>> {
    match id {
        Some(i) => Some(i@),
        None => None,
    }
}

/// Copies an optional invocation ID.
fn copy_id(id: &Option<InvocationId>) -> (r: Option<InvocationId>)
    ensures
        id_text(r) == id_text(*id),
{
    match id {
        Some(i) => Some(i.clone()),
        None => None,
    }
}

/// The model of what a text action's surface shows.
pub struct ShownView {
    pub action: (Seq<char>, Seq<char>),
    pub input: Seq<char>,
    pub output: Seq<char>,
    pub status: ExecutionStatus,
    pub invocation_id: Option<Seq<char>>,
    pub active_invocation: Option<Seq<char>>,
    pub generation: u64,
    pub status_text: Seq<char>,
    pub storage: StorageState,
}

/// The model of a text action snapshot.
pub open spec fn shown_view(s: TextActionSnapshot) -> ShownView {
    ShownView {
        action: s.action@,
        input: s.input@,
        output: s.output@,
        status: s.status,
        invocation_id: id_text(s.invocation_id),
        active_invocation: id_text(s.active_invocation),
        generation: s.generation,
        status_text: s.status_text@,
        storage: s.storage,
    }
}

/// The model of a text action's state: what it shows, the last run
/// sequence it applied, whether a run is starting, whether the surface
/// is visible, and whether the action runs a script.
pub struct TextStateView {
    pub shown: ShownView,
    pub last_sequence: u64,
    pub starting: bool,
    pub visible: bool,
    pub script: bool,
}

/// The state of one text action's surface.
pub struct TextActionState {
    action: QualifiedActionId,
    input: String,
    output: String,
    status: ExecutionStatus,
    invocation_id: Option<InvocationId>,
    active_invocation: Option<InvocationId>,
    last_sequence: u64,
    generation: u64,
    status_text: String,
    storage: StorageState,
    starting: bool,
    visible: bool,
    script: bool,
}

impl View for TextActionState {
    type V = TextStateView;

    closed spec fn view(&self) -> TextStateView {
        TextStateView {
            shown: ShownView {
                action: self.action@,
                input: self.input@,
                output: self.output@,
                status: self.status,
                invocation_id: id_text(self.invocation_id),
                active_invocation: id_text(self.active_invocation),
                generation: self.generation,
                status_text: self.status_text@,
                storage: self.storage,
            },
            last_sequence: self.last_sequence,
            starting: self.starting,
            visible: self.visible,
            script: self.script,
        }
    }
}

/// One more, saturating.
pub open spec fn bumped(g: u64) -> u64 {
    if g == u64::MAX {
        g
    } else {
        (g + 1) as u64
    }
}

/// `v` published: one generation on.
pub open spec fn published(v: TextStateView) -> TextStateView {
    TextStateView { shown: ShownView { generation: bumped(v.shown.generation), ..v.shown }, ..v }
}

/// What publishing `v` sends: its snapshot, when the surface is visible.
pub open spec fn sent(v: TextStateView, r: Option<TextActionSnapshot>) -> bool {
    if v.visible {
        r matches Some(s) && shown_view(s) == v.shown
    } else {
        r is None
    }
}

/// The status line of a run in `status`, stored as `storage`, with `error`;
/// a running script says so.
pub open spec fn status_line(status: ExecutionStatus, storage: StorageState, error: Option<Seq<char>>, script: bool) -> Seq<
    char,
> {
    match status {
        ExecutionStatus::Queued => "Queued"@,
        ExecutionStatus::Running => if script {
            "Running script…"@
        } else {
            "Generating…"@
        },
        ExecutionStatus::Cancelling => "Stopping…"@,
        ExecutionStatus::Completed => if storage == StorageState::Pending {
            "Complete · saving…"@
        } else {
            "Complete"@
        },
        ExecutionStatus::Cancelled => "Stopped · partial result kept"@,
        _ => match error {
            Some(e) => e,
            None => "Failed · partial result kept"@,
        },
    }
}

/// The status line of a run in `status`, stored as `storage`, with `error`.
fn status_line_text(status: ExecutionStatus, storage: StorageState, error: &Option<String>, script: bool) -> (r:
    String)
    ensures
        r@ == status_line(status, storage, crate::provider::opt_view(*error), script),
{
    match status {
        ExecutionStatus::Queued => "Queued".to_owned(),
        ExecutionStatus::Running => if script {
            "Running script…".to_owned()
        } else {
            "Generating…".to_owned()
        },
        ExecutionStatus::Cancelling => "Stopping…".to_owned(),
        ExecutionStatus::Completed => if storage == StorageState::Pending {
            "Complete · saving…".to_owned()
        } else {
            "Complete".to_owned()
        },
        ExecutionStatus::Cancelled => "Stopped · partial result kept".to_owned(),
        _ => match error {
            Some(e) => copy_string(e),
            None => "Failed · partial result kept".to_owned(),
        },
    }
}

/// The action input source a request's source counts as: a candidate is a
/// selection.
pub open spec fn source_of(source: InputSource) -> ActionInputSource {
    match source {
        InputSource::Selection => ActionInputSource::Selection,
        InputSource::Candidate => ActionInputSource::Selection,
        InputSource::Manual => ActionInputSource::Manual,
        InputSource::Clipboard => ActionInputSource::Clipboard,
    }
}

/// The action input source a request's source counts as.
pub fn action_source(source: InputSource) -> (r: ActionInputSource)
    ensures
        r == source_of(source),
{
    match source {
        InputSource::Selection | InputSource::Candidate => ActionInputSource::Selection,
        InputSource::Manual => ActionInputSource::Manual,
        InputSource::Clipboard => ActionInputSource::Clipboard,
    }
}

/// Whether `sources` holds `s`.
fn allows(sources: &Vec<ActionInputSource>, s: ActionInputSource) -> (r: bool)
    ensures
        r == sources@.contains(s),
{
    let mut i: usize = 0;
    while i < sources.len()
        invariant
            i <= sources.len(),
            forall|j: int| 0 <= j < i ==> sources@[j] != s,
        decreases sources.len() - i,
    {
        if sources[i] == s {
            return true;
        }
        i += 1;
    }
    false
}

/// The dismiss policy in force: the settings' override, else the action's.
pub fn resolved_dismiss_policy(over: Option<DismissPolicy>, definition: DismissPolicy) -> (r:
    DismissPolicy)
    ensures
        r == match over {
            Some(p) => p,
            None => definition,
        },
{
    match over {
        Some(p) => p,
        None => definition,
    }
}

/// What a finished run gives its caller: the output when it completed,
/// cancellation when it was cancelled, otherwise its error or `request
/// failed`.
pub fn run_outcome(snapshot: &ExecutionSnapshot) -> (r: Result<ActionResult, ActionError>)
    ensures
        snapshot.status == ExecutionStatus::Completed ==> (r matches Ok(x) && x.output@
            == snapshot.output@),
        snapshot.status == ExecutionStatus::Cancelled ==> r matches Err(ActionError::Cancelled),
        snapshot.status != ExecutionStatus::Completed && snapshot.status
            != ExecutionStatus::Cancelled ==> (r matches Err(ActionError::Failed(m)) && m@ == match snapshot.error {
            Some(e) => e@,
            None => "request failed"@,
        }),
{
    match snapshot.status {
        ExecutionStatus::Completed => Ok(ActionResult { output: copy_string(&snapshot.output) }),
        ExecutionStatus::Cancelled => Err(ActionError::Cancelled),
        _ => Err(
            ActionError::Failed(
                match &snapshot.error {
                    Some(e) => copy_string(e),
                    None => "request failed".to_owned(),
                },
            ),
        ),
    }
}

impl TextActionState {
    /// The state of `action` before any run: ready, completed and saved,
    /// hidden. A `script` action says so while it runs.
    pub fn new(action: QualifiedActionId, script: bool) -> (r: Self)
        ensures
            r@ == (TextStateView {
                shown: ShownView {
                    action: action@,
                    input: Seq::empty(),
                    output: Seq::empty(),
                    status: ExecutionStatus::Completed,
                    invocation_id: None,
                    active_invocation: None,
                    generation: 0,
                    status_text: "Ready"@,
                    storage: StorageState::Saved,
                },
                last_sequence: 0,
                starting: false,
                visible: false,
                script,
            }),
    {
        TextActionState {
            action,
            input: String::new(),
            output: String::new(),
            status: ExecutionStatus::Completed,
            invocation_id: None,
            active_invocation: None,
            last_sequence: 0,
            generation: 0,
            status_text: "Ready".to_owned(),
            storage: StorageState::Saved,
            starting: false,
            visible: false,
            script,
        }
    }

    /// What the surface shows.
    pub fn snapshot(&self) -> (r: TextActionSnapshot)
        ensures
            shown_view(r) == self@.shown,
    {
        TextActionSnapshot {
            action: self.action.clone(),
            input: copy_string(&self.input),
            output: copy_string(&self.output),
            status: self.status,
            invocation_id: copy_id(&self.invocation_id),
            active_invocation: copy_id(&self.active_invocation),
            generation: self.generation,
            status_text: copy_string(&self.status_text),
            storage: self.storage,
        }
    }

    /// Moves one generation on; the snapshot to send when the surface is
    /// visible.
    fn publish(&mut self) -> (r: Option<TextActionSnapshot>)
        ensures
            final(self)@ == published(old(self)@),
            sent(final(self)@, r),
    {
        self.generation = if self.generation == u64::MAX {
            self.generation
        } else {
            self.generation + 1
        };
        if self.visible {
            Some(self.snapshot())
        } else {
            None
        }
    }

    /// Starts a run on `input` from `source`, which `allowed` must hold:
    /// the trimmed input and the snapshot to send. Refused for empty input,
    /// a source the action does not take, or a run already under way.
    pub fn begin(
        &mut self,
        input: &str,
        source: InputSource,
        allowed: &Vec<ActionInputSource>,
    ) -> (r: Result<(String, Option<TextActionSnapshot>), ActionError>)
        ensures
            trim(input@).len() == 0 ==> (r matches Err(ActionError::Failed(m)) && m@
                == "input is empty"@ && final(self)@ == old(self)@),
            trim(input@).len() > 0 && !allowed@.contains(source_of(source)) ==> (r matches Err(
                ActionError::Failed(m),
            ) && m@ == "this action does not allow the selected input source"@ && final(self)@
                == old(self)@),
            trim(input@).len() > 0 && allowed@.contains(source_of(source)) && (old(self)@.starting
                || old(self)@.shown.active_invocation is Some) ==> (r matches Err(
                ActionError::Failed(m),
            ) && m@ == "the action is already running"@ && final(self)@ == old(self)@),
            trim(input@).len() > 0 && allowed@.contains(source_of(source)) && !old(self)@.starting
                && old(self)@.shown.active_invocation is None ==> ({
                let v = old(self)@;
                let next = published(
                    TextStateView {
                        shown: ShownView {
                            input: trim(input@),
                            output: Seq::empty(),
                            status: ExecutionStatus::Queued,
                            status_text: "Starting…"@,
                            storage: StorageState::Pending,
                            ..v.shown
                        },
                        last_sequence: 0,
                        starting: true,
                        ..v
                    },
                );
                &&& final(self)@ == next
                &&& r matches Ok((t, s)) && t@ == trim(input@) && sent(next, s)
            }),
    {
        let text = trim_str(input);
        if text.as_str().is_empty() {
            return Err(ActionError::Failed("input is empty".to_owned()));
        }
        if !allows(allowed, action_source(source)) {
            return Err(
                ActionError::Failed("this action does not allow the selected input source".to_owned()),
            );
        }
        if self.starting || self.active_invocation.is_some() {
            return Err(ActionError::Failed(TextActionError::Busy.to_string()));
        }
        self.input = copy_string(&text);
        self.output = String::new();
        self.status = ExecutionStatus::Queued;
        self.status_text = "Starting…".to_owned();
        self.storage = StorageState::Pending;
        self.last_sequence = 0;
        self.starting = true;
        let sent = self.publish();
        Ok((text, sent))
    }

    /// A run could not start: the state fails with `message`. The snapshot
    /// to send.
    pub fn start_failed(&mut self, message: &str) -> (r: Option<TextActionSnapshot>)
        ensures
            final(self)@ == published(
                TextStateView {
                    shown: ShownView {
                        status: ExecutionStatus::Failed,
                        status_text: message@,
                        ..old(self)@.shown
                    },
                    starting: false,
                    ..old(self)@
                },
            ),
            sent(final(self)@, r),
    {
        self.starting = false;
        self.status = ExecutionStatus::Failed;
        self.status_text = message.to_owned();
        self.publish()
    }

    /// Applies a run's snapshot, when it is of this action's plugin and
    /// newer than the last applied. The snapshot to send.
    pub fn observe(&mut self, snapshot: &ExecutionSnapshot) -> (r: Option<TextActionSnapshot>)
        ensures
            ({
                let v = old(self)@;
                let s = snapshot@;
                if s.plugin_id == v.shown.action.0 && s.sequence > v.last_sequence {
                    let next = published(
                        TextStateView {
                            shown: ShownView {
                                invocation_id: Some(s.invocation_id),
                                active_invocation: if terminal(s.status) {
                                    None
                                } else {
                                    Some(s.invocation_id)
                                },
                                output: s.output,
                                status: s.status,
                                storage: s.storage,
                                status_text: status_line(s.status, s.storage, s.error, v.script),
                                ..v.shown
                            },
                            last_sequence: s.sequence,
                            starting: false,
                            ..v
                        },
                    );
                    final(self)@ == next && sent(next, r)
                } else {
                    final(self)@ == v && r is None
                }
            }),
    {
        if !str_eq(snapshot.plugin_id.as_str(), self.action.plugin_id().as_str())
            || snapshot.sequence <= self.last_sequence {
            return None;
        }
        self.last_sequence = snapshot.sequence;
        self.starting = false;
        self.invocation_id = Some(snapshot.invocation_id.clone());
        self.active_invocation = if snapshot.status.is_terminal() {
            None
        } else {
            Some(snapshot.invocation_id.clone())
        };
        self.output = copy_string(&snapshot.output);
        self.status = snapshot.status;
        self.storage = snapshot.storage;
        self.status_text = status_line_text(snapshot.status, snapshot.storage, &snapshot.error, self.script);
        self.publish()
    }

    /// Shows or hides the surface under the dismiss `policy`: the snapshot
    /// to send when it becomes visible, and the run to cancel when it is
    /// hidden while its policy cancels.
    pub fn set_visible(&mut self, visible: bool, policy: DismissPolicy) -> (r: (
        Option<TextActionSnapshot>,
        Option<InvocationId>,
    ))
        ensures
            final(self)@ == (TextStateView { visible, ..old(self)@ }),
            sent(final(self)@, r.0),
            id_text(r.1) == (if !visible && policy == DismissPolicy::Cancel {
                old(self)@.shown.active_invocation
            } else {
                None
            }),
    {
        self.visible = visible;
        let shown = if visible {
            Some(self.snapshot())
        } else {
            None
        };
        let cancel = if !visible && policy == DismissPolicy::Cancel {
            copy_id(&self.active_invocation)
        } else {
            None
        };
        (shown, cancel)
    }

    /// The run to cancel when the user stops the action.
    pub fn stop(&self) -> (r: Result<InvocationId, TextActionError>)
        ensures
            match self@.shown.active_invocation {
                Some(id) => r matches Ok(x) && x@ == id,
                None => r matches Err(TextActionError::NotRunning),
            },
    {
        match &self.active_invocation {
            Some(id) => Ok(id.clone()),
            None => Err(TextActionError::NotRunning),
        }
    }
}

} // verus!
