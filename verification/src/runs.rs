//! The chat runs under way: one at a time per conversation, none once the
//! host shuts down, and how a run's reply ends its execution. Waiting for a
//! concurrency permit, calling the provider and cancelling tokens are the
//! caller's work.
use vstd::prelude::*;

use crate::chat::ChatModelPreference;
use crate::execution::ExecutionStatus;
use crate::ids::{ConversationId, InvocationId};
use crate::provider::{ProviderError, ProviderErrorView};
use crate::provider_registry::{resolved, ProviderRegistry};
use crate::records::ChatRunError;
use crate::text::str_eq;

verus! {

/// The model of the runs under way: each run's invocation and
/// conversation, and whether the host is shutting down.
pub struct RunsView {
    pub runs: Seq<(Seq<char>, Seq<char>)>,
    pub closing: bool,
}

/// The chat runs under way.
pub struct ActiveRuns {
    runs: Vec<(InvocationId, ConversationId)>,
    closing: bool,
}

impl View for ActiveRuns {
    type V = RunsView;

    closed spec fn view(&self) -> RunsView {
        RunsView { runs: self.runs@.map_values(|r: (InvocationId, ConversationId)| (r.0@, r.1@)), closing: self.closing }
    }
}

/// Whether a run of the conversation `c` is under way.
pub open spec fn conversation_busy(runs: Seq<(Seq<char>, Seq<char>)>, c: Seq<char>) -> bool {
    exists|k: int| 0 <= k < runs.len() && (#[trigger] runs[k]).1 == c
}

/// Whether the run `i` is under way.
pub open spec fn running(runs: Seq<(Seq<char>, Seq<char>)>, i: Seq<char>) -> bool {
    exists|k: int| 0 <= k < runs.len() && (#[trigger] runs[k]).0 == i
}

/// The runs other than `i`, in order.
pub open spec fn runs_without(runs: Seq<(Seq<char>, Seq<char>)>, i: Seq<char>) -> Seq<(Seq<char>, Seq<char>)> {
    runs.filter(|r: (Seq<char>, Seq<char>)| r.0 != i)
}

/// Whether no two runs share a conversation.
pub open spec fn one_per_conversation(runs: Seq<(Seq<char>, Seq<char>)>) -> bool {
    forall|j: int, k: int| 0 <= j < k < runs.len() ==> (#[trigger] runs[j]).1 != (#[trigger] runs[k]).1
}

proof fn lemma_without_keeps_one_per_conversation(runs: Seq<(Seq<char>, Seq<char>)>, i: Seq<char>)
    requires
        one_per_conversation(runs),
    ensures
        one_per_conversation(runs_without(runs, i)),
        forall|c: Seq<char>| conversation_busy(runs_without(runs, i), c) ==> conversation_busy(runs, c),
    decreases runs.len(),
{
    reveal(Seq::filter);
    if runs.len() > 0 {
        let t = runs.drop_last();
        assert(one_per_conversation(t)) by {
            assert forall|j: int, k: int| 0 <= j < k < t.len() implies (#[trigger] t[j]).1 != (#[trigger] t[k]).1 by {
                assert(t[j] == runs[j] && t[k] == runs[k]);
            }
        }
        lemma_without_keeps_one_per_conversation(t, i);
        let w = runs_without(t, i);
        let x = runs.last();
        assert(runs_without(runs, i) == if x.0 != i { w.push(x) } else { w });
        assert forall|c: Seq<char>| conversation_busy(t, c) implies conversation_busy(runs, c) by {
            let k = choose|k: int| 0 <= k < t.len() && (#[trigger] t[k]).1 == c;
            assert(runs[k] == t[k]);
        }
        if x.0 != i {
            let v = w.push(x);
            assert forall|c: Seq<char>| conversation_busy(v, c) implies conversation_busy(runs, c) by {
                let k = choose|k: int| 0 <= k < v.len() && (#[trigger] v[k]).1 == c;
                if k == w.len() {
                    assert(runs[runs.len() - 1] == x);
                } else {
                    assert(v[k] == w[k]);
                    assert(conversation_busy(w, c));
                }
            }
            assert forall|j: int, k: int| 0 <= j < k < v.len() implies (#[trigger] v[j]).1 != (#[trigger] v[k]).1 by {
                if k == w.len() {
                    assert(v[j] == w[j]);
                    if w[j].1 == x.1 {
                        assert(conversation_busy(w, x.1));
                        assert(conversation_busy(t, x.1));
                        let m = choose|m: int| 0 <= m < t.len() && (#[trigger] t[m]).1 == x.1;
                        assert(runs[m] == t[m]);
                        assert(runs[runs.len() - 1] == x);
                    }
                } else {
                    assert(v[j] == w[j] && v[k] == w[k]);
                }
            }
        }
    } else {
        assert(runs_without(runs, i) =~= Seq::<(Seq<char>, Seq<char>)>::empty());
    }
}

/// Runs stay one per conversation: starting a run of a conversation that
/// has none keeps it so, and so does ending any run.
pub proof fn runs_stay_one_per_conversation(
    runs: Seq<(Seq<char>, Seq<char>)>,
    id: Seq<char>,
    conversation: Seq<char>,
)
    requires
        one_per_conversation(runs),
    ensures
        !conversation_busy(runs, conversation) ==> one_per_conversation(runs.push((id, conversation))),
        one_per_conversation(runs_without(runs, id)),
{
    lemma_without_keeps_one_per_conversation(runs, id);
    if !conversation_busy(runs, conversation) {
        let v = runs.push((id, conversation));
        assert forall|j: int, k: int| 0 <= j < k < v.len() implies (#[trigger] v[j]).1 != (#[trigger] v[k]).1 by {
            assert(v[j] == runs[j]);
            if k < runs.len() {
                assert(v[k] == runs[k]);
            }
        }
    }
}

impl ActiveRuns {
    /// No run, not shutting down.
    pub fn new() -> (r: Self)
        ensures
            r@ == (RunsView { runs: Seq::empty(), closing: false }),
    {
        let r = ActiveRuns { runs: Vec::new(), closing: false };
        assert(r@.runs =~= Seq::<(Seq<char>, Seq<char>)>::empty());
        r
    }

    /// Whether no run is under way.
    pub fn is_idle(&self) -> (r: bool)
        ensures
            r == (self@.runs.len() == 0),
    {
        self.runs.len() == 0
    }

    /// Whether the run `id` is under way.
    pub fn is_running(&self, id: &InvocationId) -> (r: bool)
        ensures
            r == running(self@.runs, id@),
    {
        let ghost rs = self@.runs;
        let mut k: usize = 0;
        while k < self.runs.len()
            invariant
                k <= self.runs.len(),
                rs == self@.runs,
                rs.len() == self.runs@.len(),
                forall|j: int| 0 <= j < k ==> (#[trigger] rs[j]).0 != id@,
            decreases self.runs.len() - k,
        {
            assert(rs[k as int] == (self.runs@[k as int].0@, self.runs@[k as int].1@));
            if str_eq(self.runs[k].0.as_str(), id.as_str()) {
                return true;
            }
            k += 1;
        }
        false
    }

    /// Starts the run `id` of the conversation `conversation`: refused while
    /// shutting down, and while the conversation has a run under way.
    pub fn begin_run(&mut self, id: InvocationId, conversation: ConversationId) -> (r: Result<(), ChatRunError>)
        ensures
            old(self)@.closing ==> (r matches Err(ChatRunError::ShuttingDown) && final(self)@ == old(self)@),
            !old(self)@.closing && conversation_busy(old(self)@.runs, conversation@) ==> (r matches Err(
                ChatRunError::ConversationBusy,
            ) && final(self)@ == old(self)@),
            !old(self)@.closing && !conversation_busy(old(self)@.runs, conversation@) ==> (r is Ok
                && final(self)@ == (RunsView {
                runs: old(self)@.runs.push((id@, conversation@)),
                closing: false,
            })),
    {
        if self.closing {
            return Err(ChatRunError::ShuttingDown);
        }
        let ghost rs = self@.runs;
        let mut k: usize = 0;
        while k < self.runs.len()
            invariant
                k <= self.runs.len(),
                rs == self@.runs,
                self@ == old(self)@,
                !old(self)@.closing,
                rs.len() == self.runs@.len(),
                forall|j: int| 0 <= j < k ==> (#[trigger] rs[j]).1 != conversation@,
            decreases self.runs.len() - k,
        {
            assert(rs[k as int] == (self.runs@[k as int].0@, self.runs@[k as int].1@));
            if str_eq(self.runs[k].1.as_str(), conversation.as_str()) {
                return Err(ChatRunError::ConversationBusy);
            }
            k += 1;
        }
        let ghost pair = (id@, conversation@);
        self.runs.push((id, conversation));
        assert(self@.runs =~= rs.push(pair));
        Ok(())
    }

    /// Ends the run `id`.
    pub fn finish(&mut self, id: &InvocationId)
        ensures
            final(self)@ == (RunsView { runs: runs_without(old(self)@.runs, id@), ..old(self)@ }),
    {
        let ghost rs = self@.runs;
        let ghost p = |r: (Seq<char>, Seq<char>)| r.0 != id@;
        let mut kept: Vec<(InvocationId, ConversationId)> = Vec::new();
        let mut old_runs: Vec<(InvocationId, ConversationId)> = Vec::new();
        std::mem::swap(&mut old_runs, &mut self.runs);
        let ghost f = |r: (InvocationId, ConversationId)| (r.0@, r.1@);
        assert(rs == old_runs@.map_values(f));
        assert(rs.take(0).filter(p) =~= Seq::<(Seq<char>, Seq<char>)>::empty()) by {
            reveal(Seq::filter);
        }
        let mut rest = old_runs;
        let ghost mut n: int = 0;
        while rest.len() > 0
            invariant
                0 <= n <= rs.len(),
                rest@.map_values(f) == rs.subrange(n, rs.len() as int),
                kept@.map_values(f) == rs.take(n).filter(p),
                p == (|r: (Seq<char>, Seq<char>)| r.0 != id@),
                f == (|r: (InvocationId, ConversationId)| (r.0@, r.1@)),
            decreases rest.len(),
        {
            let ghost r0 = rest@;
            proof {
                assert(r0.map_values(f).len() == r0.len());
                assert(rs.subrange(n, rs.len() as int).len() == rs.len() - n);
                assert(n < rs.len());
                assert(rs.subrange(n, rs.len() as int)[0] == rs[n]);
            }
            let run = rest.remove(0);
            proof {
                assert(rs[n] == r0.map_values(f)[0]);
                assert(rest@ =~= r0.subrange(1, r0.len() as int));
                assert forall|j: int| 0 <= j < rest@.len() implies #[trigger] rest@.map_values(f)[j] == rs.subrange(n + 1, rs.len() as int)[j] by {
                    assert(rest@[j] == r0[j + 1]);
                    assert(r0.map_values(f)[j + 1] == rs.subrange(n, rs.len() as int)[j + 1]);
                }
                assert(rest@.map_values(f) =~= rs.subrange(n + 1, rs.len() as int));
                assert(rs.take(n + 1) =~= rs.take(n).push(rs[n]));
                rs.take(n).lemma_filter_push(rs[n], p);
            }
            if !str_eq(run.0.as_str(), id.as_str()) {
                let ghost before = kept@;
                kept.push(run);
                assert(kept@.map_values(f) =~= before.map_values(f).push(rs[n]));
            }
            proof {
                n = n + 1;
            }
        }
        assert(rs.take(n) =~= rs);
        self.runs = kept;
    }

    /// Starts shutting down: no run starts any more. The runs to
    /// cancel.
    pub fn shut_down(&mut self) -> (r: Vec<InvocationId>)
        ensures
            final(self)@ == (RunsView { closing: true, ..old(self)@ }),
            r@.map_values(|i: InvocationId| i@) == old(self)@.runs.map_values(|x: (Seq<char>, Seq<char>)| x.0),
    {
        self.closing = true;
        let mut out: Vec<InvocationId> = Vec::new();
        let mut k: usize = 0;
        while k < self.runs.len()
            invariant
                k <= self.runs.len(),
                self@ == (RunsView { closing: true, ..old(self)@ }),
                out@.map_values(|i: InvocationId| i@) =~= self@.runs.take(k as int).map_values(
                    |x: (Seq<char>, Seq<char>)| x.0,
                ),
            decreases self.runs.len() - k,
        {
            let ghost before = out@;
            out.push(self.runs[k].0.clone());
            proof {
                assert(self@.runs.take(k + 1) =~= self@.runs.take(k as int).push(self@.runs[k as int]));
                assert(out@.map_values(|i: InvocationId| i@) =~= before.map_values(|i: InvocationId| i@).push(self.runs@[k as int].0@));
            }
            k += 1;
        }
        assert(self@.runs.take(k as int) =~= self@.runs);
        out
    }
}

/// Cancels the run `id`, when it is under way: the error otherwise.
pub fn cancel_check(runs: &ActiveRuns, id: &InvocationId) -> (r: Result<(), ChatRunError>)
    ensures
        running(runs@.runs, id@) ==> r is Ok,
        !running(runs@.runs, id@) ==> (r matches Err(ChatRunError::Failed(m)) && m@ == "run is not active"@),
{
    if runs.is_running(id) {
        Ok(())
    } else {
        Err(ChatRunError::Failed("run is not active".to_owned()))
    }
}

/// How a run's reply ends its execution: the terminal status and error.
pub fn terminal_outcome(reply: &Result<String, ProviderError>) -> (r: (ExecutionStatus, Option<String>))
    ensures
        match reply {
            Ok(_) => r.0 == ExecutionStatus::Completed && r.1 is None,
            Err(ProviderError::Cancelled) => r.0 == ExecutionStatus::Cancelled && (r.1 matches Some(m)
                && m@ == "request was cancelled"@),
            Err(e) => r.0 == ExecutionStatus::Failed && (r.1 matches Some(m) && m@ == match e {
                ProviderError::InvalidId(m) => "'"@ + m@ + "' is not a valid provider ID"@,
                ProviderError::InvalidConfiguration(m) => "provider configuration is invalid: "@ + m@,
                ProviderError::NotConfigured => "no default provider is configured"@,
                ProviderError::Credential(m) => "provider credentials are unavailable: "@ + m@,
                ProviderError::Http(m) => "provider request was rejected: "@ + m@,
                ProviderError::Protocol(m) => "provider response was invalid: "@ + m@,
                ProviderError::Timeout(m) => "provider request timed out while waiting for "@ + m@,
                ProviderError::Cancelled => "provider request was cancelled"@,
                ProviderError::Save(m) => "provider settings could not be saved: "@ + m@,
            }),
        },
{
    match reply {
        Ok(_) => (ExecutionStatus::Completed, None),
        Err(ProviderError::Cancelled) => (ExecutionStatus::Cancelled, Some("request was cancelled".to_owned())),
        Err(e) => (ExecutionStatus::Failed, Some(e.to_string())),
    }
}

/// The context budget a chat with `preference` gets: its provider's, or
/// 8192 tokens when the preference does not resolve.
pub fn context_budget(registry: &ProviderRegistry, preference: &ChatModelPreference) -> (r: usize)
    ensures
        r == match resolved(registry@, preference@) {
            Ok((p, _)) => p.context_budget,
            Err(_) => 8192,
        },
{
    match registry.resolve(preference) {
        Ok((provider, _)) => provider.context_budget(),
        Err(_) => 8192,
    }
}

} // verus!
