//! What the script engine keeps track of: each loaded plugin with the load
//! it came from and the handlers it exports, and each invocation under way.
//! A plugin runs one invocation at a time; unloading a plugin ends the
//! invocations of that load. Running JavaScript is the engine's work.
use vstd::prelude::*;

use crate::plugin::PluginId;
use crate::provider::strings_view;
use crate::text::{concat, copy_string, str_eq};

verus! {

/// A loaded plugin: the load it came from and the handlers it exports.
pub struct LoadedScript {
    pub plugin: PluginId,
    pub nonce: u64,
    pub handlers: Vec<String>,
}

/// An invocation under way, of a plugin's load.
pub struct RunningScript {
    pub invocation: String,
    pub plugin: PluginId,
    pub nonce: u64,
}

/// The model of the engine's books: the loaded plugins by ID, load and
/// handlers, and the invocations under way by ID, plugin and load.
pub struct EngineView {
    pub plugins: Seq<(Seq<char>, u64, Seq<Seq<char>>)>,
    pub running: Seq<(Seq<char>, Seq<char>, u64)>,
}

/// The engine's books.
pub struct ScriptEngineBooks {
    plugins: Vec<LoadedScript>,
    running: Vec<RunningScript>,
}

impl View for ScriptEngineBooks {
    type V = EngineView;

    closed spec fn view(&self) -> EngineView {
        EngineView {
            plugins: self.plugins@.map_values(|p: LoadedScript| (p.plugin@, p.nonce, strings_view(p.handlers@))),
            running: self.running@.map_values(|r: RunningScript| (r.invocation@, r.plugin@, r.nonce)),
        }
    }
}

/// The position of the plugin `id`, if it is loaded.
pub open spec fn plugin_at(v: EngineView, id: Seq<char>, k: int) -> bool {
    0 <= k < v.plugins.len() && v.plugins[k].0 == id
}

/// Whether the plugin `id` has an invocation under way.
pub open spec fn plugin_busy(v: EngineView, id: Seq<char>) -> bool {
    exists|k: int| 0 <= k < v.running.len() && (#[trigger] v.running[k]).1 == id
}

/// Whether the books are consistent: no plugin loaded twice.
pub open spec fn books_ok(v: EngineView) -> bool {
    forall|i: int, j: int| 0 <= i < j < v.plugins.len() ==> (#[trigger] v.plugins[i]).0 != (#[trigger] v.plugins[j]).0
}

/// What starting `handler` of `plugin` meets: the load to run it in, or why
/// it cannot start.
pub open spec fn start_outcome(v: EngineView, plugin: Seq<char>, handler: Seq<char>) -> Result<u64, Seq<char>> {
    if plugin_busy(v, plugin) {
        Err("this script plugin already has an active invocation"@)
    } else if !(exists|k: int| plugin_at(v, plugin, k)) {
        Err("script plugin is not active"@)
    } else {
        let k = choose|k: int| plugin_at(v, plugin, k);
        if v.plugins[k].2.contains(handler) {
            Ok(v.plugins[k].1)
        } else {
            Err("script handler '"@ + handler + "' is not exported"@)
        }
    }
}

/// Whether the running invocation `r` belongs to the load `nonce` of `plugin`.
pub open spec fn of_load(r: (Seq<char>, Seq<char>, u64), plugin: Seq<char>, nonce: u64) -> bool {
    r.1 == plugin && r.2 == nonce
}

impl ScriptEngineBooks {
    /// Nothing loaded, nothing running.
    pub fn new() -> (r: Self)
        ensures
            r@.plugins.len() == 0,
            r@.running.len() == 0,
    {
        ScriptEngineBooks { plugins: Vec::new(), running: Vec::new() }
    }

    /// Where the plugin `id` is loaded.
    fn find(&self, id: &PluginId) -> (r: Option<usize>)
        requires
            books_ok(self@),
        ensures
            match r {
                Some(k) => plugin_at(self@, id@, k as int),
                None => !(exists|k: int| plugin_at(self@, id@, k)),
            },
    {
        let mut k: usize = 0;
        while k < self.plugins.len()
            invariant
                k <= self.plugins@.len(),
                forall|j: int| 0 <= j < k ==> (#[trigger] self.plugins@[j]).plugin@ != id@,
            decreases self.plugins.len() - k,
        {
            if self.plugins[k].plugin.same(id) {
                assert(self@.plugins[k as int].0 == id@);
                return Some(k);
            }
            k += 1;
        }
        proof {
            if exists|k: int| plugin_at(self@, id@, k) {
                let j = choose|k: int| plugin_at(self@, id@, k);
                assert(self@.plugins[j].0 == self.plugins@[j].plugin@);
            }
        }
        None
    }

    /// Records a successful load `nonce` of `plugin`, exporting `handlers`,
    /// in place of any earlier load.
    pub fn load(&mut self, plugin: PluginId, nonce: u64, handlers: Vec<String>)
        requires
            books_ok(old(self)@),
        ensures
            books_ok(final(self)@),
            final(self)@.running == old(self)@.running,
            exists|k: int| plugin_at(final(self)@, plugin@, k) && #[trigger] final(self)@.plugins[k] == (
                plugin@,
                nonce,
                strings_view(handlers@),
            ),
            forall|id: Seq<char>, k: int|
                id != plugin@ && plugin_at(old(self)@, id, k) ==> exists|j: int|
                    plugin_at(final(self)@, id, j) && #[trigger] final(self)@.plugins[j] == old(self)@.plugins[k],
    {
        let ghost before = self@;
        let entry = LoadedScript { plugin, nonce, handlers };
        let ghost ev = (entry.plugin@, entry.nonce, strings_view(entry.handlers@));
        match self.find(&entry.plugin) {
            Some(k) => {
                self.plugins.set(k, entry);
                proof {
                    assert(self@.plugins =~= before.plugins.update(k as int, ev));
                    assert forall|i: int, j: int| 0 <= i < j < self@.plugins.len() implies (
                    #[trigger] self@.plugins[i]).0 != (#[trigger] self@.plugins[j]).0 by {
                        assert(before.plugins[i].0 != before.plugins[j].0);
                    }
                    assert(plugin_at(self@, ev.0, k as int) && self@.plugins[k as int] == ev);
                    assert forall|id: Seq<char>, i: int|
                        id != ev.0 && plugin_at(before, id, i) implies exists|j: int|
                            plugin_at(self@, id, j) && #[trigger] self@.plugins[j] == before.plugins[i] by {
                        assert(i != k);
                        assert(plugin_at(self@, id, i) && self@.plugins[i] == before.plugins[i]);
                    }
                }
            },
            None => {
                self.plugins.push(entry);
                proof {
                    assert(self@.plugins =~= before.plugins.push(ev));
                    assert forall|i: int, j: int| 0 <= i < j < self@.plugins.len() implies (
                    #[trigger] self@.plugins[i]).0 != (#[trigger] self@.plugins[j]).0 by {
                        if j < before.plugins.len() {
                            assert(before.plugins[i].0 != before.plugins[j].0);
                        } else {
                            assert(!plugin_at(before, ev.0, i));
                        }
                    }
                    let n = before.plugins.len() as int;
                    assert(plugin_at(self@, ev.0, n) && self@.plugins[n] == ev);
                    assert forall|id: Seq<char>, i: int|
                        id != ev.0 && plugin_at(before, id, i) implies exists|j: int|
                            plugin_at(self@, id, j) && #[trigger] self@.plugins[j] == before.plugins[i] by {
                        assert(plugin_at(self@, id, i) && self@.plugins[i] == before.plugins[i]);
                    }
                }
            },
        }
    }

    /// Whether `handler` of `plugin` may start: the load to run it in, or
    /// why not.
    pub fn start_check(&self, plugin: &PluginId, handler: &str) -> (r: Result<u64, String>)
        requires
            books_ok(self@),
        ensures
            match start_outcome(self@, plugin@, handler@) {
                Ok(n) => r == Ok::<u64, String>(n),
                Err(e) => r matches Err(x) && x@ == e,
            },
    {
        let mut i: usize = 0;
        while i < self.running.len()
            invariant
                i <= self.running@.len(),
                forall|j: int| 0 <= j < i ==> (#[trigger] self@.running[j]).1 != plugin@,
            decreases self.running.len() - i,
        {
            assert(self@.running[i as int].1 == self.running@[i as int].plugin@);
            if self.running[i].plugin.same(plugin) {
                return Err("this script plugin already has an active invocation".to_string());
            }
            i += 1;
        }
        let k = match self.find(plugin) {
            Some(k) => k,
            None => {
                return Err("script plugin is not active".to_string());
            },
        };
        proof {
            let c = choose|c: int| plugin_at(self@, plugin@, c);
            if c != k {
                if c < k {
                    assert(self@.plugins[c].0 != self@.plugins[k as int].0);
                } else {
                    assert(self@.plugins[k as int].0 != self@.plugins[c].0);
                }
            }
        }
        let handlers = &self.plugins[k].handlers;
        let nonce = self.plugins[k].nonce;
        let ghost hv = strings_view(handlers@);
        assert(hv == self@.plugins[k as int].2);
        assert(nonce == self@.plugins[k as int].1);
        assert(plugin_at(self@, plugin@, k as int));
        let mut j: usize = 0;
        while j < handlers.len()
            invariant
                j <= handlers@.len(),
                hv == strings_view(handlers@),
                !plugin_busy(self@, plugin@),
                exists|c: int| plugin_at(self@, plugin@, c),
                (choose|c: int| plugin_at(self@, plugin@, c)) == k as int,
                hv == self@.plugins[k as int].2,
                nonce == self@.plugins[k as int].1,
                forall|q: int| 0 <= q < j ==> hv[q] != handler@,
            decreases handlers.len() - j,
        {
            if str_eq(handlers[j].as_str(), handler) {
                assert(hv[j as int] == handler@);
                return Ok(nonce);
            }
            j += 1;
        }
        let head = concat("script handler '", handler);
        Err(concat(head.as_str(), "' is not exported"))
    }

    /// Records the invocation `invocation` under way, of the load `nonce`
    /// of `plugin`.
    pub fn begin(&mut self, invocation: String, plugin: PluginId, nonce: u64)
        ensures
            final(self)@ == (EngineView {
                running: old(self)@.running.push((invocation@, plugin@, nonce)),
                ..old(self)@
            }),
    {
        let ghost before = self@;
        let ghost e = (invocation@, plugin@, nonce);
        self.running.push(RunningScript { invocation, plugin, nonce });
        assert(self@.running =~= before.running.push(e));
    }

    /// Forgets the invocation `invocation`: whether it was under way.
    pub fn finish(&mut self, invocation: &str) -> (r: bool)
        ensures
            r == exists|k: int| 0 <= k < old(self)@.running.len() && (#[trigger] old(self)@.running[k]).0
                == invocation@,
            final(self)@.plugins == old(self)@.plugins,
            final(self)@.running == old(self)@.running.filter(|x: (Seq<char>, Seq<char>, u64)| x.0 != invocation@),
    {
        let ghost rs = self@.running;
        let ghost p = |x: (Seq<char>, Seq<char>, u64)| x.0 != invocation@;
        let ghost f = |r: RunningScript| (r.invocation@, r.plugin@, r.nonce);
        let mut rest: Vec<RunningScript> = Vec::new();
        std::mem::swap(&mut rest, &mut self.running);
        let mut kept: Vec<RunningScript> = Vec::new();
        let mut found = false;
        assert(rs.take(0).filter(p) =~= Seq::<(Seq<char>, Seq<char>, u64)>::empty()) by {
            reveal(Seq::filter);
        }
        assert(rest@.map_values(f) =~= rs);
        let ghost mut n: int = 0;
        while rest.len() > 0
            invariant
                0 <= n <= rs.len(),
                rest@.map_values(f) == rs.subrange(n, rs.len() as int),
                kept@.map_values(f) == rs.take(n).filter(p),
                found == exists|k: int| 0 <= k < n && (#[trigger] rs[k]).0 == invocation@,
                p == (|x: (Seq<char>, Seq<char>, u64)| x.0 != invocation@),
                f == (|r: RunningScript| (r.invocation@, r.plugin@, r.nonce)),
            decreases rest.len(),
        {
            let ghost r0 = rest@;
            proof {
                assert(r0.map_values(f).len() == r0.len());
                assert(rs.subrange(n, rs.len() as int)[0] == rs[n]);
            }
            let run = rest.remove(0);
            proof {
                assert(rs[n] == r0.map_values(f)[0]);
                assert forall|j: int| 0 <= j < rest@.len() implies #[trigger] rest@.map_values(f)[j] == rs.subrange(
                    n + 1,
                    rs.len() as int,
                )[j] by {
                    assert(rest@[j] == r0[j + 1]);
                    assert(r0.map_values(f)[j + 1] == rs.subrange(n, rs.len() as int)[j + 1]);
                }
                assert(rest@.map_values(f) =~= rs.subrange(n + 1, rs.len() as int));
                assert(rs.take(n + 1) =~= rs.take(n).push(rs[n]));
                rs.take(n).lemma_filter_push(rs[n], p);
            }
            if str_eq(run.invocation.as_str(), invocation) {
                found = true;
            } else {
                let ghost before = kept@;
                kept.push(run);
                assert(kept@.map_values(f) =~= before.map_values(f).push(rs[n]));
            }
            proof {
                n = n + 1;
            }
        }
        assert(rs.take(n) =~= rs);
        self.running = kept;
        found
    }

    /// Ends the load `nonce` of `plugin`, when it is the one loaded: the
    /// invocations of that load, which end with it.
    pub fn unload(&mut self, plugin: &PluginId, nonce: u64) -> (r: Vec<String>)
        requires
            books_ok(old(self)@),
        ensures
            books_ok(final(self)@),
            (exists|k: int| plugin_at(old(self)@, plugin@, k) && old(self)@.plugins[k].1 == nonce) ==> {
                let k = choose|k: int| plugin_at(old(self)@, plugin@, k);
                &&& final(self)@.plugins == old(self)@.plugins.remove(k)
                &&& final(self)@.running == old(self)@.running.filter(
                    |x: (Seq<char>, Seq<char>, u64)| !of_load(x, plugin@, nonce),
                )
                &&& strings_view(r@) == old(self)@.running.filter(
                    |x: (Seq<char>, Seq<char>, u64)| of_load(x, plugin@, nonce),
                ).map_values(|x: (Seq<char>, Seq<char>, u64)| x.0)
            },
            !(exists|k: int| plugin_at(old(self)@, plugin@, k) && old(self)@.plugins[k].1 == nonce) ==> (
                final(self)@ == old(self)@ && r@.len() == 0),
    {
        let k = match self.find(plugin) {
            Some(k) => k,
            None => {
                return Vec::new();
            },
        };
        proof {
            let c = choose|c: int| plugin_at(self@, plugin@, c);
            if c != k {
                if c < k {
                    assert(self@.plugins[c].0 != self@.plugins[k as int].0);
                } else {
                    assert(self@.plugins[k as int].0 != self@.plugins[c].0);
                }
            }
        }
        if self.plugins[k].nonce != nonce {
            proof {
                assert forall|c: int| plugin_at(self@, plugin@, c) implies self@.plugins[c].1 != nonce by {
                    if c != k {
                        if c < k {
                            assert(self@.plugins[c].0 != self@.plugins[k as int].0);
                        } else {
                            assert(self@.plugins[k as int].0 != self@.plugins[c].0);
                        }
                    }
                }
            }
            return Vec::new();
        }
        let ghost before = self@;
        let ghost pv = self@.plugins;
        self.plugins.remove(k);
        proof {
            assert(self@.plugins =~= pv.remove(k as int));
            assert forall|i: int, j: int| 0 <= i < j < self@.plugins.len() implies (#[trigger] self@.plugins[i]).0
                != (#[trigger] self@.plugins[j]).0 by {
                let a = if i < k { i } else { i + 1 };
                let b = if j < k { j } else { j + 1 };
                assert(self@.plugins[i] == pv[a] && self@.plugins[j] == pv[b]);
            }
        }
        let ghost rs = self@.running;
        let ghost keep = |x: (Seq<char>, Seq<char>, u64)| !of_load(x, plugin@, nonce);
        let ghost gone = |x: (Seq<char>, Seq<char>, u64)| of_load(x, plugin@, nonce);
        let ghost f = |r: RunningScript| (r.invocation@, r.plugin@, r.nonce);
        let ghost g = |x: (Seq<char>, Seq<char>, u64)| x.0;
        let mut rest: Vec<RunningScript> = Vec::new();
        std::mem::swap(&mut rest, &mut self.running);
        let mut kept: Vec<RunningScript> = Vec::new();
        let mut ended: Vec<String> = Vec::new();
        assert(rs.take(0).filter(keep) =~= Seq::<(Seq<char>, Seq<char>, u64)>::empty()) by {
            reveal(Seq::filter);
        }
        assert(rs.take(0).filter(gone) =~= Seq::<(Seq<char>, Seq<char>, u64)>::empty()) by {
            reveal(Seq::filter);
        }
        assert(rest@.map_values(f) =~= rs);
        assert(strings_view(ended@) =~= rs.take(0).filter(gone).map_values(g));
        let ghost mut n: int = 0;
        while rest.len() > 0
            invariant
                0 <= n <= rs.len(),
                rest@.map_values(f) == rs.subrange(n, rs.len() as int),
                kept@.map_values(f) == rs.take(n).filter(keep),
                strings_view(ended@) == rs.take(n).filter(gone).map_values(g),
                keep == (|x: (Seq<char>, Seq<char>, u64)| !of_load(x, plugin@, nonce)),
                gone == (|x: (Seq<char>, Seq<char>, u64)| of_load(x, plugin@, nonce)),
                f == (|r: RunningScript| (r.invocation@, r.plugin@, r.nonce)),
                g == (|x: (Seq<char>, Seq<char>, u64)| x.0),
            decreases rest.len(),
        {
            let ghost r0 = rest@;
            proof {
                assert(r0.map_values(f).len() == r0.len());
                assert(rs.subrange(n, rs.len() as int)[0] == rs[n]);
            }
            let run = rest.remove(0);
            proof {
                assert(rs[n] == r0.map_values(f)[0]);
                assert forall|j: int| 0 <= j < rest@.len() implies #[trigger] rest@.map_values(f)[j] == rs.subrange(
                    n + 1,
                    rs.len() as int,
                )[j] by {
                    assert(rest@[j] == r0[j + 1]);
                    assert(r0.map_values(f)[j + 1] == rs.subrange(n, rs.len() as int)[j + 1]);
                }
                assert(rest@.map_values(f) =~= rs.subrange(n + 1, rs.len() as int));
                assert(rs.take(n + 1) =~= rs.take(n).push(rs[n]));
                rs.take(n).lemma_filter_push(rs[n], keep);
                rs.take(n).lemma_filter_push(rs[n], gone);
            }
            if run.plugin.same(plugin) && run.nonce == nonce {
                let ghost before_ended = ended@;
                ended.push(copy_string(&run.invocation));
                proof {
                    assert(strings_view(ended@) =~= strings_view(before_ended).push(rs[n].0));
                    assert(rs.take(n).filter(gone).push(rs[n]).map_values(g) =~= rs.take(n).filter(gone).map_values(
                        g,
                    ).push(rs[n].0));
                }
            } else {
                let ghost before_kept = kept@;
                kept.push(run);
                assert(kept@.map_values(f) =~= before_kept.map_values(f).push(rs[n]));
            }
            proof {
                n = n + 1;
            }
        }
        assert(rs.take(n) =~= rs);
        self.running = kept;
        ended
    }
}


/// Whether no two invocations under way are of one plugin.
pub open spec fn one_run_per_plugin(running: Seq<(Seq<char>, Seq<char>, u64)>) -> bool {
    forall|i: int, j: int| 0 <= i < j < running.len() ==> (#[trigger] running[i]).1 != (#[trigger] running[j]).1
}

/// Whether an invocation of plugin `c` is among `s`.
pub open spec fn runs_plugin(s: Seq<(Seq<char>, Seq<char>, u64)>, c: Seq<char>) -> bool {
    exists|k: int| 0 <= k < s.len() && (#[trigger] s[k]).1 == c
}

proof fn lemma_filter_keeps_one_run(s: Seq<(Seq<char>, Seq<char>, u64)>, p: spec_fn((Seq<char>, Seq<char>, u64)) -> bool)
    requires
        one_run_per_plugin(s),
    ensures
        one_run_per_plugin(s.filter(p)),
        forall|c: Seq<char>| #[trigger] runs_plugin(s.filter(p), c) ==> runs_plugin(s, c),
    decreases s.len(),
{
    reveal(Seq::filter);
    if s.len() > 0 {
        let t = s.drop_last();
        assert(one_run_per_plugin(t)) by {
            assert forall|i: int, j: int| 0 <= i < j < t.len() implies (#[trigger] t[i]).1 != (#[trigger] t[j]).1 by {
                assert(t[i] == s[i] && t[j] == s[j]);
            }
        }
        lemma_filter_keeps_one_run(t, p);
        let w = t.filter(p);
        let x = s.last();
        assert(s.filter(p) == if p(x) { w.push(x) } else { w });
        assert forall|c: Seq<char>| #[trigger] runs_plugin(s.filter(p), c) implies runs_plugin(s, c) by {
            let v = s.filter(p);
            let k = choose|k: int| 0 <= k < v.len() && (#[trigger] v[k]).1 == c;
            if p(x) && k == w.len() {
                assert(s[s.len() - 1] == x);
            } else {
                assert(v[k] == w[k]);
                assert(runs_plugin(w, c));
                assert(runs_plugin(t, c));
                let m = choose|m: int| 0 <= m < t.len() && (#[trigger] t[m]).1 == c;
                assert(s[m] == t[m]);
            }
        }
        if p(x) {
            let v = w.push(x);
            assert forall|i: int, j: int| 0 <= i < j < v.len() implies (#[trigger] v[i]).1 != (#[trigger] v[j]).1 by {
                if j == w.len() {
                    assert(v[i] == w[i]);
                    if w[i].1 == x.1 {
                        assert(runs_plugin(w, x.1));
                        assert(runs_plugin(t, x.1));
                        let m = choose|m: int| 0 <= m < t.len() && (#[trigger] t[m]).1 == x.1;
                        assert(s[m] == t[m]);
                        assert(s[s.len() - 1] == x);
                    }
                } else {
                    assert(v[i] == w[i] && v[j] == w[j]);
                }
            }
        }
    }
}

/// A plugin runs one invocation at a time: starting one only when
/// `start_outcome` allows it, and finishing or unloading any, keep at most
/// one invocation under way per plugin.
pub proof fn engine_runs_one_per_plugin(
    v: EngineView,
    invocation: Seq<char>,
    plugin: Seq<char>,
    handler: Seq<char>,
    nonce: u64,
)
    requires
        one_run_per_plugin(v.running),
    ensures
        start_outcome(v, plugin, handler) is Ok ==> one_run_per_plugin(v.running.push((invocation, plugin, nonce))),
        one_run_per_plugin(v.running.filter(|x: (Seq<char>, Seq<char>, u64)| x.0 != invocation)),
        one_run_per_plugin(v.running.filter(|x: (Seq<char>, Seq<char>, u64)| !of_load(x, plugin, nonce))),
{
    lemma_filter_keeps_one_run(v.running, |x: (Seq<char>, Seq<char>, u64)| x.0 != invocation);
    lemma_filter_keeps_one_run(v.running, |x: (Seq<char>, Seq<char>, u64)| !of_load(x, plugin, nonce));
    if start_outcome(v, plugin, handler) is Ok {
        let w = v.running.push((invocation, plugin, nonce));
        assert forall|i: int, j: int| 0 <= i < j < w.len() implies (#[trigger] w[i]).1 != (#[trigger] w[j]).1 by {
            assert(w[i] == v.running[i]);
            if j < v.running.len() {
                assert(w[j] == v.running[j]);
            }
        }
    }
}

} // verus!
