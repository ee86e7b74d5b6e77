//! The registry of installed packages and their actions, and the authority
//! that records which capabilities each plugin was granted.
use vstd::prelude::*;

use crate::actions::{
    ActionDescriptor, DescriptorView, PluginDescriptor, PluginView, descriptors_view,
};
use crate::plugin::{ActionId, Capability, PluginId};
use crate::text::{concat, trim, trim_str};

verus! {

/// What changed in the registry.
#[derive(Clone, Debug)]
pub enum RegistryEvent {
    PackageRegistered { plugin_id: PluginId, generation: u64 },
    PackageRemoved { plugin_id: PluginId, generation: u64 },
}

/// The model of a registry event.
pub enum RegistryEventView {
    PackageRegistered { plugin_id: Seq<char>, generation: u64 },
    PackageRemoved { plugin_id: Seq<char>, generation: u64 },
}

impl View for RegistryEvent {
    type V = RegistryEventView;

    open spec fn view(&self) -> RegistryEventView {
        match self {
            RegistryEvent::PackageRegistered { plugin_id, generation } => {
                RegistryEventView::PackageRegistered { plugin_id: plugin_id@, generation: *generation }
            },
            RegistryEvent::PackageRemoved { plugin_id, generation } => {
                RegistryEventView::PackageRemoved { plugin_id: plugin_id@, generation: *generation }
            },
        }
    }
}

/// Why a package could not be registered.
#[derive(Clone, Debug)]
pub enum RegistryError {
    DuplicatePlugin(PluginId),
    DuplicateAction(ActionId),
    ActionOwnership { action: ActionId, expected: PluginId, actual: PluginId },
    EmptyPluginName,
    EmptyActionName,
}

/// The model of a registry error.
pub enum RegistryErrorView {
    DuplicatePlugin(Seq<char>),
    DuplicateAction(Seq<char>),
    ActionOwnership { action: Seq<char>, expected: Seq<char>, actual: Seq<char> },
    EmptyPluginName,
    EmptyActionName,
}

impl View for RegistryError {
    type V = RegistryErrorView;

    open spec fn view(&self) -> RegistryErrorView {
        match self {
            RegistryError::DuplicatePlugin(p) => RegistryErrorView::DuplicatePlugin(p@),
            RegistryError::DuplicateAction(a) => RegistryErrorView::DuplicateAction(a@),
            RegistryError::ActionOwnership { action, expected, actual } => {
                RegistryErrorView::ActionOwnership {
                    action: action@,
                    expected: expected@,
                    actual: actual@,
                }
            },
            RegistryError::EmptyPluginName => RegistryErrorView::EmptyPluginName,
            RegistryError::EmptyActionName => RegistryErrorView::EmptyActionName,
        }
    }
}

/// The message of a registry error.
pub open spec fn registry_error_text(e: RegistryErrorView) -> Seq<char> {
    match e {
        RegistryErrorView::DuplicatePlugin(p) => "plugin '"@ + p + "' is already registered"@,
        RegistryErrorView::DuplicateAction(a) => "action '"@ + a + "' is already registered"@,
        RegistryErrorView::ActionOwnership { action, expected, actual } => "action '"@ + action
            + "' belongs to '"@ + actual + "', not '"@ + expected + "'"@,
        RegistryErrorView::EmptyPluginName => "plugin display name cannot be empty"@,
        RegistryErrorView::EmptyActionName => "action display name cannot be empty"@,
    }
}

impl RegistryError {
    /// The error's message, as its `Display` writes it.
    pub fn to_string(&self) -> (r: String)
        ensures
            r@ == registry_error_text(self@),
    {
        match self {
            RegistryError::DuplicatePlugin(p) => {
                let a = concat("plugin '", p.as_str());
                concat(a.as_str(), "' is already registered")
            },
            RegistryError::DuplicateAction(id) => {
                let a = concat("action '", id.as_str());
                concat(a.as_str(), "' is already registered")
            },
            RegistryError::ActionOwnership { action, expected, actual } => {
                let a = concat("action '", action.as_str());
                let b = concat(a.as_str(), "' belongs to '");
                let c = concat(b.as_str(), actual.as_str());
                let d = concat(c.as_str(), "', not '");
                let e = concat(d.as_str(), expected.as_str());
                concat(e.as_str(), "'")
            },
            RegistryError::EmptyPluginName => "plugin display name cannot be empty".to_string(),
            RegistryError::EmptyActionName => "action display name cannot be empty".to_string(),
        }
    }
}

/// The IDs of a list of actions.
pub open spec fn action_ids(a: Seq<DescriptorView>) -> Seq<Seq<char>> {
    a.map_values(|d: DescriptorView| d.id)
}

/// The IDs of a list of plugins.
pub open spec fn plugin_ids(p: Seq<PluginView>) -> Seq<Seq<char>> {
    p.map_values(|d: PluginView| d.id)
}

/// What is wrong with action `k` of a package `pid` being registered next
/// to `existing` actions, if anything: another owner, an empty name, or an
/// ID already registered or used earlier in the package.
pub open spec fn action_problem(
    existing: Seq<DescriptorView>,
    pid: Seq<char>,
    acts: Seq<DescriptorView>,
    k: int,
) -> Option<RegistryErrorView> {
    let a = acts[k];
    if a.plugin_id != pid {
        Some(RegistryErrorView::ActionOwnership { action: a.id, expected: pid, actual: a.plugin_id })
    } else if trim(a.display_name).len() == 0 {
        Some(RegistryErrorView::EmptyActionName)
    } else if action_ids(existing).contains(a.id) || action_ids(acts.take(k)).contains(a.id) {
        Some(RegistryErrorView::DuplicateAction(a.id))
    } else {
        None
    }
}

/// The first problem among actions `k..` of a package.
pub open spec fn first_action_problem(
    existing: Seq<DescriptorView>,
    pid: Seq<char>,
    acts: Seq<DescriptorView>,
    k: int,
) -> Option<RegistryErrorView>
    decreases acts.len() - k,
{
    if k < 0 || k >= acts.len() {
        None
    } else {
        match action_problem(existing, pid, acts, k) {
            Some(e) => Some(e),
            None => first_action_problem(existing, pid, acts, k + 1),
        }
    }
}

/// Why registering `plugin` with `acts` next to `plugins` and `existing`
/// actions fails, if it does: an empty plugin name, a plugin ID already
/// registered, or the first action with a problem.
pub open spec fn registration_problem(
    plugins: Seq<PluginView>,
    existing: Seq<DescriptorView>,
    plugin: PluginView,
    acts: Seq<DescriptorView>,
) -> Option<RegistryErrorView> {
    if trim(plugin.display_name).len() == 0 {
        Some(RegistryErrorView::EmptyPluginName)
    } else if plugin_ids(plugins).contains(plugin.id) {
        Some(RegistryErrorView::DuplicatePlugin(plugin.id))
    } else {
        first_action_problem(existing, plugin.id, acts, 0)
    }
}

/// The model of a registry: its generation, its plugins and its actions in
/// registration order.
pub struct RegistryView {
    pub generation: u64,
    pub plugins: Seq<PluginView>,
    pub actions: Seq<DescriptorView>,
}

/// The registry's invariant: plugin IDs and action IDs are each unique,
/// and every action belongs to a registered plugin.
pub open spec fn registry_ok(r: RegistryView) -> bool {
    &&& plugin_ids(r.plugins).no_duplicates()
    &&& action_ids(r.actions).no_duplicates()
    &&& forall|i: int|
        0 <= i < r.actions.len() ==> plugin_ids(r.plugins).contains(#[trigger] r.actions[i].plugin_id)
}

/// The actions of `acts` that do not belong to `pid`.
pub open spec fn actions_without(acts: Seq<DescriptorView>, pid: Seq<char>) -> Seq<DescriptorView> {
    acts.filter(|d: DescriptorView| d.plugin_id != pid)
}

/// The plugins of `ps` other than `pid`.
pub open spec fn plugins_without(ps: Seq<PluginView>, pid: Seq<char>) -> Seq<PluginView> {
    ps.filter(|d: PluginView| d.id != pid)
}

/// The installed packages and their actions, each action with its handler.
pub struct PluginRegistry<H> {
    generation: u64,
    plugins: Vec<PluginDescriptor>,
    actions: Vec<(ActionDescriptor, H)>,
    events: Vec<RegistryEvent>,
}

/// The models of a list of plugin descriptors.
pub open spec fn plugins_view(p: Seq<PluginDescriptor>) -> Seq<PluginView> {
    p.map_values(|d: PluginDescriptor| d@)
}

/// The models of the descriptors of a list of registered actions.
pub open spec fn entries_descriptors<H>(a: Seq<(ActionDescriptor, H)>) -> Seq<DescriptorView> {
    a.map_values(|e: (ActionDescriptor, H)| e.0@)
}

/// The models of a list of events.
pub open spec fn events_view(e: Seq<RegistryEvent>) -> Seq<RegistryEventView> {
    e.map_values(|x: RegistryEvent| x@)
}

impl<H> View for PluginRegistry<H> {
    type V = RegistryView;

    closed spec fn view(&self) -> RegistryView {
        RegistryView {
            generation: self.generation,
            plugins: plugins_view(self.plugins@),
            actions: entries_descriptors(self.actions@),
        }
    }
}

/// Dropping a plugin's actions from a list grown by one action.
proof fn lemma_actions_without_push(s: Seq<DescriptorView>, x: DescriptorView, pid: Seq<char>)
    ensures
        actions_without(s.push(x), pid) == if x.plugin_id != pid {
            actions_without(s, pid).push(x)
        } else {
            actions_without(s, pid)
        },
{
    reveal(Seq::filter);
    assert(s.push(x).drop_last() =~= s);
}

/// Dropping a plugin from a list grown by one plugin.
proof fn lemma_plugins_without_push(s: Seq<PluginView>, x: PluginView, pid: Seq<char>)
    ensures
        plugins_without(s.push(x), pid) == if x.id != pid {
            plugins_without(s, pid).push(x)
        } else {
            plugins_without(s, pid)
        },
{
    reveal(Seq::filter);
    assert(s.push(x).drop_last() =~= s);
}

/// The generation after one more change, saturating.
pub open spec fn next_generation(g: u64) -> u64 {
    if g == u64::MAX {
        u64::MAX
    } else {
        (g + 1) as u64
    }
}

impl<H> PluginRegistry<H> {
    /// The registry's invariant holds.
    pub closed spec fn well_formed(&self) -> bool {
        registry_ok(self@)
    }

    /// The events not yet taken.
    pub closed spec fn events(&self) -> Seq<RegistryEventView> {
        events_view(self.events@)
    }

    /// The handlers of the registered actions, in the order of `self@.actions`.
    pub closed spec fn handlers(&self) -> Seq<H> {
        self.actions@.map_values(|e: (ActionDescriptor, H)| e.1)
    }

    /// An empty registry at generation 0.
    pub fn new() -> (r: Self)
        ensures
            r@ == (RegistryView {
                generation: 0,
                plugins: Seq::empty(),
                actions: Seq::empty(),
            }),
            r.well_formed(),
            r.events() == Seq::<RegistryEventView>::empty(),
            r.handlers() == Seq::<H>::empty(),
    {
        let r = PluginRegistry {
            generation: 0,
            plugins: Vec::new(),
            actions: Vec::new(),
            events: Vec::new(),
        };
        assert(r@.plugins =~= Seq::<PluginView>::empty());
        assert(r@.actions =~= Seq::<DescriptorView>::empty());
        assert(r.events() =~= Seq::<RegistryEventView>::empty());
        assert(r.handlers() =~= Seq::<H>::empty());
        r
    }

    /// The current generation; each change raises it by one.
    pub fn generation(&self) -> (r: u64)
        ensures
            r == self@.generation,
    {
        self.generation
    }

    /// Copies of the registered plugins.
    pub fn descriptors(&self) -> (r: Vec<PluginDescriptor>)
        ensures
            plugins_view(r@) == self@.plugins,
    {
        let mut out: Vec<PluginDescriptor> = Vec::new();
        let mut i: usize = 0;
        while i < self.plugins.len()
            invariant
                i <= self.plugins.len(),
                out@.len() == i,
                forall|j: int| 0 <= j < i ==> (#[trigger] out@[j])@ == self.plugins@[j]@,
            decreases self.plugins.len() - i,
        {
            out.push(self.plugins[i].clone());
            i += 1;
        }
        assert(plugins_view(out@) =~= plugins_view(self.plugins@));
        out
    }

    /// Copies of the registered actions' descriptors.
    pub fn action_descriptors(&self) -> (r: Vec<ActionDescriptor>)
        ensures
            descriptors_view(r@) == self@.actions,
    {
        let mut out: Vec<ActionDescriptor> = Vec::new();
        let mut i: usize = 0;
        while i < self.actions.len()
            invariant
                i <= self.actions.len(),
                out@.len() == i,
                forall|j: int| 0 <= j < i ==> (#[trigger] out@[j])@ == self.actions@[j].0@,
            decreases self.actions.len() - i,
        {
            out.push(self.actions[i].0.clone());
            i += 1;
        }
        assert(descriptors_view(out@) =~= entries_descriptors(self.actions@));
        out
    }

    /// The handler of the action `id`, if it is registered.
    pub fn handler(&self, id: &ActionId) -> (r: Option<&H>)
        ensures
            match r {
                Some(h) => exists|i: int|
                    0 <= i < self@.actions.len() && self@.actions[i].id == id@ && *h
                        == self.handlers()[i],
                None => !action_ids(self@.actions).contains(id@),
            },
    {
        let mut i: usize = 0;
        while i < self.actions.len()
            invariant
                i <= self.actions.len(),
                forall|j: int| 0 <= j < i ==> self.actions@[j].0@.id != id@,
            decreases self.actions.len() - i,
        {
            if self.actions[i].0.id().same(id) {
                assert(self@.actions[i as int].id == id@);
                assert(self.handlers()[i as int] == self.actions@[i as int].1);
                return Some(&self.actions[i].1);
            }
            i += 1;
        }
        proof {
            if action_ids(self@.actions).contains(id@) {
                let j = choose|j: int|
                    0 <= j < action_ids(self@.actions).len() && action_ids(self@.actions)[j] == id@;
                assert(self.actions@[j].0@.id == id@);
            }
        }
        None
    }

    /// Takes the events recorded since the last call.
    pub fn drain_events(&mut self) -> (r: Vec<RegistryEvent>)
        ensures
            events_view(r@) == old(self).events(),
            final(self).events() == Seq::<RegistryEventView>::empty(),
            final(self)@ == old(self)@,
            final(self).well_formed() == old(self).well_formed(),
            final(self).handlers() == old(self).handlers(),
    {
        let mut taken: Vec<RegistryEvent> = Vec::new();
        std::mem::swap(&mut taken, &mut self.events);
        assert(events_view(self.events@) =~= Seq::<RegistryEventView>::empty());
        taken
    }

    /// Whether a plugin with ID `id` is registered.
    fn has_plugin(&self, id: &PluginId) -> (r: bool)
        ensures
            r == plugin_ids(self@.plugins).contains(id@),
    {
        let mut i: usize = 0;
        while i < self.plugins.len()
            invariant
                i <= self.plugins.len(),
                forall|j: int| 0 <= j < i ==> self.plugins@[j]@.id != id@,
            decreases self.plugins.len() - i,
        {
            if self.plugins[i].id().same(id) {
                assert(plugin_ids(self@.plugins)[i as int] == id@);
                return true;
            }
            i += 1;
        }
        proof {
            if plugin_ids(self@.plugins).contains(id@) {
                let j = choose|j: int|
                    0 <= j < plugin_ids(self@.plugins).len() && plugin_ids(self@.plugins)[j] == id@;
                assert(self.plugins@[j]@.id == id@);
            }
        }
        false
    }

    /// Whether an action with ID `id` is registered.
    fn has_action(&self, id: &ActionId) -> (r: bool)
        ensures
            r == action_ids(self@.actions).contains(id@),
    {
        let mut i: usize = 0;
        while i < self.actions.len()
            invariant
                i <= self.actions.len(),
                forall|j: int| 0 <= j < i ==> self.actions@[j].0@.id != id@,
            decreases self.actions.len() - i,
        {
            if self.actions[i].0.id().same(id) {
                assert(action_ids(self@.actions)[i as int] == id@);
                return true;
            }
            i += 1;
        }
        proof {
            if action_ids(self@.actions).contains(id@) {
                let j = choose|j: int|
                    0 <= j < action_ids(self@.actions).len() && action_ids(self@.actions)[j] == id@;
                assert(self.actions@[j].0@.id == id@);
            }
        }
        false
    }
}

/// Whether action `id` occurs among the first `k` actions of a package.
fn used_before<H>(acts: &Vec<(ActionDescriptor, H)>, k: usize, id: &ActionId) -> (r: bool)
    requires
        k <= acts.len(),
    ensures
        r == action_ids(entries_descriptors(acts@).take(k as int)).contains(id@),
{
    let ghost ds = entries_descriptors(acts@).take(k as int);
    let mut i: usize = 0;
    while i < k
        invariant
            i <= k <= acts.len(),
            ds == entries_descriptors(acts@).take(k as int),
            forall|j: int| 0 <= j < i ==> acts@[j].0@.id != id@,
        decreases k - i,
    {
        if acts[i].0.id().same(id) {
            assert(action_ids(ds)[i as int] == id@);
            return true;
        }
        i += 1;
    }
    proof {
        if action_ids(ds).contains(id@) {
            let j = choose|j: int| 0 <= j < action_ids(ds).len() && action_ids(ds)[j] == id@;
            assert(acts@[j].0@.id == id@);
        }
    }
    false
}

/// When actions `0..k` have no problem, the first problem is among `k..`.
proof fn lemma_first_problem_skip(
    existing: Seq<DescriptorView>,
    pid: Seq<char>,
    acts: Seq<DescriptorView>,
    j: int,
    k: int,
)
    requires
        0 <= j <= k <= acts.len(),
        forall|m: int| j <= m < k ==> (#[trigger] action_problem(existing, pid, acts, m)) is None,
    ensures
        first_action_problem(existing, pid, acts, j) == first_action_problem(existing, pid, acts, k),
    decreases k - j,
{
    if j < k {
        lemma_first_problem_skip(existing, pid, acts, j + 1, k);
    }
}

/// With no first problem, no action has a problem.
proof fn lemma_no_problem(existing: Seq<DescriptorView>, pid: Seq<char>, acts: Seq<DescriptorView>, j: int)
    requires
        0 <= j <= acts.len(),
        first_action_problem(existing, pid, acts, j) is None,
    ensures
        forall|m: int| j <= m < acts.len() ==> (#[trigger] action_problem(existing, pid, acts, m)) is None,
    decreases acts.len() - j,
{
    if j < acts.len() {
        lemma_no_problem(existing, pid, acts, j + 1);
    }
}

/// A registration without problems keeps the registry's invariant.
proof fn lemma_register_ok(r: RegistryView, plugin: PluginView, acts: Seq<DescriptorView>, g: u64)
    requires
        registry_ok(r),
        registration_problem(r.plugins, r.actions, plugin, acts) is None,
    ensures
        registry_ok(
            RegistryView {
                generation: g,
                plugins: r.plugins.push(plugin),
                actions: r.actions + acts,
            },
        ),
{
    let ps = r.plugins.push(plugin);
    let all = r.actions + acts;
    lemma_no_problem(r.actions, plugin.id, acts, 0);
    assert(plugin_ids(ps) =~= plugin_ids(r.plugins).push(plugin.id));
    assert(plugin_ids(ps).no_duplicates()) by {
        assert forall|i: int, j: int|
            0 <= i < plugin_ids(ps).len() && 0 <= j < plugin_ids(ps).len() && i != j implies plugin_ids(
            ps,
        )[i] != plugin_ids(ps)[j] by {
            if i < r.plugins.len() && j < r.plugins.len() {
            } else if i == r.plugins.len() {
                assert(plugin_ids(r.plugins)[j] == plugin_ids(ps)[j]);
            } else {
                assert(plugin_ids(r.plugins)[i] == plugin_ids(ps)[i]);
            }
        }
    }
    assert(action_ids(all) =~= action_ids(r.actions) + action_ids(acts));
    assert(action_ids(all).no_duplicates()) by {
        let n = r.actions.len();
        assert forall|i: int, j: int|
            0 <= i < action_ids(all).len() && 0 <= j < action_ids(all).len() && i != j implies action_ids(
            all,
        )[i] != action_ids(all)[j] by {
            if i < n && j < n {
            } else if i >= n && j >= n {
                let (lo, hi) = if i < j {
                    (i - n, j - n)
                } else {
                    (j - n, i - n)
                };
                assert(action_problem(r.actions, plugin.id, acts, hi) is None);
                assert(action_ids(acts.take(hi))[lo] == acts[lo].id);
            } else if i < n {
                assert(action_problem(r.actions, plugin.id, acts, j - n) is None);
                assert(action_ids(r.actions)[i] == all[i].id);
            } else {
                assert(action_problem(r.actions, plugin.id, acts, i - n) is None);
                assert(action_ids(r.actions)[j] == all[j].id);
            }
        }
    }
    assert forall|i: int| 0 <= i < all.len() implies plugin_ids(ps).contains(
        #[trigger] all[i].plugin_id,
    ) by {
        if i < r.actions.len() {
            let k = choose|k: int|
                0 <= k < plugin_ids(r.plugins).len() && plugin_ids(r.plugins)[k] == r.actions[i].plugin_id;
            assert(plugin_ids(ps)[k] == all[i].plugin_id);
        } else {
            assert(action_problem(r.actions, plugin.id, acts, i - r.actions.len()) is None);
            assert(plugin_ids(ps)[r.plugins.len() as int] == plugin.id);
        }
    }
}

impl<H> PluginRegistry<H> {
    /// Registers a package and its actions, all or nothing. Fails, leaving
    /// the registry as it was, on an empty plugin name, a plugin already
    /// registered, or the first action that belongs to another plugin, has
    /// an empty name or reuses a registered or repeated action ID.
    /// Otherwise the plugin and its actions are appended, the generation
    /// goes up by one and `PackageRegistered` is recorded.
    pub fn register_package(&mut self, descriptor: PluginDescriptor, actions: Vec<(ActionDescriptor, H)>) -> (r:
        Result<u64, RegistryError>)
        requires
            old(self).well_formed(),
        ensures
            final(self).well_formed(),
            match registration_problem(
                old(self)@.plugins,
                old(self)@.actions,
                descriptor@,
                entries_descriptors(actions@),
            ) {
                Some(e) => r matches Err(x) && x@ == e && final(self)@ == old(self)@
                    && final(self).events() == old(self).events() && final(self).handlers()
                    == old(self).handlers(),
                None => r == Ok::<u64, RegistryError>(next_generation(old(self)@.generation))
                    && final(self)@ == (RegistryView {
                    generation: next_generation(old(self)@.generation),
                    plugins: old(self)@.plugins.push(descriptor@),
                    actions: old(self)@.actions + entries_descriptors(actions@),
                }) && final(self).events() == old(self).events().push(
                    RegistryEventView::PackageRegistered {
                        plugin_id: descriptor@.id,
                        generation: next_generation(old(self)@.generation),
                    },
                ) && final(self).handlers() == old(self).handlers() + actions@.map_values(
                    |e: (ActionDescriptor, H)| e.1,
                ),
            },
    {
        let name = trim_str(descriptor.display_name());
        if name.as_str().unicode_len() == 0 {
            return Err(RegistryError::EmptyPluginName);
        }
        if self.has_plugin(descriptor.id()) {
            return Err(RegistryError::DuplicatePlugin(descriptor.id().clone()));
        }
        let ghost acts = entries_descriptors(actions@);
        let ghost st = self@;
        let mut k: usize = 0;
        while k < actions.len()
            invariant
                k <= actions.len(),
                acts == entries_descriptors(actions@),
                st == self@,
                st == old(self)@,
                self.well_formed(),
                self.events() == old(self).events(),
                self.handlers() == old(self).handlers(),
                trim(descriptor@.display_name).len() != 0,
                !plugin_ids(st.plugins).contains(descriptor@.id),
                forall|m: int|
                    0 <= m < k ==> (#[trigger] action_problem(st.actions, descriptor@.id, acts, m))
                        is None,
            decreases actions.len() - k,
        {
            let a = &actions[k].0;
            assert(acts[k as int] == a@);
            if !a.plugin_id().same(descriptor.id()) {
                proof {
                    lemma_first_problem_skip(st.actions, descriptor@.id, acts, 0, k as int);
                }
                return Err(
                    RegistryError::ActionOwnership {
                        action: a.id().clone(),
                        expected: descriptor.id().clone(),
                        actual: a.plugin_id().clone(),
                    },
                );
            }
            let action_name = trim_str(a.display_name());
            if action_name.as_str().unicode_len() == 0 {
                proof {
                    lemma_first_problem_skip(st.actions, descriptor@.id, acts, 0, k as int);
                }
                return Err(RegistryError::EmptyActionName);
            }
            if self.has_action(a.id()) || used_before(&actions, k, a.id()) {
                proof {
                    lemma_first_problem_skip(st.actions, descriptor@.id, acts, 0, k as int);
                }
                return Err(RegistryError::DuplicateAction(a.id().clone()));
            }
            k += 1;
        }
        proof {
            lemma_first_problem_skip(st.actions, descriptor@.id, acts, 0, k as int);
            lemma_register_ok(st, descriptor@, acts, next_generation(st.generation));
        }
        let plugin_id = descriptor.id().clone();
        let ghost old_handlers = self.handlers();
        let ghost old_events = self.events();
        self.plugins.push(descriptor);
        let mut added = actions;
        let ghost added_view = added@;
        self.actions.append(&mut added);
        self.generation = self.generation.saturating_add(1);
        let generation = self.generation;
        let event = RegistryEvent::PackageRegistered { plugin_id, generation };
        self.events.push(event);
        proof {
            assert(plugins_view(self.plugins@) =~= st.plugins.push(self.plugins@.last()@));
            assert(entries_descriptors(self.actions@) =~= st.actions + acts);
            assert(self.events() =~= old_events.push(event@));
            assert(self.handlers() =~= old_handlers + added_view.map_values(
                |e: (ActionDescriptor, H)| e.1,
            ));
        }
        Ok(generation)
    }
}

/// The registered actions with their handlers.
pub open spec fn entries_view<H>(a: Seq<(ActionDescriptor, H)>) -> Seq<(DescriptorView, H)> {
    a.map_values(|e: (ActionDescriptor, H)| (e.0@, e.1))
}

/// The registered actions and handlers that do not belong to `pid`.
pub open spec fn entries_without<H>(a: Seq<(DescriptorView, H)>, pid: Seq<char>) -> Seq<(DescriptorView, H)> {
    a.filter(|e: (DescriptorView, H)| e.0.plugin_id != pid)
}

/// Dropping a plugin's entries from a list grown by one entry.
proof fn lemma_entries_without_push<H>(s: Seq<(DescriptorView, H)>, x: (DescriptorView, H), pid: Seq<char>)
    ensures
        entries_without(s.push(x), pid) == if x.0.plugin_id != pid {
            entries_without(s, pid).push(x)
        } else {
            entries_without(s, pid)
        },
{
    reveal(Seq::filter);
    assert(s.push(x).drop_last() =~= s);
}

/// Filtering a list whose keys are unique leaves keys that are unique.
proof fn lemma_filter_keys_unique<A>(s: Seq<A>, key: spec_fn(A) -> Seq<char>, pred: spec_fn(A) -> bool)
    requires
        s.map_values(key).no_duplicates(),
    ensures
        s.filter(pred).map_values(key).no_duplicates(),
    decreases s.len(),
{
    reveal(Seq::filter);
    if s.len() > 0 {
        let t = s.drop_last();
        let n = s.len() - 1;
        assert forall|i: int, j: int|
            0 <= i < t.map_values(key).len() && 0 <= j < t.map_values(key).len() && i != j implies t.map_values(
            key,
        )[i] != t.map_values(key)[j] by {
            assert(s.map_values(key)[i] == t.map_values(key)[i]);
            assert(s.map_values(key)[j] == t.map_values(key)[j]);
        }
        lemma_filter_keys_unique(t, key, pred);
        let f = t.filter(pred);
        if pred(s.last()) {
            assert(s.filter(pred) == f.push(s.last()));
            assert forall|i: int| 0 <= i < f.len() implies key(#[trigger] f[i]) != key(s.last()) by {
                assert(f.contains(f[i]));
                t.lemma_filter_contains_rev(pred, f[i]);
                let j = choose|j: int| 0 <= j < t.len() && t[j] == f[i];
                assert(s.map_values(key)[j] == key(f[i]));
                assert(s.map_values(key)[n] == key(s.last()));
            }
            let fm = s.filter(pred).map_values(key);
            assert forall|i: int, j: int|
                0 <= i < fm.len() && 0 <= j < fm.len() && i != j implies fm[i] != fm[j] by {
                if i < f.len() && j < f.len() {
                    assert(fm[i] == f.map_values(key)[i]);
                    assert(fm[j] == f.map_values(key)[j]);
                } else if i == f.len() {
                    assert(fm[j] == key(f[j]));
                } else {
                    assert(fm[i] == key(f[i]));
                }
            }
        }
    }
}

/// An element that passes the filter stays.
proof fn lemma_filter_keeps<A>(s: Seq<A>, pred: spec_fn(A) -> bool, k: int)
    requires
        0 <= k < s.len(),
        pred(s[k]),
    ensures
        s.filter(pred).contains(s[k]),
{
    s.lemma_filter_contains(pred, k);
}

/// The key of a plugin.
pub open spec fn plugin_key() -> spec_fn(PluginView) -> Seq<char> {
    |d: PluginView| d.id
}

/// The key of an action.
pub open spec fn action_key() -> spec_fn(DescriptorView) -> Seq<char> {
    |d: DescriptorView| d.id
}

/// Removing a plugin and its actions keeps the registry's invariant.
proof fn lemma_remove_ok(r: RegistryView, pid: Seq<char>, g: u64)
    requires
        registry_ok(r),
    ensures
        registry_ok(
            RegistryView {
                generation: g,
                plugins: plugins_without(r.plugins, pid),
                actions: actions_without(r.actions, pid),
            },
        ),
{
    let ppred = |d: PluginView| d.id != pid;
    let apred = |d: DescriptorView| d.plugin_id != pid;
    let ps = plugins_without(r.plugins, pid);
    let acts = actions_without(r.actions, pid);
    assert(ps == r.plugins.filter(ppred));
    assert(acts == r.actions.filter(apred));
    assert(plugin_ids(r.plugins) =~= r.plugins.map_values(plugin_key()));
    assert(action_ids(r.actions) =~= r.actions.map_values(action_key()));
    lemma_filter_keys_unique(r.plugins, plugin_key(), ppred);
    lemma_filter_keys_unique(r.actions, action_key(), apred);
    assert(plugin_ids(ps) =~= ps.map_values(plugin_key()));
    assert(action_ids(acts) =~= acts.map_values(action_key()));
    assert forall|i: int| 0 <= i < acts.len() implies plugin_ids(ps).contains(
        #[trigger] acts[i].plugin_id,
    ) by {
        assert(acts.contains(acts[i]));
        r.actions.lemma_filter_contains_rev(apred, acts[i]);
        r.actions.filter_lemma(apred);
        let a = choose|a: int| 0 <= a < r.actions.len() && r.actions[a] == acts[i];
        assert(plugin_ids(r.plugins).contains(r.actions[a].plugin_id));
        let k = choose|k: int|
            0 <= k < plugin_ids(r.plugins).len() && plugin_ids(r.plugins)[k] == r.actions[a].plugin_id;
        assert(apred(acts[i]));
        lemma_filter_keeps(r.plugins, ppred, k);
        let m = choose|m: int| 0 <= m < ps.len() && ps[m] == r.plugins[k];
        assert(plugin_ids(ps)[m] == acts[i].plugin_id);
    }
}

impl<H> PluginRegistry<H> {
    /// The registered actions with their handlers.
    pub closed spec fn entries(&self) -> Seq<(DescriptorView, H)> {
        entries_view(self.actions@)
    }

    /// Removes a plugin and exactly its actions. Returns `false`, changing
    /// nothing, when no plugin with that ID is registered; otherwise the
    /// generation goes up by one and `PackageRemoved` is recorded.
    pub fn remove_package(&mut self, plugin_id: &PluginId) -> (r: bool)
        requires
            old(self).well_formed(),
        ensures
            final(self).well_formed(),
            r == plugin_ids(old(self)@.plugins).contains(plugin_id@),
            !r ==> final(self)@ == old(self)@ && final(self).events() == old(self).events()
                && final(self).entries() == old(self).entries(),
            r ==> final(self)@ == (RegistryView {
                generation: next_generation(old(self)@.generation),
                plugins: plugins_without(old(self)@.plugins, plugin_id@),
                actions: actions_without(old(self)@.actions, plugin_id@),
            }) && final(self).events() == old(self).events().push(
                RegistryEventView::PackageRemoved {
                    plugin_id: plugin_id@,
                    generation: next_generation(old(self)@.generation),
                },
            ) && final(self).entries() == entries_without(old(self).entries(), plugin_id@),
    {
        if !self.has_plugin(plugin_id) {
            return false;
        }
        let ghost st = self@;
        let ghost old_entries = self.entries();
        let ghost old_events = self.events();
        let ghost pid = plugin_id@;
        let mut rest_plugins: Vec<PluginDescriptor> = Vec::new();
        std::mem::swap(&mut rest_plugins, &mut self.plugins);
        let ghost all_plugins = rest_plugins@;
        assert(all_plugins.len() == rest_plugins.len());
        let mut kept_plugins: Vec<PluginDescriptor> = Vec::new();
        let mut i: usize = 0;
        assert(plugins_view(all_plugins).take(0) =~= Seq::<PluginView>::empty());
        assert(plugins_view(kept_plugins@) =~= Seq::<PluginView>::empty());
        while rest_plugins.len() > 0
            invariant
                i + rest_plugins@.len() == all_plugins.len(),
                all_plugins.len() <= usize::MAX,
                rest_plugins@ == all_plugins.skip(i as int),
                plugins_view(kept_plugins@) == plugins_without(
                    plugins_view(all_plugins).take(i as int),
                    pid,
                ),
                pid == plugin_id@,
            decreases rest_plugins.len(),
        {
            let d = rest_plugins.remove(0);
            assert(d == all_plugins[i as int]);
            proof {
                let pv = plugins_view(all_plugins);
                assert(pv.take(i + 1) =~= pv.take(i as int).push(d@));
                lemma_plugins_without_push(pv.take(i as int), d@, pid);
            }
            if !d.id().same(plugin_id) {
                let ghost before = kept_plugins@;
                kept_plugins.push(d);
                assert(plugins_view(kept_plugins@) =~= plugins_view(before).push(d@));
            }
            i += 1;
            assert(rest_plugins@ =~= all_plugins.skip(i as int));
        }
        assert(plugins_view(all_plugins).take(i as int) =~= plugins_view(all_plugins));
        self.plugins = kept_plugins;
        let mut rest: Vec<(ActionDescriptor, H)> = Vec::new();
        std::mem::swap(&mut rest, &mut self.actions);
        let ghost all = rest@;
        assert(all.len() == rest.len());
        let mut kept: Vec<(ActionDescriptor, H)> = Vec::new();
        let mut k: usize = 0;
        assert(entries_view(all).take(0) =~= Seq::<(DescriptorView, H)>::empty());
        assert(entries_descriptors(all).take(0) =~= Seq::<DescriptorView>::empty());
        assert(entries_view(kept@) =~= Seq::<(DescriptorView, H)>::empty());
        assert(entries_descriptors(kept@) =~= Seq::<DescriptorView>::empty());
        while rest.len() > 0
            invariant
                k + rest@.len() == all.len(),
                all.len() <= usize::MAX,
                rest@ == all.skip(k as int),
                entries_view(kept@) == entries_without(entries_view(all).take(k as int), pid),
                entries_descriptors(kept@) == actions_without(
                    entries_descriptors(all).take(k as int),
                    pid,
                ),
                pid == plugin_id@,
            decreases rest.len(),
        {
            let e = rest.remove(0);
            assert(e == all[k as int]);
            proof {
                let ev = entries_view(all);
                let dv = entries_descriptors(all);
                assert(ev.take(k + 1) =~= ev.take(k as int).push((e.0@, e.1)));
                assert(dv.take(k + 1) =~= dv.take(k as int).push(e.0@));
                lemma_entries_without_push(ev.take(k as int), (e.0@, e.1), pid);
                lemma_actions_without_push(dv.take(k as int), e.0@, pid);
            }
            if !e.0.plugin_id().same(plugin_id) {
                let ghost before = kept@;
                kept.push(e);
                assert(entries_view(kept@) =~= entries_view(before).push((e.0@, e.1)));
                assert(entries_descriptors(kept@) =~= entries_descriptors(before).push(e.0@));
            }
            k += 1;
            assert(rest@ =~= all.skip(k as int));
        }
        assert(entries_view(all).take(k as int) =~= entries_view(all));
        assert(entries_descriptors(all).take(k as int) =~= entries_descriptors(all));
        self.actions = kept;
        self.generation = self.generation.saturating_add(1);
        let event = RegistryEvent::PackageRemoved {
            plugin_id: plugin_id.clone(),
            generation: self.generation,
        };
        self.events.push(event);
        proof {
            lemma_remove_ok(st, pid, self.generation);
            assert(self.events() =~= old_events.push(event@));
        }
        true
    }
}

/// Registering a package and then removing it gives back the plugins and
/// the actions the registry had before (its generation has moved on by
/// two changes).
pub proof fn registry_remove_undoes_register(
    before: RegistryView,
    plugin: PluginView,
    acts: Seq<DescriptorView>,
)
    requires
        registry_ok(before),
        registration_problem(before.plugins, before.actions, plugin, acts) is None,
    ensures
        plugins_without(before.plugins.push(plugin), plugin.id) == before.plugins,
        actions_without(before.actions + acts, plugin.id) == before.actions,
{
    lemma_no_problem(before.actions, plugin.id, acts, 0);
    lemma_plugins_without_push(before.plugins, plugin, plugin.id);
    lemma_plugins_without_none(before.plugins, plugin.id);
    lemma_actions_without_absent(before.actions, plugin.id, before.plugins);
    assert forall|i: int| 0 <= i < acts.len() implies (#[trigger] acts[i]).plugin_id == plugin.id by {
        assert(action_problem(before.actions, plugin.id, acts, i) is None);
    }
    lemma_actions_without_owned(before.actions, acts, plugin.id);
}

/// Filtering out an ID that no plugin has keeps every plugin.
proof fn lemma_plugins_without_none(s: Seq<PluginView>, pid: Seq<char>)
    requires
        !plugin_ids(s).contains(pid),
    ensures
        plugins_without(s, pid) == s,
    decreases s.len(),
{
    if s.len() > 0 {
        let t = s.drop_last();
        assert(t.push(s.last()) =~= s);
        assert(!plugin_ids(t).contains(pid)) by {
            if plugin_ids(t).contains(pid) {
                let j = choose|j: int| 0 <= j < plugin_ids(t).len() && plugin_ids(t)[j] == pid;
                assert(plugin_ids(s)[j] == pid);
            }
        }
        assert(plugin_ids(s)[s.len() - 1] == s.last().id);
        lemma_plugins_without_none(t, pid);
        lemma_plugins_without_push(t, s.last(), pid);
    }
}

/// Actions that all belong to registered plugins survive filtering out an
/// unregistered ID.
proof fn lemma_actions_without_absent(s: Seq<DescriptorView>, pid: Seq<char>, plugins: Seq<PluginView>)
    requires
        !plugin_ids(plugins).contains(pid),
        forall|i: int| 0 <= i < s.len() ==> plugin_ids(plugins).contains(#[trigger] s[i].plugin_id),
    ensures
        actions_without(s, pid) == s,
    decreases s.len(),
{
    if s.len() > 0 {
        let t = s.drop_last();
        assert(t.push(s.last()) =~= s);
        assert forall|i: int| 0 <= i < t.len() implies plugin_ids(plugins).contains(
            #[trigger] t[i].plugin_id,
        ) by {
            assert(t[i] == s[i]);
        }
        assert(plugin_ids(plugins).contains(s[s.len() - 1].plugin_id));
        lemma_actions_without_absent(t, pid, plugins);
        lemma_actions_without_push(t, s.last(), pid);
    }
}

/// Appending actions that all belong to `pid` and then filtering `pid`
/// out gives back the list before them.
proof fn lemma_actions_without_owned(s: Seq<DescriptorView>, acts: Seq<DescriptorView>, pid: Seq<char>)
    requires
        actions_without(s, pid) == s,
        forall|i: int| 0 <= i < acts.len() ==> (#[trigger] acts[i]).plugin_id == pid,
    ensures
        actions_without(s + acts, pid) == s,
    decreases acts.len(),
{
    if acts.len() > 0 {
        let t = acts.drop_last();
        assert forall|i: int| 0 <= i < t.len() implies (#[trigger] t[i]).plugin_id == pid by {
            assert(t[i] == acts[i]);
        }
        lemma_actions_without_owned(s, t, pid);
        assert((s + t).push(acts.last()) =~= s + acts);
        assert(acts[acts.len() - 1].plugin_id == pid);
        lemma_actions_without_push(s + t, acts.last(), pid);
    }
}

/// The grants that a list of `(plugin, capabilities)` entries records: for
/// each plugin, the capabilities of its last entry.
pub open spec fn grants_map(e: Seq<(Seq<char>, Seq<Capability>)>) -> Map<Seq<char>, Set<Capability>>
    decreases e.len(),
{
    if e.len() == 0 {
        Map::empty()
    } else {
        grants_map(e.drop_last()).insert(e.last().0, e.last().1.to_set())
    }
}

/// The index of the last entry for `k`.
pub open spec fn last_entry_for(e: Seq<(Seq<char>, Seq<Capability>)>, k: Seq<char>) -> Option<int>
    decreases e.len(),
{
    if e.len() == 0 {
        None
    } else if e.last().0 == k {
        Some(e.len() - 1)
    } else {
        last_entry_for(e.drop_last(), k)
    }
}

/// A plugin's grants are those of its last entry.
proof fn lemma_grants_lookup(e: Seq<(Seq<char>, Seq<Capability>)>, k: Seq<char>)
    ensures
        match last_entry_for(e, k) {
            Some(i) => 0 <= i < e.len() && e[i].0 == k && grants_map(e).contains_key(k)
                && grants_map(e)[k] == e[i].1.to_set(),
            None => !grants_map(e).contains_key(k),
        },
    decreases e.len(),
{
    if e.len() > 0 && e.last().0 != k {
        lemma_grants_lookup(e.drop_last(), k);
    }
}

/// The entries not for `k`.
pub open spec fn entries_not_for(e: Seq<(Seq<char>, Seq<Capability>)>, k: Seq<char>) -> Seq<
    (Seq<char>, Seq<Capability>),
> {
    e.filter(|x: (Seq<char>, Seq<Capability>)| x.0 != k)
}

/// Dropping the entries for `k` drops `k` from the grants.
proof fn lemma_grants_without(e: Seq<(Seq<char>, Seq<Capability>)>, k: Seq<char>)
    ensures
        grants_map(entries_not_for(e, k)) == grants_map(e).remove(k),
    decreases e.len(),
{
    reveal(Seq::filter);
    if e.len() == 0 {
        assert(grants_map(e).remove(k) =~= Map::<Seq<char>, Set<Capability>>::empty());
    } else {
        let t = e.drop_last();
        lemma_grants_without(t, k);
        let ft = entries_not_for(t, k);
        if e.last().0 == k {
            assert(entries_not_for(e, k) == ft);
            assert(grants_map(e).remove(k) =~= grants_map(t).remove(k));
        } else {
            assert(entries_not_for(e, k) == ft.push(e.last()));
            assert(ft.push(e.last()).drop_last() =~= ft);
            assert(grants_map(e).remove(k) =~= grants_map(t).remove(k).insert(
                e.last().0,
                e.last().1.to_set(),
            ));
        }
    }
}

/// The model of a list of grant entries.
pub open spec fn grant_entries_view(e: Seq<(PluginId, Vec<Capability>)>) -> Seq<(Seq<char>, Seq<Capability>)> {
    e.map_values(|x: (PluginId, Vec<Capability>)| (x.0@, x.1@))
}

/// The capabilities each plugin was granted.
pub struct CapabilityAuthority {
    grants: Vec<(PluginId, Vec<Capability>)>,
}

impl View for CapabilityAuthority {
    type V = Map<Seq<char>, Set<Capability>>;

    closed spec fn view(&self) -> Map<Seq<char>, Set<Capability>> {
        grants_map(grant_entries_view(self.grants@))
    }
}

impl CapabilityAuthority {
    /// An authority that has granted nothing.
    pub fn new() -> (r: Self)
        ensures
            r@ == Map::<Seq<char>, Set<Capability>>::empty(),
    {
        let r = CapabilityAuthority { grants: Vec::new() };
        assert(grant_entries_view(r.grants@) =~= Seq::<(Seq<char>, Seq<Capability>)>::empty());
        r
    }

    /// Replaces everything `plugin` was granted with `grants`.
    pub fn replace_grants(&mut self, plugin: PluginId, grants: Vec<Capability>)
        ensures
            final(self)@ == old(self)@.insert(plugin@, grants@.to_set()),
    {
        let ghost before = grant_entries_view(self.grants@);
        let mut rest: Vec<(PluginId, Vec<Capability>)> = Vec::new();
        std::mem::swap(&mut rest, &mut self.grants);
        let ghost all = rest@;
        assert(all.len() == rest.len());
        let mut kept: Vec<(PluginId, Vec<Capability>)> = Vec::new();
        let mut i: usize = 0;
        assert(grant_entries_view(all).take(0) =~= Seq::<(Seq<char>, Seq<Capability>)>::empty());
        assert(grant_entries_view(kept@) =~= Seq::<(Seq<char>, Seq<Capability>)>::empty());
        proof {
            reveal(Seq::filter);
        }
        while rest.len() > 0
            invariant
                i + rest@.len() == all.len(),
                all.len() <= usize::MAX,
                rest@ == all.skip(i as int),
                grant_entries_view(kept@) == entries_not_for(grant_entries_view(all).take(i as int), plugin@),
            decreases rest.len(),
        {
            let e = rest.remove(0);
            assert(e == all[i as int]);
            proof {
                let ev = grant_entries_view(all);
                assert(ev.take(i + 1) =~= ev.take(i as int).push((e.0@, e.1@)));
                reveal(Seq::filter);
                assert(ev.take(i + 1).drop_last() =~= ev.take(i as int));
            }
            if !e.0.same(&plugin) {
                let ghost k0 = kept@;
                kept.push(e);
                assert(grant_entries_view(kept@) =~= grant_entries_view(k0).push((e.0@, e.1@)));
            }
            i += 1;
            assert(rest@ =~= all.skip(i as int));
        }
        assert(grant_entries_view(all).take(i as int) =~= grant_entries_view(all));
        proof {
            lemma_grants_without(before, plugin@);
        }
        let ghost k1 = kept@;
        let ghost pv = plugin@;
        let ghost gv = grants@;
        kept.push((plugin, grants));
        assert(grant_entries_view(kept@) =~= grant_entries_view(k1).push((pv, gv)));
        assert(grant_entries_view(kept@).drop_last() =~= grant_entries_view(k1));
        self.grants = kept;
        assert(self@ =~= grants_map(before).insert(pv, gv.to_set()));
    }

    /// Whether `plugin` was granted `capability`.
    pub fn is_granted(&self, plugin: &PluginId, capability: Capability) -> (r: bool)
        ensures
            r == (self@.contains_key(plugin@) && self@[plugin@].contains(capability)),
    {
        let ghost ev = grant_entries_view(self.grants@);
        proof {
            lemma_grants_lookup(ev, plugin@);
        }
        let mut j: usize = self.grants.len();
        assert(ev.take(j as int) =~= ev);
        while j > 0
            invariant
                j <= self.grants.len(),
                ev == grant_entries_view(self.grants@),
                self@ == grants_map(ev),
                match last_entry_for(ev, plugin@) {
                    Some(i) => 0 <= i < ev.len() && ev[i].0 == plugin@ && grants_map(ev).contains_key(
                        plugin@,
                    ) && grants_map(ev)[plugin@] == ev[i].1.to_set(),
                    None => !grants_map(ev).contains_key(plugin@),
                },
                last_entry_for(ev, plugin@) == last_entry_for(ev.take(j as int), plugin@),
            decreases j,
        {
            let ghost t = ev.take(j as int);
            assert(t.last() == ev[j - 1]);
            if self.grants[j - 1].0.same(plugin) {
                let caps = &self.grants[j - 1].1;
                assert(ev[j - 1] == (self.grants@[j - 1].0@, caps@));
                let mut k: usize = 0;
                while k < caps.len()
                    invariant
                        k <= caps.len(),
                        self@.contains_key(plugin@) && self@[plugin@] == caps@.to_set(),
                        forall|m: int| 0 <= m < k ==> caps@[m] != capability,
                    decreases caps.len() - k,
                {
                    if caps[k] == capability {
                        assert(caps@.to_set().contains(caps@[k as int]));
                        return true;
                    }
                    k += 1;
                }
                assert(!caps@.to_set().contains(capability)) by {
                    if caps@.to_set().contains(capability) {
                        assert(caps@.contains(capability));
                    }
                }
                return false;
            }
            assert(t.drop_last() =~= ev.take(j - 1));
            j -= 1;
        }
        assert(ev.take(0) =~= Seq::<(Seq<char>, Seq<Capability>)>::empty());
        false
    }

    /// Forgets everything `plugin` was granted.
    pub fn revoke(&mut self, plugin: &PluginId)
        ensures
            final(self)@ == old(self)@.remove(plugin@),
    {
        let ghost before = grant_entries_view(self.grants@);
        let mut rest: Vec<(PluginId, Vec<Capability>)> = Vec::new();
        std::mem::swap(&mut rest, &mut self.grants);
        let ghost all = rest@;
        assert(all.len() == rest.len());
        let mut kept: Vec<(PluginId, Vec<Capability>)> = Vec::new();
        let mut i: usize = 0;
        assert(grant_entries_view(all).take(0) =~= Seq::<(Seq<char>, Seq<Capability>)>::empty());
        assert(grant_entries_view(kept@) =~= Seq::<(Seq<char>, Seq<Capability>)>::empty());
        proof {
            reveal(Seq::filter);
        }
        while rest.len() > 0
            invariant
                i + rest@.len() == all.len(),
                all.len() <= usize::MAX,
                rest@ == all.skip(i as int),
                grant_entries_view(kept@) == entries_not_for(grant_entries_view(all).take(i as int), plugin@),
            decreases rest.len(),
        {
            let e = rest.remove(0);
            assert(e == all[i as int]);
            proof {
                let ev = grant_entries_view(all);
                assert(ev.take(i + 1) =~= ev.take(i as int).push((e.0@, e.1@)));
                reveal(Seq::filter);
                assert(ev.take(i + 1).drop_last() =~= ev.take(i as int));
            }
            if !e.0.same(plugin) {
                let ghost k0 = kept@;
                kept.push(e);
                assert(grant_entries_view(kept@) =~= grant_entries_view(k0).push((e.0@, e.1@)));
            }
            i += 1;
            assert(rest@ =~= all.skip(i as int));
        }
        assert(grant_entries_view(all).take(i as int) =~= grant_entries_view(all));
        proof {
            lemma_grants_without(before, plugin@);
        }
        self.grants = kept;
    }
}

/// What `is_granted` answers after `replace_grants(p, g)`: for `p`, exactly
/// the capabilities of `g`; for any other plugin, what it answered before.
pub proof fn grants_read_after_replace(
    before: Map<Seq<char>, Set<Capability>>,
    p: Seq<char>,
    g: Seq<Capability>,
    q: Seq<char>,
    c: Capability,
)
    ensures
        ({
            let after = before.insert(p, g.to_set());
            &&& (after.contains_key(p) && after[p].contains(c)) == g.contains(c)
            &&& q != p ==> (after.contains_key(q) && after[q].contains(c)) == (before.contains_key(q)
                && before[q].contains(c))
        }),
{
    if g.to_set().contains(c) {
        assert(g.contains(c));
    }
    if g.contains(c) {
        assert(g.to_set().contains(c));
    }
}

/// After `revoke(p)`, `p` is granted nothing and other plugins keep what
/// they had.
pub proof fn grants_after_revoke(
    before: Map<Seq<char>, Set<Capability>>,
    p: Seq<char>,
    q: Seq<char>,
    c: Capability,
)
    ensures
        ({
            let after = before.remove(p);
            &&& !(after.contains_key(p) && after[p].contains(c))
            &&& q != p ==> (after.contains_key(q) && after[q].contains(c)) == (before.contains_key(q)
                && before[q].contains(c))
        }),
{
}

impl<H> Default for PluginRegistry<H> {
    fn default() -> (r: Self)
        ensures
            r@ == (RegistryView {
                generation: 0,
                plugins: Seq::empty(),
                actions: Seq::empty(),
            }),
            r.well_formed(),
    {
        PluginRegistry::new()
    }
}

impl Default for CapabilityAuthority {
    fn default() -> (r: Self)
        ensures
            r@ == Map::<Seq<char>, Set<Capability>>::empty(),
    {
        CapabilityAuthority::new()
    }
}

} // verus!
