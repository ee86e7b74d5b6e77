//! Plugin and action descriptors: what a package declares and what the host
//! shows and runs.
use vstd::prelude::*;

use crate::context::{ContextToken, InputSource};
use crate::plugin::{ActionId, Capability, PluginId, QualifiedActionId};
use crate::provider::{copy_opt, copy_strings, opt_view, strings_view};
use crate::settings::DismissPolicy;
use crate::text::{concat, copy_string};

verus! {

/// The kind of value an action parameter takes.
#[derive(Clone, Copy, Debug, PartialEq, Eq, Structural)]
pub enum ParameterKind {
    Text,
    Enum,
    Boolean,
    Number,
}

/// The model of an action parameter.
pub struct ParameterView {
    pub key: Seq<char>,
    pub label: Seq<char>,
    pub kind: ParameterKind,
    pub required: bool,
    pub default_value: Option<Seq<char>>,
    pub choices: Seq<Seq<char>>,
}

/// A parameter an action accepts.
#[derive(Debug)]
pub struct ActionParameter {
    pub key: String,
    pub label: String,
    pub kind: ParameterKind,
    pub required: bool,
    pub default_value: Option<String>,
    pub choices: Vec<String>,
}

impl View for ActionParameter {
    type V = ParameterView;

    open spec fn view(&self) -> ParameterView {
        ParameterView {
            key: self.key@,
            label: self.label@,
            kind: self.kind,
            required: self.required,
            default_value: opt_view(self.default_value),
            choices: strings_view(self.choices@),
        }
    }
}

impl Clone for ActionParameter {
    fn clone(&self) -> (r: Self)
        ensures
            r@ == self@,
    {
        ActionParameter {
            key: copy_string(&self.key),
            label: copy_string(&self.label),
            kind: self.kind,
            required: self.required,
            default_value: copy_opt(&self.default_value),
            choices: copy_strings(&self.choices),
        }
    }
}

/// The models of a list of parameters.
pub open spec fn parameters_view(p: Seq<ActionParameter>) -> Seq<ParameterView> {
    p.map_values(|x: ActionParameter| x@)
}

/// Copies a list of parameters.
pub fn copy_parameters(p: &Vec<ActionParameter>) -> (r: Vec<ActionParameter>)
    ensures
        parameters_view(r@) == parameters_view(p@),
{
    let mut r: Vec<ActionParameter> = Vec::new();
    let mut i: usize = 0;
    while i < p.len()
        invariant
            i <= p.len(),
            r@.len() == i,
            forall|j: int| 0 <= j < i ==> (#[trigger] r@[j])@ == p@[j]@,
        decreases p.len() - i,
    {
        r.push(p[i].clone());
        i += 1;
    }
    assert(parameters_view(r@) =~= parameters_view(p@));
    r
}

/// What the user may do with an action's output.
#[derive(Clone, Copy, Debug, PartialEq, Eq, Structural)]
pub struct ActionOutputPolicy {
    pub allow_copy: bool,
    pub allow_favorite: bool,
    pub allow_replace: bool,
}

/// Where an action's input may come from.
#[derive(Clone, Copy, Debug, PartialEq, Eq, Structural)]
pub enum ActionInputSource {
    Selection,
    Manual,
    Clipboard,
}

/// Copies a list of input sources.
pub fn copy_sources(s: &Vec<ActionInputSource>) -> (r: Vec<ActionInputSource>)
    ensures
        r@ == s@,
{
    let mut r: Vec<ActionInputSource> = Vec::new();
    let mut i: usize = 0;
    while i < s.len()
        invariant
            i <= s.len(),
            r@ == s@.take(i as int),
        decreases s.len() - i,
    {
        r.push(s[i]);
        proof {
            assert(r@ =~= s@.take(i + 1));
        }
        i += 1;
    }
    assert(s@.take(s.len() as int) =~= s@);
    r
}

/// The model of a text action definition, declarative or scripted: the
/// prompt or handler, then the parameters, sources, dismiss policy and
/// output policy.
pub struct DefinitionView {
    pub body: Seq<char>,
    pub parameters: Seq<ParameterView>,
    pub allowed_sources: Seq<ActionInputSource>,
    pub dismiss_policy: DismissPolicy,
    pub output: ActionOutputPolicy,
}

/// A text action whose behaviour is a prompt sent to the model.
#[derive(Debug)]
pub struct DeclarativeActionDefinition {
    pub prompt: String,
    pub parameters: Vec<ActionParameter>,
    pub allowed_sources: Vec<ActionInputSource>,
    pub dismiss_policy: DismissPolicy,
    pub output: ActionOutputPolicy,
}

impl View for DeclarativeActionDefinition {
    type V = DefinitionView;

    open spec fn view(&self) -> DefinitionView {
        DefinitionView {
            body: self.prompt@,
            parameters: parameters_view(self.parameters@),
            allowed_sources: self.allowed_sources@,
            dismiss_policy: self.dismiss_policy,
            output: self.output,
        }
    }
}

impl Clone for DeclarativeActionDefinition {
    fn clone(&self) -> (r: Self)
        ensures
            r@ == self@,
    {
        DeclarativeActionDefinition {
            prompt: copy_string(&self.prompt),
            parameters: copy_parameters(&self.parameters),
            allowed_sources: copy_sources(&self.allowed_sources),
            dismiss_policy: self.dismiss_policy,
            output: self.output,
        }
    }
}

/// A text action whose behaviour is an exported script function.
#[derive(Debug)]
pub struct ScriptActionDefinition {
    pub handler: String,
    pub parameters: Vec<ActionParameter>,
    pub allowed_sources: Vec<ActionInputSource>,
    pub dismiss_policy: DismissPolicy,
    pub output: ActionOutputPolicy,
}

impl View for ScriptActionDefinition {
    type V = DefinitionView;

    open spec fn view(&self) -> DefinitionView {
        DefinitionView {
            body: self.handler@,
            parameters: parameters_view(self.parameters@),
            allowed_sources: self.allowed_sources@,
            dismiss_policy: self.dismiss_policy,
            output: self.output,
        }
    }
}

impl Clone for ScriptActionDefinition {
    fn clone(&self) -> (r: Self)
        ensures
            r@ == self@,
    {
        ScriptActionDefinition {
            handler: copy_string(&self.handler),
            parameters: copy_parameters(&self.parameters),
            allowed_sources: copy_sources(&self.allowed_sources),
            dismiss_policy: self.dismiss_policy,
            output: self.output,
        }
    }
}

/// The model of an action's kind.
pub enum ActionKindView {
    Native,
    Declarative(DefinitionView),
    Script(DefinitionView),
}

/// How an action runs.
#[derive(Debug)]
pub enum ActionKind {
    Native,
    Declarative(DeclarativeActionDefinition),
    Script(ScriptActionDefinition),
}

impl View for ActionKind {
    type V = ActionKindView;

    open spec fn view(&self) -> ActionKindView {
        match self {
            ActionKind::Native => ActionKindView::Native,
            ActionKind::Declarative(d) => ActionKindView::Declarative(d@),
            ActionKind::Script(d) => ActionKindView::Script(d@),
        }
    }
}

impl Clone for ActionKind {
    fn clone(&self) -> (r: Self)
        ensures
            r@ == self@,
    {
        match self {
            ActionKind::Native => ActionKind::Native,
            ActionKind::Declarative(d) => ActionKind::Declarative(d.clone()),
            ActionKind::Script(d) => ActionKind::Script(d.clone()),
        }
    }
}

/// The text definition of a kind, if it is a text action.
pub open spec fn text_definition(k: ActionKindView) -> Option<DefinitionView> {
    match k {
        ActionKindView::Native => None,
        ActionKindView::Declarative(d) => Some(d),
        ActionKindView::Script(d) => Some(d),
    }
}

/// The model of an action descriptor.
pub struct DescriptorView {
    pub plugin_id: Seq<char>,
    pub id: Seq<char>,
    pub display_name: Seq<char>,
    pub kind: ActionKindView,
}

/// An action a plugin offers.
#[derive(Debug)]
pub struct ActionDescriptor {
    plugin_id: PluginId,
    id: ActionId,
    display_name: String,
    kind: ActionKind,
}

impl View for ActionDescriptor {
    type V = DescriptorView;

    closed spec fn view(&self) -> DescriptorView {
        DescriptorView {
            plugin_id: self.plugin_id@,
            id: self.id@,
            display_name: self.display_name@,
            kind: self.kind@,
        }
    }
}

impl Clone for ActionDescriptor {
    fn clone(&self) -> (r: Self)
        ensures
            r@ == self@,
    {
        ActionDescriptor {
            plugin_id: self.plugin_id.clone(),
            id: self.id.clone(),
            display_name: copy_string(&self.display_name),
            kind: self.kind.clone(),
        }
    }
}

impl ActionDescriptor {
    /// A native action, run by code of the host.
    pub fn new(plugin_id: PluginId, id: ActionId, display_name: String) -> (r: Self)
        ensures
            r@ == (DescriptorView {
                plugin_id: plugin_id@,
                id: id@,
                display_name: display_name@,
                kind: ActionKindView::Native,
            }),
    {
        ActionDescriptor { plugin_id, id, display_name, kind: ActionKind::Native }
    }

    /// A declarative text action.
    pub fn declarative(
        plugin_id: PluginId,
        id: ActionId,
        display_name: String,
        definition: DeclarativeActionDefinition,
    ) -> (r: Self)
        ensures
            r@ == (DescriptorView {
                plugin_id: plugin_id@,
                id: id@,
                display_name: display_name@,
                kind: ActionKindView::Declarative(definition@),
            }),
    {
        ActionDescriptor {
            plugin_id,
            id,
            display_name,
            kind: ActionKind::Declarative(definition),
        }
    }

    /// A scripted text action.
    pub fn script(
        plugin_id: PluginId,
        id: ActionId,
        display_name: String,
        definition: ScriptActionDefinition,
    ) -> (r: Self)
        ensures
            r@ == (DescriptorView {
                plugin_id: plugin_id@,
                id: id@,
                display_name: display_name@,
                kind: ActionKindView::Script(definition@),
            }),
    {
        ActionDescriptor { plugin_id, id, display_name, kind: ActionKind::Script(definition) }
    }

    /// The parameters of a text action; `None` for a native one.
    pub fn text_parameters(&self) -> (r: Option<&[ActionParameter]>)
        ensures
            match text_definition(self@.kind) {
                Some(d) => r matches Some(p) && parameters_view(p@) == d.parameters,
                None => r is None,
            },
    {
        match &self.kind {
            ActionKind::Declarative(definition) => Some(definition.parameters.as_slice()),
            ActionKind::Script(definition) => Some(definition.parameters.as_slice()),
            ActionKind::Native => None,
        }
    }

    /// The input sources of a text action; `None` for a native one.
    pub fn text_sources(&self) -> (r: Option<&[ActionInputSource]>)
        ensures
            match text_definition(self@.kind) {
                Some(d) => r matches Some(s) && s@ == d.allowed_sources,
                None => r is None,
            },
    {
        match &self.kind {
            ActionKind::Declarative(definition) => Some(definition.allowed_sources.as_slice()),
            ActionKind::Script(definition) => Some(definition.allowed_sources.as_slice()),
            ActionKind::Native => None,
        }
    }

    /// The output policy of a text action; `None` for a native one.
    pub fn text_output(&self) -> (r: Option<&ActionOutputPolicy>)
        ensures
            match text_definition(self@.kind) {
                Some(d) => r == Some(&d.output),
                None => r is None,
            },
    {
        match &self.kind {
            ActionKind::Declarative(definition) => Some(&definition.output),
            ActionKind::Script(definition) => Some(&definition.output),
            ActionKind::Native => None,
        }
    }

    /// The dismiss policy of a text action; `None` for a native one.
    pub fn text_dismiss_policy(&self) -> (r: Option<DismissPolicy>)
        ensures
            match text_definition(self@.kind) {
                Some(d) => r == Some(d.dismiss_policy),
                None => r is None,
            },
    {
        match &self.kind {
            ActionKind::Declarative(definition) => Some(definition.dismiss_policy),
            ActionKind::Script(definition) => Some(definition.dismiss_policy),
            ActionKind::Native => None,
        }
    }

    /// The plugin that owns the action.
    pub fn plugin_id(&self) -> (r: &PluginId)
        ensures
            r@ == self@.plugin_id,
    {
        &self.plugin_id
    }

    /// The action's ID within its plugin.
    pub fn id(&self) -> (r: &ActionId)
        ensures
            r@ == self@.id,
    {
        &self.id
    }

    /// The name shown to the user.
    pub fn display_name(&self) -> (r: &str)
        ensures
            r@ == self@.display_name,
    {
        self.display_name.as_str()
    }

    /// How the action runs.
    pub fn kind(&self) -> (r: &ActionKind)
        ensures
            r@ == self@.kind,
    {
        &self.kind
    }

    /// The action's fully qualified ID.
    pub fn qualified_id(&self) -> (r: QualifiedActionId)
        ensures
            r@ == (self@.plugin_id, self@.id),
    {
        QualifiedActionId::new(self.plugin_id.clone(), self.id.clone())
    }
}

/// The models of a list of descriptors.
pub open spec fn descriptors_view(d: Seq<ActionDescriptor>) -> Seq<DescriptorView> {
    d.map_values(|x: ActionDescriptor| x@)
}

/// Copies a list of descriptors.
pub fn copy_descriptors(d: &Vec<ActionDescriptor>) -> (r: Vec<ActionDescriptor>)
    ensures
        descriptors_view(r@) == descriptors_view(d@),
{
    let mut r: Vec<ActionDescriptor> = Vec::new();
    let mut i: usize = 0;
    while i < d.len()
        invariant
            i <= d.len(),
            r@.len() == i,
            forall|j: int| 0 <= j < i ==> (#[trigger] r@[j])@ == d@[j]@,
        decreases d.len() - i,
    {
        r.push(d[i].clone());
        i += 1;
    }
    assert(descriptors_view(r@) =~= descriptors_view(d@));
    r
}

/// The model of a plugin descriptor.
pub struct PluginView {
    pub id: Seq<char>,
    pub display_name: Seq<char>,
    pub requested_capabilities: Seq<Capability>,
}

/// A plugin as the host knows it.
#[derive(Debug)]
pub struct PluginDescriptor {
    id: PluginId,
    display_name: String,
    requested_capabilities: Vec<Capability>,
}

impl View for PluginDescriptor {
    type V = PluginView;

    closed spec fn view(&self) -> PluginView {
        PluginView {
            id: self.id@,
            display_name: self.display_name@,
            requested_capabilities: self.requested_capabilities@,
        }
    }
}

impl Clone for PluginDescriptor {
    fn clone(&self) -> (r: Self)
        ensures
            r@ == self@,
    {
        let mut caps: Vec<Capability> = Vec::new();
        let mut i: usize = 0;
        while i < self.requested_capabilities.len()
            invariant
                i <= self.requested_capabilities.len(),
                caps@ == self.requested_capabilities@.take(i as int),
            decreases self.requested_capabilities.len() - i,
        {
            caps.push(self.requested_capabilities[i]);
            proof {
                assert(caps@ =~= self.requested_capabilities@.take(i + 1));
            }
            i += 1;
        }
        assert(self.requested_capabilities@.take(self.requested_capabilities.len() as int)
            =~= self.requested_capabilities@);
        PluginDescriptor {
            id: self.id.clone(),
            display_name: copy_string(&self.display_name),
            requested_capabilities: caps,
        }
    }
}

impl PluginDescriptor {
    /// The plugin `id`, shown as `display_name`, asking for `requested_capabilities`.
    pub fn new(id: PluginId, display_name: String, requested_capabilities: Vec<Capability>) -> (r:
        Self)
        ensures
            r@ == (PluginView {
                id: id@,
                display_name: display_name@,
                requested_capabilities: requested_capabilities@,
            }),
    {
        PluginDescriptor { id, display_name, requested_capabilities }
    }

    /// The plugin's ID.
    pub fn id(&self) -> (r: &PluginId)
        ensures
            r@ == self@.id,
    {
        &self.id
    }

    /// The name shown to the user.
    pub fn display_name(&self) -> (r: &str)
        ensures
            r@ == self@.display_name,
    {
        self.display_name.as_str()
    }

    /// The capabilities the plugin asks for.
    pub fn requested_capabilities(&self) -> (r: &[Capability])
        ensures
            r@ == self@.requested_capabilities,
    {
        self.requested_capabilities.as_slice()
    }
}

/// A request to run an action. Parameters are `(key, value)` pairs.
#[derive(Debug)]
pub struct ActionRequest {
    pub input: String,
    pub source: InputSource,
    pub parameters: Vec<(String, String)>,
    pub context_token: Option<ContextToken>,
}

impl ActionRequest {
    /// A request with typed input: manual source, no parameters, no context.
    pub fn manual(input: String) -> (r: Self)
        ensures
            r.input@ == input@,
            r.source == InputSource::Manual,
            r.parameters@.len() == 0,
            r.context_token is None,
    {
        ActionRequest {
            input,
            source: InputSource::Manual,
            parameters: Vec::new(),
            context_token: None,
        }
    }
}

/// What a successful action produced.
#[derive(Clone, Debug)]
pub struct ActionResult {
    pub output: String,
}

/// Why an action did not produce a result.
#[derive(Clone, Debug)]
pub enum ActionError {
    Cancelled,
    Failed(String),
}

impl ActionError {
    /// The error's message, as its `Display` writes it.
    pub fn to_string(&self) -> (r: String)
        ensures
            match self {
                ActionError::Cancelled => r@ == "action was cancelled"@,
                ActionError::Failed(m) => r@ == "action failed: "@ + m@,
            },
    {
        match self {
            ActionError::Cancelled => "action was cancelled".to_string(),
            ActionError::Failed(m) => concat("action failed: ", m.as_str()),
        }
    }
}

/// Whether an installed plugin runs.
#[derive(Clone, Copy, Debug, PartialEq, Eq, Structural)]
pub enum ManagedPluginStatus {
    Enabled,
    Disabled,
    Faulted,
}

/// The two kinds of installable package.
#[derive(Clone, Copy, Debug, PartialEq, Eq, Structural)]
pub enum PluginKind {
    Declarative,
    Script,
}

/// The name of a package kind in a manifest.
pub open spec fn plugin_kind_name(k: PluginKind) -> Seq<char> {
    match k {
        PluginKind::Declarative => "declarative"@,
        PluginKind::Script => "script"@,
    }
}

impl PluginKind {
    /// The kind's name in a manifest.
    pub fn manifest_name(self) -> (r: &'static str)
        ensures
            r@ == plugin_kind_name(self),
    {
        match self {
            PluginKind::Declarative => "declarative",
            PluginKind::Script => "script",
        }
    }
}

/// An installed plugin as the management surface lists it. Paths are held
/// as text.
#[derive(Clone, Debug)]
pub struct ManagedPluginSummary {
    pub kind: PluginKind,
    pub id: PluginId,
    pub name: String,
    pub version: String,
    pub source_path: String,
    pub install_path: String,
    pub package_hash: String,
    pub generation: u64,
    pub status: ManagedPluginStatus,
    pub granted_capabilities: Vec<Capability>,
    pub actions: Vec<String>,
    pub last_error: Option<String>,
}

/// What importing a package would do, shown before the user confirms it.
/// Paths are held as text.
#[derive(Clone, Debug)]
pub struct PluginImportPreview {
    pub token: String,
    pub id: PluginId,
    pub name: String,
    pub version: String,
    pub kind: PluginKind,
    pub source_path: String,
    pub package_hash: String,
    pub requested_capabilities: Vec<Capability>,
    pub added_capabilities: Vec<Capability>,
    pub network_scopes: Vec<String>,
    pub actions: Vec<String>,
    pub replaces_version: Option<String>,
}

} // verus!
