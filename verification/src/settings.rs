//! Application settings: hotkey, theme, launch behavior, per-action dismiss
//! overrides and the configured providers, with their validation rules.
use vstd::prelude::*;

use crate::plugin::{qualified_parse, QualifiedActionId};
use crate::provider::{
    strings_view, ModelProfile, ModelProfileView, ProviderConfig, ProviderConfigView, ProviderId,
};
use crate::text::{chars_of, concat, copy_string, str_eq, trim, trim_bounds};

verus! {

/// The settings schema this build reads and writes.
pub const SETTINGS_SCHEMA_VERSION: u32 = 1;

/// The global shortcut that toggles the popup.
#[derive(Clone, Copy, Debug, PartialEq, Eq, Structural)]
pub enum GlobalHotkey {
    ControlAltSpace,
    ControlShiftSpace,
    AltShiftSpace,
}

impl GlobalHotkey {
    /// Every hotkey, in menu order.
    pub const ALL: [GlobalHotkey; 3] = [
        GlobalHotkey::ControlAltSpace,
        GlobalHotkey::ControlShiftSpace,
        GlobalHotkey::AltShiftSpace,
    ];

    /// The hotkey as the settings page shows it.
    pub fn label(self) -> (r: &'static str)
        ensures
            r@ == match self {
                GlobalHotkey::ControlAltSpace => "Ctrl + Alt + Space"@,
                GlobalHotkey::ControlShiftSpace => "Ctrl + Shift + Space"@,
                GlobalHotkey::AltShiftSpace => "Alt + Shift + Space"@,
            },
    {
        match self {
            GlobalHotkey::ControlAltSpace => "Ctrl + Alt + Space",
            GlobalHotkey::ControlShiftSpace => "Ctrl + Shift + Space",
            GlobalHotkey::AltShiftSpace => "Alt + Shift + Space",
        }
    }
}

/// The color theme.
#[derive(Clone, Copy, Debug, PartialEq, Eq, Structural)]
pub enum ThemePreference {
    System,
    Light,
    Dark,
}

impl ThemePreference {
    /// Every theme, in menu order.
    pub const ALL: [ThemePreference; 3] = [
        ThemePreference::System,
        ThemePreference::Light,
        ThemePreference::Dark,
    ];

    /// The theme as the settings page shows it.
    pub fn label(self) -> (r: &'static str)
        ensures
            r@ == match self {
                ThemePreference::System => "Follow Windows"@,
                ThemePreference::Light => "Light"@,
                ThemePreference::Dark => "Dark"@,
            },
    {
        match self {
            ThemePreference::System => "Follow Windows",
            ThemePreference::Light => "Light",
            ThemePreference::Dark => "Dark",
        }
    }
}

/// What the hotkey does when a selection was captured.
#[derive(Clone, Copy, Debug, PartialEq, Eq, Structural)]
pub enum LaunchMode {
    ActionPalette,
    TranslateSelection,
    DefaultAction,
}

impl LaunchMode {
    /// Every launch mode, in menu order.
    pub const ALL: [LaunchMode; 3] = [
        LaunchMode::ActionPalette,
        LaunchMode::TranslateSelection,
        LaunchMode::DefaultAction,
    ];

    /// The launch mode as the settings page shows it.
    pub fn label(self) -> (r: &'static str)
        ensures
            r@ == match self {
                LaunchMode::ActionPalette => "Choose an action"@,
                LaunchMode::TranslateSelection => "Translate selection"@,
                LaunchMode::DefaultAction => "Run default action"@,
            },
    {
        match self {
            LaunchMode::ActionPalette => "Choose an action",
            LaunchMode::TranslateSelection => "Translate selection",
            LaunchMode::DefaultAction => "Run default action",
        }
    }
}

/// Whether an action keeps running when its surface is dismissed.
#[derive(Clone, Copy, Debug, PartialEq, Eq, Structural)]
pub enum DismissPolicy {
    Cancel,
    Continue,
}

/// The model of a launch route.
pub enum LaunchRouteView {
    ActionPalette,
    QuickAsk,
    Automatic(Seq<char>),
    MissingDefaultAction,
}

/// Where the hotkey leads.
#[derive(Clone, Debug)]
pub enum LaunchRoute {
    ActionPalette,
    QuickAsk,
    Automatic(String),
    MissingDefaultAction,
}

impl View for LaunchRoute {
    type V = LaunchRouteView;

    open spec fn view(&self) -> LaunchRouteView {
        match self {
            LaunchRoute::ActionPalette => LaunchRouteView::ActionPalette,
            LaunchRoute::QuickAsk => LaunchRouteView::QuickAsk,
            LaunchRoute::Automatic(s) => LaunchRouteView::Automatic(s@),
            LaunchRoute::MissingDefaultAction => LaunchRouteView::MissingDefaultAction,
        }
    }
}

impl PartialEq for LaunchRoute {
    fn eq(&self, other: &Self) -> (r: bool) {
        match (self, other) {
            (LaunchRoute::ActionPalette, LaunchRoute::ActionPalette) => true,
            (LaunchRoute::QuickAsk, LaunchRoute::QuickAsk) => true,
            (LaunchRoute::Automatic(a), LaunchRoute::Automatic(b)) => str_eq(a.as_str(), b.as_str()),
            (LaunchRoute::MissingDefaultAction, LaunchRoute::MissingDefaultAction) => true,
            _ => false,
        }
    }
}

impl vstd::std_specs::cmp::PartialEqSpecImpl for LaunchRoute {
    open spec fn obeys_eq_spec() -> bool {
        true
    }

    open spec fn eq_spec(&self, other: &Self) -> bool {
        self@ == other@
    }
}

/// The model of application settings.
pub struct AppSettingsView {
    pub schema_version: u32,
    pub hotkey: GlobalHotkey,
    pub theme: ThemePreference,
    pub launch_at_startup: bool,
    pub popup_retention_seconds: u64,
    pub launch_mode: LaunchMode,
    pub translation_action_id: Seq<char>,
    pub default_action_id: Option<Seq<char>>,
    pub dismiss_overrides: Seq<(Seq<char>, DismissPolicy)>,
    pub providers: Seq<ProviderConfigView>,
    pub default_profile: Option<ModelProfileView>,
}

/// The texts and policies of a list of dismiss overrides.
pub open spec fn overrides_view(v: Seq<(String, DismissPolicy)>) -> Seq<(Seq<char>, DismissPolicy)> {
    v.map_values(|e: (String, DismissPolicy)| (e.0@, e.1))
}

/// The models of a list of providers.
pub open spec fn providers_view(v: Seq<ProviderConfig>) -> Seq<ProviderConfigView> {
    v.map_values(|p: ProviderConfig| p@)
}

/// The policy recorded for `action`, the first entry whose key it is.
pub open spec fn override_for(o: Seq<(Seq<char>, DismissPolicy)>, action: Seq<char>) -> Option<
    DismissPolicy,
>
    decreases o.len(),
{
    if o.len() == 0 {
        None
    } else if o[0].0 == action {
        Some(o[0].1)
    } else {
        override_for(o.drop_first(), action)
    }
}

/// The index of the first provider whose ID is `id`.
pub open spec fn provider_index(p: Seq<ProviderConfigView>, id: Seq<char>) -> Option<int>
    decreases p.len(),
{
    if p.len() == 0 {
        None
    } else if p[0].id == id {
        Some(0)
    } else {
        match provider_index(p.drop_first(), id) {
            Some(i) => Some(i + 1),
            None => None,
        }
    }
}

/// `Some(i)` names a provider with ID `id` and no earlier provider has it;
/// `None` means none has it.
pub proof fn lemma_provider_index(p: Seq<ProviderConfigView>, id: Seq<char>)
    ensures
        match provider_index(p, id) {
            Some(i) => 0 <= i < p.len() && p[i].id == id && forall|j: int|
                0 <= j < i ==> p[j].id != id,
            None => forall|j: int| 0 <= j < p.len() ==> p[j].id != id,
        },
    decreases p.len(),
{
    if p.len() > 0 && p[0].id != id {
        lemma_provider_index(p.drop_first(), id);
        match provider_index(p.drop_first(), id) {
            Some(i) => {
                assert(p[i + 1] == p.drop_first()[i]);
                assert forall|j: int| 0 <= j < i + 1 implies p[j].id != id by {
                    if j > 0 {
                        assert(p[j] == p.drop_first()[j - 1]);
                    }
                }
            },
            None => {
                assert forall|j: int| 0 <= j < p.len() implies p[j].id != id by {
                    if j > 0 {
                        assert(p[j] == p.drop_first()[j - 1]);
                    }
                }
            },
        }
    }
}

/// The model of a settings error.
pub enum SettingsErrorView {
    UnsupportedSchema(u32),
    Invalid(Seq<char>),
    Load(Seq<char>),
    Save(Seq<char>),
    Platform(Seq<char>),
}

/// Why settings were refused, or could not be loaded or saved.
#[derive(Clone, Debug)]
pub enum SettingsError {
    UnsupportedSchema(u32),
    Invalid(String),
    Load(String),
    Save(String),
    Platform(String),
}

impl View for SettingsError {
    type V = SettingsErrorView;

    open spec fn view(&self) -> SettingsErrorView {
        match self {
            SettingsError::UnsupportedSchema(v) => SettingsErrorView::UnsupportedSchema(*v),
            SettingsError::Invalid(s) => SettingsErrorView::Invalid(s@),
            SettingsError::Load(s) => SettingsErrorView::Load(s@),
            SettingsError::Save(s) => SettingsErrorView::Save(s@),
            SettingsError::Platform(s) => SettingsErrorView::Platform(s@),
        }
    }
}

impl PartialEq for SettingsError {
    fn eq(&self, other: &Self) -> (r: bool) {
        match (self, other) {
            (SettingsError::UnsupportedSchema(a), SettingsError::UnsupportedSchema(b)) => *a == *b,
            (SettingsError::Invalid(a), SettingsError::Invalid(b)) => str_eq(a.as_str(), b.as_str()),
            (SettingsError::Load(a), SettingsError::Load(b)) => str_eq(a.as_str(), b.as_str()),
            (SettingsError::Save(a), SettingsError::Save(b)) => str_eq(a.as_str(), b.as_str()),
            (SettingsError::Platform(a), SettingsError::Platform(b)) => str_eq(
                a.as_str(),
                b.as_str(),
            ),
            _ => false,
        }
    }
}

impl vstd::std_specs::cmp::PartialEqSpecImpl for SettingsError {
    open spec fn obeys_eq_spec() -> bool {
        true
    }

    open spec fn eq_spec(&self, other: &Self) -> bool {
        self@ == other@
    }
}

/// Lexicographic order on texts, the order in which `BTreeMap` walks
/// string keys.
pub open spec fn lex_lt(a: Seq<char>, b: Seq<char>) -> bool
    decreases a.len(),
{
    if a.len() == 0 {
        b.len() > 0
    } else if b.len() == 0 {
        false
    } else if a[0] != b[0] {
        a[0] < b[0]
    } else {
        lex_lt(a.drop_first(), b.drop_first())
    }
}

/// `lex_lt` is transitive.
pub proof fn lemma_lex_lt_transitive(a: Seq<char>, b: Seq<char>, c: Seq<char>)
    requires
        lex_lt(a, b),
        lex_lt(b, c),
    ensures
        lex_lt(a, c),
    decreases a.len(),
{
    if a.len() > 0 && b.len() > 0 && c.len() > 0 && a[0] == b[0] && b[0] == c[0] {
        lemma_lex_lt_transitive(a.drop_first(), b.drop_first(), c.drop_first());
    }
}

/// `lex_lt` is irreflexive.
pub proof fn lemma_lex_lt_irreflexive(a: Seq<char>)
    ensures
        !lex_lt(a, a),
    decreases a.len(),
{
    if a.len() > 0 {
        lemma_lex_lt_irreflexive(a.drop_first());
    }
}

/// Two different texts are ordered one way or the other.
pub proof fn lemma_lex_lt_total(a: Seq<char>, b: Seq<char>)
    requires
        a != b,
    ensures
        lex_lt(a, b) || lex_lt(b, a),
    decreases a.len(),
{
    if a.len() > 0 && b.len() > 0 && a[0] == b[0] {
        if a.drop_first() == b.drop_first() {
            assert(a =~= seq![a[0]] + a.drop_first());
            assert(b =~= seq![b[0]] + b.drop_first());
        }
        lemma_lex_lt_total(a.drop_first(), b.drop_first());
    } else if a.len() == 0 && b.len() == 0 {
        assert(a =~= b);
    }
}

/// Whether `a` comes before `b` lexicographically.
pub fn lex_less(a: &Vec<char>, b: &Vec<char>) -> (r: bool)
    ensures
        r == lex_lt(a@, b@),
{
    let mut i: usize = 0;
    assert(a@.skip(0) =~= a@);
    assert(b@.skip(0) =~= b@);
    while i < a.len() && i < b.len()
        invariant
            i <= a.len(),
            i <= b.len(),
            lex_lt(a@, b@) == lex_lt(a@.skip(i as int), b@.skip(i as int)),
        decreases a.len() - i,
    {
        if a[i] != b[i] {
            return a[i] < b[i];
        }
        assert(a@.skip(i as int).drop_first() =~= a@.skip(i + 1));
        assert(b@.skip(i as int).drop_first() =~= b@.skip(i + 1));
        i += 1;
    }
    i == a.len() && i < b.len()
}

/// A key of the override map that is no valid qualified action ID.
pub open spec fn bad_override_key(o: Seq<(Seq<char>, DismissPolicy)>, k: Seq<char>) -> bool {
    (exists|i: int| 0 <= i < o.len() && o[i].0 == k) && qualified_parse(k) is Err
}

/// The first override key, in map order, that is no valid qualified action ID.
pub open spec fn least_bad_override_key(o: Seq<(Seq<char>, DismissPolicy)>, k: Seq<char>) -> bool {
    bad_override_key(o, k) && forall|k2: Seq<char>| bad_override_key(o, k2) ==> !lex_lt(k2, k)
}

/// The first problem that validation finds, if any.
pub open spec fn settings_problem(s: AppSettingsView) -> Option<SettingsErrorView> {
    if s.schema_version != 1 {
        Some(SettingsErrorView::UnsupportedSchema(s.schema_version))
    } else if s.popup_retention_seconds > 600 {
        Some(SettingsErrorView::Invalid("popup retention must be between 0 and 600 seconds"@))
    } else if trim(s.translation_action_id).len() == 0 {
        Some(SettingsErrorView::Invalid("translation action ID cannot be empty"@))
    } else if qualified_parse(s.translation_action_id) is Err {
        Some(SettingsErrorView::Invalid(qualified_parse(s.translation_action_id)->Err_0))
    } else if s.default_action_id is Some && trim(s.default_action_id->0).len() == 0 {
        Some(SettingsErrorView::Invalid("default action ID cannot be empty"@))
    } else if s.default_action_id is Some && qualified_parse(s.default_action_id->0) is Err {
        Some(SettingsErrorView::Invalid(qualified_parse(s.default_action_id->0)->Err_0))
    } else if exists|k: Seq<char>| bad_override_key(s.dismiss_overrides, k) {
        let k = choose|k: Seq<char>| least_bad_override_key(s.dismiss_overrides, k);
        Some(SettingsErrorView::Invalid(qualified_parse(k)->Err_0))
    } else if exists|i: int| 0 <= i < s.providers.len() && s.providers[i].context_budget == 0 {
        Some(SettingsErrorView::Invalid("provider context budget must be greater than zero"@))
    } else if s.default_profile is Some {
        let profile = s.default_profile->0;
        match provider_index(s.providers, profile.provider_id) {
            None => Some(
                SettingsErrorView::Invalid(
                    "default profile references missing provider '"@ + profile.provider_id
                        + "'"@,
                ),
            ),
            Some(i) => if s.providers[i].model_ids.contains(profile.model_id) {
                None
            } else {
                Some(
                    SettingsErrorView::Invalid(
                        "default profile references missing model '"@ + profile.model_id + "'"@,
                    ),
                )
            },
        }
    } else {
        None
    }
}

/// Where the hotkey leads, given the settings and whether a verified
/// selection was captured.
pub open spec fn route_for(s: AppSettingsView, has_verified_selection: bool) -> LaunchRouteView {
    if !has_verified_selection {
        LaunchRouteView::QuickAsk
    } else {
        match s.launch_mode {
            LaunchMode::ActionPalette => LaunchRouteView::ActionPalette,
            LaunchMode::TranslateSelection => LaunchRouteView::Automatic(s.translation_action_id),
            LaunchMode::DefaultAction => match s.default_action_id {
                Some(a) => LaunchRouteView::Automatic(a),
                None => LaunchRouteView::MissingDefaultAction,
            },
        }
    }
}

/// The providers left after removing every provider with ID `id`.
pub open spec fn providers_without(p: Seq<ProviderConfigView>, id: Seq<char>) -> Seq<
    ProviderConfigView,
> {
    p.filter(|q: ProviderConfigView| q.id != id)
}

/// The overrides, kept in the order of their actions, with the first entry
/// for `action` replaced by `(action, p)`, or `(action, p)` inserted before
/// the first entry whose action comes after it.
pub open spec fn override_set(o: Seq<(Seq<char>, DismissPolicy)>, action: Seq<char>, p: DismissPolicy) -> Seq<
    (Seq<char>, DismissPolicy),
>
    decreases o.len(),
{
    if o.len() == 0 {
        seq![(action, p)]
    } else if o[0].0 == action {
        o.update(0, (action, p))
    } else if lex_lt(action, o[0].0) {
        seq![(action, p)] + o
    } else {
        seq![o[0]] + override_set(o.drop_first(), action, p)
    }
}

/// Sets the override for `action` to `p`.
fn set_override(input: Vec<(String, DismissPolicy)>, action: &str, p: DismissPolicy) -> (r: Vec<
    (String, DismissPolicy),
>)
    ensures
        overrides_view(r@) == override_set(overrides_view(input@), action@, p),
{
    let mut entries = input;
    let ghost o = overrides_view(entries@);
    let key = chars_of(action);
    let mut i: usize = 0;
    assert(o.take(0) + o.skip(0) =~= o);
    while i < entries.len()
        invariant
            i <= entries.len(),
            o == overrides_view(entries@),
            o == overrides_view(input@),
            key@ == action@,
            override_set(o, action@, p) == o.take(i as int) + override_set(o.skip(i as int), action@, p),
        decreases entries.len() - i,
    {
        assert(o.skip(i as int)[0] == o[i as int]);
        if !str_eq(entries[i].0.as_str(), action) && lex_less(&key, &chars_of(entries[i].0.as_str())) {
            assert(o[i as int].0 == entries@[i as int].0@);
            let ghost before = entries@;
            entries.insert(i, (action.to_owned(), p));
            assert(override_set(o.skip(i as int), action@, p) == seq![(action@, p)] + o.skip(i as int));
            assert(overrides_view(entries@) =~= o.take(i as int) + (seq![(action@, p)] + o.skip(i as int)));
            return entries;
        }
        if str_eq(entries[i].0.as_str(), action) {
            assert(o[i as int].0 == action@);
            assert(o.skip(i as int)[0].0 == action@);
            entries.set(i, (action.to_owned(), p));
            assert(overrides_view(entries@) =~= o.take(i as int) + o.skip(i as int).update(0, (action@, p)));
            assert(override_set(o.skip(i as int), action@, p) == o.skip(i as int).update(0, (action@, p)));
            assert(overrides_view(entries@) =~= override_set(o, action@, p));
            return entries;
        }
        assert(o.skip(i as int).drop_first() =~= o.skip(i + 1));
        assert(o.take(i as int) + seq![o[i as int]] =~= o.take(i + 1));
        assert(o.take(i as int) + (seq![o[i as int]] + override_set(o.skip(i + 1), action@, p)) =~= o.take(i + 1) + override_set(o.skip(i + 1), action@, p));
        i += 1;
    }
    assert(o.take(i as int) =~= o);
    entries.push((action.to_owned(), p));
    assert(overrides_view(entries@) =~= o + seq![(action@, p)]);
    entries
}

/// The overrides without any entry for `action`.
fn remove_override(entries: &Vec<(String, DismissPolicy)>, action: &str) -> (r: Vec<
    (String, DismissPolicy),
>)
    ensures
        overrides_view(r@) == overrides_without(overrides_view(entries@), action@),
{
    let ghost o = overrides_view(entries@);
    let ghost pred = |e: (Seq<char>, DismissPolicy)| e.0 != action@;
    let mut kept: Vec<(String, DismissPolicy)> = Vec::new();
    let mut i: usize = 0;
    assert(o.take(0) =~= Seq::<(Seq<char>, DismissPolicy)>::empty());
    while i < entries.len()
        invariant
            i <= entries.len(),
            o == overrides_view(entries@),
            pred == (|e: (Seq<char>, DismissPolicy)| e.0 != action@),
            overrides_view(kept@) == o.take(i as int).filter(pred),
        decreases entries.len() - i,
    {
        assert(o.take(i + 1).drop_last() =~= o.take(i as int));
        reveal_with_fuel(Seq::<(Seq<char>, DismissPolicy)>::filter, 1);
        if !str_eq(entries[i].0.as_str(), action) {
            kept.push((copy_string(&entries[i].0), entries[i].1));
            assert(overrides_view(kept@) =~= o.take(i as int).filter(pred).push(o[i as int]));
        }
        i += 1;
    }
    assert(o.take(o.len() as int) =~= o);
    kept
}

/// The overrides left after removing every entry for `action`.
pub open spec fn overrides_without(o: Seq<(Seq<char>, DismissPolicy)>, action: Seq<char>) -> Seq<
    (Seq<char>, DismissPolicy),
> {
    o.filter(other_action(action))
}

/// Whether an override is for another action than `action`.
pub open spec fn other_action(action: Seq<char>) -> spec_fn((Seq<char>, DismissPolicy)) -> bool {
    |e: (Seq<char>, DismissPolicy)| e.0 != action
}

/// The translation action that settings use unless told otherwise.
pub open spec fn spec_default_translation_action() -> Seq<char> {
    "org.lexwisp.translate/translate"@
}

/// The translation action that settings use unless told otherwise.
pub fn default_translation_action() -> (r: String)
    ensures
        r@ == spec_default_translation_action(),
{
    "org.lexwisp.translate/translate".to_owned()
}

/// Application settings.
#[derive(Debug)]
pub struct AppSettings {
    schema_version: u32,
    hotkey: GlobalHotkey,
    theme: ThemePreference,
    launch_at_startup: bool,
    popup_retention_seconds: u64,
    launch_mode: LaunchMode,
    translation_action_id: String,
    default_action_id: Option<String>,
    dismiss_overrides: Vec<(String, DismissPolicy)>,
    providers: Vec<ProviderConfig>,
    default_profile: Option<ModelProfile>,
}

impl View for AppSettings {
    type V = AppSettingsView;

    closed spec fn view(&self) -> AppSettingsView {
        AppSettingsView {
            schema_version: self.schema_version,
            hotkey: self.hotkey,
            theme: self.theme,
            launch_at_startup: self.launch_at_startup,
            popup_retention_seconds: self.popup_retention_seconds,
            launch_mode: self.launch_mode,
            translation_action_id: self.translation_action_id@,
            default_action_id: crate::provider::opt_view(self.default_action_id),
            dismiss_overrides: overrides_view(self.dismiss_overrides@),
            providers: providers_view(self.providers@),
            default_profile: match self.default_profile {
                Some(p) => Some(p@),
                None => None,
            },
        }
    }
}

/// The settings of a first run.
pub open spec fn default_settings_view() -> AppSettingsView {
    AppSettingsView {
        schema_version: 1,
        hotkey: GlobalHotkey::ControlAltSpace,
        theme: ThemePreference::System,
        launch_at_startup: false,
        popup_retention_seconds: 30,
        launch_mode: LaunchMode::ActionPalette,
        translation_action_id: spec_default_translation_action(),
        default_action_id: None,
        dismiss_overrides: Seq::empty(),
        providers: Seq::empty(),
        default_profile: None,
    }
}

impl Default for AppSettings {
    fn default() -> (r: Self)
        ensures
            r@ == default_settings_view(),
    {
        let r = AppSettings {
            schema_version: SETTINGS_SCHEMA_VERSION,
            hotkey: GlobalHotkey::ControlAltSpace,
            theme: ThemePreference::System,
            launch_at_startup: false,
            popup_retention_seconds: 30,
            launch_mode: LaunchMode::ActionPalette,
            translation_action_id: default_translation_action(),
            default_action_id: None,
            dismiss_overrides: Vec::new(),
            providers: Vec::new(),
            default_profile: None,
        };
        assert(r@.dismiss_overrides =~= Seq::<(Seq<char>, DismissPolicy)>::empty());
        assert(r@.providers =~= Seq::<ProviderConfigView>::empty());
        r
    }
}

impl Clone for AppSettings {
    fn clone(&self) -> (r: Self)
        ensures
            r@ == self@,
    {
        let mut overrides: Vec<(String, DismissPolicy)> = Vec::new();
        let mut i: usize = 0;
        while i < self.dismiss_overrides.len()
            invariant
                i <= self.dismiss_overrides.len(),
                overrides@.len() == i,
                forall|j: int|
                    0 <= j < i ==> (#[trigger] overrides@[j]).0@ == self.dismiss_overrides@[j].0@
                        && overrides@[j].1 == self.dismiss_overrides@[j].1,
            decreases self.dismiss_overrides.len() - i,
        {
            let entry = &self.dismiss_overrides[i];
            overrides.push((copy_string(&entry.0), entry.1));
            i += 1;
        }
        let mut providers: Vec<ProviderConfig> = Vec::new();
        let mut i: usize = 0;
        while i < self.providers.len()
            invariant
                i <= self.providers.len(),
                providers@.len() == i,
                forall|j: int| 0 <= j < i ==> (#[trigger] providers@[j])@ == self.providers@[j]@,
            decreases self.providers.len() - i,
        {
            providers.push(self.providers[i].clone());
            i += 1;
        }
        let r = AppSettings {
            schema_version: self.schema_version,
            hotkey: self.hotkey,
            theme: self.theme,
            launch_at_startup: self.launch_at_startup,
            popup_retention_seconds: self.popup_retention_seconds,
            launch_mode: self.launch_mode,
            translation_action_id: copy_string(&self.translation_action_id),
            default_action_id: crate::provider::copy_opt(&self.default_action_id),
            dismiss_overrides: overrides,
            providers,
            default_profile: match &self.default_profile {
                Some(p) => Some(p.clone()),
                None => None,
            },
        };
        assert(r@.dismiss_overrides =~= self@.dismiss_overrides);
        assert(r@.providers =~= self@.providers);
        r
    }
}

impl PartialEq for AppSettings {
    fn eq(&self, other: &Self) -> (r: bool) {
        let same_overrides = same_overrides(&self.dismiss_overrides, &other.dismiss_overrides);
        let same_providers = same_providers(&self.providers, &other.providers);
        let same_profile = match (&self.default_profile, &other.default_profile) {
            (Some(a), Some(b)) => a == b,
            (None, None) => true,
            _ => false,
        };
        self.schema_version == other.schema_version && self.hotkey == other.hotkey && self.theme
            == other.theme && self.launch_at_startup == other.launch_at_startup
            && self.popup_retention_seconds == other.popup_retention_seconds && self.launch_mode
            == other.launch_mode && self.translation_action_id == other.translation_action_id
            && crate::provider::same_opt(&self.default_action_id, &other.default_action_id)
            && same_overrides && same_providers && same_profile
    }
}

impl vstd::std_specs::cmp::PartialEqSpecImpl for AppSettings {
    open spec fn obeys_eq_spec() -> bool {
        true
    }

    open spec fn eq_spec(&self, other: &Self) -> bool {
        self@ == other@
    }
}

/// Whether two override lists hold the same entries in the same order.
fn same_overrides(a: &Vec<(String, DismissPolicy)>, b: &Vec<(String, DismissPolicy)>) -> (r: bool)
    ensures
        r == (overrides_view(a@) == overrides_view(b@)),
{
    if a.len() != b.len() {
        assert(overrides_view(a@).len() != overrides_view(b@).len());
        return false;
    }
    let mut i: usize = 0;
    while i < a.len()
        invariant
            a.len() == b.len(),
            i <= a.len(),
            forall|j: int| 0 <= j < i ==> overrides_view(a@)[j] == overrides_view(b@)[j],
        decreases a.len() - i,
    {
        if !str_eq(a[i].0.as_str(), b[i].0.as_str()) || a[i].1 != b[i].1 {
            assert(overrides_view(a@)[i as int] != overrides_view(b@)[i as int]);
            return false;
        }
        i += 1;
    }
    assert(overrides_view(a@) =~= overrides_view(b@));
    true
}

/// Whether two provider lists hold the same providers in the same order.
fn same_providers(a: &Vec<ProviderConfig>, b: &Vec<ProviderConfig>) -> (r: bool)
    ensures
        r == (providers_view(a@) == providers_view(b@)),
{
    if a.len() != b.len() {
        assert(providers_view(a@).len() != providers_view(b@).len());
        return false;
    }
    let mut i: usize = 0;
    while i < a.len()
        invariant
            a.len() == b.len(),
            i <= a.len(),
            forall|j: int| 0 <= j < i ==> providers_view(a@)[j] == providers_view(b@)[j],
        decreases a.len() - i,
    {
        if a[i] != b[i] {
            assert(providers_view(a@)[i as int] != providers_view(b@)[i as int]);
            return false;
        }
        i += 1;
    }
    assert(providers_view(a@) =~= providers_view(b@));
    true
}

/// Whether the text is empty once trimmed.
fn is_blank(s: &str) -> (r: bool)
    ensures
        r == (trim(s@).len() == 0),
{
    let v = chars_of(s);
    let (start, end) = trim_bounds(&v);
    start == end
}

impl AppSettings {
    /// Checks the settings, reporting the first problem in this order:
    /// schema version, popup retention (0 to 600 s), translation action,
    /// default action, dismiss override keys (in key order), provider
    /// context budgets, and the default profile's provider and model.
    pub fn validate(&self) -> (r: Result<(), SettingsError>)
        ensures
            r is Ok <==> settings_problem(self@) is None,
            r matches Err(e) ==> settings_problem(self@) == Some(e@),
    {
        if self.schema_version != SETTINGS_SCHEMA_VERSION {
            return Err(SettingsError::UnsupportedSchema(self.schema_version));
        }
        if self.popup_retention_seconds > 600 {
            return Err(
                SettingsError::Invalid(
                    "popup retention must be between 0 and 600 seconds".to_owned(),
                ),
            );
        }
        if is_blank(self.translation_action_id.as_str()) {
            return Err(SettingsError::Invalid("translation action ID cannot be empty".to_owned()));
        }
        if let Err(e) = QualifiedActionId::parse(self.translation_action_id.as_str()) {
            return Err(SettingsError::Invalid(e));
        }
        if let Some(action) = &self.default_action_id {
            if is_blank(action.as_str()) {
                return Err(SettingsError::Invalid("default action ID cannot be empty".to_owned()));
            }
            if let Err(e) = QualifiedActionId::parse(action.as_str()) {
                return Err(SettingsError::Invalid(e));
            }
        }
        if let Some(e) = self.first_bad_override() {
            proof {
                let o = self@.dismiss_overrides;
                let k = choose|k: Seq<char>| least_bad_override_key(o, k);
                assert(least_bad_override_key(o, k));
            }
            return Err(SettingsError::Invalid(e));
        }
        if self.has_zero_budget() {
            return Err(
                SettingsError::Invalid(
                    "provider context budget must be greater than zero".to_owned(),
                ),
            );
        }
        if let Some(profile) = &self.default_profile {
            match self.provider(profile.provider_id()) {
                None => {
                    let head = concat(
                        "default profile references missing provider '",
                        profile.provider_id().as_str(),
                    );
                    return Err(SettingsError::Invalid(concat(head.as_str(), "'")));
                },
                Some(provider) => {
                    if !provider.serves_model(profile.model_id()) {
                        let head = concat(
                            "default profile references missing model '",
                            profile.model_id(),
                        );
                        return Err(SettingsError::Invalid(concat(head.as_str(), "'")));
                    }
                },
            }
        }
        Ok(())
    }

    /// Whether some provider has a zero context budget.
    fn has_zero_budget(&self) -> (r: bool)
        ensures
            r == exists|i: int| 0 <= i < self@.providers.len() && self@.providers[i].context_budget == 0,
    {
        let mut i: usize = 0;
        while i < self.providers.len()
            invariant
                i <= self.providers.len(),
                forall|j: int| 0 <= j < i ==> self@.providers[j].context_budget != 0,
            decreases self.providers.len() - i,
        {
            if self.providers[i].context_budget() == 0 {
                assert(self@.providers[i as int].context_budget == 0);
                return true;
            }
            i += 1;
        }
        false
    }

    /// The parse error of the least override key that is not a qualified
    /// action ID, if any.
    fn first_bad_override(&self) -> (r: Option<String>)
        ensures
            r is None <==> !exists|k: Seq<char>| bad_override_key(self@.dismiss_overrides, k),
            r matches Some(e) ==> (exists|k: Seq<char>|
                least_bad_override_key(self@.dismiss_overrides, k)) && forall|k: Seq<char>|
                least_bad_override_key(self@.dismiss_overrides, k) ==> e@ == qualified_parse(
                    k,
                )->Err_0,
    {
        let ghost o = self@.dismiss_overrides;
        let mut best: Option<(Vec<char>, String)> = None;
        let mut i: usize = 0;
        while i < self.dismiss_overrides.len()
            invariant
                i <= self.dismiss_overrides.len(),
                o == self@.dismiss_overrides,
                o.len() == self.dismiss_overrides@.len(),
                forall|j: int| 0 <= j < o.len() ==> o[j].0 == self.dismiss_overrides@[j].0@,
                match best {
                    None => forall|j: int| 0 <= j < i ==> qualified_parse(o[j].0) is Ok,
                    Some((k, e)) => (exists|j: int| 0 <= j < i && o[j].0 == k@) && qualified_parse(
                        k@,
                    ) is Err && e@ == qualified_parse(k@)->Err_0 && forall|j: int|
                        0 <= j < i && qualified_parse(o[j].0) is Err ==> !lex_lt(o[j].0, k@),
                },
            decreases self.dismiss_overrides.len() - i,
        {
            let key = &self.dismiss_overrides[i].0;
            assert(o[i as int].0 == key@);
            if let Err(e) = QualifiedActionId::parse(key.as_str()) {
                let kv = chars_of(key.as_str());
                let replace = match &best {
                    None => true,
                    Some((k, _)) => lex_less(&kv, k),
                };
                if replace {
                    proof {
                        if let Some((k, _)) = best {
                            assert forall|j: int|
                                0 <= j < i + 1 && qualified_parse(o[j].0) is Err implies !lex_lt(
                                o[j].0,
                                kv@,
                            ) by {
                                if j < i {
                                    if lex_lt(o[j].0, kv@) {
                                        lemma_lex_lt_transitive(o[j].0, kv@, k@);
                                    }
                                } else {
                                    lemma_lex_lt_irreflexive(kv@);
                                }
                            }
                        } else {
                            lemma_lex_lt_irreflexive(kv@);
                        }
                    }
                    best = Some((kv, e));
                } else {
                    proof {
                        let pair = best->0;
                        let k = pair.0;
                        if lex_lt(kv@, k@) {
                        }
                    }
                }
            }
            i += 1;
        }
        match best {
            None => {
                assert forall|k: Seq<char>| !bad_override_key(o, k) by {
                    if exists|j: int| 0 <= j < o.len() && o[j].0 == k {
                        let j = choose|j: int| 0 <= j < o.len() && o[j].0 == k;
                        assert(qualified_parse(o[j].0) is Ok);
                    }
                }
                None
            },
            Some((k, e)) => {
                proof {
                    assert(bad_override_key(o, k@));
                    assert forall|k2: Seq<char>| bad_override_key(o, k2) implies !lex_lt(
                        k2,
                        k@,
                    ) by {
                        let j = choose|j: int| 0 <= j < o.len() && o[j].0 == k2;
                        assert(qualified_parse(o[j].0) is Err);
                    }
                    assert(least_bad_override_key(o, k@));
                    assert forall|k2: Seq<char>| least_bad_override_key(o, k2) implies e@
                        == qualified_parse(k2)->Err_0 by {
                        if k2 != k@ {
                            lemma_lex_lt_total(k2, k@);
                        }
                    }
                }
                Some(e)
            },
        }
    }

    /// The schema version.
    pub fn schema_version(&self) -> (r: u32)
        ensures
            r == self@.schema_version,
    {
        self.schema_version
    }

    /// The global hotkey.
    pub fn hotkey(&self) -> (r: GlobalHotkey)
        ensures
            r == self@.hotkey,
    {
        self.hotkey
    }

    /// The theme.
    pub fn theme(&self) -> (r: ThemePreference)
        ensures
            r == self@.theme,
    {
        self.theme
    }

    /// Whether the app starts with Windows.
    pub fn launch_at_startup(&self) -> (r: bool)
        ensures
            r == self@.launch_at_startup,
    {
        self.launch_at_startup
    }

    /// How long a hidden popup is kept, in seconds.
    pub fn popup_retention_seconds(&self) -> (r: u64)
        ensures
            r == self@.popup_retention_seconds,
    {
        self.popup_retention_seconds
    }

    /// What the hotkey does with a selection.
    pub fn launch_mode(&self) -> (r: LaunchMode)
        ensures
            r == self@.launch_mode,
    {
        self.launch_mode
    }

    /// The action that translates a selection.
    pub fn translation_action_id(&self) -> (r: &str)
        ensures
            r@ == self@.translation_action_id,
    {
        self.translation_action_id.as_str()
    }

    /// The action run by default, if one is set.
    pub fn default_action_id(&self) -> (r: Option<&str>)
        ensures
            match r {
                Some(s) => self@.default_action_id == Some(s@),
                None => self@.default_action_id is None,
            },
    {
        match &self.default_action_id {
            Some(s) => Some(s.as_str()),
            None => None,
        }
    }

    /// Where the hotkey leads: the quick-ask box without a verified
    /// selection, otherwise what the launch mode says.
    pub fn launch_route(&self, has_verified_selection: bool) -> (r: LaunchRoute)
        ensures
            r@ == route_for(self@, has_verified_selection),
    {
        if !has_verified_selection {
            return LaunchRoute::QuickAsk;
        }
        match self.launch_mode {
            LaunchMode::ActionPalette => LaunchRoute::ActionPalette,
            LaunchMode::TranslateSelection => LaunchRoute::Automatic(
                copy_string(&self.translation_action_id),
            ),
            LaunchMode::DefaultAction => match &self.default_action_id {
                Some(a) => LaunchRoute::Automatic(copy_string(a)),
                None => LaunchRoute::MissingDefaultAction,
            },
        }
    }

    /// The dismiss policy recorded for `action`, if any.
    pub fn dismiss_override(&self, action: &str) -> (r: Option<DismissPolicy>)
        ensures
            r == override_for(self@.dismiss_overrides, action@),
    {
        let ghost o = self@.dismiss_overrides;
        let mut i: usize = 0;
        assert(o.skip(0) =~= o);
        while i < self.dismiss_overrides.len()
            invariant
                i <= self.dismiss_overrides.len(),
                o == self@.dismiss_overrides,
                override_for(o, action@) == override_for(o.skip(i as int), action@),
            decreases self.dismiss_overrides.len() - i,
        {
            assert(o.skip(i as int)[0] == (self.dismiss_overrides@[i as int].0@, self.dismiss_overrides@[i as int].1));
            if str_eq(self.dismiss_overrides[i].0.as_str(), action) {
                return Some(self.dismiss_overrides[i].1);
            }
            assert(o.skip(i as int).drop_first() =~= o.skip(i + 1));
            i += 1;
        }
        None
    }

    /// The configured providers.
    pub fn providers(&self) -> (r: &[ProviderConfig])
        ensures
            providers_view(r@) == self@.providers,
    {
        self.providers.as_slice()
    }

    /// The default model profile, if one is set.
    pub fn default_profile(&self) -> (r: Option<&ModelProfile>)
        ensures
            match r {
                Some(p) => self@.default_profile == Some(p@),
                None => self@.default_profile is None,
            },
    {
        match &self.default_profile {
            Some(p) => Some(p),
            None => None,
        }
    }

    /// The first provider with ID `id`, if any.
    pub fn provider(&self, id: &ProviderId) -> (r: Option<&ProviderConfig>)
        ensures
            match provider_index(self@.providers, id@) {
                Some(i) => r matches Some(p) && p@ == self@.providers[i],
                None => r is None,
            },
    {
        proof {
            lemma_provider_index(self@.providers, id@);
        }
        let mut i: usize = 0;
        while i < self.providers.len()
            invariant
                i <= self.providers.len(),
                forall|j: int| 0 <= j < i ==> self@.providers[j].id != id@,
            decreases self.providers.len() - i,
        {
            if self.providers[i].id().same(id) {
                proof {
                    lemma_provider_index(self@.providers, id@);
                    assert(self@.providers[i as int] == self.providers@[i as int]@);
                    assert(self@.providers[i as int].id == id@);
                    let k = provider_index(self@.providers, id@)->0;
                    if k < i {
                    } else if k > i {
                    }
                }
                return Some(&self.providers[i]);
            }
            i += 1;
        }
        None
    }

    /// The same settings with another hotkey.
    pub fn with_hotkey(self, hotkey: GlobalHotkey) -> (r: Self)
        ensures
            r@ == (AppSettingsView { hotkey, ..self@ }),
    {
        let mut s = self;
        s.hotkey = hotkey;
        s
    }

    /// The same settings with another theme.
    pub fn with_theme(self, theme: ThemePreference) -> (r: Self)
        ensures
            r@ == (AppSettingsView { theme, ..self@ }),
    {
        let mut s = self;
        s.theme = theme;
        s
    }

    /// The same settings with startup launch switched on or off.
    pub fn with_launch_at_startup(self, enabled: bool) -> (r: Self)
        ensures
            r@ == (AppSettingsView { launch_at_startup: enabled, ..self@ }),
    {
        let mut s = self;
        s.launch_at_startup = enabled;
        s
    }

    /// The same settings with another popup retention.
    pub fn with_popup_retention_seconds(self, seconds: u64) -> (r: Self)
        ensures
            r@ == (AppSettingsView { popup_retention_seconds: seconds, ..self@ }),
    {
        let mut s = self;
        s.popup_retention_seconds = seconds;
        s
    }

    /// The same settings with another launch mode.
    pub fn with_launch_mode(self, mode: LaunchMode) -> (r: Self)
        ensures
            r@ == (AppSettingsView { launch_mode: mode, ..self@ }),
    {
        let mut s = self;
        s.launch_mode = mode;
        s
    }

    /// The same settings with another default action, or none.
    pub fn with_default_action_id(self, id: Option<String>) -> (r: Self)
        ensures
            r@ == (AppSettingsView {
                default_action_id: crate::provider::opt_view(id),
                ..self@
            }),
    {
        let mut s = self;
        s.default_action_id = id;
        s
    }

    /// The same settings with the override for `action` set to `policy`, or
    /// removed when `policy` is `None`.
    pub fn with_dismiss_override(self, action: &str, policy: Option<DismissPolicy>) -> (r: Self)
        ensures
            r@ == (AppSettingsView {
                dismiss_overrides: match policy {
                    Some(p) => override_set(self@.dismiss_overrides, action@, p),
                    None => overrides_without(self@.dismiss_overrides, action@),
                },
                ..self@
            }),
    {
        let mut s = self;
        let mut entries: Vec<(String, DismissPolicy)> = Vec::new();
        std::mem::swap(&mut entries, &mut s.dismiss_overrides);
        let updated = match policy {
            Some(p) => set_override(entries, action, p),
            None => remove_override(&entries, action),
        };
        s.dismiss_overrides = updated;
        s
    }

    /// The same settings with `provider` replacing any provider of the same
    /// ID (appended last) and `profile` as the default profile.
    pub fn with_provider(self, provider: ProviderConfig, profile: ModelProfile) -> (r: Self)
        ensures
            r@ == (AppSettingsView {
                providers: providers_without(self@.providers, provider@.id).push(provider@),
                default_profile: Some(profile@),
                ..self@
            }),
    {
        let mut s = self;
        let ghost old_p = s@.providers;
        let ghost pred = |q: ProviderConfigView| q.id != provider@.id;
        let mut kept: Vec<ProviderConfig> = Vec::new();
        let mut old_providers: Vec<ProviderConfig> = Vec::new();
        std::mem::swap(&mut old_providers, &mut s.providers);
        let mut i: usize = 0;
        while i < old_providers.len()
            invariant
                i <= old_providers.len(),
                old_p == providers_view(old_providers@),
                pred == (|q: ProviderConfigView| q.id != provider@.id),
                providers_view(kept@) == old_p.take(i as int).filter(pred),
            decreases old_providers.len() - i,
        {
            assert(old_p.take(i + 1).drop_last() =~= old_p.take(i as int));
            reveal_with_fuel(Seq::<ProviderConfigView>::filter, 1);
            if !old_providers[i].id().same(provider.id()) {
                kept.push(old_providers[i].clone());
                assert(providers_view(kept@) =~= old_p.take(i as int).filter(pred).push(
                    old_p[i as int],
                ));
            }
            i += 1;
        }
        assert(old_p.take(old_p.len() as int) =~= old_p);
        let ghost pv = provider@;
        kept.push(provider);
        assert(providers_view(kept@) =~= providers_without(old_p, pv.id).push(pv));
        s.providers = kept;
        s.default_profile = Some(profile);
        s
    }
}

/// Settings together with the generation they were saved under.
#[derive(Debug)]
pub struct SettingsSnapshot {
    settings: AppSettings,
    generation: u64,
}

impl View for SettingsSnapshot {
    type V = (AppSettingsView, u64);

    closed spec fn view(&self) -> (AppSettingsView, u64) {
        (self.settings@, self.generation)
    }
}

impl Clone for SettingsSnapshot {
    fn clone(&self) -> (r: Self)
        ensures
            r@ == self@,
    {
        SettingsSnapshot { settings: self.settings.clone(), generation: self.generation }
    }
}

impl SettingsSnapshot {
    /// The settings `settings` at generation `generation`.
    pub fn new(settings: AppSettings, generation: u64) -> (r: Self)
        ensures
            r@ == (settings@, generation),
    {
        SettingsSnapshot { settings, generation }
    }

    /// The settings.
    pub fn settings(&self) -> (r: &AppSettings)
        ensures
            r@ == self@.0,
    {
        &self.settings
    }

    /// The generation.
    pub fn generation(&self) -> (r: u64)
        ensures
            r == self@.1,
    {
        self.generation
    }
}


proof fn lemma_filter_one<A>(x: A, p: spec_fn(A) -> bool)
    ensures
        seq![x].filter(p) == if p(x) {
            seq![x]
        } else {
            Seq::<A>::empty()
        },
{
    reveal(Seq::filter);
    assert(seq![x].drop_last() =~= Seq::<A>::empty());
    assert(Seq::<A>::empty().filter(p) =~= Seq::<A>::empty());
    if p(x) {
        assert(Seq::<A>::empty().push(x) =~= seq![x]);
    }
}

proof fn lemma_overrides_without_reads(o: Seq<(Seq<char>, DismissPolicy)>, a: Seq<char>, b: Seq<char>)
    ensures
        override_for(overrides_without(o, a), a) is None,
        b != a ==> override_for(overrides_without(o, a), b) == override_for(o, b),
    decreases o.len(),
{
    let pred = other_action(a);
    if o.len() == 0 {
        assert(o.filter(pred) =~= o) by {
            reveal(Seq::filter);
        }
    } else {
        let x = o[0];
        let rest = o.drop_first();
        assert(o =~= seq![x] + rest);
        Seq::filter_distributes_over_add(seq![x], rest, pred);
        lemma_filter_one(x, pred);
        lemma_overrides_without_reads(rest, a, b);
        let w = overrides_without(o, a);
        if x.0 != a {
            assert(w == seq![x] + rest.filter(pred));
            assert(w[0] == x);
            assert(w.drop_first() =~= rest.filter(pred));
        } else {
            assert(w =~= rest.filter(pred));
        }
    }
}

proof fn lemma_override_set_reads(o: Seq<(Seq<char>, DismissPolicy)>, a: Seq<char>, p: DismissPolicy, b: Seq<char>)
    ensures
        override_for(override_set(o, a, p), a) == Some(p),
        b != a ==> override_for(override_set(o, a, p), b) == override_for(o, b),
        overrides_without(override_set(o, a, p), a) == overrides_without(o, a),
    decreases o.len(),
{
    let pred = other_action(a);
    let w = override_set(o, a, p);
    if o.len() == 0 {
        assert(w.drop_first() =~= Seq::<(Seq<char>, DismissPolicy)>::empty());
        assert(override_for(Seq::<(Seq<char>, DismissPolicy)>::empty(), b) is None);
        assert(override_for(w.drop_first(), b) is None);
        assert(w =~= seq![(a, p)] + o);
        Seq::filter_distributes_over_add(seq![(a, p)], o, pred);
        lemma_filter_one((a, p), pred);
        assert(seq![(a, p)].filter(pred) + o.filter(pred) =~= o.filter(pred));
    } else if o[0].0 == a {
        assert(w[0] == (a, p));
        assert(w.drop_first() =~= o.drop_first());
        assert(w =~= seq![(a, p)] + o.drop_first());
        assert(o =~= seq![o[0]] + o.drop_first());
        Seq::filter_distributes_over_add(seq![(a, p)], o.drop_first(), pred);
        Seq::filter_distributes_over_add(seq![o[0]], o.drop_first(), pred);
        lemma_filter_one((a, p), pred);
        lemma_filter_one(o[0], pred);
        assert(seq![(a, p)].filter(pred) + o.drop_first().filter(pred) =~= o.drop_first().filter(pred));
        assert(seq![o[0]].filter(pred) + o.drop_first().filter(pred) =~= o.drop_first().filter(pred));
    } else if lex_lt(a, o[0].0) {
        assert(w[0] == (a, p));
        assert(w.drop_first() =~= o);
        Seq::filter_distributes_over_add(seq![(a, p)], o, pred);
        lemma_filter_one((a, p), pred);
        assert(seq![(a, p)].filter(pred) + o.filter(pred) =~= o.filter(pred));
    } else {
        let rest = o.drop_first();
        lemma_override_set_reads(rest, a, p, b);
        assert(w[0] == o[0]);
        assert(w.drop_first() =~= override_set(rest, a, p));
        assert(w =~= seq![o[0]] + override_set(rest, a, p));
        assert(o =~= seq![o[0]] + rest);
        Seq::filter_distributes_over_add(seq![o[0]], override_set(rest, a, p), pred);
        Seq::filter_distributes_over_add(seq![o[0]], rest, pred);
    }
}

proof fn lemma_without_absent(o: Seq<(Seq<char>, DismissPolicy)>, a: Seq<char>)
    requires
        override_for(o, a) is None,
    ensures
        overrides_without(o, a) == o,
    decreases o.len(),
{
    let pred = other_action(a);
    if o.len() == 0 {
        assert(o.filter(pred) =~= o) by {
            reveal(Seq::filter);
        }
    } else {
        let x = o[0];
        let rest = o.drop_first();
        assert(o =~= seq![x] + rest);
        Seq::filter_distributes_over_add(seq![x], rest, pred);
        lemma_filter_one(x, pred);
        lemma_without_absent(rest, a);
        assert(overrides_without(o, a) =~= seq![x] + rest);
    }
}

/// Dismiss overrides read back what was written: after setting `a` to `p`,
/// `a` reads `p`; after clearing `a`, it reads nothing; every other action
/// reads as before either way; and setting then clearing an action that
/// had no override gives back the overrides unchanged.
pub proof fn dismiss_overrides_read_back(
    o: Seq<(Seq<char>, DismissPolicy)>,
    a: Seq<char>,
    p: DismissPolicy,
    b: Seq<char>,
)
    ensures
        override_for(override_set(o, a, p), a) == Some(p),
        override_for(overrides_without(o, a), a) is None,
        b != a ==> override_for(override_set(o, a, p), b) == override_for(o, b),
        b != a ==> override_for(overrides_without(o, a), b) == override_for(o, b),
        override_for(o, a) is None ==> overrides_without(override_set(o, a, p), a) == o,
{
    lemma_override_set_reads(o, a, p, b);
    lemma_overrides_without_reads(o, a, b);
    if override_for(o, a) is None {
        lemma_without_absent(o, a);
    }
}


/// Whether the overrides are in the order of their actions, each action
/// once: the order in which a map keyed by action holds them.
pub open spec fn overrides_ordered(o: Seq<(Seq<char>, DismissPolicy)>) -> bool {
    forall|i: int, j: int| 0 <= i < j < o.len() ==> lex_lt(#[trigger] o[i].0, #[trigger] o[j].0)
}

/// Whether every action of `o` comes after `x`.
pub open spec fn overrides_above(o: Seq<(Seq<char>, DismissPolicy)>, x: Seq<char>) -> bool {
    forall|i: int| 0 <= i < o.len() ==> lex_lt(x, #[trigger] o[i].0)
}

proof fn lemma_set_above(o: Seq<(Seq<char>, DismissPolicy)>, a: Seq<char>, p: DismissPolicy, x: Seq<char>)
    requires
        overrides_above(o, x),
        lex_lt(x, a),
    ensures
        overrides_above(override_set(o, a, p), x),
    decreases o.len(),
{
    let w = override_set(o, a, p);
    if o.len() > 0 && o[0].0 != a && !lex_lt(a, o[0].0) {
        let rest = o.drop_first();
        assert(overrides_above(rest, x)) by {
            assert forall|i: int| 0 <= i < rest.len() implies lex_lt(x, #[trigger] rest[i].0) by {
                assert(rest[i] == o[i + 1]);
            }
        }
        lemma_set_above(rest, a, p, x);
        assert forall|i: int| 0 <= i < w.len() implies lex_lt(x, #[trigger] w[i].0) by {
            if i > 0 {
                assert(w[i] == override_set(rest, a, p)[i - 1]);
            }
        }
    } else if o.len() > 0 && o[0].0 == a {
        assert forall|i: int| 0 <= i < w.len() implies lex_lt(x, #[trigger] w[i].0) by {
            if i > 0 {
                assert(w[i] == o[i]);
            }
        }
    } else if o.len() > 0 {
        assert forall|i: int| 0 <= i < w.len() implies lex_lt(x, #[trigger] w[i].0) by {
            if i > 0 {
                assert(w[i] == o[i - 1]);
            }
        }
    }
}

proof fn lemma_set_ordered(o: Seq<(Seq<char>, DismissPolicy)>, a: Seq<char>, p: DismissPolicy)
    requires
        overrides_ordered(o),
    ensures
        overrides_ordered(override_set(o, a, p)),
    decreases o.len(),
{
    let w = override_set(o, a, p);
    if o.len() == 0 {
    } else if o[0].0 == a {
        assert forall|i: int, j: int| 0 <= i < j < w.len() implies lex_lt(#[trigger] w[i].0, #[trigger] w[j].0) by {
            assert(w[j] == o[j]);
            if i > 0 {
                assert(w[i] == o[i]);
            }
        }
    } else if lex_lt(a, o[0].0) {
        assert forall|i: int, j: int| 0 <= i < j < w.len() implies lex_lt(#[trigger] w[i].0, #[trigger] w[j].0) by {
            assert(w[j] == o[j - 1]);
            if i > 0 {
                assert(w[i] == o[i - 1]);
            } else if j - 1 > 0 {
                assert(lex_lt(o[0].0, o[j - 1].0));
                lemma_lex_lt_transitive(a, o[0].0, o[j - 1].0);
            }
        }
    } else {
        let rest = o.drop_first();
        lemma_lex_lt_total(a, o[0].0);
        assert(overrides_ordered(rest)) by {
            assert forall|i: int, j: int| 0 <= i < j < rest.len() implies lex_lt(#[trigger] rest[i].0, #[trigger] rest[j].0) by {
                assert(rest[i] == o[i + 1] && rest[j] == o[j + 1]);
            }
        }
        assert(overrides_above(rest, o[0].0)) by {
            assert forall|i: int| 0 <= i < rest.len() implies lex_lt(o[0].0, #[trigger] rest[i].0) by {
                assert(rest[i] == o[i + 1]);
            }
        }
        lemma_set_ordered(rest, a, p);
        lemma_set_above(rest, a, p, o[0].0);
        let v = override_set(rest, a, p);
        assert forall|i: int, j: int| 0 <= i < j < w.len() implies lex_lt(#[trigger] w[i].0, #[trigger] w[j].0) by {
            assert(w[j] == v[j - 1]);
            if i > 0 {
                assert(w[i] == v[i - 1]);
            }
        }
    }
}

proof fn lemma_without_ordered(o: Seq<(Seq<char>, DismissPolicy)>, a: Seq<char>, x: Seq<char>)
    requires
        overrides_ordered(o),
    ensures
        overrides_ordered(overrides_without(o, a)),
        overrides_above(o, x) ==> overrides_above(overrides_without(o, a), x),
    decreases o.len(),
{
    let pred = other_action(a);
    if o.len() == 0 {
        assert(o.filter(pred) =~= o) by {
            reveal(Seq::filter);
        }
    } else {
        let rest = o.drop_first();
        assert(o =~= seq![o[0]] + rest);
        Seq::filter_distributes_over_add(seq![o[0]], rest, pred);
        lemma_filter_one(o[0], pred);
        assert(overrides_ordered(rest)) by {
            assert forall|i: int, j: int| 0 <= i < j < rest.len() implies lex_lt(#[trigger] rest[i].0, #[trigger] rest[j].0) by {
                assert(rest[i] == o[i + 1] && rest[j] == o[j + 1]);
            }
        }
        assert(overrides_above(rest, o[0].0)) by {
            assert forall|i: int| 0 <= i < rest.len() implies lex_lt(o[0].0, #[trigger] rest[i].0) by {
                assert(rest[i] == o[i + 1]);
            }
        }
        lemma_without_ordered(rest, a, o[0].0);
        lemma_without_ordered(rest, a, x);
        let f = rest.filter(pred);
        let w = overrides_without(o, a);
        if pred(o[0]) {
            assert(w =~= seq![o[0]] + f);
            assert forall|i: int, j: int| 0 <= i < j < w.len() implies lex_lt(#[trigger] w[i].0, #[trigger] w[j].0) by {
                assert(w[j] == f[j - 1]);
                if i > 0 {
                    assert(w[i] == f[i - 1]);
                }
            }
            if overrides_above(o, x) {
                assert(overrides_above(rest, x)) by {
                    assert forall|i: int| 0 <= i < rest.len() implies lex_lt(x, #[trigger] rest[i].0) by {
                        assert(rest[i] == o[i + 1]);
                    }
                }
                assert forall|i: int| 0 <= i < w.len() implies lex_lt(x, #[trigger] w[i].0) by {
                    if i > 0 {
                        assert(w[i] == f[i - 1]);
                    }
                }
            }
        } else {
            assert(w =~= f);
            if overrides_above(o, x) {
                assert(overrides_above(rest, x)) by {
                    assert forall|i: int| 0 <= i < rest.len() implies lex_lt(x, #[trigger] rest[i].0) by {
                        assert(rest[i] == o[i + 1]);
                    }
                }
            }
        }
    }
}

proof fn lemma_above_reads_nothing(o: Seq<(Seq<char>, DismissPolicy)>, x: Seq<char>)
    requires
        overrides_above(o, x),
    ensures
        override_for(o, x) is None,
    decreases o.len(),
{
    if o.len() > 0 {
        lemma_lex_lt_irreflexive(x);
        let rest = o.drop_first();
        assert(overrides_above(rest, x)) by {
            assert forall|i: int| 0 <= i < rest.len() implies lex_lt(x, #[trigger] rest[i].0) by {
                assert(rest[i] == o[i + 1]);
            }
        }
        lemma_above_reads_nothing(rest, x);
    }
}

/// Dismiss overrides stay in the order of their actions, as a map keyed by
/// action keeps them: setting or clearing an override keeps them ordered,
/// so two ordered lists that read alike for every action are the same list.
pub proof fn dismiss_overrides_stay_ordered(
    o: Seq<(Seq<char>, DismissPolicy)>,
    a: Seq<char>,
    p: DismissPolicy,
)
    requires
        overrides_ordered(o),
    ensures
        overrides_ordered(override_set(o, a, p)),
        overrides_ordered(overrides_without(o, a)),
{
    lemma_set_ordered(o, a, p);
    lemma_without_ordered(o, a, a);
}

/// Ordered overrides are fixed by what they read: two ordered lists that
/// give the same override for every action are equal.
pub proof fn ordered_overrides_are_determined(o1: Seq<(Seq<char>, DismissPolicy)>, o2: Seq<(Seq<char>, DismissPolicy)>)
    requires
        overrides_ordered(o1),
        overrides_ordered(o2),
        forall|k: Seq<char>| #[trigger] override_for(o1, k) == override_for(o2, k),
    ensures
        o1 == o2,
    decreases o1.len() + o2.len(),
{
    if o1.len() == 0 && o2.len() == 0 {
        assert(o1 =~= o2);
    } else if o1.len() == 0 {
        assert(override_for(o2, o2[0].0) is Some);
        assert(override_for(o1, o2[0].0) is None);
    } else if o2.len() == 0 {
        assert(override_for(o1, o1[0].0) is Some);
        assert(override_for(o2, o1[0].0) is None);
    } else {
        let (r1, r2) = (o1.drop_first(), o2.drop_first());
        assert(overrides_above(r1, o1[0].0)) by {
            assert forall|i: int| 0 <= i < r1.len() implies lex_lt(o1[0].0, #[trigger] r1[i].0) by {
                assert(r1[i] == o1[i + 1]);
            }
        }
        assert(overrides_above(r2, o2[0].0)) by {
            assert forall|i: int| 0 <= i < r2.len() implies lex_lt(o2[0].0, #[trigger] r2[i].0) by {
                assert(r2[i] == o2[i + 1]);
            }
        }
        if o1[0].0 != o2[0].0 {
            lemma_lex_lt_total(o1[0].0, o2[0].0);
            if lex_lt(o1[0].0, o2[0].0) {
                assert(overrides_above(o2, o1[0].0)) by {
                    assert forall|i: int| 0 <= i < o2.len() implies lex_lt(o1[0].0, #[trigger] o2[i].0) by {
                        if i > 0 {
                            lemma_lex_lt_transitive(o1[0].0, o2[0].0, o2[i].0);
                        }
                    }
                }
                lemma_above_reads_nothing(o2, o1[0].0);
                assert(override_for(o1, o1[0].0) is Some);
            } else {
                assert(overrides_above(o1, o2[0].0)) by {
                    assert forall|i: int| 0 <= i < o1.len() implies lex_lt(o2[0].0, #[trigger] o1[i].0) by {
                        if i > 0 {
                            lemma_lex_lt_transitive(o2[0].0, o1[0].0, o1[i].0);
                        }
                    }
                }
                lemma_above_reads_nothing(o1, o2[0].0);
                assert(override_for(o2, o2[0].0) is Some);
            }
        } else {
            let key = o1[0].0;
            assert(override_for(o1, key) == Some(o1[0].1));
            assert(override_for(o2, key) == Some(o2[0].1));
            lemma_above_reads_nothing(r1, key);
            lemma_above_reads_nothing(r2, key);
            assert(overrides_ordered(r1)) by {
                assert forall|i: int, j: int| 0 <= i < j < r1.len() implies lex_lt(#[trigger] r1[i].0, #[trigger] r1[j].0) by {
                    assert(r1[i] == o1[i + 1] && r1[j] == o1[j + 1]);
                }
            }
            assert(overrides_ordered(r2)) by {
                assert forall|i: int, j: int| 0 <= i < j < r2.len() implies lex_lt(#[trigger] r2[i].0, #[trigger] r2[j].0) by {
                    assert(r2[i] == o2[i + 1] && r2[j] == o2[j + 1]);
                }
            }
            assert forall|k: Seq<char>| #[trigger] override_for(r1, k) == override_for(r2, k) by {
                if k != key {
                    assert(override_for(o1, k) == override_for(r1, k));
                    assert(override_for(o2, k) == override_for(r2, k));
                }
            }
            ordered_overrides_are_determined(r1, r2);
            assert(o1 =~= seq![o1[0]] + r1);
            assert(o2 =~= seq![o2[0]] + r2);
        }
    }
}

} // verus!
