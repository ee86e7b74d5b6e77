//! The provider page: what it shows of the settings, how a filled-in form
//! becomes a provider configuration, which credential a test request uses,
//! and what saving the form writes and cleans up. Reading and writing the
//! credential store and the settings file is the caller's work.
use vstd::prelude::*;

use crate::endpoint::{completion_endpoint, endpoint_outcome};
use crate::ids::{fresh_uuid, is_uuid_text};
use crate::plugin::valid_token;
use crate::provider::{
    opt_view, strings_view, ModelProfile, ModelProfileView, ProviderConfig, ProviderConfigView,
    ProviderDraft, ProviderError, ProviderErrorView, ProviderId, ProviderUiSnapshot,
};
use crate::settings::{
    lemma_provider_index, provider_index, providers_without, AppSettings, AppSettingsView,
    SettingsSnapshot,
};
use crate::text::{chars_of, concat, copy_string, string_from_range, trim, trim_str};

verus! {

/// The default profile of the settings and the provider it names, when
/// both are there.
pub open spec fn configured(s: AppSettingsView) -> Option<(ModelProfileView, ProviderConfigView)> {
    match s.default_profile {
        None => None,
        Some(p) => match provider_index(s.providers, p.provider_id) {
            Some(i) => Some((p, s.providers[i])),
            None => None,
        },
    }
}

/// The default profile of `settings` and the provider it names.
fn configured_provider(settings: &AppSettings) -> (r: Option<(&ModelProfile, &ProviderConfig)>)
    ensures
        match configured(settings@) {
            Some((p, c)) => r matches Some((x, y)) && x@ == p && y@ == c,
            None => r is None,
        },
{
    match settings.default_profile() {
        None => None,
        Some(profile) => match settings.provider(profile.provider_id()) {
            Some(provider) => Some((profile, provider)),
            None => None,
        },
    }
}

/// The model of what the provider page shows.
pub struct ProviderUiView {
    pub configured: bool,
    pub id: Seq<char>,
    pub display_name: Seq<char>,
    pub base_url: Seq<char>,
    pub model_id: Seq<char>,
    pub stream: bool,
    pub use_authentication: bool,
    pub has_saved_credential: bool,
    pub generation: u64,
    pub context_budget: usize,
    pub proxy_url: Seq<char>,
    pub connect_timeout_seconds: u64,
    pub total_timeout_seconds: u64,
    pub event_timeout_seconds: u64,
    pub temperature_milli: Option<u16>,
    pub max_output_tokens: Option<u32>,
}

/// The model of a provider page snapshot.
pub open spec fn ui_view(s: ProviderUiSnapshot) -> ProviderUiView {
    ProviderUiView {
        configured: s.configured,
        id: s.id@,
        display_name: s.display_name@,
        base_url: s.base_url@,
        model_id: s.model_id@,
        stream: s.stream,
        use_authentication: s.use_authentication,
        has_saved_credential: s.has_saved_credential,
        generation: s.generation,
        context_budget: s.context_budget,
        proxy_url: s.proxy_url@,
        connect_timeout_seconds: s.connect_timeout_seconds,
        total_timeout_seconds: s.total_timeout_seconds,
        event_timeout_seconds: s.event_timeout_seconds,
        temperature_milli: s.temperature_milli,
        max_output_tokens: s.max_output_tokens,
    }
}

/// What the provider page shows of settings saved under `generation`: the
/// default provider and model, or an OpenAI-compatible form to fill in.
pub open spec fn provider_page(s: AppSettingsView, generation: u64) -> ProviderUiView {
    match configured(s) {
        Some((profile, provider)) => ProviderUiView {
            configured: true,
            id: provider.id,
            display_name: provider.display_name,
            base_url: provider.base_url,
            model_id: profile.model_id,
            stream: provider.stream,
            use_authentication: provider.credential_ref is Some,
            has_saved_credential: provider.credential_ref is Some,
            generation,
            context_budget: provider.context_budget,
            proxy_url: match provider.proxy_url {
                Some(p) => p,
                None => Seq::empty(),
            },
            connect_timeout_seconds: provider.connect_timeout_seconds,
            total_timeout_seconds: provider.total_timeout_seconds,
            event_timeout_seconds: provider.event_timeout_seconds,
            temperature_milli: provider.temperature_milli,
            max_output_tokens: provider.max_output_tokens,
        },
        None => ProviderUiView {
            configured: false,
            id: "default"@,
            display_name: "OpenAI compatible"@,
            base_url: "https://api.openai.com/v1"@,
            model_id: Seq::empty(),
            stream: true,
            use_authentication: true,
            has_saved_credential: false,
            generation,
            context_budget: 8192,
            proxy_url: Seq::empty(),
            connect_timeout_seconds: 10,
            total_timeout_seconds: 180,
            event_timeout_seconds: 60,
            temperature_milli: None,
            max_output_tokens: None,
        },
    }
}

/// What the provider page shows of `snapshot`.
pub fn provider_ui_snapshot(snapshot: &SettingsSnapshot) -> (r: ProviderUiSnapshot)
    ensures
        ui_view(r) == provider_page(snapshot@.0, snapshot@.1),
{
    let generation = snapshot.generation();
    match configured_provider(snapshot.settings()) {
        Some((profile, provider)) => ProviderUiSnapshot {
            configured: true,
            id: provider.id().as_str().to_owned(),
            display_name: provider.display_name().to_owned(),
            base_url: provider.base_url().to_owned(),
            model_id: profile.model_id().to_owned(),
            stream: provider.stream(),
            use_authentication: provider.credential_ref().is_some(),
            has_saved_credential: provider.credential_ref().is_some(),
            generation,
            context_budget: provider.context_budget(),
            proxy_url: match provider.proxy_url() {
                Some(p) => p.to_owned(),
                None => String::new(),
            },
            connect_timeout_seconds: provider.connect_timeout_seconds(),
            total_timeout_seconds: provider.total_timeout_seconds(),
            event_timeout_seconds: provider.event_timeout_seconds(),
            temperature_milli: provider.temperature_milli(),
            max_output_tokens: provider.max_output_tokens(),
        },
        None => ProviderUiSnapshot {
            configured: false,
            id: "default".to_owned(),
            display_name: "OpenAI compatible".to_owned(),
            base_url: "https://api.openai.com/v1".to_owned(),
            model_id: String::new(),
            stream: true,
            use_authentication: true,
            has_saved_credential: false,
            generation,
            context_budget: crate::provider::default_context_budget(),
            proxy_url: String::new(),
            connect_timeout_seconds: crate::provider::default_connect_timeout_seconds(),
            total_timeout_seconds: crate::provider::default_total_timeout_seconds(),
            event_timeout_seconds: crate::provider::default_event_timeout_seconds(),
            temperature_milli: None,
            max_output_tokens: None,
        },
    }
}

/// The provider a form describes, with `credential_ref`, and the model it
/// names; the form's fields are trimmed.
pub open spec fn config_from(d: ProviderDraft, credential_ref: Option<Seq<char>>) -> Result<
    (ProviderConfigView, Seq<char>),
    ProviderErrorView,
> {
    let id = trim(d.id@);
    let name = trim(d.display_name@);
    let base = trim(d.base_url@);
    let model = trim(d.model_id@);
    if !valid_token(id) {
        Err(ProviderErrorView::InvalidId(id))
    } else if name.len() == 0 || base.len() == 0 || model.len() == 0 {
        Err(ProviderErrorView::InvalidConfiguration("name, Base URL, and model are required"@))
    } else {
        match endpoint_outcome(base) {
            Err(e) => Err(e),
            Ok(_) => Ok(
                (
                    ProviderConfigView {
                        id,
                        display_name: name,
                        base_url: base,
                        credential_ref,
                        model_ids: seq![model],
                        stream: d.stream,
                        context_budget: 8192,
                        proxy_url: None,
                        connect_timeout_seconds: 10,
                        total_timeout_seconds: 180,
                        event_timeout_seconds: 60,
                        temperature_milli: None,
                        max_output_tokens: None,
                    },
                    model,
                ),
            ),
        }
    }
}

/// The provider a filled-in form describes, with `credential_ref`, and the
/// model it names.
pub fn build_config(draft: &ProviderDraft, credential_ref: Option<String>) -> (r: Result<
    (ProviderConfig, String),
    ProviderError,
>)
    ensures
        match config_from(*draft, opt_view(credential_ref)) {
            Ok((c, m)) => r matches Ok((x, y)) && x@ == c && y@ == m,
            Err(e) => r matches Err(x) && x@ == e,
        },
{
    let id_text = trim_str(draft.id.as_str());
    let id = ProviderId::parse(id_text.as_str())?;
    let display_name = trim_str(draft.display_name.as_str());
    let base_url = trim_str(draft.base_url.as_str());
    let model = trim_str(draft.model_id.as_str());
    if display_name.as_str().is_empty() || base_url.as_str().is_empty() || model.as_str().is_empty() {
        return Err(
            ProviderError::InvalidConfiguration("name, Base URL, and model are required".to_owned()),
        );
    }
    completion_endpoint(base_url.as_str())?;
    let models = vec![copy_string(&model)];
    assert(strings_view(models@) =~= seq![model@]);
    let config = ProviderConfig::new(
        id,
        display_name.as_str(),
        base_url.as_str(),
        credential_ref,
        models,
        draft.stream,
    );
    Ok((config, model))
}

/// The API key typed into a form, trimmed, when there is one.
pub open spec fn supplied_key(d: ProviderDraft) -> Option<Seq<char>> {
    match opt_view(d.api_key) {
        Some(k) => if trim(k).len() > 0 {
            Some(trim(k))
        } else {
            None
        },
        None => None,
    }
}

/// The API key typed into a form, trimmed, when there is one.
fn typed_key(draft: &ProviderDraft) -> (r: Option<String>)
    ensures
        opt_view(r) == supplied_key(*draft),
{
    match &draft.api_key {
        Some(k) => {
            let t = trim_str(k.as_str());
            if t.as_str().is_empty() {
                None
            } else {
                Some(t)
            }
        },
        None => None,
    }
}

/// The credential reference of the provider the settings use by default.
pub open spec fn saved_reference(s: AppSettingsView) -> Option<Seq<char>> {
    match configured(s) {
        Some((_, provider)) => provider.credential_ref,
        None => None,
    }
}

/// The credential reference of the provider `settings` use by default.
fn current_reference(settings: &AppSettings) -> (r: Option<String>)
    ensures
        opt_view(r) == saved_reference(settings@),
{
    match configured_provider(settings) {
        Some((_, provider)) => match provider.credential_ref() {
            Some(reference) => Some(reference.to_owned()),
            None => None,
        },
        None => None,
    }
}

/// Which credential a test request uses.
#[derive(Debug)]
pub enum TestCredential {
    /// No authentication.
    Anonymous,
    /// The key typed into the form.
    Typed(String),
    /// The key stored under this reference, which the caller reads.
    Stored(String),
}

/// The credential a test of the form `draft` uses: none without
/// authentication, the typed key, or the one saved for the default
/// provider; without either, a credential error.
pub fn test_credential(draft: &ProviderDraft, settings: &AppSettings) -> (r: Result<
    TestCredential,
    ProviderError,
>)
    ensures
        !draft.use_authentication ==> r matches Ok(TestCredential::Anonymous),
        draft.use_authentication ==> match (supplied_key(*draft), saved_reference(settings@)) {
            (Some(k), _) => r matches Ok(TestCredential::Typed(x)) && x@ == k,
            (None, Some(reference)) => r matches Ok(TestCredential::Stored(x)) && x@ == reference,
            (None, None) => r matches Err(e) && e@ == ProviderErrorView::Credential(
                "enter an API key or disable authentication"@,
            ),
        },
{
    if !draft.use_authentication {
        return Ok(TestCredential::Anonymous);
    }
    if let Some(key) = typed_key(draft) {
        return Ok(TestCredential::Typed(key));
    }
    match current_reference(settings) {
        Some(reference) => Ok(TestCredential::Stored(reference)),
        None => Err(
            ProviderError::Credential("enter an API key or disable authentication".to_owned()),
        ),
    }
}

/// The start of a test reply that the provider page shows: its first 160
/// characters.
pub open spec fn preview_of(output: Seq<char>) -> Seq<char> {
    if output.len() <= 160 {
        output
    } else {
        output.take(160)
    }
}

/// The start of a test reply that the provider page shows.
pub fn response_preview(output: &str) -> (r: String)
    ensures
        r@ == preview_of(output@),
{
    let chars = chars_of(output);
    let end = if chars.len() <= 160 {
        chars.len()
    } else {
        160
    };
    let r = string_from_range(&chars, 0, end);
    assert(r@ =~= preview_of(output@));
    r
}

/// The credential reference a save gives the provider: a new one when a key
/// is typed, else the saved one; none without authentication. Without a
/// typed or saved key, a credential error.
pub open spec fn reference_for(d: ProviderDraft, s: AppSettingsView, fresh: Seq<char>) -> Result<
    Option<Seq<char>>,
    ProviderErrorView,
> {
    if !d.use_authentication {
        Ok(None)
    } else if supplied_key(d) is Some {
        Ok(Some("LexWisp/provider/"@ + d.id@ + "/"@ + fresh))
    } else {
        match saved_reference(s) {
            Some(r) => Ok(Some(r)),
            None => Err(ProviderErrorView::Credential("enter an API key before saving"@)),
        }
    }
}

/// What saving the provider form does: the settings to apply, the key to
/// write under the new reference first, and the references before and
/// after, which decide what is deleted once the save succeeds or fails.
pub struct ProviderSavePlan {
    pub settings: AppSettings,
    pub key_write: Option<(String, String)>,
    pub old_reference: Option<String>,
    pub new_reference: Option<String>,
}

/// Whether `r` is what saving `d` over `s` gives when a new reference ends
/// in `fresh`.
pub open spec fn save_plan_is(
    r: Result<ProviderSavePlan, ProviderError>,
    d: ProviderDraft,
    s: AppSettingsView,
    fresh: Seq<char>,
) -> bool {
    match reference_for(d, s, fresh) {
        Err(e) => r matches Err(x) && x@ == e,
        Ok(new_ref) => match config_from(d, new_ref) {
            Err(e) => r matches Err(x) && x@ == e,
            Ok((provider, model)) => r matches Ok(plan) && {
                &&& plan.settings@ == AppSettingsView {
                    providers: providers_without(s.providers, provider.id).push(provider),
                    default_profile: Some(
                        ModelProfileView { name: "Fast"@, provider_id: provider.id, model_id: model },
                    ),
                    ..s
                }
                &&& opt_view(plan.new_reference) == new_ref
                &&& opt_view(plan.old_reference) == saved_reference(s)
                &&& match (new_ref, supplied_key(d)) {
                    (Some(reference), Some(key)) => plan.key_write matches Some((x, y)) && x@
                        == reference && y@ == key,
                    _ => plan.key_write is None,
                }
            },
        },
    }
}

/// What saving the form `draft` over `settings` does, a new credential
/// reference ending in `fresh`.
pub fn plan_provider_save_with(draft: &ProviderDraft, settings: &AppSettings, fresh: &str) -> (r:
    Result<ProviderSavePlan, ProviderError>)
    ensures
        save_plan_is(r, *draft, settings@, fresh@),
{
    let old_reference = current_reference(settings);
    let key = typed_key(draft);
    let new_reference = if draft.use_authentication {
        if key.is_some() {
            let head = concat("LexWisp/provider/", draft.id.as_str());
            let head = concat(head.as_str(), "/");
            Some(concat(head.as_str(), fresh))
        } else {
            match &old_reference {
                Some(reference) => Some(copy_string(reference)),
                None => {
                    return Err(
                        ProviderError::Credential("enter an API key before saving".to_owned()),
                    );
                },
            }
        }
    } else {
        None
    };
    let copied = crate::provider::copy_opt(&new_reference);
    let (provider, model) = build_config(draft, copied)?;
    let key_write = match (&new_reference, key) {
        (Some(reference), Some(k)) => Some((copy_string(reference), k)),
        _ => None,
    };
    let profile = ModelProfile::new("Fast", provider.id().clone(), model.as_str());
    let updated = settings.clone().with_provider(provider, profile);
    Ok(ProviderSavePlan { settings: updated, key_write, old_reference, new_reference })
}

/// What saving the form `draft` over `settings` does; a new credential
/// reference ends in a fresh random UUID.
pub fn plan_provider_save(draft: &ProviderDraft, settings: &AppSettings) -> (r: Result<
    ProviderSavePlan,
    ProviderError,
>)
    ensures
        exists|fresh: Seq<char>| save_plan_is(r, *draft, settings@, fresh),
{
    let fresh = fresh_uuid();
    let r = plan_provider_save_with(draft, settings, fresh.as_str());
    assert(save_plan_is(r, *draft, settings@, fresh@));
    r
}

/// The credential reference to delete once a save is done: on success the
/// replaced one, on failure the new one; none when they are the same.
pub open spec fn stale_reference(saved: bool, old: Option<Seq<char>>, new: Option<Seq<char>>) -> Option<
    Seq<char>,
> {
    if old == new {
        None
    } else if saved {
        old
    } else {
        new
    }
}

/// The credential reference to delete once a save is done.
pub fn reference_to_delete(saved: bool, old: &Option<String>, new: &Option<String>) -> (r: Option<
    String,
>)
    ensures
        opt_view(r) == stale_reference(saved, opt_view(*old), opt_view(*new)),
{
    if crate::provider::same_opt(old, new) {
        None
    } else if saved {
        crate::provider::copy_opt(old)
    } else {
        crate::provider::copy_opt(new)
    }
}

} // verus!
