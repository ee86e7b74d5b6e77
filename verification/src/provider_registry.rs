//! The providers and default model that the current settings configure,
//! and how a chat's model preference resolves against them.
use vstd::prelude::*;

use crate::chat::{ChatModelPreference, ModelPreferenceView};
use crate::provider::{
    ModelProfile, ModelProfileView, ProviderConfig, ProviderConfigView, ProviderError,
    ProviderErrorView,
};
use crate::settings::{AppSettings, lemma_provider_index, provider_index, providers_view};
use crate::text::{concat, copy_string};

verus! {

/// The model of a provider registry: the settings generation it reflects,
/// the providers and the default profile.
pub struct ProviderRegistryView {
    pub generation: u64,
    pub providers: Seq<ProviderConfigView>,
    pub default_profile: Option<ModelProfileView>,
}

/// What the default profile resolves to: its provider and model, or
/// `NotConfigured` when there is no default or its provider is gone.
pub open spec fn resolved_default(r: ProviderRegistryView) -> Result<
    (ProviderConfigView, Seq<char>),
    ProviderErrorView,
> {
    match r.default_profile {
        None => Err(ProviderErrorView::NotConfigured),
        Some(p) => match provider_index(r.providers, p.provider_id) {
            None => Err(ProviderErrorView::NotConfigured),
            Some(i) => Ok((r.providers[i], p.model_id)),
        },
    }
}

/// What a model preference resolves to: `Fast` and `Smart` give the
/// default; a named model must be one the default provider serves.
pub open spec fn resolved(r: ProviderRegistryView, preference: ModelPreferenceView) -> Result<
    (ProviderConfigView, Seq<char>),
    ProviderErrorView,
> {
    match resolved_default(r) {
        Err(e) => Err(e),
        Ok((provider, model)) => match preference {
            ModelPreferenceView::Fast => Ok((provider, model)),
            ModelPreferenceView::Smart => Ok((provider, model)),
            ModelPreferenceView::Model(m) => if provider.model_ids.contains(m) {
                Ok((provider, m))
            } else {
                Err(
                    ProviderErrorView::InvalidConfiguration(
                        "model '"@ + m + "' is not configured for the selected provider"@,
                    ),
                )
            },
        },
    }
}

/// Copies a list of providers.
fn copy_providers(p: &[ProviderConfig]) -> (r: Vec<ProviderConfig>)
    ensures
        providers_view(r@) == providers_view(p@),
{
    let mut out: Vec<ProviderConfig> = Vec::new();
    let mut i: usize = 0;
    while i < p.len()
        invariant
            i <= p@.len(),
            out@.len() == i,
            forall|j: int| 0 <= j < i ==> (#[trigger] out@[j])@ == p@[j]@,
        decreases p.len() - i,
    {
        out.push(p[i].clone());
        i += 1;
    }
    assert(providers_view(out@) =~= providers_view(p@));
    out
}

/// Copies an optional profile.
fn copy_profile(p: Option<&ModelProfile>) -> (r: Option<ModelProfile>)
    ensures
        match p {
            Some(x) => r matches Some(y) && y@ == x@,
            None => r is None,
        },
{
    match p {
        Some(x) => Some(x.clone()),
        None => None,
    }
}

/// The providers and default profile of the current settings.
pub struct ProviderRegistry {
    settings_generation: u64,
    providers: Vec<ProviderConfig>,
    default_profile: Option<ModelProfile>,
}

impl View for ProviderRegistry {
    type V = ProviderRegistryView;

    closed spec fn view(&self) -> ProviderRegistryView {
        ProviderRegistryView {
            generation: self.settings_generation,
            providers: providers_view(self.providers@),
            default_profile: match self.default_profile {
                Some(p) => Some(p@),
                None => None,
            },
        }
    }
}

impl ProviderRegistry {
    /// A registry of `settings`' providers and default profile, at
    /// generation 0.
    pub fn new(settings: &AppSettings) -> (r: Self)
        ensures
            r@ == (ProviderRegistryView {
                generation: 0,
                providers: settings@.providers,
                default_profile: settings@.default_profile,
            }),
    {
        ProviderRegistry {
            settings_generation: 0,
            providers: copy_providers(settings.providers()),
            default_profile: copy_profile(settings.default_profile()),
        }
    }

    /// Takes on `settings`' providers and default profile as of settings
    /// generation `generation`.
    pub fn replace(&mut self, settings: &AppSettings, generation: u64)
        ensures
            final(self)@ == (ProviderRegistryView {
                generation,
                providers: settings@.providers,
                default_profile: settings@.default_profile,
            }),
    {
        self.settings_generation = generation;
        self.providers = copy_providers(settings.providers());
        self.default_profile = copy_profile(settings.default_profile());
    }

    /// The default profile's provider and model.
    pub fn resolve_default(&self) -> (r: Result<(ProviderConfig, String), ProviderError>)
        ensures
            match resolved_default(self@) {
                Ok((p, m)) => r matches Ok((x, y)) && x@ == p && y@ == m,
                Err(e) => r matches Err(x) && x@ == e,
            },
    {
        let profile = match &self.default_profile {
            Some(p) => p,
            None => return Err(ProviderError::NotConfigured),
        };
        let ghost pv = providers_view(self.providers@);
        proof {
            lemma_provider_index(pv, profile@.provider_id);
        }
        let mut i: usize = 0;
        while i < self.providers.len()
            invariant
                i <= self.providers.len(),
                pv == providers_view(self.providers@),
                self@.default_profile == Some(profile@),
                match provider_index(pv, profile@.provider_id) {
                    Some(k) => 0 <= k < pv.len() && pv[k].id == profile@.provider_id && forall|j: int|
                        0 <= j < k ==> pv[j].id != profile@.provider_id,
                    None => forall|j: int| 0 <= j < pv.len() ==> pv[j].id != profile@.provider_id,
                },
                forall|j: int| 0 <= j < i ==> pv[j].id != profile@.provider_id,
            decreases self.providers.len() - i,
        {
            if self.providers[i].id().same(profile.provider_id()) {
                assert(pv[i as int].id == profile@.provider_id);
                return Ok((self.providers[i].clone(), profile.model_id().to_string()));
            }
            i += 1;
        }
        Err(ProviderError::NotConfigured)
    }

    /// The provider and model that `preference` resolves to.
    pub fn resolve(&self, preference: &ChatModelPreference) -> (r: Result<
        (ProviderConfig, String),
        ProviderError,
    >)
        ensures
            match resolved(self@, preference@) {
                Ok((p, m)) => r matches Ok((x, y)) && x@ == p && y@ == m,
                Err(e) => r matches Err(x) && x@ == e,
            },
    {
        let (provider, default_model) = match self.resolve_default() {
            Ok(v) => v,
            Err(e) => return Err(e),
        };
        match preference {
            ChatModelPreference::Fast => Ok((provider, default_model)),
            ChatModelPreference::Smart => Ok((provider, default_model)),
            ChatModelPreference::Model(model) => {
                if provider.serves_model(model.as_str()) {
                    Ok((provider, copy_string(model)))
                } else {
                    let a = concat("model '", model.as_str());
                    let message = concat(a.as_str(), "' is not configured for the selected provider");
                    Err(ProviderError::InvalidConfiguration(message))
                }
            },
        }
    }

    /// The settings generation the registry reflects.
    pub fn generation(&self) -> (r: u64)
        ensures
            r == self@.generation,
    {
        self.settings_generation
    }
}

} // verus!
