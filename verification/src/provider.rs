//! AI provider configuration: provider IDs, endpoints, models and limits.
use vstd::prelude::*;

use crate::plugin::valid_token;
use crate::text::{chars_of, copy_string};

verus! {

/// The context budget, in estimated tokens, of a provider configured without one.
pub open spec fn spec_default_context_budget() -> usize {
    8192
}

/// The connect timeout, in seconds, of a provider configured without one.
pub open spec fn spec_default_connect_timeout_seconds() -> u64 {
    10
}

/// The total request timeout, in seconds, of a provider configured without one.
pub open spec fn spec_default_total_timeout_seconds() -> u64 {
    180
}

/// The timeout between stream events, in seconds, of a provider configured
/// without one.
pub open spec fn spec_default_event_timeout_seconds() -> u64 {
    60
}

/// The default context budget: 8192 estimated tokens.
#[verifier::when_used_as_spec(spec_default_context_budget)]
pub fn default_context_budget() -> (r: usize)
    ensures
        r == spec_default_context_budget(),
{
    8192
}

/// The default connect timeout: 10 seconds.
#[verifier::when_used_as_spec(spec_default_connect_timeout_seconds)]
pub fn default_connect_timeout_seconds() -> (r: u64)
    ensures
        r == spec_default_connect_timeout_seconds(),
{
    10
}

/// The default total request timeout: 180 seconds.
#[verifier::when_used_as_spec(spec_default_total_timeout_seconds)]
pub fn default_total_timeout_seconds() -> (r: u64)
    ensures
        r == spec_default_total_timeout_seconds(),
{
    180
}

/// The default timeout between stream events: 60 seconds.
#[verifier::when_used_as_spec(spec_default_event_timeout_seconds)]
pub fn default_event_timeout_seconds() -> (r: u64)
    ensures
        r == spec_default_event_timeout_seconds(),
{
    60
}

/// The ID of a configured provider, a short lowercase ASCII token.
#[derive(Debug)]
pub struct ProviderId(String);

impl Clone for ProviderId {
    fn clone(&self) -> (r: Self)
        ensures
            r@ == self@,
    {
        ProviderId(copy_string(&self.0))
    }
}

impl View for ProviderId {
    type V = Seq<char>;

    closed spec fn view(&self) -> Seq<char> {
        self.0@
    }
}

impl ProviderId {
    /// Accepts `value` when it is 1 to 64 lowercase letters, digits, hyphens
    /// or underscores; otherwise `InvalidId(value)`.
    pub fn parse(value: &str) -> (r: Result<Self, ProviderError>)
        ensures
            r is Ok <==> valid_token(value@),
            r matches Ok(id) ==> id@ == value@,
            r matches Err(e) ==> e@ == ProviderErrorView::InvalidId(value@),
    {
        match crate::plugin::ActionId::parse(value) {
            Ok(_) => Ok(ProviderId(value.to_owned())),
            Err(_) => Err(ProviderError::InvalidId(value.to_owned())),
        }
    }

    /// The ID's text.
    pub fn as_str(&self) -> (r: &str)
        ensures
            r@ == self@,
    {
        self.0.as_str()
    }

    /// Whether two IDs are the same.
    pub fn same(&self, other: &ProviderId) -> (r: bool)
        ensures
            r == (self@ == other@),
    {
        self.0 == other.0
    }
}

impl PartialEq for ProviderId {
    fn eq(&self, other: &Self) -> (r: bool) {
        self.0 == other.0
    }
}

impl vstd::std_specs::cmp::PartialEqSpecImpl for ProviderId {
    open spec fn obeys_eq_spec() -> bool {
        true
    }

    open spec fn eq_spec(&self, other: &Self) -> bool {
        self@ == other@
    }
}

impl Eq for ProviderId {
}

/// The model of a provider configuration.
pub struct ProviderConfigView {
    pub id: Seq<char>,
    pub display_name: Seq<char>,
    pub base_url: Seq<char>,
    pub credential_ref: Option<Seq<char>>,
    pub model_ids: Seq<Seq<char>>,
    pub stream: bool,
    pub context_budget: usize,
    pub proxy_url: Option<Seq<char>>,
    pub connect_timeout_seconds: u64,
    pub total_timeout_seconds: u64,
    pub event_timeout_seconds: u64,
    pub temperature_milli: Option<u16>,
    pub max_output_tokens: Option<u32>,
}

/// The text of an optional string.
pub open spec fn opt_view(s: Option<String>) -> Option<Seq<char>> {
    match s {
        Some(v) => Some(v@),
        None => None,
    }
}

/// The texts of a list of strings.
pub open spec fn strings_view(v: Seq<String>) -> Seq<Seq<char>> {
    v.map_values(|s: String| s@)
}

/// Copies an optional string.
pub fn copy_opt(s: &Option<String>) -> (r: Option<String>)
    ensures
        opt_view(r) == opt_view(*s),
{
    match s {
        Some(v) => Some(copy_string(v)),
        None => None,
    }
}

/// Copies a list of strings.
pub fn copy_strings(v: &Vec<String>) -> (r: Vec<String>)
    ensures
        strings_view(r@) == strings_view(v@),
{
    let mut r: Vec<String> = Vec::new();
    let mut i: usize = 0;
    while i < v.len()
        invariant
            i <= v.len(),
            r@.len() == i,
            forall|j: int| 0 <= j < i ==> (#[trigger] r@[j])@ == v@[j]@,
        decreases v.len() - i,
    {
        r.push(copy_string(&v[i]));
        i += 1;
    }
    assert(strings_view(r@) =~= strings_view(v@));
    r
}

/// An OpenAI-compatible provider: where it lives, which models it serves,
/// how it authenticates and its request limits.
#[derive(Debug)]
pub struct ProviderConfig {
    id: ProviderId,
    display_name: String,
    base_url: String,
    credential_ref: Option<String>,
    model_ids: Vec<String>,
    stream: bool,
    context_budget: usize,
    proxy_url: Option<String>,
    connect_timeout_seconds: u64,
    total_timeout_seconds: u64,
    event_timeout_seconds: u64,
    temperature_milli: Option<u16>,
    max_output_tokens: Option<u32>,
}

impl View for ProviderConfig {
    type V = ProviderConfigView;

    closed spec fn view(&self) -> ProviderConfigView {
        ProviderConfigView {
            id: self.id@,
            display_name: self.display_name@,
            base_url: self.base_url@,
            credential_ref: opt_view(self.credential_ref),
            model_ids: strings_view(self.model_ids@),
            stream: self.stream,
            context_budget: self.context_budget,
            proxy_url: opt_view(self.proxy_url),
            connect_timeout_seconds: self.connect_timeout_seconds,
            total_timeout_seconds: self.total_timeout_seconds,
            event_timeout_seconds: self.event_timeout_seconds,
            temperature_milli: self.temperature_milli,
            max_output_tokens: self.max_output_tokens,
        }
    }
}

impl Clone for ProviderConfig {
    fn clone(&self) -> (r: Self)
        ensures
            r@ == self@,
    {
        ProviderConfig {
            id: self.id.clone(),
            display_name: copy_string(&self.display_name),
            base_url: copy_string(&self.base_url),
            credential_ref: copy_opt(&self.credential_ref),
            model_ids: copy_strings(&self.model_ids),
            stream: self.stream,
            context_budget: self.context_budget,
            proxy_url: copy_opt(&self.proxy_url),
            connect_timeout_seconds: self.connect_timeout_seconds,
            total_timeout_seconds: self.total_timeout_seconds,
            event_timeout_seconds: self.event_timeout_seconds,
            temperature_milli: self.temperature_milli,
            max_output_tokens: self.max_output_tokens,
        }
    }
}

impl PartialEq for ProviderConfig {
    fn eq(&self, other: &Self) -> (r: bool) {
        self.id.same(&other.id) && self.display_name == other.display_name && self.base_url
            == other.base_url && same_opt(&self.credential_ref, &other.credential_ref)
            && same_strings(&self.model_ids, &other.model_ids) && self.stream == other.stream
            && self.context_budget == other.context_budget && same_opt(
            &self.proxy_url,
            &other.proxy_url,
        ) && self.connect_timeout_seconds == other.connect_timeout_seconds
            && self.total_timeout_seconds == other.total_timeout_seconds
            && self.event_timeout_seconds == other.event_timeout_seconds && self.temperature_milli
            == other.temperature_milli && self.max_output_tokens == other.max_output_tokens
    }
}

impl vstd::std_specs::cmp::PartialEqSpecImpl for ProviderConfig {
    open spec fn obeys_eq_spec() -> bool {
        true
    }

    open spec fn eq_spec(&self, other: &Self) -> bool {
        self@ == other@
    }
}

/// Whether two optional strings hold the same text.
pub fn same_opt(a: &Option<String>, b: &Option<String>) -> (r: bool)
    ensures
        r == (opt_view(*a) == opt_view(*b)),
{
    match (a, b) {
        (Some(x), Some(y)) => crate::text::str_eq(x.as_str(), y.as_str()),
        (None, None) => true,
        _ => false,
    }
}

/// Whether two lists of strings hold the same texts.
pub fn same_strings(a: &Vec<String>, b: &Vec<String>) -> (r: bool)
    ensures
        r == (strings_view(a@) == strings_view(b@)),
{
    if a.len() != b.len() {
        assert(strings_view(a@).len() != strings_view(b@).len());
        return false;
    }
    let mut i: usize = 0;
    while i < a.len()
        invariant
            a.len() == b.len(),
            i <= a.len(),
            forall|j: int| 0 <= j < i ==> (#[trigger] a@[j])@ == b@[j]@,
        decreases a.len() - i,
    {
        if a[i] != b[i] {
            assert(strings_view(a@)[i as int] != strings_view(b@)[i as int]);
            return false;
        }
        i += 1;
    }
    assert(strings_view(a@) =~= strings_view(b@));
    true
}

impl ProviderConfig {
    /// A provider with the default budget and timeouts, no proxy, and no
    /// temperature or output limit.
    pub fn new(
        id: ProviderId,
        display_name: &str,
        base_url: &str,
        credential_ref: Option<String>,
        model_ids: Vec<String>,
        stream: bool,
    ) -> (r: Self)
        ensures
            r@ == (ProviderConfigView {
                id: id@,
                display_name: display_name@,
                base_url: base_url@,
                credential_ref: opt_view(credential_ref),
                model_ids: strings_view(model_ids@),
                stream,
                context_budget: 8192,
                proxy_url: None,
                connect_timeout_seconds: 10,
                total_timeout_seconds: 180,
                event_timeout_seconds: 60,
                temperature_milli: None,
                max_output_tokens: None,
            }),
    {
        ProviderConfig {
            id,
            display_name: display_name.to_owned(),
            base_url: base_url.to_owned(),
            credential_ref,
            model_ids,
            stream,
            context_budget: default_context_budget(),
            proxy_url: None,
            connect_timeout_seconds: default_connect_timeout_seconds(),
            total_timeout_seconds: default_total_timeout_seconds(),
            event_timeout_seconds: default_event_timeout_seconds(),
            temperature_milli: None,
            max_output_tokens: None,
        }
    }

    /// The provider's ID.
    pub fn id(&self) -> (r: &ProviderId)
        ensures
            r@ == self@.id,
    {
        &self.id
    }

    /// The provider's display name.
    pub fn display_name(&self) -> (r: &str)
        ensures
            r@ == self@.display_name,
    {
        self.display_name.as_str()
    }

    /// The API base URL.
    pub fn base_url(&self) -> (r: &str)
        ensures
            r@ == self@.base_url,
    {
        self.base_url.as_str()
    }

    /// The reference of the stored credential, if the provider authenticates.
    pub fn credential_ref(&self) -> (r: Option<&str>)
        ensures
            match r {
                Some(s) => self@.credential_ref == Some(s@),
                None => self@.credential_ref is None,
            },
    {
        match &self.credential_ref {
            Some(s) => Some(s.as_str()),
            None => None,
        }
    }

    /// The models the provider serves.
    pub fn model_ids(&self) -> (r: &[String])
        ensures
            strings_view(r@) == self@.model_ids,
    {
        self.model_ids.as_slice()
    }

    /// Whether responses are streamed.
    pub fn stream(&self) -> (r: bool)
        ensures
            r == self@.stream,
    {
        self.stream
    }

    /// The context budget in estimated tokens.
    pub fn context_budget(&self) -> (r: usize)
        ensures
            r == self@.context_budget,
    {
        self.context_budget
    }

    /// The same provider with another context budget.
    pub fn with_context_budget(self, context_budget: usize) -> (r: Self)
        ensures
            r@ == (ProviderConfigView { context_budget, ..self@ }),
    {
        let mut s = self;
        s.context_budget = context_budget;
        s
    }

    /// The proxy URL, if requests go through one.
    pub fn proxy_url(&self) -> (r: Option<&str>)
        ensures
            match r {
                Some(s) => self@.proxy_url == Some(s@),
                None => self@.proxy_url is None,
            },
    {
        match &self.proxy_url {
            Some(s) => Some(s.as_str()),
            None => None,
        }
    }

    /// The connect timeout in seconds.
    pub fn connect_timeout_seconds(&self) -> (r: u64)
        ensures
            r == self@.connect_timeout_seconds,
    {
        self.connect_timeout_seconds
    }

    /// The total request timeout in seconds.
    pub fn total_timeout_seconds(&self) -> (r: u64)
        ensures
            r == self@.total_timeout_seconds,
    {
        self.total_timeout_seconds
    }

    /// The timeout between stream events in seconds.
    pub fn event_timeout_seconds(&self) -> (r: u64)
        ensures
            r == self@.event_timeout_seconds,
    {
        self.event_timeout_seconds
    }

    /// The sampling temperature in thousandths, if set.
    pub fn temperature_milli(&self) -> (r: Option<u16>)
        ensures
            r == self@.temperature_milli,
    {
        self.temperature_milli
    }

    /// The output token limit, if set.
    pub fn max_output_tokens(&self) -> (r: Option<u32>)
        ensures
            r == self@.max_output_tokens,
    {
        self.max_output_tokens
    }

    /// The same provider with the advanced options replaced.
    pub fn with_advanced_options(
        self,
        context_budget: usize,
        proxy_url: Option<String>,
        connect_timeout_seconds: u64,
        total_timeout_seconds: u64,
        event_timeout_seconds: u64,
        temperature_milli: Option<u16>,
        max_output_tokens: Option<u32>,
    ) -> (r: Self)
        ensures
            r@ == (ProviderConfigView {
                context_budget,
                proxy_url: opt_view(proxy_url),
                connect_timeout_seconds,
                total_timeout_seconds,
                event_timeout_seconds,
                temperature_milli,
                max_output_tokens,
                ..self@
            }),
    {
        let mut s = self;
        s.context_budget = context_budget;
        s.proxy_url = proxy_url;
        s.connect_timeout_seconds = connect_timeout_seconds;
        s.total_timeout_seconds = total_timeout_seconds;
        s.event_timeout_seconds = event_timeout_seconds;
        s.temperature_milli = temperature_milli;
        s.max_output_tokens = max_output_tokens;
        s
    }

    /// Whether `model` is one of the provider's models.
    pub fn serves_model(&self, model: &str) -> (r: bool)
        ensures
            r == self@.model_ids.contains(model@),
    {
        let mut i: usize = 0;
        while i < self.model_ids.len()
            invariant
                i <= self.model_ids.len(),
                forall|j: int| 0 <= j < i ==> strings_view(self.model_ids@)[j] != model@,
            decreases self.model_ids.len() - i,
        {
            if crate::text::str_eq(self.model_ids[i].as_str(), model) {
                assert(strings_view(self.model_ids@)[i as int] == model@);
                return true;
            }
            i += 1;
        }
        false
    }
}

/// The model of a model profile.
pub struct ModelProfileView {
    pub name: Seq<char>,
    pub provider_id: Seq<char>,
    pub model_id: Seq<char>,
}

/// A named choice of provider and model.
#[derive(Debug)]
pub struct ModelProfile {
    name: String,
    provider_id: ProviderId,
    model_id: String,
}

impl View for ModelProfile {
    type V = ModelProfileView;

    closed spec fn view(&self) -> ModelProfileView {
        ModelProfileView { name: self.name@, provider_id: self.provider_id@, model_id: self.model_id@ }
    }
}

impl Clone for ModelProfile {
    fn clone(&self) -> (r: Self)
        ensures
            r@ == self@,
    {
        ModelProfile {
            name: copy_string(&self.name),
            provider_id: self.provider_id.clone(),
            model_id: copy_string(&self.model_id),
        }
    }
}

impl PartialEq for ModelProfile {
    fn eq(&self, other: &Self) -> (r: bool) {
        self.name == other.name && self.provider_id.same(&other.provider_id) && self.model_id
            == other.model_id
    }
}

impl vstd::std_specs::cmp::PartialEqSpecImpl for ModelProfile {
    open spec fn obeys_eq_spec() -> bool {
        true
    }

    open spec fn eq_spec(&self, other: &Self) -> bool {
        self@ == other@
    }
}

impl ModelProfile {
    /// The profile `name` for `model_id` of `provider_id`.
    pub fn new(name: &str, provider_id: ProviderId, model_id: &str) -> (r: Self)
        ensures
            r@ == (ModelProfileView { name: name@, provider_id: provider_id@, model_id: model_id@ }),
    {
        ModelProfile { name: name.to_owned(), provider_id, model_id: model_id.to_owned() }
    }

    /// The profile's name.
    pub fn name(&self) -> (r: &str)
        ensures
            r@ == self@.name,
    {
        self.name.as_str()
    }

    /// The provider the profile uses.
    pub fn provider_id(&self) -> (r: &ProviderId)
        ensures
            r@ == self@.provider_id,
    {
        &self.provider_id
    }

    /// The model the profile uses.
    pub fn model_id(&self) -> (r: &str)
        ensures
            r@ == self@.model_id,
    {
        self.model_id.as_str()
    }
}

/// The provider form as the user filled it in.
#[derive(Clone, Debug)]
pub struct ProviderDraft {
    pub id: String,
    pub display_name: String,
    pub base_url: String,
    pub model_id: String,
    pub stream: bool,
    pub use_authentication: bool,
    pub api_key: Option<String>,
    pub context_budget: String,
    pub proxy_url: String,
    pub connect_timeout_seconds: String,
    pub total_timeout_seconds: String,
    pub event_timeout_seconds: String,
    pub temperature: String,
    pub max_output_tokens: String,
}

/// What the provider page shows.
#[derive(Clone, Debug)]
pub struct ProviderUiSnapshot {
    pub configured: bool,
    pub id: String,
    pub display_name: String,
    pub base_url: String,
    pub model_id: String,
    pub stream: bool,
    pub use_authentication: bool,
    pub has_saved_credential: bool,
    pub generation: u64,
    pub context_budget: usize,
    pub proxy_url: String,
    pub connect_timeout_seconds: u64,
    pub total_timeout_seconds: u64,
    pub event_timeout_seconds: u64,
    pub temperature_milli: Option<u16>,
    pub max_output_tokens: Option<u32>,
}

/// The outcome of a provider test request.
#[derive(Clone, Debug)]
pub struct ProviderTestResult {
    pub model_id: String,
    pub response_preview: String,
}

/// The model of a provider error.
pub enum ProviderErrorView {
    InvalidId(Seq<char>),
    InvalidConfiguration(Seq<char>),
    NotConfigured,
    Credential(Seq<char>),
    Http(Seq<char>),
    Protocol(Seq<char>),
    Timeout(Seq<char>),
    Cancelled,
    Save(Seq<char>),
}

/// Why a provider operation failed.
#[derive(Clone, Debug)]
pub enum ProviderError {
    InvalidId(String),
    InvalidConfiguration(String),
    NotConfigured,
    Credential(String),
    Http(String),
    Protocol(String),
    Timeout(String),
    Cancelled,
    Save(String),
}

impl View for ProviderError {
    type V = ProviderErrorView;

    open spec fn view(&self) -> ProviderErrorView {
        match self {
            ProviderError::InvalidId(s) => ProviderErrorView::InvalidId(s@),
            ProviderError::InvalidConfiguration(s) => ProviderErrorView::InvalidConfiguration(s@),
            ProviderError::NotConfigured => ProviderErrorView::NotConfigured,
            ProviderError::Credential(s) => ProviderErrorView::Credential(s@),
            ProviderError::Http(s) => ProviderErrorView::Http(s@),
            ProviderError::Protocol(s) => ProviderErrorView::Protocol(s@),
            ProviderError::Timeout(s) => ProviderErrorView::Timeout(s@),
            ProviderError::Cancelled => ProviderErrorView::Cancelled,
            ProviderError::Save(s) => ProviderErrorView::Save(s@),
        }
    }
}

/// Why a credential operation failed.
#[derive(Clone, Debug)]
pub enum CredentialError {
    Platform(String),
    NotFound(String),
    InvalidEncoding,
}

/// Where provider secrets are kept; the platform layer implements it.
pub trait CredentialStore {
    fn read(&self, reference: &str) -> Result<String, CredentialError>;

    fn write(&self, reference: &str, secret: &str) -> Result<(), CredentialError>;

    fn delete(&self, reference: &str) -> Result<(), CredentialError>;
}

/// The text of `v`, one character at a time; used to copy a borrowed text.
pub fn owned(v: &str) -> (r: String)
    ensures
        r@ == v@,
{
    let c = chars_of(v);
    crate::text::string_from_chars(&c)
}

} // verus!
