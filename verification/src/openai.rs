//! Settings of the OpenAI Responses API provider, and the wire shapes of its
//! requests and streamed events.

use vstd::prelude::*;

use crate::auth::{lookup, method_view, pair_views, AuthMethod, ApiKeyAuth, OAuthPkceAuth};
use crate::model_spec::{opt_text, texts, ModelSpec};
use crate::registry::{
    model_views, with_factory, with_registration, ModelSource, ProviderOptions, ProviderRegistration, Registry,
    RegistrationView, SourceView,
};
use crate::auth::AuthMethodView;

verus! {

/// Configuration for the OpenAI provider.
pub struct OpenAIConfig {
    pub auth_token: String,
    pub base_url: String,
    /// Whether to send the Responses API `store` field (`None` omits it).
    pub response_store: Option<bool>,
    /// Whether to request encrypted reasoning content in responses.
    pub include_reasoning_encrypted_content: bool,
    /// Additional headers to include in every request.
    pub extra_headers: Vec<(String, String)>,
    /// Whether to derive and send `chatgpt-account-id` from the auth token.
    pub include_chatgpt_account_id_header: bool,
}

impl Default for OpenAIConfig {
    fn default() -> (c: OpenAIConfig)
        ensures
            c.auth_token@.len() == 0,
            c.base_url@ == "https://api.openai.com/v1"@,
            c.response_store is None,
            !c.include_reasoning_encrypted_content,
            c.extra_headers@.len() == 0,
            !c.include_chatgpt_account_id_header,
    {
        OpenAIConfig {
            auth_token: String::new(),
            base_url: "https://api.openai.com/v1".to_owned(),
            response_store: None,
            include_reasoning_encrypted_content: false,
            extra_headers: Vec::new(),
            include_chatgpt_account_id_header: false,
        }
    }
}

/// How a registered provider deviates from the plain OpenAI API.
#[derive(Debug, Clone)]
pub struct OpenAIProviderBehavior {
    pub response_store: Option<bool>,
    pub include_reasoning_encrypted_content: bool,
    pub include_chatgpt_account_id_header: bool,
    pub extra_headers: Vec<(String, String)>,
}

impl Default for OpenAIProviderBehavior {
    fn default() -> (b: OpenAIProviderBehavior)
        ensures
            b.response_store is None,
            !b.include_reasoning_encrypted_content,
            !b.include_chatgpt_account_id_header,
            b.extra_headers@.len() == 0,
    {
        OpenAIProviderBehavior {
            response_store: None,
            include_reasoning_encrypted_content: false,
            include_chatgpt_account_id_header: false,
            extra_headers: Vec::new(),
        }
    }
}

/// The configuration of a registered provider: its token, its endpoint (the
/// OpenAI API unless one is given), and its behavior.
pub fn config_for(auth_token: String, api_endpoint: Option<String>, behavior: OpenAIProviderBehavior) -> (c: OpenAIConfig)
    ensures
        c.auth_token == auth_token,
        c.base_url@ == (match api_endpoint {
            Some(e) => e@,
            None => "https://api.openai.com/v1"@,
        }),
        c.response_store == behavior.response_store,
        c.include_reasoning_encrypted_content == behavior.include_reasoning_encrypted_content,
        c.extra_headers == behavior.extra_headers,
        c.include_chatgpt_account_id_header == behavior.include_chatgpt_account_id_header,
{
    OpenAIConfig {
        auth_token,
        base_url: match api_endpoint {
            Some(e) => e,
            None => "https://api.openai.com/v1".to_owned(),
        },
        response_store: behavior.response_store,
        include_reasoning_encrypted_content: behavior.include_reasoning_encrypted_content,
        extra_headers: behavior.extra_headers,
        include_chatgpt_account_id_header: behavior.include_chatgpt_account_id_header,
    }
}

/// The token a provider authenticates with: the access token, else the API
/// key, else none (empty).
pub open spec fn auth_token_of(values: Seq<(Seq<char>, Seq<char>)>) -> Seq<char> {
    match lookup(values, "access_token"@) {
        Some(t) => t,
        None => match lookup(values, "api_key"@) {
            Some(k) => k,
            None => Seq::empty(),
        },
    }
}

/// The configuration a provider is built with from its factory options:
/// the resolved token, the endpoint (the OpenAI API unless one is given),
/// and the behavior stored with the registration (the default where none
/// was).
pub fn factory_config(options: &ProviderOptions, behavior: OpenAIProviderBehavior) -> (c: OpenAIConfig)
    ensures
        c.auth_token@ == auth_token_of(pair_views(options.auth.values@)),
        c.base_url@ == (match options.api_endpoint {
            Some(e) => e@,
            None => "https://api.openai.com/v1"@,
        }),
        c.response_store == behavior.response_store,
        c.include_reasoning_encrypted_content == behavior.include_reasoning_encrypted_content,
        c.extra_headers == behavior.extra_headers,
        c.include_chatgpt_account_id_header == behavior.include_chatgpt_account_id_header,
{
    let token: String = match options.auth.get("access_token") {
        Some(t) => t.to_owned(),
        None => match options.auth.get("api_key") {
            Some(k) => k.to_owned(),
            None => String::new(),
        },
    };
    proof {
        reveal_strlit("access_token");
        reveal_strlit("api_key");
    }
    let endpoint = match &options.api_endpoint {
        Some(e) => Some(e.clone()),
        None => None,
    };
    config_for(token, endpoint, behavior)
}

/// The SDK packages this provider serves.
pub fn compatible_packages() -> (v: Vec<String>)
    ensures
        texts(v@) == seq!["@ai-sdk/openai"@],
{
    let v = vec!["@ai-sdk/openai".to_owned()];
    assert(texts(v@) =~= seq!["@ai-sdk/openai"@]);
    v
}

/// What registering the OpenAI API provider records.
pub open spec fn openai_registration(behavior_json: Seq<char>) -> RegistrationView {
    RegistrationView {
        id: "openai"@,
        name: "OpenAI"@,
        npm_packages: seq!["@ai-sdk/openai"@],
        api_endpoint: Some("https://api.openai.com/v1"@),
        factory_options: Some(behavior_json),
        auth_method: AuthMethodView::ApiKey(seq!["OPENAI_API_KEY"@]),
        source: SourceView::ModelsDev,
    }
}

/// Registers the OpenAI API provider: a factory for the `@ai-sdk/openai`
/// package, and a registration with an API key read from `OPENAI_API_KEY`,
/// the OpenAI endpoint, the catalogue's models and the given behavior
/// (`behavior_json`: the JSON text of the default behavior).
pub fn register(registry: &mut Registry, behavior_json: String)
    ensures
        final(registry)@ == with_registration(with_factory(old(registry)@, "@ai-sdk/openai"@), openai_registration(behavior_json@)),
{
    let packages = compatible_packages();
    registry.add_factory("@ai-sdk/openai".to_owned());
    let env = vec!["OPENAI_API_KEY".to_owned()];
    assert(texts(env@) =~= seq!["OPENAI_API_KEY"@]);
    let registration = ProviderRegistration {
        id: "openai".to_owned(),
        name: "OpenAI".to_owned(),
        npm_packages: packages,
        api_endpoint: Some("https://api.openai.com/v1".to_owned()),
        factory_options: Some(behavior_json),
        auth_method: AuthMethod::ApiKey(ApiKeyAuth { env }),
        model_source: ModelSource::ModelsDev,
    };
    registry.add_registration(registration);
}

/// What registering an OAuth provider records.
pub open spec fn oauth_registration(
    provider_id: Seq<char>,
    provider_name: Seq<char>,
    oauth: OAuthPkceAuth,
    models: Seq<ModelSpec>,
    api_endpoint: Option<String>,
    behavior_json: Seq<char>,
) -> RegistrationView {
    RegistrationView {
        id: provider_id,
        name: provider_name,
        npm_packages: seq!["@ai-sdk/openai"@],
        api_endpoint: opt_text(api_endpoint),
        factory_options: Some(behavior_json),
        auth_method: method_view(AuthMethod::OAuthPkce(oauth)),
        source: SourceView::Static(model_views(models)),
    }
}

/// Registers an OAuth provider served through the `@ai-sdk/openai` factory,
/// with static model metadata and the given behavior (`behavior_json`: its
/// JSON text).
pub fn register_oauth_provider_with_behavior(
    registry: &mut Registry,
    provider_id: String,
    provider_name: String,
    oauth: OAuthPkceAuth,
    models: Vec<ModelSpec>,
    api_endpoint: Option<String>,
    behavior_json: String,
)
    ensures
        final(registry)@ == with_registration(
            with_factory(old(registry)@, "@ai-sdk/openai"@),
            oauth_registration(provider_id@, provider_name@, oauth, models@, api_endpoint, behavior_json@),
        ),
{
    let packages = compatible_packages();
    registry.add_factory("@ai-sdk/openai".to_owned());
    let registration = ProviderRegistration {
        id: provider_id,
        name: provider_name,
        npm_packages: packages,
        api_endpoint,
        factory_options: Some(behavior_json),
        auth_method: AuthMethod::OAuthPkce(oauth),
        model_source: ModelSource::Static(models),
    };
    registry.add_registration(registration);
}

/// Registers an OAuth provider with the default behavior
/// (`behavior_json`: the JSON text of the default behavior).
pub fn register_oauth_provider(
    registry: &mut Registry,
    provider_id: String,
    provider_name: String,
    oauth: OAuthPkceAuth,
    models: Vec<ModelSpec>,
    api_endpoint: Option<String>,
    behavior_json: String,
)
    ensures
        final(registry)@ == with_registration(
            with_factory(old(registry)@, "@ai-sdk/openai"@),
            oauth_registration(provider_id@, provider_name@, oauth, models@, api_endpoint, behavior_json@),
        ),
{
    register_oauth_provider_with_behavior(registry, provider_id, provider_name, oauth, models, api_endpoint, behavior_json);
}

/// Reasoning effort level for reasoning models.
#[derive(Debug, Clone, Copy, PartialEq, Eq)]
pub enum ReasoningEffort {
    /// No reasoning (the API's `none`).
    Disabled,
    Minimal,
    Low,
    Medium,
    High,
}

impl ReasoningEffort {
    /// The value the API takes.
    pub fn as_str(self) -> (s: &'static str)
        ensures
            s@ == match self {
                ReasoningEffort::Disabled => "none"@,
                ReasoningEffort::Minimal => "minimal"@,
                ReasoningEffort::Low => "low"@,
                ReasoningEffort::Medium => "medium"@,
                ReasoningEffort::High => "high"@,
            },
    {
        match self {
            ReasoningEffort::Disabled => "none",
            ReasoningEffort::Minimal => "minimal",
            ReasoningEffort::Low => "low",
            ReasoningEffort::Medium => "medium",
            ReasoningEffort::High => "high",
        }
    }
}

/// Reasoning summary setting for reasoning models.
#[derive(Debug, Clone, Copy, PartialEq, Eq)]
pub enum ReasoningSummary {
    /// The most detailed summary available for the model.
    Auto,
    /// Concise summaries.
    Concise,
    /// Detailed summaries.
    Detailed,
}

impl ReasoningSummary {
    /// The value the API takes.
    pub fn as_str(self) -> (s: &'static str)
        ensures
            s@ == match self {
                ReasoningSummary::Auto => "auto"@,
                ReasoningSummary::Concise => "concise"@,
                ReasoningSummary::Detailed => "detailed"@,
            },
    {
        match self {
            ReasoningSummary::Auto => "auto",
            ReasoningSummary::Concise => "concise",
            ReasoningSummary::Detailed => "detailed",
        }
    }
}

/// OpenAI-specific options of a request: the request metadata keys and values
/// they set.
pub trait OpenAIRequestExt {
    /// Sets `reasoning_effort` to the effort's value.
    fn reasoning_effort(&mut self, effort: ReasoningEffort);

    /// Sets `reasoning_summary` to the summary's value.
    fn reasoning_summary(&mut self, summary: ReasoningSummary);
}

/// Who a message is from.
#[derive(Debug, Clone, Copy, PartialEq, Eq)]
pub enum Role {
    System,
    User,
    Assistant,
    Developer,
}

impl Role {
    /// The role's name on the wire.
    pub fn wire_name(self) -> (s: &'static str)
        ensures
            s@ == match self {
                Role::System => "system"@,
                Role::User => "user"@,
                Role::Assistant => "assistant"@,
                Role::Developer => "developer"@,
            },
    {
        match self {
            Role::System => "system",
            Role::User => "user",
            Role::Assistant => "assistant",
            Role::Developer => "developer",
        }
    }
}

} // verus!
