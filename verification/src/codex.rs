//! The OpenAI Codex provider: an OAuth sign-in, a fixed set of models, and
//! the request behavior its endpoint needs.

use vstd::prelude::*;

use crate::auth::{method_view, pair_views, AuthMethod, AuthMethodView, OAuthPkceAuth, OAuthView};
use crate::model_spec::{texts, Modalities, ModelLimit, ModelSpec, ModelSpecView};
use crate::openai::{register_oauth_provider_with_behavior, OpenAIProviderBehavior};
use crate::registry::{model_views, with_factory, with_registration, Registry, RegistrationView, SourceView};

verus! {

/// The provider's identifier.
pub const PROVIDER_ID: &'static str = "openai-codex";

/// The provider's display name.
pub const PROVIDER_NAME: &'static str = "OpenAI Codex";

/// The model used unless another is chosen.
pub const DEFAULT_MODEL_ID: &'static str = "gpt-5.2-codex";

/// A Codex model entry: attachments, reasoning, tool calls, structured
/// output and temperature supported; text and image in, text out; a context
/// of 272,000 tokens and 128,000 output tokens.
pub open spec fn codex_model_view(id: Seq<char>, name: Seq<char>) -> ModelSpecView {
    ModelSpecView {
        id,
        name: Some(name),
        family: None,
        attachment: true,
        reasoning: true,
        tool_call: true,
        structured_output: true,
        temperature: true,
        knowledge: None,
        release_date: None,
        last_updated: None,
        modalities: Some((seq!["text"@, "image"@], seq!["text"@])),
        open_weights: false,
        limit: Some(ModelLimit { context: 272_000, output: 128_000 }),
        provider: None,
    }
}

pub fn codex_model(id: &str, name: &str) -> (m: ModelSpec)
    ensures
        m@ == codex_model_view(id@, name@),
{
    let input = vec!["text".to_owned(), "image".to_owned()];
    let output = vec!["text".to_owned()];
    assert(texts(input@) =~= seq!["text"@, "image"@]);
    assert(texts(output@) =~= seq!["text"@]);
    ModelSpec {
        id: id.to_owned(),
        name: Some(name.to_owned()),
        family: None,
        attachment: true,
        reasoning: true,
        tool_call: true,
        structured_output: true,
        temperature: true,
        knowledge: None,
        release_date: None,
        last_updated: None,
        modalities: Some(Modalities { input, output }),
        open_weights: false,
        limit: Some(ModelLimit { context: 272_000, output: 128_000 }),
        provider: None,
    }
}

/// The Codex models, in order.
pub open spec fn codex_model_views() -> Seq<ModelSpecView> {
    seq![
        codex_model_view("gpt-5.1"@, "GPT-5.1"@),
        codex_model_view("gpt-5.1-codex-max"@, "GPT-5.1 Codex Max"@),
        codex_model_view("gpt-5.1-codex-mini"@, "GPT-5.1 Codex Mini"@),
        codex_model_view("gpt-5.2"@, "GPT-5.2"@),
        codex_model_view("gpt-5.2-codex"@, "GPT-5.2 Codex"@),
        codex_model_view("gpt-5.3-codex"@, "GPT-5.3 Codex"@),
    ]
}

pub fn codex_models() -> (v: Vec<ModelSpec>)
    ensures
        model_views(v@) == codex_model_views(),
{
    let v = vec![
        codex_model("gpt-5.1", "GPT-5.1"),
        codex_model("gpt-5.1-codex-max", "GPT-5.1 Codex Max"),
        codex_model("gpt-5.1-codex-mini", "GPT-5.1 Codex Mini"),
        codex_model("gpt-5.2", "GPT-5.2"),
        codex_model("gpt-5.2-codex", "GPT-5.2 Codex"),
        codex_model("gpt-5.3-codex", "GPT-5.3 Codex"),
    ];
    assert(model_views(v@) =~= codex_model_views());
    v
}

/// The request behavior the Codex endpoint needs: `store` sent as false,
/// encrypted reasoning requested, the account id header sent, and the
/// `OpenAI-Beta` and `originator` headers.
pub fn codex_behavior() -> (b: OpenAIProviderBehavior)
    ensures
        b.response_store == Some(false),
        b.include_reasoning_encrypted_content,
        b.include_chatgpt_account_id_header,
        pair_views(b.extra_headers@) == seq![("OpenAI-Beta"@, "responses=experimental"@), ("originator"@, "pi"@)],
{
    let headers = vec![
        ("OpenAI-Beta".to_owned(), "responses=experimental".to_owned()),
        ("originator".to_owned(), "pi".to_owned()),
    ];
    assert(pair_views(headers@) =~= seq![("OpenAI-Beta"@, "responses=experimental"@), ("originator"@, "pi"@)]);
    OpenAIProviderBehavior {
        response_store: Some(false),
        include_reasoning_encrypted_content: true,
        include_chatgpt_account_id_header: true,
        extra_headers: headers,
    }
}

/// The Codex OAuth sign-in.
pub open spec fn codex_oauth_view() -> OAuthView {
    OAuthView {
        client_id: "app_EMoamEEZ73f0CkXaXp7hrann"@,
        authorize_url: "https://auth.openai.com/oauth/authorize"@,
        token_url: "https://auth.openai.com/oauth/token"@,
        redirect_url: "http://localhost:1455/auth/callback"@,
        scopes: seq!["openid"@, "profile"@, "email"@, "offline_access"@],
        authorize_params: seq![
            ("id_token_add_organizations"@, "true"@),
            ("codex_cli_simplified_flow"@, "true"@),
            ("originator"@, "pi"@),
        ],
        token_params: Seq::empty(),
    }
}

fn codex_oauth() -> (o: OAuthPkceAuth)
    ensures
        method_view(AuthMethod::OAuthPkce(o)) == AuthMethodView::OAuthPkce(codex_oauth_view()),
{
    let scopes = vec!["openid".to_owned(), "profile".to_owned(), "email".to_owned(), "offline_access".to_owned()];
    let authorize_params = vec![
        ("id_token_add_organizations".to_owned(), "true".to_owned()),
        ("codex_cli_simplified_flow".to_owned(), "true".to_owned()),
        ("originator".to_owned(), "pi".to_owned()),
    ];
    let token_params: Vec<(String, String)> = Vec::new();
    assert(texts(scopes@) =~= seq!["openid"@, "profile"@, "email"@, "offline_access"@]);
    assert(pair_views(authorize_params@) =~= seq![
        ("id_token_add_organizations"@, "true"@),
        ("codex_cli_simplified_flow"@, "true"@),
        ("originator"@, "pi"@),
    ]);
    assert(pair_views(token_params@) =~= Seq::<(Seq<char>, Seq<char>)>::empty());
    OAuthPkceAuth {
        client_id: "app_EMoamEEZ73f0CkXaXp7hrann".to_owned(),
        authorize_url: "https://auth.openai.com/oauth/authorize".to_owned(),
        token_url: "https://auth.openai.com/oauth/token".to_owned(),
        redirect_url: "http://localhost:1455/auth/callback".to_owned(),
        scopes,
        authorize_params,
        token_params,
    }
}

/// What registering Codex records.
pub open spec fn codex_registration(behavior_json: Seq<char>) -> RegistrationView {
    RegistrationView {
        id: "openai-codex"@,
        name: "OpenAI Codex"@,
        npm_packages: seq!["@ai-sdk/openai"@],
        api_endpoint: Some("https://chatgpt.com/backend-api/codex"@),
        factory_options: Some(behavior_json),
        auth_method: AuthMethodView::OAuthPkce(codex_oauth_view()),
        source: SourceView::Static(codex_model_views()),
    }
}

/// Registers the Codex provider through the `@ai-sdk/openai` factory, with
/// its OAuth sign-in, its models, the ChatGPT Codex endpoint, and its
/// behavior (`behavior_json`: the JSON text of `codex_behavior()`).
pub fn register(registry: &mut Registry, behavior_json: String)
    ensures
        final(registry)@ == with_registration(with_factory(old(registry)@, "@ai-sdk/openai"@), codex_registration(behavior_json@)),
{
    proof {
        reveal_strlit("openai-codex");
        reveal_strlit("OpenAI Codex");
    }
    register_oauth_provider_with_behavior(
        registry,
        PROVIDER_ID.to_owned(),
        PROVIDER_NAME.to_owned(),
        codex_oauth(),
        codex_models(),
        Some("https://chatgpt.com/backend-api/codex".to_owned()),
        behavior_json,
    );
}

} // verus!
