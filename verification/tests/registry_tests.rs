use agnt::auth::{ApiKeyAuth, AuthMethod, AuthRequest, ResolvedAuth};
use agnt::codex;
use agnt::model_spec::{ModelProviderOverride, ModelSpec, ProviderSpec};
use agnt::openai;
use agnt::registry::{
    options_signature, AuthResolver, ModelLoader, ModelSource, ProviderRegistration, ProviderRoute, Registry,
    RegistryError,
};

fn model(id: &str, npm: Option<&str>) -> ModelSpec {
    ModelSpec {
        id: id.to_string(),
        name: Some(format!("{id} name")),
        family: None,
        attachment: false,
        reasoning: false,
        tool_call: true,
        structured_output: false,
        temperature: true,
        knowledge: None,
        release_date: None,
        last_updated: None,
        modalities: None,
        open_weights: false,
        limit: None,
        provider: npm.map(|n| ModelProviderOverride { npm: Some(n.to_string()) }),
    }
}

fn provider(id: &str, name: &str, env: &[&str], npm: Option<&str>, models: Vec<ModelSpec>) -> (String, ProviderSpec) {
    (
        id.to_string(),
        ProviderSpec {
            id: id.to_string(),
            name: name.to_string(),
            env: env.iter().map(|s| s.to_string()).collect(),
            api: Some(format!("https://{id}.example/v1")),
            npm: npm.map(|s| s.to_string()),
            doc: None,
            models: models.into_iter().map(|m| (m.id.clone(), m)).collect(),
        },
    )
}

fn catalogue() -> Vec<(String, ProviderSpec)> {
    vec![
        provider("zeta", "Zeta", &["ZETA_KEY"], Some("@ai-sdk/openai"), vec![model("z1", None)]),
        provider("alpha", "Alpha", &["ALPHA_KEY"], Some("@ai-sdk/other"), vec![model("a1", None), model("a2", Some("@ai-sdk/openai"))]),
        provider("openai", "OpenAI (catalogue)", &["OPENAI_API_KEY"], Some("@ai-sdk/openai"), vec![model("gpt-4.1", None)]),
    ]
}

fn env(pairs: &[(&str, &str)]) -> Vec<(String, String)> {
    pairs.iter().map(|(k, v)| (k.to_string(), v.to_string())).collect()
}

#[test]
fn known_providers_are_sorted_and_unique() {
    let mut r = Registry::new();
    r.load_spec(catalogue());
    r.add_provider("direct".to_string());
    r.add_factory("@ai-sdk/openai".to_string());
    openai::register(&mut r, "{}".to_string());
    let known = r.known_providers(&env(&[("ZETA_KEY", "z")]));
    let ids: Vec<&str> = known.iter().map(|k| k.id.as_str()).collect();
    assert_eq!(ids, vec!["alpha", "direct", "openai", "zeta"]);
    let openai = &known[2];
    assert_eq!(openai.name, "OpenAI");
    assert_eq!(openai.auth_method, "api_key");
    assert!(!openai.configured);
    assert!(openai.compatible);
    let zeta = &known[3];
    assert!(zeta.configured);
    assert!(zeta.compatible);
    let alpha = &known[0];
    assert!(alpha.compatible, "a model of alpha overrides to a registered package");
    assert!(!alpha.configured);
    let direct = &known[1];
    assert_eq!(direct.name, "direct");
    assert!(direct.configured, "an API key method with no variables needs no key");
    assert!(direct.compatible);
}

#[test]
fn available_providers_need_credentials_and_a_factory() {
    let mut r = Registry::new();
    r.load_spec(catalogue());
    r.add_factory("@ai-sdk/openai".to_string());
    let avail = r.available_providers(&env(&[("ZETA_KEY", "z"), ("ALPHA_KEY", "a")]));
    let ids: Vec<&str> = avail.iter().map(|a| a.id.as_str()).collect();
    assert_eq!(ids, vec!["alpha", "zeta"]);
    assert_eq!(avail[1].name, "Zeta");
    assert!(r.has_provider("alpha"));
    assert!(r.has_provider("openai"));
    assert!(!r.has_provider("missing"));
}

#[test]
fn auth_request_prefers_registration() {
    let mut r = Registry::new();
    r.load_spec(catalogue());
    assert!(r.auth_request("nobody").is_none());
    let req = r.auth_request("zeta").unwrap();
    assert_eq!(req.provider_name, "Zeta");
    assert_eq!(req.env_candidates, vec!["ZETA_KEY".to_string()]);
    assert_eq!(req.auth_method.kind(), "api_key");
    codex::register(&mut r, "{}".to_string());
    let req = r.auth_request(codex::PROVIDER_ID).unwrap();
    assert_eq!(req.provider_name, "OpenAI Codex");
    assert_eq!(req.auth_method.kind(), "oauth_pkce");
    assert!(req.env_candidates.is_empty());
}

#[test]
fn list_models_filters_by_factory() {
    let mut r = Registry::new();
    r.load_spec(catalogue());
    assert!(r.list_models("alpha").is_empty());
    r.add_factory("@ai-sdk/openai".to_string());
    let ids: Vec<String> = r.list_models("alpha").into_iter().map(|m| m.id).collect();
    assert_eq!(ids, vec!["a2".to_string()]);
    r.add_provider("alpha".to_string());
    assert_eq!(r.list_models("alpha").len(), 2);
    assert_eq!(r.model_spec("alpha", "a1").unwrap().id, "a1");
    assert!(r.model_spec("alpha", "nope").is_none());
    assert!(r.provider_spec("alpha").is_some());
    assert_eq!(r.spec_providers(), vec!["zeta".to_string(), "alpha".to_string(), "openai".to_string()]);
}

#[test]
fn codex_registration_lists_static_models() {
    let mut r = Registry::new();
    codex::register(&mut r, "{\"response_store\":false}".to_string());
    let ids: Vec<String> = r.list_models(codex::PROVIDER_ID).into_iter().map(|m| m.id).collect();
    assert_eq!(ids.len(), 6);
    assert!(ids.contains(&codex::DEFAULT_MODEL_ID.to_string()));
    let m = r.model_spec(codex::PROVIDER_ID, "gpt-5.1-codex-max").unwrap();
    assert_eq!(m.name.as_deref(), Some("GPT-5.1 Codex Max"));
    assert_eq!(m.limit.unwrap().context, 272_000);
    let b = codex::codex_behavior();
    assert_eq!(b.response_store, Some(false));
    assert_eq!(b.extra_headers.len(), 2);
}

#[test]
fn model_routes_through_the_models_package() {
    let mut r = Registry::new();
    r.load_spec(catalogue());
    r.add_factory("@ai-sdk/openai".to_string());
    let plan = r.model("zeta", "z1", &env(&[("ZETA_KEY", "secret")])).unwrap();
    match &plan.route {
        ProviderRoute::Package(n) => assert_eq!(n, "@ai-sdk/openai"),
        ProviderRoute::Direct => panic!("expected a package route"),
    }
    assert_eq!(plan.options.id, "zeta");
    assert_eq!(plan.options.api_endpoint.as_deref(), Some("https://zeta.example/v1"));
    assert_eq!(plan.options.auth.get("api_key"), Some("secret"));
    assert!(plan.rebuild);
    assert_eq!(plan.signature, options_signature(&plan.options));
    assert_eq!(plan.signature, "zeta|https://zeta.example/v1|api_key|api_key=secret|");
    r.record_instance(&plan);
    let again = r.model("zeta", "z1", &env(&[("ZETA_KEY", "secret")])).unwrap();
    assert!(!again.rebuild);
    let changed = r.model("zeta", "z1", &env(&[("ZETA_KEY", "other")])).unwrap();
    assert!(changed.rebuild);
}

#[test]
fn model_errors() {
    let mut r = Registry::new();
    r.load_spec(catalogue());
    r.add_factory("@ai-sdk/openai".to_string());
    match r.model("zeta", "z1", &env(&[])) {
        Err(RegistryError::MissingCredentials { provider, method }) => {
            assert_eq!(provider, "zeta");
            assert_eq!(method, "api_key");
        }
        other => panic!("unexpected {other:?}"),
    }
    match r.model("nobody", "x", &env(&[])) {
        Err(RegistryError::ProviderNotFound(p)) => assert_eq!(p, "nobody"),
        other => panic!("unexpected {other:?}"),
    }
    codex::register(&mut r, "{}".to_string());
    match r.model(codex::PROVIDER_ID, "nope", &env(&[])) {
        Err(RegistryError::ModelNotFound { provider, model }) => {
            assert_eq!(provider, "openai-codex");
            assert_eq!(model, "nope");
        }
        other => panic!("unexpected {other:?}"),
    }
    match r.model(codex::PROVIDER_ID, codex::DEFAULT_MODEL_ID, &env(&[])) {
        Err(RegistryError::MissingCredentials { method, .. }) => assert_eq!(method, "oauth_pkce"),
        other => panic!("unexpected {other:?}"),
    }
    match r.model_from_string("no-colon", &env(&[])) {
        Err(RegistryError::ProviderNotFound(m)) => {
            assert_eq!(m, "invalid model specifier 'no-colon', expected 'provider:model'")
        }
        other => panic!("unexpected {other:?}"),
    }
}

#[test]
fn registered_model_without_factory_uses_direct_provider() {
    let mut r = Registry::new();
    let mut reg = ProviderRegistration::new("local".to_string(), "Local".to_string());
    reg.model_source = ModelSource::Static(vec![model("m", None)]);
    reg.api_endpoint = Some("http://localhost:1234".to_string());
    reg.set_factory_options("{\"x\":1}".to_string());
    r.add_registration(reg);
    match r.model("local", "m", &env(&[])) {
        Err(RegistryError::ProviderNotFound(m)) => assert_eq!(m, "local (no compatible provider factory)"),
        other => panic!("unexpected {other:?}"),
    }
    r.add_provider("local".to_string());
    let plan = r.model_from_string("local:m", &env(&[])).unwrap();
    assert!(matches!(plan.route, ProviderRoute::Direct));
    assert_eq!(plan.options.factory_options.as_deref(), Some("{\"x\":1}"));
    assert_eq!(plan.options.api_endpoint.as_deref(), Some("http://localhost:1234"));
    assert_eq!(plan.options.auth.method, "api_key");
    assert!(plan.options.auth.values.is_empty());
    r.record_instance(&plan);
    assert!(!r.model("local", "m", &env(&[])).unwrap().rebuild);
}

struct FixedResolver;

impl AuthResolver for FixedResolver {
    fn resolve(&self, request: &AuthRequest) -> Result<Option<ResolvedAuth>, RegistryError> {
        if request.provider_id == "openai-codex" {
            Ok(Some(ResolvedAuth::bearer("tok".to_string())))
        } else {
            Ok(None)
        }
    }
}

#[test]
fn resolver_supplies_credentials() {
    let mut r = Registry::new();
    codex::register(&mut r, "{}".to_string());
    r.set_auth_resolver(Box::new(FixedResolver));
    let plan = r.model(codex::PROVIDER_ID, codex::DEFAULT_MODEL_ID, &env(&[])).unwrap();
    assert_eq!(plan.options.auth.get("access_token"), Some("tok"));
    assert_eq!(plan.options.api_endpoint.as_deref(), Some("https://chatgpt.com/backend-api/codex"));
    let cfg = openai::factory_config(&plan.options, codex::codex_behavior());
    assert_eq!(cfg.auth_token, "tok");
    assert_eq!(cfg.base_url, "https://chatgpt.com/backend-api/codex");
    let known = r.known_providers(&env(&[]));
    assert!(known[0].configured);
}

struct Loader;

impl ModelLoader for Loader {
    fn load_models(&self, provider_id: &str) -> Result<Vec<ModelSpec>, RegistryError> {
        if provider_id == "dyn" {
            Ok(vec![model("d1", None)])
        } else {
            Err(RegistryError::Fetch("unavailable".to_string()))
        }
    }
}

#[test]
fn dynamic_models_come_from_the_loader() {
    let mut r = Registry::new();
    let mut reg = ProviderRegistration::new("dyn".to_string(), "Dynamic".to_string());
    reg.model_source = ModelSource::Dynamic(Box::new(Loader));
    reg.auth_method = AuthMethod::ApiKey(ApiKeyAuth { env: vec![] });
    r.add_registration(reg);
    r.add_provider("dyn".to_string());
    let ids: Vec<String> = r.list_models("dyn").into_iter().map(|m| m.id).collect();
    assert_eq!(ids, vec!["d1".to_string()]);
    let mut bad = ProviderRegistration::new("bad".to_string(), "Bad".to_string());
    bad.model_source = ModelSource::Dynamic(Box::new(Loader));
    r.add_registration(bad);
    assert!(r.list_models("bad").is_empty());
    assert!(r.model("bad", "x", &env(&[])).is_err());
}

#[test]
fn openai_factory_config_defaults() {
    let options = agnt::registry::ProviderOptions {
        id: "openai".to_string(),
        api_endpoint: None,
        factory_options: None,
        auth: ResolvedAuth::api_key("sk".to_string()),
    };
    let cfg = openai::factory_config(&options, openai::OpenAIProviderBehavior::default());
    assert_eq!(cfg.auth_token, "sk");
    assert_eq!(cfg.base_url, "https://api.openai.com/v1");
    assert_eq!(cfg.response_store, None);
}
